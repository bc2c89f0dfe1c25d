//! Text codecs shared across the library: decimal numbers and JSON string
//! literals, each with an exact round-trip story.  The render cache and the
//! search payload are built from these primitives, so the round-trip lemmas
//! here carry the serialization guarantees of both.

use vstd::prelude::*;

verus! {

/// The character for a single decimal digit value.
pub open spec fn dec_digit(n: nat) -> char
    recommends
        n < 10,
{
    if n == 0 {
        '0'
    } else if n == 1 {
        '1'
    } else if n == 2 {
        '2'
    } else if n == 3 {
        '3'
    } else if n == 4 {
        '4'
    } else if n == 5 {
        '5'
    } else if n == 6 {
        '6'
    } else if n == 7 {
        '7'
    } else if n == 8 {
        '8'
    } else {
        '9'
    }
}

/// Numeric value of a decimal digit character.
pub open spec fn digit_val(c: char) -> nat {
    if c == '0' {
        0
    } else if c == '1' {
        1
    } else if c == '2' {
        2
    } else if c == '3' {
        3
    } else if c == '4' {
        4
    } else if c == '5' {
        5
    } else if c == '6' {
        6
    } else if c == '7' {
        7
    } else if c == '8' {
        8
    } else {
        9
    }
}

pub open spec fn is_dec_digit(c: char) -> bool {
    c == '0' || c == '1' || c == '2' || c == '3' || c == '4' || c == '5' || c == '6' || c == '7'
        || c == '8' || c == '9'
}

/// Canonical decimal representation of a natural number (no leading zeros,
/// except for the single digit of zero itself).
pub open spec fn dec_rep(n: nat) -> Seq<char>
    decreases n,
{
    if n < 10 {
        seq![dec_digit(n)]
    } else {
        dec_rep(n / 10) + seq![dec_digit(n % 10)]
    }
}

proof fn lemma_dec_digit_val(n: nat)
    requires
        n < 10,
    ensures
        digit_val(dec_digit(n)) == n,
        is_dec_digit(dec_digit(n)),
{
}

/// Appends the decimal representation of `n` to `out`.
pub fn append_u64(out: &mut String, n: u64)
    ensures
        final(out)@ == old(out)@ + dec_rep(n as nat),
{
    let mut digits: Vec<char> = Vec::new();
    let mut m: u64 = n;
    loop
        invariant_except_break
            dec_rep(n as nat) == dec_rep(m as nat) + digits@.reverse(),
        ensures
            dec_rep(n as nat) == digits@.reverse(),
        decreases m,
    {
        let ghost prev = digits@;
        let ghost m_old = m as nat;
        let d: u64 = m % 10;
        digits.push(digit_char(d));
        proof {
            assert(digits@.reverse() =~= seq![dec_digit(d as nat)] + prev.reverse());
        }
        if m < 10 {
            proof {
                assert(d == m);
                assert(dec_rep(m as nat) == seq![dec_digit(m as nat)]);
                assert(dec_rep(n as nat) =~= digits@.reverse());
            }
            break ;
        }
        m = m / 10;
        proof {
            assert(m_old == (m as nat) * 10 + (d as nat)) by (nonlinear_arith)
                requires
                    m == m_old / 10,
                    d == m_old % 10,
                    m_old >= 10,
            ;
            assert(dec_rep(m_old) == dec_rep(m as nat) + seq![dec_digit(d as nat)]);
            assert(dec_rep(n as nat) =~= dec_rep(m as nat) + digits@.reverse());
        }
    }
    let mut i: usize = digits.len();
    while i > 0
        invariant
            i <= digits.len(),
            out@ == old(out)@ + digits@.reverse().take(digits@.len() - i),
        decreases i,
    {
        let ghost before = out@;
        i = i - 1;
        push_char(out, digits[i]);
        proof {
            assert(digits@.reverse()[digits@.len() - i - 1] == digits@[i as int]);
            assert(digits@.reverse().take(digits@.len() - i) =~= digits@.reverse().take(
                digits@.len() - i - 1,
            ).push(digits@[i as int]));
        }
    }
    proof {
        assert(digits@.reverse().take(digits@.len() as int) =~= digits@.reverse());
    }
}

/// The decimal representation of `n` as a fresh string.
pub fn format_u64(n: u64) -> (r: String)
    ensures
        r@ == dec_rep(n as nat),
{
    let mut s = String::new();
    append_u64(&mut s, n);
    s
}

/// Decimal representation of a signed value: a minus sign for negatives,
/// then the magnitude.
pub open spec fn dec_rep_i64(v: int) -> Seq<char> {
    if v < 0 {
        seq!['-'] + dec_rep((-v) as nat)
    } else {
        dec_rep(v as nat)
    }
}

/// Appends the decimal representation of a signed value.
pub fn append_i64(out: &mut String, v: i64)
    ensures
        final(out)@ == old(out)@ + dec_rep_i64(v as int),
{
    if v < 0 {
        push_char(out, '-');
        let m: u64 = ((-(v + 1)) as u64) + 1;
        assert(m as nat == (-(v as int)) as nat);
        append_u64(out, m);
        assert(final(out)@ =~= old(out)@ + dec_rep_i64(v as int));
    } else {
        append_u64(out, v as u64);
    }
}

/// Exec counterpart of `dec_digit`.
pub fn digit_char(d: u64) -> (c: char)
    requires
        d < 10,
    ensures
        c == dec_digit(d as nat),
{
    match d {
        0 => '0',
        1 => '1',
        2 => '2',
        3 => '3',
        4 => '4',
        5 => '5',
        6 => '6',
        7 => '7',
        8 => '8',
        _ => '9',
    }
}

/// Appends one character to a string.
/// Relies on `String::push`: appends the given char to the end.
#[verifier::external_body]
pub fn push_char(out: &mut String, c: char)
    ensures
        final(out)@ == old(out)@.push(c),
{
    out.push(c);
}

/// Character-wise string equality.
pub fn str_eq(a: &str, b: &str) -> (r: bool)
    ensures
        r == (a@ == b@),
{
    let n = a.unicode_len();
    if n != b.unicode_len() {
        return false;
    }
    let mut i: usize = 0;
    while i < n
        invariant
            n == a@.len() == b@.len(),
            i <= n,
            forall|j: int| 0 <= j < i ==> a@[j] == b@[j],
        decreases n - i,
    {
        if a.get_char(i) != b.get_char(i) {
            return false;
        }
        i = i + 1;
    }
    proof {
        assert(a@ =~= b@);
    }
    true
}

/// Whether `s` ends with `suffix`.
pub open spec fn ends_with(s: Seq<char>, suffix: Seq<char>) -> bool {
    s.len() >= suffix.len() && s.subrange(s.len() - suffix.len(), s.len() as int) == suffix
}

pub fn str_ends_with(s: &str, suffix: &str) -> (r: bool)
    ensures
        r == ends_with(s@, suffix@),
{
    let n = s.unicode_len();
    let m = suffix.unicode_len();
    if m > n {
        return false;
    }
    let tail = s.substring_char(n - m, n);
    str_eq(tail, suffix)
}

// ---- joining and splitting on a separator ----
/// Concatenation of `parts` with `sep` between neighbours.
pub open spec fn join(parts: Seq<Seq<char>>, sep: Seq<char>) -> Seq<char>
    decreases parts.len(),
{
    if parts.len() == 0 {
        Seq::empty()
    } else if parts.len() == 1 {
        parts[0]
    } else {
        parts[0] + sep + join(parts.drop_first(), sep)
    }
}

proof fn lemma_join_snoc(parts: Seq<Seq<char>>, sep: Seq<char>, last: Seq<char>)
    requires
        parts.len() >= 1,
    ensures
        join(parts.push(last), sep) == join(parts, sep) + sep + last,
    decreases parts.len(),
{
    if parts.len() == 1 {
        assert(parts.push(last).drop_first() =~= seq![last]);
        assert(join(seq![last], sep) == last);
        assert(join(parts.push(last), sep) =~= parts[0] + sep + last);
        assert(join(parts, sep) + sep + last =~= parts[0] + sep + last);
    } else {
        lemma_join_snoc(parts.drop_first(), sep, last);
        assert(parts.push(last).drop_first() =~= parts.drop_first().push(last));
        assert(join(parts, sep) + sep + last =~= parts[0] + sep + (join(parts.drop_first(), sep)
            + sep + last));
    }
}

/// Appends `join(parts, sep)` to `out`.
pub fn append_join(out: &mut String, parts: &Vec<String>, sep: &str)
    ensures
        final(out)@ == old(out)@ + join(parts.deep_view(), sep@),
{
    let ghost dv = parts.deep_view();
    let mut i: usize = 0;
    while i < parts.len()
        invariant
            dv == parts.deep_view(),
            dv.len() == parts@.len(),
            forall|j: int| 0 <= j < dv.len() ==> dv[j] == parts@[j]@,
            i <= parts.len(),
            out@ == old(out)@ + join(dv.take(i as int), sep@),
        decreases parts.len() - i,
    {
        if i > 0 {
            out.append(sep);
        }
        out.append(parts[i].as_str());
        proof {
            if i == 0 {
                assert(dv.take(1) =~= seq![dv[0]]);
            } else {
                assert(dv.take(i as int).len() >= 1);
                lemma_join_snoc(dv.take(i as int), sep@, dv[i as int]);
                assert(dv.take(i + 1) =~= dv.take(i as int).push(dv[i as int]));
            }
        }
        i = i + 1;
    }
    proof {
        assert(dv.take(parts@.len() as int) =~= dv);
    }
}

pub fn join_strings(parts: &Vec<String>, sep: &str) -> (r: String)
    ensures
        r@ == join(parts.deep_view(), sep@),
{
    let mut s = String::new();
    append_join(&mut s, parts, sep);
    s
}

/// Splitting on a separator character, with an accumulator for the part
/// being read.  `split(s, sep)` always yields at least one part; separators
/// at the edges yield empty parts, as `str::split` does.
pub open spec fn split_acc(s: Seq<char>, sep: char, cur: Seq<char>) -> Seq<Seq<char>>
    decreases s.len(),
{
    if s.len() == 0 {
        seq![cur]
    } else if s[0] == sep {
        seq![cur] + split_acc(s.drop_first(), sep, Seq::empty())
    } else {
        split_acc(s.drop_first(), sep, cur.push(s[0]))
    }
}

pub open spec fn split(s: Seq<char>, sep: char) -> Seq<Seq<char>> {
    split_acc(s, sep, Seq::empty())
}

/// A split always yields at least one part.
pub proof fn lemma_split_len(s: Seq<char>, sep: char, cur: Seq<char>)
    ensures
        split_acc(s, sep, cur).len() >= 1,
    decreases s.len(),
{
    if s.len() > 0 {
        if s[0] == sep {
            lemma_split_len(s.drop_first(), sep, Seq::empty());
        } else {
            lemma_split_len(s.drop_first(), sep, cur.push(s[0]));
        }
    }
}

/// Splits a string on a separator character.
pub fn split_string(s: &str, sep: char) -> (r: Vec<String>)
    ensures
        r.deep_view() == split(s@, sep),
{
    let n = s.unicode_len();
    let mut parts: Vec<String> = Vec::new();
    let mut cur = String::new();
    let mut i: usize = 0;
    proof {
        assert(s@.skip(0) =~= s@);
        assert(parts.deep_view() =~= Seq::<Seq<char>>::empty());
        assert(parts.deep_view() + split_acc(s@, sep, Seq::empty()) =~= split(s@, sep));
    }
    while i < n
        invariant
            n == s@.len(),
            i <= n,
            split(s@, sep) == parts.deep_view() + split_acc(s@.skip(i as int), sep, cur@),
        decreases n - i,
    {
        let ghost old_parts = parts.deep_view();
        let ghost old_cur = cur@;
        let c = s.get_char(i);
        proof {
            assert(s@.skip(i as int)[0] == s@[i as int]);
            assert(s@.skip(i as int).drop_first() =~= s@.skip(i + 1));
        }
        if c == sep {
            parts.push(cur);
            cur = String::new();
            proof {
                assert(parts.deep_view() =~= old_parts.push(old_cur));
                assert(old_parts + (seq![old_cur] + split_acc(s@.skip(i + 1), sep, Seq::empty()))
                    =~= old_parts.push(old_cur) + split_acc(s@.skip(i + 1), sep, Seq::empty()));
            }
        } else {
            push_char(&mut cur, c);
        }
        i = i + 1;
    }
    proof {
        assert(s@.skip(n as int) =~= Seq::<char>::empty());
    }
    parts.push(cur);
    proof {
        assert(parts.deep_view() =~= split(s@, sep));
    }
    parts
}

// ---- JSON string literals ----
/// Hexadecimal digit characters (lower case).
pub open spec fn hex_digit(n: nat) -> char
    recommends
        n < 16,
{
    if n < 10 {
        dec_digit(n)
    } else if n == 10 {
        'a'
    } else if n == 11 {
        'b'
    } else if n == 12 {
        'c'
    } else if n == 13 {
        'd'
    } else if n == 14 {
        'e'
    } else {
        'f'
    }
}

pub open spec fn is_hex_digit(c: char) -> bool {
    is_dec_digit(c) || c == 'a' || c == 'b' || c == 'c' || c == 'd' || c == 'e' || c == 'f'
}

pub open spec fn hex_val(c: char) -> nat {
    if c == 'a' {
        10
    } else if c == 'b' {
        11
    } else if c == 'c' {
        12
    } else if c == 'd' {
        13
    } else if c == 'e' {
        14
    } else if c == 'f' {
        15
    } else {
        digit_val(c)
    }
}

proof fn lemma_hex_digit_val(n: nat)
    requires
        n < 16,
    ensures
        hex_val(hex_digit(n)) == n,
        is_hex_digit(hex_digit(n)),
{
    if n < 10 {
        lemma_dec_digit_val(n);
    }
}

/// The JSON escape of one character: quote and backslash get a backslash,
/// control characters become `\u00XX`, everything else stands as itself.
pub open spec fn esc_char(c: char) -> Seq<char> {
    if c == '"' {
        seq!['\\', '"']
    } else if c == '\\' {
        seq!['\\', '\\']
    } else if (c as nat) < 32 {
        seq!['\\', 'u', '0', '0', hex_digit((c as nat) / 16), hex_digit((c as nat) % 16)]
    } else {
        seq![c]
    }
}

pub open spec fn esc(s: Seq<char>) -> Seq<char>
    decreases s.len(),
{
    if s.len() == 0 {
        Seq::empty()
    } else {
        esc_char(s[0]) + esc(s.drop_first())
    }
}

/// A JSON string literal: quotes around the escaped contents.
pub open spec fn quoted(s: Seq<char>) -> Seq<char> {
    seq!['"'] + esc(s) + seq!['"']
}

pub proof fn lemma_esc_snoc(s: Seq<char>, c: char)
    ensures
        esc(s.push(c)) == esc(s) + esc_char(c),
    decreases s.len(),
{
    if s.len() == 0 {
        assert(s.push(c).drop_first() =~= Seq::<char>::empty());
        assert(esc(Seq::<char>::empty()) =~= Seq::<char>::empty());
        assert(s.push(c)[0] == c);
        assert(esc(s.push(c)) =~= esc_char(c) + esc(Seq::<char>::empty()));
        assert(esc(s.push(c)) =~= esc_char(c));
        assert(esc(s) + esc_char(c) =~= esc_char(c));
    } else {
        lemma_esc_snoc(s.drop_first(), c);
        assert(s.push(c).drop_first() =~= s.drop_first().push(c));
        assert(esc(s) + esc_char(c) =~= esc_char(s[0]) + (esc(s.drop_first()) + esc_char(c)));
    }
}

pub fn hex_char(d: u8) -> (c: char)
    requires
        d < 16,
    ensures
        c == hex_digit(d as nat),
{
    if d < 10 {
        digit_char(d as u64)
    } else {
        match d {
            10 => 'a',
            11 => 'b',
            12 => 'c',
            13 => 'd',
            14 => 'e',
            _ => 'f',
        }
    }
}

/// Appends the JSON string literal for `s` to `out`.
pub fn append_quoted(out: &mut String, s: &str)
    ensures
        final(out)@ == old(out)@ + quoted(s@),
{
    push_char(out, '"');
    let n = s.unicode_len();
    let mut i: usize = 0;
    while i < n
        invariant
            n == s@.len(),
            i <= n,
            out@ == old(out)@ + seq!['"'] + esc(s@.take(i as int)),
        decreases n - i,
    {
        let c = s.get_char(i);
        let ghost before = out@;
        if c == '"' {
            push_char(out, '\\');
            push_char(out, '"');
            proof {
                assert(out@ =~= before + esc_char(c));
            }
        } else if c == '\\' {
            push_char(out, '\\');
            push_char(out, '\\');
            proof {
                assert(out@ =~= before + esc_char(c));
            }
        } else if (c as u32) < 32 {
            let code: u32 = c as u32;
            push_char(out, '\\');
            push_char(out, 'u');
            push_char(out, '0');
            push_char(out, '0');
            push_char(out, hex_char((code / 16) as u8));
            push_char(out, hex_char((code % 16) as u8));
            proof {
                assert(out@ =~= before + esc_char(c));
            }
        } else {
            push_char(out, c);
            proof {
                assert(out@ =~= before + esc_char(c));
            }
        }
        proof {
            lemma_esc_snoc(s@.take(i as int), c);
            assert(s@.take(i + 1) =~= s@.take(i as int).push(s@[i as int]));
            assert(out@ =~= old(out)@ + seq!['"'] + esc(s@.take(i + 1)));
        }
        i = i + 1;
    }
    push_char(out, '"');
    proof {
        assert(s@.take(n as int) =~= s@);
        assert(out@ =~= old(out)@ + quoted(s@));
    }
}

/// The spec-level parser for a JSON string body (everything after the
/// opening quote): the decoded value and the count of characters consumed,
/// the closing quote included.
pub open spec fn unesc(s: Seq<char>) -> Option<(Seq<char>, nat)>
    decreases s.len(),
{
    if s.len() == 0 {
        None
    } else if s[0] == '"' {
        Some((Seq::empty(), 1))
    } else if s[0] == '\\' {
        if s.len() >= 2 && (s[1] == '"' || s[1] == '\\') {
            match unesc(s.skip(2)) {
                Some((v, n)) => Some((seq![s[1]] + v, n + 2)),
                None => None,
            }
        } else if s.len() >= 6 && s[1] == 'u' && s[2] == '0' && s[3] == '0' && is_hex_digit(s[4])
            && is_hex_digit(s[5]) {
            match unesc(s.skip(6)) {
                Some((v, n)) => Some(
                    (seq![((hex_val(s[4]) * 16 + hex_val(s[5])) as char)] + v, n + 6),
                ),
                None => None,
            }
        } else {
            None
        }
    } else {
        match unesc(s.skip(1)) {
            Some((v, n)) => Some((seq![s[0]] + v, n + 1)),
            None => None,
        }
    }
}

/// Decoding an escaped string body recovers the original characters and
/// consumes exactly the escaped text plus the closing quote.
pub proof fn lemma_unesc_roundtrip(v: Seq<char>, rest: Seq<char>)
    ensures
        unesc(esc(v) + seq!['"'] + rest) == Some((v, (esc(v).len() + 1) as nat)),
    decreases v.len(),
{
    let s = esc(v) + seq!['"'] + rest;
    if v.len() == 0 {
        assert(s[0] == '"');
    } else {
        let c = v[0];
        let tail = v.drop_first();
        lemma_unesc_roundtrip(tail, rest);
        assert(esc(v) == esc_char(c) + esc(tail));
        let srest = esc(tail) + seq!['"'] + rest;
        if c == '"' {
            assert(s[0] == '\\' && s[1] == '"');
            assert(s.skip(2) =~= srest);
            assert(seq![c] + tail =~= v);
        } else if c == '\\' {
            assert(s[0] == '\\' && s[1] == '\\');
            assert(s.skip(2) =~= srest);
            assert(seq![c] + tail =~= v);
        } else if (c as nat) < 32 {
            let code = c as nat;
            lemma_hex_digit_val(code / 16);
            lemma_hex_digit_val(code % 16);
            assert(s[0] == '\\' && s[1] == 'u' && s[2] == '0' && s[3] == '0');
            assert(s[4] == hex_digit(code / 16) && s[5] == hex_digit(code % 16));
            assert(s.skip(6) =~= srest);
            assert(hex_val(s[4]) * 16 + hex_val(s[5]) == code) by {
                assert(code / 16 * 16 + code % 16 == code) by (nonlinear_arith);
            }
            lemma_low_char_cast(c);
            assert(seq![c] + tail =~= v);
        } else {
            assert(s[0] == c);
            assert(s[0] != '"' && s[0] != '\\');
            assert(s.skip(1) =~= srest);
            assert(seq![c] + tail =~= v);
        }
    }
}

/// Exec parser for a JSON string literal starting at index `start`
/// (which must hold the opening quote).  Mirrors `unesc` exactly.
pub fn parse_quoted(s: &str, start: usize) -> (r: Option<(String, usize)>)
    ensures
        match r {
            Some(p) => start < s@.len() && s@[start as int] == '"' && unesc(s@.skip(start + 1))
                == Some((p.0@, (p.1 - start - 1) as nat)) && start < p.1 <= s@.len(),
            None => start >= s@.len() || s@[start as int] != '"' || unesc(s@.skip(start + 1))
                is None,
        },
{
    let n = s.unicode_len();
    if start >= n {
        return None;
    }
    if s.get_char(start) != '"' {
        return None;
    }
    let mut out = String::new();
    let mut i: usize = start + 1;
    loop
        invariant_except_break
            n == s@.len(),
            start + 1 <= i <= n,
            match unesc(s@.skip(start + 1)) {
                Some(p) => unesc(s@.skip(i as int)) matches Some(q) && p.0 == out@ + q.0 && p.1 == (
                i - start - 1) + q.1,
                None => unesc(s@.skip(i as int)) is None,
            },
        ensures
            match unesc(s@.skip(start + 1)) {
                Some(p) => out@ == p.0 && i == start + 1 + p.1 && i <= n,
                None => false,
            },
        decreases n - i,
    {
        proof {
            if i < n {
                assert(s@.skip(i as int)[0] == s@[i as int]);
            }
        }
        if i >= n {
            proof {
                assert(s@.skip(i as int) =~= Seq::<char>::empty());
            }
            return None;
        }
        let c = s.get_char(i);
        if c == '"' {
            i = i + 1;
            break ;
        } else if c == '\\' {
            if i + 1 >= n {
                proof {
                    assert(s@.skip(i as int).len() < 2);
                    assert(unesc(s@.skip(i as int)) is None);
                }
                return None;
            }
            let e = s.get_char(i + 1);
            proof {
                assert(s@.skip(i as int)[1] == s@[i + 1]);
            }
            if e == '"' || e == '\\' {
                push_char(&mut out, e);
                proof {
                    assert(s@.skip(i as int).skip(2) =~= s@.skip(i + 2));
                    if unesc(s@.skip(start + 1)) is Some {
                        let q = unesc(s@.skip(i as int)).unwrap();
                        let q2 = unesc(s@.skip(i + 2)).unwrap();
                        assert(q.0 == seq![e] + q2.0);
                        assert(out@ + q2.0 =~= out@.drop_last() + q.0);
                    }
                }
                i = i + 2;
            } else if e == 'u' && n - i > 5 {
                proof {
                    assert(s@.skip(i as int)[2] == s@[i + 2]);
                    assert(s@.skip(i as int)[3] == s@[i + 3]);
                    assert(s@.skip(i as int)[4] == s@[i + 4]);
                    assert(s@.skip(i as int)[5] == s@[i + 5]);
                }
                let d0 = s.get_char(i + 2);
                let d1 = s.get_char(i + 3);
                let h0 = s.get_char(i + 4);
                let h1 = s.get_char(i + 5);
                if d0 == '0' && d1 == '0' {
                    match (hex_value(h0), hex_value(h1)) {
                        (Some(v0), Some(v1)) => {
                            let code: u32 = (v0 as u32) * 16 + (v1 as u32);
                            let decoded = char_from_code(code);
                            push_char(&mut out, decoded);
                            proof {
                                assert(s@.skip(i as int).skip(6) =~= s@.skip(i + 6));
                                if unesc(s@.skip(start + 1)) is Some {
                                    let q = unesc(s@.skip(i as int)).unwrap();
                                    let q2 = unesc(s@.skip(i + 6)).unwrap();
                                    assert(q.0 == seq![decoded] + q2.0);
                                    assert(out@ + q2.0 =~= out@.drop_last() + q.0);
                                }
                            }
                            i = i + 6;
                        },
                        _ => {
                            proof {
                                assert(!(is_hex_digit(s@[i + 4]) && is_hex_digit(s@[i + 5])));
                                assert(unesc(s@.skip(i as int)) is None);
                            }
                            return None;
                        },
                    }
                } else {
                    proof {
                        assert(unesc(s@.skip(i as int)) is None);
                    }
                    return None;
                }
            } else {
                proof {
                    assert(unesc(s@.skip(i as int)) is None);
                }
                return None;
            }
        } else {
            push_char(&mut out, c);
            proof {
                assert(s@.skip(i as int).skip(1) =~= s@.skip(i + 1));
                if unesc(s@.skip(start + 1)) is Some {
                    let q = unesc(s@.skip(i as int)).unwrap();
                    let q2 = unesc(s@.skip(i + 1)).unwrap();
                    assert(q.0 == seq![c] + q2.0);
                    assert(out@ + q2.0 =~= out@.drop_last() + q.0);
                }
            }
            i = i + 1;
        }
    }
    Some((out, i))
}

/// The contents of a JSON array of string literals, without the brackets.
pub open spec fn arr_body(parts: Seq<Seq<char>>) -> Seq<char>
    decreases parts.len(),
{
    if parts.len() == 0 {
        Seq::empty()
    } else if parts.len() == 1 {
        quoted(parts[0])
    } else {
        arr_body(parts.drop_last()) + seq![','] + quoted(parts.last())
    }
}

/// A JSON array of string literals.
pub open spec fn str_array(parts: Seq<Seq<char>>) -> Seq<char> {
    seq!['['] + arr_body(parts) + seq![']']
}

/// Appends the JSON array of the given strings to `out`.
pub fn append_str_array(out: &mut String, parts: &Vec<String>)
    ensures
        final(out)@ == old(out)@ + str_array(parts.deep_view()),
{
    let ghost dv = parts.deep_view();
    push_char(out, '[');
    let mut i: usize = 0;
    while i < parts.len()
        invariant
            dv == parts.deep_view(),
            dv.len() == parts@.len(),
            i <= parts@.len(),
            out@ == old(out)@ + seq!['['] + arr_body(dv.take(i as int)),
        decreases parts@.len() - i,
    {
        if i > 0 {
            push_char(out, ',');
        }
        append_quoted(out, parts[i].as_str());
        proof {
            assert(dv.take(i + 1).drop_last() =~= dv.take(i as int));
            assert(dv.take(i + 1).last() == dv[i as int]);
            assert(dv[i as int] == parts@[i as int]@);
            if i == 0 {
                assert(arr_body(dv.take(1)) == quoted(dv[0]));
                assert(out@ =~= old(out)@ + seq!['['] + arr_body(dv.take(1)));
            } else {
                assert(arr_body(dv.take(i + 1)) == arr_body(dv.take(i as int)) + seq![',']
                    + quoted(dv[i as int]));
                assert(out@ =~= old(out)@ + seq!['['] + arr_body(dv.take(i + 1)));
            }
        }
        i = i + 1;
    }
    push_char(out, ']');
    proof {
        assert(dv.take(parts@.len() as int) =~= dv);
        assert(out@ =~= old(out)@ + str_array(dv));
    }
}

/// Decoding consumes at least the closing quote and no more than the
/// whole input.
pub proof fn lemma_unesc_bounds(s: Seq<char>)
    ensures
        unesc(s) matches Some(p) ==> 1 <= p.1 <= s.len(),
    decreases s.len(),
{
    if s.len() > 0 && s[0] != '"' {
        if s[0] == '\\' {
            if s.len() >= 2 && (s[1] == '"' || s[1] == '\\') {
                lemma_unesc_bounds(s.skip(2));
            } else if s.len() >= 6 && s[1] == 'u' && s[2] == '0' && s[3] == '0' && is_hex_digit(
                s[4],
            ) && is_hex_digit(s[5]) {
                lemma_unesc_bounds(s.skip(6));
            }
        } else {
            lemma_unesc_bounds(s.skip(1));
        }
    }
}

/// A JSON string literal read at position `i`: its decoded value and the
/// position just past the closing quote.
pub open spec fn parse_string_at(s: Seq<char>, i: int) -> Option<(Seq<char>, int)> {
    if 0 <= i < s.len() && s[i] == '"' {
        match unesc(s.skip(i + 1)) {
            Some(p) => Some((p.0, i + 1 + p.1)),
            None => None,
        }
    } else {
        None
    }
}

/// Reading a string literal back from where it was written yields the
/// original value and stops right after it.
pub proof fn lemma_parse_string_at(prefix: Seq<char>, v: Seq<char>, rest: Seq<char>)
    ensures
        parse_string_at(prefix + quoted(v) + rest, prefix.len() as int) == Some(
            (v, (prefix.len() + quoted(v).len()) as int),
        ),
{
    let s = prefix + quoted(v) + rest;
    let i = prefix.len() as int;
    assert(s[i] == '"');
    assert(s.skip(i + 1) =~= esc(v) + seq!['"'] + rest);
    lemma_unesc_roundtrip(v, rest);
}

/// `,"a","b",...` — the items of an array after the first, each with its
/// leading comma.
pub open spec fn tail_rep(parts: Seq<Seq<char>>) -> Seq<char>
    decreases parts.len(),
{
    if parts.len() == 0 {
        Seq::empty()
    } else {
        seq![','] + quoted(parts[0]) + tail_rep(parts.drop_first())
    }
}

proof fn lemma_tail_rep_snoc(parts: Seq<Seq<char>>, v: Seq<char>)
    ensures
        tail_rep(parts.push(v)) == tail_rep(parts) + seq![','] + quoted(v),
    decreases parts.len(),
{
    if parts.len() == 0 {
        assert(parts.push(v).drop_first() =~= Seq::<Seq<char>>::empty());
        assert(parts.push(v)[0] == v);
        assert(tail_rep(Seq::<Seq<char>>::empty()) =~= Seq::<char>::empty());
        assert(tail_rep(parts.push(v)) =~= seq![','] + quoted(v) + tail_rep(
            Seq::<Seq<char>>::empty(),
        ));
        assert(tail_rep(parts) =~= Seq::<char>::empty());
        assert(tail_rep(parts.push(v)) =~= tail_rep(parts) + seq![','] + quoted(v));
    } else {
        lemma_tail_rep_snoc(parts.drop_first(), v);
        assert(parts.push(v).drop_first() =~= parts.drop_first().push(v));
        assert(parts.push(v)[0] == parts[0]);
        assert(tail_rep(parts.push(v)) =~= seq![','] + quoted(parts[0]) + (tail_rep(
            parts.drop_first(),
        ) + seq![','] + quoted(v)));
        assert(tail_rep(parts.push(v)) =~= tail_rep(parts) + seq![','] + quoted(v));
    }
}

/// The body of a non-empty array is its first item followed by the comma
/// form of the rest.
pub proof fn lemma_arr_body_cons(parts: Seq<Seq<char>>)
    requires
        parts.len() >= 1,
    ensures
        arr_body(parts) == quoted(parts[0]) + tail_rep(parts.drop_first()),
    decreases parts.len(),
{
    if parts.len() == 1 {
        assert(parts.drop_first() =~= Seq::<Seq<char>>::empty());
        assert(arr_body(parts) =~= quoted(parts[0]) + tail_rep(parts.drop_first()));
    } else {
        lemma_arr_body_cons(parts.drop_last());
        lemma_tail_rep_snoc(parts.drop_last().drop_first(), parts.last());
        assert(parts.drop_first() =~= parts.drop_last().drop_first().push(parts.last()));
        assert(parts.drop_last()[0] == parts[0]);
        assert(arr_body(parts) =~= quoted(parts[0]) + tail_rep(parts.drop_first()));
    }
}

/// The items of an array after position `i`, which stands right after a
/// parsed item (or after `[` for an empty array): either `]` ends the
/// array or a comma introduces the next string.
pub open spec fn parse_arr_tail(s: Seq<char>, i: int, acc: Seq<Seq<char>>) -> Option<
    (Seq<Seq<char>>, int),
>
    decreases s.len() - i when 0 <= i <= s.len() via parse_arr_tail_decreases
{
    if !(0 <= i < s.len()) {
        None
    } else if s[i] == ']' {
        Some((acc, i + 1))
    } else if s[i] == ',' {
        match parse_string_at(s, i + 1) {
            Some(p) => parse_arr_tail(s, p.1, acc.push(p.0)),
            None => None,
        }
    } else {
        None
    }
}

#[via_fn]
proof fn parse_arr_tail_decreases(s: Seq<char>, i: int, acc: Seq<Seq<char>>) {
    if 0 <= i < s.len() && s[i] != ']' && s[i] == ',' {
        if parse_string_at(s, i + 1) is Some {
            lemma_unesc_bounds(s.skip(i + 2));
        }
    }
}

/// A whole JSON string array read at position `i`.
pub open spec fn parse_arr_at(s: Seq<char>, i: int) -> Option<(Seq<Seq<char>>, int)> {
    if 0 <= i < s.len() && s[i] == '[' {
        if i + 1 < s.len() && s[i + 1] == ']' {
            Some((Seq::empty(), i + 2))
        } else {
            match parse_string_at(s, i + 1) {
                Some(p) => parse_arr_tail(s, p.1, seq![p.0]),
                None => None,
            }
        }
    } else {
        None
    }
}

#[verifier::rlimit(80)]
#[verifier::spinoff_prover]
proof fn lemma_parse_arr_tail(
    s: Seq<char>,
    i: int,
    acc: Seq<Seq<char>>,
    parts: Seq<Seq<char>>,
    rest: Seq<char>,
)
    requires
        0 <= i <= s.len(),
        s.skip(i) == tail_rep(parts) + seq![']'] + rest,
    ensures
        parse_arr_tail(s, i, acc) == Some(
            (acc + parts, (i + tail_rep(parts).len() + 1) as int),
        ),
    decreases parts.len(),
{
    if parts.len() == 0 {
        assert(tail_rep(parts) =~= Seq::<char>::empty());
        assert(s.skip(i) =~= seq![']'] + rest);
        assert(s.skip(i).len() >= 1);
        assert(i < s.len());
        assert(s.skip(i)[0] == ']');
        assert(s[i] == s.skip(i)[0]);
        assert(acc + parts =~= acc);
    } else {
        let v = parts[0];
        let after = tail_rep(parts.drop_first()) + seq![']'] + rest;
        assert(tail_rep(parts) == seq![','] + quoted(v) + tail_rep(parts.drop_first()));
        assert(s.skip(i) =~= seq![','] + (quoted(v) + after));
        assert(i < s.len());
        assert(s.skip(i)[0] == ',');
        assert(s[i] == s.skip(i)[0]);
        assert(s[i] != ']');
        assert(s.skip(i).len() == 1 + quoted(v).len() + after.len());
        assert(i + 1 <= s.len());
        assert forall|k: int| 0 <= k < s.skip(i + 1).len() implies s.skip(i + 1)[k] == (quoted(v)
            + after)[k] by {
            assert(s.skip(i + 1)[k] == s[i + 1 + k]);
            assert(s.skip(i)[k + 1] == s[i + 1 + k]);
            assert(s.skip(i)[k + 1] == (seq![','] + (quoted(v) + after))[k + 1]);
        }
        assert(s.skip(i + 1).len() == (quoted(v) + after).len());
        assert(s.skip(i + 1) =~= quoted(v) + after);
        lemma_parse_string_at(s.take(i + 1), v, after);
        assert(s.take(i + 1) + s.skip(i + 1) =~= s);
        assert(s.take(i + 1) + quoted(v) + after =~= s);
        assert(s.take(i + 1).len() == i + 1);
        assert(parse_string_at(s, i + 1) == Some((v, i + 1 + quoted(v).len())));
        let j = i + 1 + quoted(v).len() as int;
        assert(s.skip(j).len() == after.len());
        assert forall|k: int| 0 <= k < s.skip(j).len() implies s.skip(j)[k] == after[k] by {
            assert(s.skip(j)[k] == s[j + k]);
            assert(s.skip(i + 1)[quoted(v).len() + k] == s[j + k]);
            assert((quoted(v) + after)[quoted(v).len() + k] == after[k]);
        }
        assert(s.skip(j) =~= after);
        lemma_parse_arr_tail(s, j, acc.push(v), parts.drop_first(), rest);
        assert(acc.push(v) + parts.drop_first() =~= acc + parts);
        assert(tail_rep(parts).len() == 1 + quoted(v).len() + tail_rep(parts.drop_first()).len());
    }
}

/// Reading an array back from where it was written yields the original
/// items and stops right after the closing bracket.
#[verifier::rlimit(80)]
#[verifier::spinoff_prover]
pub proof fn lemma_parse_arr_at(prefix: Seq<char>, parts: Seq<Seq<char>>, rest: Seq<char>)
    ensures
        parse_arr_at(prefix + str_array(parts) + rest, prefix.len() as int) == Some(
            (parts, (prefix.len() + str_array(parts).len()) as int),
        ),
{
    let s = prefix + str_array(parts) + rest;
    let i = prefix.len() as int;
    assert(s[i] == '[');
    if parts.len() == 0 {
        assert(arr_body(parts) == Seq::<char>::empty());
        assert(str_array(parts) =~= seq!['[', ']']);
        assert(s[i + 1] == ']');
    } else {
        lemma_arr_body_cons(parts);
        let v = parts[0];
        let after = tail_rep(parts.drop_first()) + seq![']'] + rest;
        assert(s =~= prefix + seq!['['] + (quoted(v) + after));
        assert(s.skip(i + 1).len() == (quoted(v) + after).len());
        assert forall|k: int| 0 <= k < s.skip(i + 1).len() implies s.skip(i + 1)[k] == (quoted(v)
            + after)[k] by {
            assert(s.skip(i + 1)[k] == s[i + 1 + k]);
            assert(s[i + 1 + k] == (prefix + seq!['['] + (quoted(v) + after))[i + 1 + k]);
        }
        assert(s.skip(i + 1) =~= quoted(v) + after);
        assert(s[i + 1] == '"');
        assert(i + 1 < s.len());
        assert(s[i + 1] != ']');
        lemma_parse_string_at(s.take(i + 1), v, after);
        assert(s.take(i + 1) + s.skip(i + 1) =~= s);
        assert(s.take(i + 1) + quoted(v) + after =~= s);
        assert(s.take(i + 1).len() == i + 1);
        let j = i + 1 + quoted(v).len() as int;
        assert(parse_string_at(s, i + 1) == Some((v, j)));
        assert(s.skip(j).len() == after.len());
        assert forall|k: int| 0 <= k < s.skip(j).len() implies s.skip(j)[k] == after[k] by {
            assert(s.skip(j)[k] == s[j + k]);
            assert(s.skip(i + 1)[quoted(v).len() + k] == s[j + k]);
            assert((quoted(v) + after)[quoted(v).len() + k] == after[k]);
        }
        assert(s.skip(j) =~= after);
        lemma_parse_arr_tail(s, j, seq![v], parts.drop_first(), rest);
        assert(seq![v] + parts.drop_first() =~= parts);
        assert(str_array(parts).len() == 1 + quoted(v).len() + tail_rep(
            parts.drop_first(),
        ).len() + 1);
    }
}

/// One key/string-value step of a record: where the remaining input holds
/// the key, a string literal and a rest, the key is read, the string
/// parses, and exactly the rest remains.
#[verifier::rlimit(60)]
#[verifier::spinoff_prover]
pub proof fn lemma_step_string(s: Seq<char>, i: int, key: Seq<char>, v: Seq<char>, rest: Seq<char>)
    requires
        0 <= i <= s.len(),
        s.skip(i) == key + quoted(v) + rest,
    ensures
        lit_at(s, i, key),
        parse_string_at(s, i + key.len()) == Some(
            (v, (i + key.len() + quoted(v).len()) as int),
        ),
        s.skip((i + key.len() + quoted(v).len()) as int) == rest,
{
    let k = key.len() as int;
    let q = quoted(v).len() as int;
    assert(s.skip(i).len() == s.len() - i);
    assert(s.len() - i == k + q + rest.len());
    assert forall|j: int| 0 <= j < k implies s.subrange(i, i + k)[j] == key[j] by {
        assert(s.subrange(i, i + k)[j] == s[i + j]);
        assert(s.skip(i)[j] == s[i + j]);
        assert((key + quoted(v) + rest)[j] == key[j]);
    }
    assert(s.subrange(i, i + k) =~= key);
    assert forall|j: int| 0 <= j < s.len() - (i + k) implies s.skip(i + k)[j] == (quoted(v)
        + rest)[j] by {
        assert(s.skip(i + k)[j] == s[i + k + j]);
        assert(s.skip(i)[k + j] == s[i + k + j]);
        assert((key + quoted(v) + rest)[k + j] == (quoted(v) + rest)[j]);
    }
    assert(s.skip(i + k) =~= quoted(v) + rest);
    assert(s.take(i + k).len() == i + k);
    assert((s.take(i + k) + quoted(v) + rest).len() == s.len());
    assert forall|j: int| 0 <= j < s.len() implies (s.take(i + k) + quoted(v) + rest)[j]
        == s[j] by {
        if j < i + k {
            assert((s.take(i + k) + quoted(v) + rest)[j] == s.take(i + k)[j]);
        } else {
            assert((s.take(i + k) + quoted(v) + rest)[j] == (quoted(v) + rest)[j - (i + k)]);
            assert(s.skip(i + k)[j - (i + k)] == s[j]);
        }
    }
    assert(s.take(i + k) + quoted(v) + rest =~= s);
    lemma_parse_string_at(s.take(i + k), v, rest);
    assert(s.take(i + k).len() == i + k);
    assert forall|j: int| 0 <= j < rest.len() implies s.skip(i + k + q)[j] == rest[j] by {
        assert(s.skip(i + k + q)[j] == s[i + k + q + j]);
        assert(s.skip(i + k)[q + j] == s[i + k + q + j]);
        assert((quoted(v) + rest)[q + j] == rest[j]);
    }
    assert(s.skip(i + k + q) =~= rest);
}

/// One key/array-value step of a record, like `lemma_step_string` with a
/// string array for the value.
#[verifier::rlimit(60)]
#[verifier::spinoff_prover]
pub proof fn lemma_step_array(
    s: Seq<char>,
    i: int,
    key: Seq<char>,
    parts: Seq<Seq<char>>,
    rest: Seq<char>,
)
    requires
        0 <= i <= s.len(),
        s.skip(i) == key + str_array(parts) + rest,
    ensures
        lit_at(s, i, key),
        parse_arr_at(s, i + key.len()) == Some(
            (parts, (i + key.len() + str_array(parts).len()) as int),
        ),
        s.skip((i + key.len() + str_array(parts).len()) as int) == rest,
{
    let k = key.len() as int;
    let q = str_array(parts).len() as int;
    assert(s.skip(i).len() == s.len() - i);
    assert(s.len() - i == k + q + rest.len());
    assert forall|j: int| 0 <= j < k implies s.subrange(i, i + k)[j] == key[j] by {
        assert(s.subrange(i, i + k)[j] == s[i + j]);
        assert(s.skip(i)[j] == s[i + j]);
        assert((key + str_array(parts) + rest)[j] == key[j]);
    }
    assert(s.subrange(i, i + k) =~= key);
    assert forall|j: int| 0 <= j < s.len() - (i + k) implies s.skip(i + k)[j] == (str_array(parts)
        + rest)[j] by {
        assert(s.skip(i + k)[j] == s[i + k + j]);
        assert(s.skip(i)[k + j] == s[i + k + j]);
        assert((key + str_array(parts) + rest)[k + j] == (str_array(parts) + rest)[j]);
    }
    assert(s.skip(i + k) =~= str_array(parts) + rest);
    assert(s.take(i + k).len() == i + k);
    assert((s.take(i + k) + str_array(parts) + rest).len() == s.len());
    assert forall|j: int| 0 <= j < s.len() implies (s.take(i + k) + str_array(parts) + rest)[j]
        == s[j] by {
        if j < i + k {
            assert((s.take(i + k) + str_array(parts) + rest)[j] == s.take(i + k)[j]);
        } else {
            assert((s.take(i + k) + str_array(parts) + rest)[j] == (str_array(parts) + rest)[j - (i
                + k)]);
            assert(s.skip(i + k)[j - (i + k)] == s[j]);
        }
    }
    assert(s.take(i + k) + str_array(parts) + rest =~= s);
    lemma_parse_arr_at(s.take(i + k), parts, rest);
    assert(s.take(i + k).len() == i + k);
    assert forall|j: int| 0 <= j < rest.len() implies s.skip(i + k + q)[j] == rest[j] by {
        assert(s.skip(i + k + q)[j] == s[i + k + q + j]);
        assert(s.skip(i + k)[q + j] == s[i + k + q + j]);
        assert((str_array(parts) + rest)[q + j] == rest[j]);
    }
    assert(s.skip(i + k + q) =~= rest);
}

/// Whether the literal `lit` stands at position `i` of `s`.
pub open spec fn lit_at(s: Seq<char>, i: int, lit: Seq<char>) -> bool {
    0 <= i && i + lit.len() <= s.len() && s.subrange(i, i + lit.len()) == lit
}

/// The numeric value of a hexadecimal digit character, if it is one.
pub fn hex_value(c: char) -> (r: Option<u8>)
    ensures
        match r {
            Some(v) => is_hex_digit(c) && v as nat == hex_val(c) && v < 16,
            None => !is_hex_digit(c),
        },
{
    match c {
        '0' => Some(0),
        '1' => Some(1),
        '2' => Some(2),
        '3' => Some(3),
        '4' => Some(4),
        '5' => Some(5),
        '6' => Some(6),
        '7' => Some(7),
        '8' => Some(8),
        '9' => Some(9),
        'a' => Some(10),
        'b' => Some(11),
        'c' => Some(12),
        'd' => Some(13),
        'e' => Some(14),
        'f' => Some(15),
        _ => None,
    }
}

/// A character from a code below 32; used when decoding `\u00XX` escapes.
pub fn char_from_code(code: u32) -> (c: char)
    requires
        code < 256,
    ensures
        c == ((code as nat) as char),
{
    (code as u8) as char
}

/// Casting a low code point to an integer and back is the identity.
proof fn lemma_low_char_cast(c: char)
    requires
        (c as nat) < 32,
    ensures
        ((c as nat) as char) == c,
{
}

} // verus!
