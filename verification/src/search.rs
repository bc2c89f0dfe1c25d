//! The search side of the pipeline: the client bundle payload with its
//! exact round-trip guarantee, the WebAssembly module that carries it, the
//! fuzzy query plan, and the index fingerprint that drives incremental
//! rebuilds.

use vstd::prelude::*;
use vstd::string::*;

use crate::article::Article;
use crate::text::{
    append_quoted, append_str_array, dec_rep, hex_char, hex_digit, lemma_unesc_bounds, lit_at,
    parse_arr_at, parse_string_at, push_char, quoted, str_array, str_eq,
};

verus! {

/// One hit of a server-side search: what the query layer hands back.
#[derive(Debug, Clone)]
pub struct SearchHit {
    pub title: String,
    pub description: String,
    pub permalink: String,
}

/// Builds the hit for an article: its title, its description, and its
/// output file as the permalink.
pub fn hit_of_article(article: &Article) -> (r: SearchHit)
    ensures
        r.title@ == article.preview.title@,
        r.description@ == article.preview.description@,
        r.permalink@ == article.preview.output_file_spec(),
{
    SearchHit {
        title: article.preview.title.clone(),
        description: article.preview.description.clone(),
        permalink: article.preview.output_file(),
    }
}

/// One record of the client-side search payload.
#[derive(Debug, Clone)]
pub struct SearchRecord {
    pub title: String,
    pub slug: String,
    pub category: Vec<String>,
    pub description: String,
    pub permalink: String,
    pub locale: String,
    pub default_locale: String,
}

/// The spec-level image of a search record.
pub struct SearchRecordV {
    pub title: Seq<char>,
    pub slug: Seq<char>,
    pub category: Seq<Seq<char>>,
    pub description: Seq<char>,
    pub permalink: Seq<char>,
    pub locale: Seq<char>,
    pub default_locale: Seq<char>,
}

impl View for SearchRecord {
    type V = SearchRecordV;

    open spec fn view(&self) -> SearchRecordV {
        SearchRecordV {
            title: self.title@,
            slug: self.slug@,
            category: self.category.deep_view(),
            description: self.description@,
            permalink: self.permalink@,
            locale: self.locale@,
            default_locale: self.default_locale@,
        }
    }
}

impl DeepView for SearchRecord {
    type V = SearchRecordV;

    open spec fn deep_view(&self) -> SearchRecordV {
        self.view()
    }
}

pub open spec fn k_title() -> Seq<char> {
    "{\"title\":"@
}

pub open spec fn k_slug() -> Seq<char> {
    ",\"slug\":"@
}

pub open spec fn k_category() -> Seq<char> {
    ",\"category\":"@
}

pub open spec fn k_description() -> Seq<char> {
    ",\"description\":"@
}

pub open spec fn k_permalink() -> Seq<char> {
    ",\"permalink\":"@
}

pub open spec fn k_locale() -> Seq<char> {
    ",\"locale\":"@
}

pub open spec fn k_default_locale() -> Seq<char> {
    ",\"default_locale\":"@
}

/// The JSON serialization of one search record.
pub open spec fn record_json(r: SearchRecordV) -> Seq<char> {
    k_title() + quoted(r.title) + k_slug() + quoted(r.slug) + k_category() + str_array(r.category)
        + k_description() + quoted(r.description) + k_permalink() + quoted(r.permalink)
        + k_locale() + quoted(r.locale) + k_default_locale() + quoted(r.default_locale)
        + seq!['}']
}

/// The bodies of the payload array, most recent last.
pub open spec fn payload_body(rs: Seq<SearchRecordV>) -> Seq<char>
    decreases rs.len(),
{
    if rs.len() == 0 {
        Seq::empty()
    } else if rs.len() == 1 {
        record_json(rs[0])
    } else {
        payload_body(rs.drop_last()) + seq![','] + record_json(rs.last())
    }
}

/// The whole payload: a JSON array of search records.
pub open spec fn payload_json(rs: Seq<SearchRecordV>) -> Seq<char> {
    seq!['['] + payload_body(rs) + seq![']']
}

/// Builds the search record of an article: the tuple the bundle carries.
pub fn record_of_article(article: &Article) -> (r: SearchRecord)
    ensures
        r@.title == article.preview.title@,
        r@.slug == article.preview.slug@,
        r@.category == article.preview.category.segments.deep_view(),
        r@.description == article.preview.description@,
        r@.permalink == article.preview.output_file_spec(),
        r@.locale == article.preview.locale@,
        r@.default_locale == article.preview.default_locale@,
{
    SearchRecord {
        title: article.preview.title.clone(),
        slug: article.preview.slug.clone(),
        category: crate::cache::clone_strings(&article.preview.category.segments),
        description: article.preview.description.clone(),
        permalink: article.preview.output_file(),
        locale: article.preview.locale.clone(),
        default_locale: article.preview.default_locale.clone(),
    }
}

/// Appends the JSON serialization of one record.
fn append_record(out: &mut String, r: &SearchRecord)
    ensures
        final(out)@ == old(out)@ + record_json(r@),
{
    out.append("{\"title\":");
    append_quoted(out, r.title.as_str());
    out.append(",\"slug\":");
    append_quoted(out, r.slug.as_str());
    out.append(",\"category\":");
    append_str_array(out, &r.category);
    out.append(",\"description\":");
    append_quoted(out, r.description.as_str());
    out.append(",\"permalink\":");
    append_quoted(out, r.permalink.as_str());
    out.append(",\"locale\":");
    append_quoted(out, r.locale.as_str());
    out.append(",\"default_locale\":");
    append_quoted(out, r.default_locale.as_str());
    push_char(out, '}');
    proof {
        assert(out@ =~= old(out)@ + record_json(r@));
    }
}

/// Encodes the search payload: the JSON array of all records, in order.
pub fn encode_search_payload(records: &Vec<SearchRecord>) -> (r: String)
    ensures
        r@ == payload_json(records.deep_view()),
{
    let ghost dv = records.deep_view();
    let mut out = String::new();
    push_char(&mut out, '[');
    let mut i: usize = 0;
    while i < records.len()
        invariant
            dv == records.deep_view(),
            dv.len() == records@.len(),
            i <= records@.len(),
            out@ == seq!['['] + payload_body(dv.take(i as int)),
        decreases records@.len() - i,
    {
        if i > 0 {
            push_char(&mut out, ',');
        }
        append_record(&mut out, &records[i]);
        proof {
            assert(dv.take(i + 1).drop_last() =~= dv.take(i as int));
            assert(dv.take(i + 1).last() == dv[i as int]);
            assert(dv[i as int] == records@[i as int]@);
            if i == 0 {
                assert(payload_body(dv.take(1)) == record_json(dv[0]));
                assert(out@ =~= seq!['['] + payload_body(dv.take(1)));
            } else {
                assert(payload_body(dv.take(i + 1)) == payload_body(dv.take(i as int))
                    + seq![','] + record_json(dv[i as int]));
                assert(out@ =~= seq!['['] + payload_body(dv.take(i + 1)));
            }
        }
        i = i + 1;
    }
    push_char(&mut out, ']');
    proof {
        assert(dv.take(records@.len() as int) =~= dv);
        assert(out@ =~= payload_json(dv));
    }
    out
}

/// An empty workspace emits the empty payload.
pub proof fn lemma_empty_payload()
    ensures
        payload_json(Seq::<SearchRecordV>::empty()) == "[]"@,
{
    reveal_strlit("[]");
    assert(payload_body(Seq::<SearchRecordV>::empty()) == Seq::<char>::empty());
    assert(payload_json(Seq::<SearchRecordV>::empty()) =~= "[]"@);
}

// ---- the payload parser, at the spec level ----
/// One record read at position `i`: the keys in encoding order, each
/// followed by its value.
pub open spec fn parse_record_at(s: Seq<char>, i: int) -> Option<(SearchRecordV, int)> {
    if !lit_at(s, i, k_title()) {
        None
    } else {
        match parse_string_at(s, i + k_title().len()) {
            None => None,
            Some((title, i1)) => if !lit_at(s, i1, k_slug()) {
                None
            } else {
                match parse_string_at(s, i1 + k_slug().len()) {
                    None => None,
                    Some((slug, i2)) => if !lit_at(s, i2, k_category()) {
                        None
                    } else {
                        match parse_arr_at(s, i2 + k_category().len()) {
                            None => None,
                            Some((category, i3)) => if !lit_at(s, i3, k_description()) {
                                None
                            } else {
                                match parse_string_at(s, i3 + k_description().len()) {
                                    None => None,
                                    Some((description, i4)) => if !lit_at(s, i4, k_permalink()) {
                                        None
                                    } else {
                                        match parse_string_at(s, i4 + k_permalink().len()) {
                                            None => None,
                                            Some((permalink, i5)) => if !lit_at(
                                                s,
                                                i5,
                                                k_locale(),
                                            ) {
                                                None
                                            } else {
                                                match parse_string_at(s, i5 + k_locale().len()) {
                                                    None => None,
                                                    Some((locale, i6)) => if !lit_at(
                                                        s,
                                                        i6,
                                                        k_default_locale(),
                                                    ) {
                                                        None
                                                    } else {
                                                        match parse_string_at(
                                                            s,
                                                            i6 + k_default_locale().len(),
                                                        ) {
                                                            None => None,
                                                            Some((default_locale, i7)) => if 0 <= i7
                                                                < s.len() && s[i7] == '}' {
                                                                Some(
                                                                    (
                                                                        SearchRecordV {
                                                                            title,
                                                                            slug,
                                                                            category,
                                                                            description,
                                                                            permalink,
                                                                            locale,
                                                                            default_locale,
                                                                        },
                                                                        i7 + 1,
                                                                    ),
                                                                )
                                                            } else {
                                                                None
                                                            },
                                                        }
                                                    },
                                                }
                                            },
                                        }
                                    },
                                }
                            },
                        }
                    },
                }
            },
        }
    }
}

/// A string literal read consumes ground: the position strictly advances
/// and stays inside the input.
pub proof fn lemma_parse_string_bounds(s: Seq<char>, i: int)
    ensures
        parse_string_at(s, i) matches Some(p) ==> i < p.1 <= s.len(),
{
    if 0 <= i < s.len() && s[i] == '"' {
        lemma_unesc_bounds(s.skip(i + 1));
    }
}

proof fn lemma_parse_arr_tail_bounds(s: Seq<char>, i: int, acc: Seq<Seq<char>>)
    requires
        0 <= i <= s.len(),
    ensures
        crate::text::parse_arr_tail(s, i, acc) matches Some(p) ==> i < p.1 <= s.len(),
    decreases s.len() - i,
{
    if 0 <= i < s.len() && s[i] != ']' && s[i] == ',' {
        lemma_parse_string_bounds(s, i + 1);
        match parse_string_at(s, i + 1) {
            Some(p) => {
                lemma_parse_arr_tail_bounds(s, p.1, acc.push(p.0));
            },
            None => {},
        }
    }
}

/// An array read consumes ground.
pub proof fn lemma_parse_arr_bounds(s: Seq<char>, i: int)
    ensures
        parse_arr_at(s, i) matches Some(p) ==> i < p.1 <= s.len(),
{
    if 0 <= i < s.len() && s[i] == '[' {
        if !(i + 1 < s.len() && s[i + 1] == ']') {
            lemma_parse_string_bounds(s, i + 1);
            match parse_string_at(s, i + 1) {
                Some(p) => {
                    lemma_parse_arr_tail_bounds(s, p.1, seq![p.0]);
                },
                None => {},
            }
        }
    }
}

/// A record read consumes ground.
pub proof fn lemma_parse_record_bounds(s: Seq<char>, i: int)
    ensures
        parse_record_at(s, i) matches Some(p) ==> i < p.1 <= s.len(),
{
    if lit_at(s, i, k_title()) {
        lemma_parse_string_bounds(s, i + k_title().len());
        match parse_string_at(s, i + k_title().len()) {
            None => {},
            Some((_, i1)) => {
                lemma_parse_string_bounds(s, i1 + k_slug().len());
                match parse_string_at(s, i1 + k_slug().len()) {
                    None => {},
                    Some((_, i2)) => {
                        lemma_parse_arr_bounds(s, i2 + k_category().len());
                        match parse_arr_at(s, i2 + k_category().len()) {
                            None => {},
                            Some((_, i3)) => {
                                lemma_parse_string_bounds(s, i3 + k_description().len());
                                match parse_string_at(s, i3 + k_description().len()) {
                                    None => {},
                                    Some((_, i4)) => {
                                        lemma_parse_string_bounds(s, i4 + k_permalink().len());
                                        match parse_string_at(s, i4 + k_permalink().len()) {
                                            None => {},
                                            Some((_, i5)) => {
                                                lemma_parse_string_bounds(
                                                    s,
                                                    i5 + k_locale().len(),
                                                );
                                                match parse_string_at(s, i5 + k_locale().len()) {
                                                    None => {},
                                                    Some((_, i6)) => {
                                                        lemma_parse_string_bounds(
                                                            s,
                                                            i6 + k_default_locale().len(),
                                                        );
                                                    },
                                                }
                                            },
                                        }
                                    },
                                }
                            },
                        }
                    },
                }
            },
        }
    }
}

/// The records of the payload after the first, each with its leading
/// comma.
pub open spec fn payload_tail_rep(rs: Seq<SearchRecordV>) -> Seq<char>
    decreases rs.len(),
{
    if rs.len() == 0 {
        Seq::empty()
    } else {
        seq![','] + record_json(rs[0]) + payload_tail_rep(rs.drop_first())
    }
}

proof fn lemma_payload_tail_snoc(rs: Seq<SearchRecordV>, r: SearchRecordV)
    ensures
        payload_tail_rep(rs.push(r)) == payload_tail_rep(rs) + seq![','] + record_json(r),
    decreases rs.len(),
{
    if rs.len() == 0 {
        assert(rs.push(r).drop_first() =~= Seq::<SearchRecordV>::empty());
        assert(rs.push(r)[0] == r);
        assert(payload_tail_rep(rs) =~= Seq::<char>::empty());
        assert(payload_tail_rep(rs.push(r)) =~= seq![','] + record_json(r) + payload_tail_rep(
            Seq::<SearchRecordV>::empty(),
        ));
        assert(payload_tail_rep(rs.push(r)) =~= payload_tail_rep(rs) + seq![','] + record_json(r));
    } else {
        lemma_payload_tail_snoc(rs.drop_first(), r);
        assert(rs.push(r).drop_first() =~= rs.drop_first().push(r));
        assert(rs.push(r)[0] == rs[0]);
        assert(payload_tail_rep(rs.push(r)) =~= seq![','] + record_json(rs[0]) + (payload_tail_rep(
            rs.drop_first(),
        ) + seq![','] + record_json(r)));
        assert(payload_tail_rep(rs.push(r)) =~= payload_tail_rep(rs) + seq![','] + record_json(r));
    }
}

proof fn lemma_payload_body_cons(rs: Seq<SearchRecordV>)
    requires
        rs.len() >= 1,
    ensures
        payload_body(rs) == record_json(rs[0]) + payload_tail_rep(rs.drop_first()),
    decreases rs.len(),
{
    if rs.len() == 1 {
        assert(rs.drop_first() =~= Seq::<SearchRecordV>::empty());
        assert(payload_body(rs) =~= record_json(rs[0]) + payload_tail_rep(rs.drop_first()));
    } else {
        lemma_payload_body_cons(rs.drop_last());
        lemma_payload_tail_snoc(rs.drop_last().drop_first(), rs.last());
        assert(rs.drop_first() =~= rs.drop_last().drop_first().push(rs.last()));
        assert(rs.drop_last()[0] == rs[0]);
        assert(payload_body(rs) =~= record_json(rs[0]) + payload_tail_rep(rs.drop_first()));
    }
}

/// The records of the payload after position `i`, which stands right
/// after a parsed record (or after `[` for an empty payload).
pub open spec fn parse_payload_tail(s: Seq<char>, i: int, acc: Seq<SearchRecordV>) -> Option<
    (Seq<SearchRecordV>, int),
>
    decreases s.len() - i when 0 <= i <= s.len() via parse_payload_tail_decreases
{
    if !(0 <= i < s.len()) {
        None
    } else if s[i] == ']' {
        Some((acc, i + 1))
    } else if s[i] == ',' {
        match parse_record_at(s, i + 1) {
            Some(p) => parse_payload_tail(s, p.1, acc.push(p.0)),
            None => None,
        }
    } else {
        None
    }
}

#[via_fn]
proof fn parse_payload_tail_decreases(s: Seq<char>, i: int, acc: Seq<SearchRecordV>) {
    if 0 <= i < s.len() && s[i] != ']' && s[i] == ',' {
        lemma_parse_record_bounds(s, i + 1);
    }
}

/// The whole payload read at position `i`.
pub open spec fn parse_payload_at(s: Seq<char>, i: int) -> Option<(Seq<SearchRecordV>, int)> {
    if 0 <= i < s.len() && s[i] == '[' {
        if i + 1 < s.len() && s[i + 1] == ']' {
            Some((Seq::empty(), i + 2))
        } else {
            match parse_record_at(s, i + 1) {
                Some(p) => parse_payload_tail(s, p.1, seq![p.0]),
                None => None,
            }
        }
    } else {
        None
    }
}

/// Reading one record back from where it stands yields the original and
/// leaves exactly the rest.
#[verifier::rlimit(60)]
#[verifier::spinoff_prover]
pub proof fn lemma_parse_record_at(s: Seq<char>, i: int, r: SearchRecordV, rest: Seq<char>)
    requires
        0 <= i <= s.len(),
        s.skip(i) == record_json(r) + rest,
    ensures
        parse_record_at(s, i) == Some((r, (i + record_json(r).len()) as int)),
        s.skip((i + record_json(r).len()) as int) == rest,
{
    let t7: Seq<char> = seq!['}'] + rest;
    let t6 = k_default_locale() + quoted(r.default_locale) + t7;
    let t5 = k_locale() + quoted(r.locale) + t6;
    let t4 = k_permalink() + quoted(r.permalink) + t5;
    let t3 = k_description() + quoted(r.description) + t4;
    let t2 = k_category() + str_array(r.category) + t3;
    let t1 = k_slug() + quoted(r.slug) + t2;
    assert(record_json(r) + rest =~= k_title() + quoted(r.title) + t1);
    crate::text::lemma_step_string(s, i, k_title(), r.title, t1);
    let i1 = i + k_title().len() + quoted(r.title).len() as int;
    crate::text::lemma_step_string(s, i1, k_slug(), r.slug, t2);
    let i2 = i1 + k_slug().len() + quoted(r.slug).len() as int;
    crate::text::lemma_step_array(s, i2, k_category(), r.category, t3);
    let i3 = i2 + k_category().len() + str_array(r.category).len() as int;
    crate::text::lemma_step_string(s, i3, k_description(), r.description, t4);
    let i4 = i3 + k_description().len() + quoted(r.description).len() as int;
    crate::text::lemma_step_string(s, i4, k_permalink(), r.permalink, t5);
    let i5 = i4 + k_permalink().len() + quoted(r.permalink).len() as int;
    crate::text::lemma_step_string(s, i5, k_locale(), r.locale, t6);
    let i6 = i5 + k_locale().len() + quoted(r.locale).len() as int;
    crate::text::lemma_step_string(s, i6, k_default_locale(), r.default_locale, t7);
    let i7 = i6 + k_default_locale().len() + quoted(r.default_locale).len() as int;
    assert(s.skip(i7) == t7);
    assert(s.skip(i7).len() >= 1);
    assert(i7 < s.len());
    assert(s.skip(i7)[0] == '}');
    assert(s[i7] == s.skip(i7)[0]);
    let res = parse_record_at(s, i);
    assert(res matches Some(p) && p.0 == r && p.1 == i7 + 1);
    assert(record_json(r).len() + i == i7 + 1);
    assert forall|j: int| 0 <= j < rest.len() implies s.skip(i7 + 1)[j] == rest[j] by {
        assert(s.skip(i7 + 1)[j] == s[i7 + 1 + j]);
        assert(s.skip(i7)[1 + j] == s[i7 + 1 + j]);
        assert((seq!['}'] + rest)[1 + j] == rest[j]);
    }
    assert(s.skip(i7 + 1).len() == rest.len());
    assert(s.skip(i7 + 1) =~= rest);
}

#[verifier::rlimit(60)]
#[verifier::spinoff_prover]
proof fn lemma_parse_payload_tail(
    s: Seq<char>,
    i: int,
    acc: Seq<SearchRecordV>,
    rs: Seq<SearchRecordV>,
    rest: Seq<char>,
)
    requires
        0 <= i <= s.len(),
        s.skip(i) == payload_tail_rep(rs) + seq![']'] + rest,
    ensures
        parse_payload_tail(s, i, acc) == Some(
            (acc + rs, (i + payload_tail_rep(rs).len() + 1) as int),
        ),
    decreases rs.len(),
{
    if rs.len() == 0 {
        assert(payload_tail_rep(rs) =~= Seq::<char>::empty());
        assert(s.skip(i) =~= seq![']'] + rest);
        assert(s.skip(i).len() == s.len() - i);
        assert(i < s.len());
        assert(s.skip(i)[0] == ']');
        assert(s[i] == s.skip(i)[0]);
        assert(acc + rs =~= acc);
    } else {
        let r = rs[0];
        let after = payload_tail_rep(rs.drop_first()) + seq![']'] + rest;
        assert(payload_tail_rep(rs) == seq![','] + record_json(r) + payload_tail_rep(
            rs.drop_first(),
        ));
        assert(s.skip(i) =~= seq![','] + (record_json(r) + after));
        assert(i < s.len());
        assert(s.skip(i)[0] == ',');
        assert(s[i] == s.skip(i)[0]);
        assert(s[i] != ']');
        assert(s.skip(i + 1).len() == (record_json(r) + after).len());
        assert forall|k: int| 0 <= k < s.skip(i + 1).len() implies s.skip(i + 1)[k] == (record_json(
            r,
        ) + after)[k] by {
            assert(s.skip(i + 1)[k] == s[i + 1 + k]);
            assert(s.skip(i)[k + 1] == s[i + 1 + k]);
            assert(s.skip(i)[k + 1] == (seq![','] + (record_json(r) + after))[k + 1]);
        }
        assert(s.skip(i + 1) =~= record_json(r) + after);
        lemma_parse_record_at(s, i + 1, r, after);
        let j = i + 1 + record_json(r).len() as int;
        lemma_parse_payload_tail(s, j, acc.push(r), rs.drop_first(), rest);
        assert(acc.push(r) + rs.drop_first() =~= acc + rs);
        assert(payload_tail_rep(rs).len() == 1 + record_json(r).len() + payload_tail_rep(
            rs.drop_first(),
        ).len());
    }
}

/// The search round-trip law: parsing the emitted JSON payload reproduces,
/// for each article, exactly the encoded tuple of title, slug, category,
/// description, permalink, locale and default locale.
#[verifier::rlimit(60)]
#[verifier::spinoff_prover]
pub proof fn lemma_payload_roundtrip(rs: Seq<SearchRecordV>)
    ensures
        parse_payload_at(payload_json(rs), 0) == Some((rs, payload_json(rs).len() as int)),
{
    let s = payload_json(rs);
    assert(s[0] == '[');
    if rs.len() == 0 {
        assert(payload_body(rs) == Seq::<char>::empty());
        assert(s =~= seq!['[', ']']);
        assert(s[1] == ']');
    } else {
        lemma_payload_body_cons(rs);
        let r = rs[0];
        let after = payload_tail_rep(rs.drop_first()) + seq![']'] + Seq::<char>::empty();
        assert(s.skip(1).len() == (record_json(r) + after).len());
        assert forall|k: int| 0 <= k < s.skip(1).len() implies s.skip(1)[k] == (record_json(r)
            + after)[k] by {
            assert(s.skip(1)[k] == s[1 + k]);
            assert(s[1 + k] == (seq!['['] + payload_body(rs) + seq![']'])[1 + k]);
            assert(payload_body(rs)[k] == (record_json(r) + payload_tail_rep(rs.drop_first()))[k]
                || k >= payload_body(rs).len());
        }
        assert(s.skip(1) =~= record_json(r) + after);
        lemma_parse_record_at(s, 1, r, after);
        let j = 1 + record_json(r).len() as int;
        assert(s[1] == '{') by {
            reveal_strlit("{\"title\":");
            assert(k_title().len() >= 1);
            assert(record_json(r)[0] == k_title()[0]);
            assert(s.skip(1)[0] == (record_json(r) + after)[0]);
            assert(s[1] == s.skip(1)[0]);
        }
        assert(s[1] != ']');
        lemma_parse_payload_tail(s, j, seq![r], rs.drop_first(), Seq::empty());
        assert(seq![r] + rs.drop_first() =~= rs);
        assert(payload_json(rs).len() == 1 + record_json(r).len() + payload_tail_rep(
            rs.drop_first(),
        ).len() + 1);
    }
}

/// The `\hh` escape of every byte, as WebAssembly text data.
pub open spec fn wat_escaped(bytes: Seq<u8>) -> Seq<char>
    decreases bytes.len(),
{
    if bytes.len() == 0 {
        Seq::empty()
    } else {
        wat_escaped(bytes.drop_last()) + seq![
            '\\',
            hex_digit((bytes.last() / 16) as nat),
            hex_digit((bytes.last() % 16) as nat),
        ]
    }
}

/// Appends the `\hh` escape of every byte of `bytes` to `out`.
pub fn append_wat_escaped(out: &mut String, bytes: &Vec<u8>)
    ensures
        final(out)@ == old(out)@ + wat_escaped(bytes@),
{
    let mut i: usize = 0;
    while i < bytes.len()
        invariant
            i <= bytes@.len(),
            out@ == old(out)@ + wat_escaped(bytes@.take(i as int)),
        decreases bytes@.len() - i,
    {
        let b = bytes[i];
        push_char(out, '\\');
        push_char(out, hex_char(b / 16));
        push_char(out, hex_char(b % 16));
        proof {
            assert(bytes@.take(i + 1).drop_last() =~= bytes@.take(i as int));
            assert(bytes@.take(i + 1).last() == bytes@[i as int]);
            assert(out@ =~= old(out)@ + wat_escaped(bytes@.take(i + 1)));
        }
        i = i + 1;
    }
    proof {
        assert(bytes@.take(bytes@.len() as int) =~= bytes@);
    }
}

/// Linear-memory pages needed for a payload of `len` bytes, at least one.
pub open spec fn pages_of(len: nat) -> nat {
    if (len + 65535) / 65536 == 0 {
        1
    } else {
        (len + 65535) / 65536
    }
}

/// The WebAssembly text of the search bundle module: the payload bytes at
/// offset zero of an exported memory, and two exported functions giving
/// the payload's offset (zero) and byte length.
pub open spec fn wat_module_text(payload_bytes: Seq<u8>) -> Seq<char> {
    "(module (memory (export \"memory\") "@ + dec_rep(pages_of(payload_bytes.len()))
        + ") (func (export \"thought_search_data_len\") (result i32) (i32.const "@ + dec_rep(
        payload_bytes.len(),
    ) + ")) (func (export \"thought_search_data_ptr\") (result i32) (i32.const 0)) (data (i32.const 0) \""@
        + wat_escaped(payload_bytes) + "\"))"@
}

/// Builds the WebAssembly text of the search bundle for a payload.
pub fn build_search_module_text(payload: &str) -> (r: String)
    ensures
        r@ == wat_module_text(payload.spec_bytes()),
{
    let bytes = payload.as_bytes_vec();
    let len: usize = bytes.len();
    let q: usize = len / 65536;
    let rem: usize = len % 65536;
    let pages: u64 = if rem == 0 {
        if q == 0 {
            1
        } else {
            q as u64
        }
    } else {
        (q as u64) + 1
    };
    proof {
        assert(pages as nat == pages_of(len as nat)) by (nonlinear_arith)
            requires
                q == len / 65536,
                rem == len % 65536,
                pages as int == (if rem == 0 {
                    if q == 0 {
                        1int
                    } else {
                        q as int
                    }
                } else {
                    q as int + 1
                }),
                q <= len,
        ;
        assert(len as nat == payload.spec_bytes().len());
    }
    let mut out = String::new();
    out.append("(module (memory (export \"memory\") ");
    crate::text::append_u64(&mut out, pages);
    out.append(") (func (export \"thought_search_data_len\") (result i32) (i32.const ");
    crate::text::append_u64(&mut out, len as u64);
    out.append(")) (func (export \"thought_search_data_ptr\") (result i32) (i32.const 0)) (data (i32.const 0) \"");
    append_wat_escaped(&mut out, &bytes);
    out.append("\"))");
    proof {
        assert(out@ =~= wat_module_text(payload.spec_bytes()));
    }
    out
}

/// The binary module a piece of WebAssembly text assembles to, when it is
/// well formed.
pub uninterp spec fn wat_module_of(text: Seq<char>) -> Option<Seq<u8>>;

/// Relies on `wat::parse_str`: the binary encoding of a WebAssembly text
/// module, a function of the text alone.
#[verifier::external_body]
fn wat_to_wasm(text: &str) -> (r: Result<Vec<u8>, String>)
    ensures
        match r {
            Ok(b) => wat_module_of(text@) == Some(b@),
            Err(_) => wat_module_of(text@) is None,
        },
{
    match wat::parse_str(text) {
        Ok(b) => Ok(b),
        Err(e) => Err(e.to_string()),
    }
}

/// Assembles the search bundle module that carries `payload`.  The
/// returned bytes are the assembly of exactly the text that
/// `wat_module_text` gives for the payload's bytes.
pub fn build_search_wasm(payload: &str) -> (r: Result<Vec<u8>, String>)
    ensures
        match r {
            Ok(b) => wat_module_of(wat_module_text(payload.spec_bytes())) == Some(b@),
            Err(_) => wat_module_of(wat_module_text(payload.spec_bytes())) is None,
        },
{
    let text = build_search_module_text(payload);
    wat_to_wasm(text.as_str())
}

// ---- the fuzzy query plan ----
/// The Unicode words of a string.
pub uninterp spec fn words_of(s: Seq<char>) -> Seq<Seq<char>>;

/// Relies on `unicode_segmentation::UnicodeSegmentation::unicode_words`:
/// the Unicode words of the input, a function of the input alone.
#[verifier::external_body]
pub fn unicode_words(s: &str) -> (r: Vec<String>)
    ensures
        r.deep_view() == words_of(s@),
{
    unicode_segmentation::UnicodeSegmentation::unicode_words(s).map(|w| w.to_string()).collect()
}

/// One part of a search query: the parsed query itself, or a fuzzy term
/// against one field.  All parts combine disjunctively.
#[derive(Debug, Clone)]
pub enum SearchSubquery {
    /// The user query, handed to the index's own parser over the title
    /// and content fields.
    Parsed { query: String },
    /// A fuzzy term over the content field.
    FuzzyContent { term: String, distance: u8, transpose: bool },
    /// A fuzzy term over the title field.
    FuzzyTitle { term: String, distance: u8, transpose: bool },
}

/// The spec-level image of a subquery.
pub enum SearchSubqueryV {
    Parsed(Seq<char>),
    FuzzyContent(Seq<char>, u8, bool),
    FuzzyTitle(Seq<char>, u8, bool),
}

impl View for SearchSubquery {
    type V = SearchSubqueryV;

    open spec fn view(&self) -> SearchSubqueryV {
        match self {
            SearchSubquery::Parsed { query } => SearchSubqueryV::Parsed(query@),
            SearchSubquery::FuzzyContent { term, distance, transpose } => (
            SearchSubqueryV::FuzzyContent(term@, *distance, *transpose)),
            SearchSubquery::FuzzyTitle { term, distance, transpose } => (
            SearchSubqueryV::FuzzyTitle(term@, *distance, *transpose)),
        }
    }
}

impl DeepView for SearchSubquery {
    type V = SearchSubqueryV;

    open spec fn deep_view(&self) -> SearchSubqueryV {
        self.view()
    }
}

/// The fuzzy subqueries for a word list: for every word, one fuzzy term
/// over content and one over title, edit distance two, transpositions
/// counted as one edit.
pub open spec fn fuzzy_subqueries_of(words: Seq<Seq<char>>) -> Seq<SearchSubqueryV>
    decreases words.len(),
{
    if words.len() == 0 {
        Seq::empty()
    } else {
        fuzzy_subqueries_of(words.drop_last()) + seq![
            SearchSubqueryV::FuzzyContent(words.last(), 2, true),
            SearchSubqueryV::FuzzyTitle(words.last(), 2, true),
        ]
    }
}

/// The whole plan for a query: the parsed query first, then the fuzzy
/// terms of its words.
pub open spec fn query_plan_of(q: Seq<char>) -> Seq<SearchSubqueryV> {
    seq![SearchSubqueryV::Parsed(q)] + fuzzy_subqueries_of(words_of(q))
}

/// Builds the query plan: the parsed query, then for every Unicode word
/// of the query a fuzzy content term and a fuzzy title term.
pub fn build_query_plan(query: &str) -> (r: Vec<SearchSubquery>)
    ensures
        r.deep_view() == query_plan_of(query@),
{
    let ghost goal = query_plan_of(query@);
    let mut plan: Vec<SearchSubquery> = Vec::new();
    plan.push(SearchSubquery::Parsed { query: query.to_owned() });
    let words = unicode_words(query);
    let ghost ws = words.deep_view();
    let mut i: usize = 0;
    proof {
        assert(plan.deep_view() =~= seq![SearchSubqueryV::Parsed(query@)]);
        assert(fuzzy_subqueries_of(ws.take(0)) =~= Seq::<SearchSubqueryV>::empty());
        assert(plan.deep_view() =~= seq![SearchSubqueryV::Parsed(query@)] + fuzzy_subqueries_of(
            ws.take(0),
        ));
    }
    while i < words.len()
        invariant
            ws == words.deep_view(),
            ws.len() == words@.len(),
            i <= words@.len(),
            plan.deep_view() == seq![SearchSubqueryV::Parsed(query@)] + fuzzy_subqueries_of(
                ws.take(i as int),
            ),
        decreases words@.len() - i,
    {
        let ghost before = plan.deep_view();
        plan.push(
            SearchSubquery::FuzzyContent { term: words[i].clone(), distance: 2, transpose: true },
        );
        plan.push(
            SearchSubquery::FuzzyTitle { term: words[i].clone(), distance: 2, transpose: true },
        );
        proof {
            assert(ws.take(i + 1).drop_last() =~= ws.take(i as int));
            assert(ws.take(i + 1).last() == ws[i as int]);
            assert(ws[i as int] == words@[i as int]@);
            assert(plan.deep_view() =~= before + seq![
                SearchSubqueryV::FuzzyContent(ws[i as int], 2, true),
                SearchSubqueryV::FuzzyTitle(ws[i as int], 2, true),
            ]);
            assert(plan.deep_view() =~= seq![SearchSubqueryV::Parsed(query@)]
                + fuzzy_subqueries_of(ws.take(i + 1)));
        }
        i = i + 1;
    }
    proof {
        assert(ws.take(words@.len() as int) =~= ws);
    }
    plan
}


/// Whether the searcher should run at all: a blank query returns no hits
/// without touching the index.
pub fn should_query(query: &str) -> (r: bool)
    ensures
        r == !crate::metadata::is_blank(query@),
{
    !crate::metadata::str_is_blank(query)
}

// ---- the index fingerprint ----
/// The input of the combined index fingerprint: every article's output
/// file and content fingerprint, in traversal order.
pub open spec fn fingerprint_input(articles: Seq<Article>) -> Seq<char>
    decreases articles.len(),
{
    if articles.len() == 0 {
        Seq::empty()
    } else {
        fingerprint_input(articles.drop_last()) + articles.last().preview.output_file_spec()
            + crate::article::sha256_hex_of(
            crate::article::canonical_json(articles.last().canonical()),
        )
    }
}

/// The combined fingerprint of all articles: the digest of every
/// article's output file and fingerprint, in order.  It changes whenever
/// any article's canonical content or routing changes.
pub fn combined_fingerprint(articles: &Vec<Article>) -> (r: String)
    ensures
        r@ == crate::article::sha256_hex_of(fingerprint_input(articles@)),
{
    let mut input = String::new();
    let mut i: usize = 0;
    while i < articles.len()
        invariant
            i <= articles@.len(),
            input@ == fingerprint_input(articles@.take(i as int)),
        decreases articles@.len() - i,
    {
        let file = articles[i].output_file();
        input.append(file.as_str());
        let sha = articles[i].sha256();
        input.append(sha.as_str());
        proof {
            assert(articles@.take(i + 1).drop_last() =~= articles@.take(i as int));
            assert(articles@.take(i + 1).last() == articles@[i as int]);
        }
        i = i + 1;
    }
    proof {
        assert(articles@.take(articles@.len() as int) =~= articles@);
    }
    crate::article::sha256_hex(input.as_str())
}

/// The hex digest of a string: the fingerprint primitive the engine and
/// the application share.
pub fn digest_hex(s: &str) -> (r: String)
    ensures
        r@ == crate::article::sha256_hex_of(s@),
{
    crate::article::sha256_hex(s)
}

/// Whether the search index must be rebuilt: only when the stored
/// fingerprint differs from the current one.
pub fn should_rebuild(stored: Option<&String>, current: &str) -> (r: bool)
    ensures
        r == match stored {
            Some(s) => s@ != current@,
            None => true,
        },
{
    match stored {
        Some(s) => !str_eq(s.as_str(), current),
        None => true,
    }
}

// ---- paths of the emitted search assets ----
/// The directory of the search assets under the site root.
pub fn search_asset_dir() -> (r: &'static str)
    ensures
        r@ == "assets/thought-search"@,
{
    "assets/thought-search"
}

/// The file name of the search loader script.
pub fn search_js_filename() -> (r: &'static str)
    ensures
        r@ == "thought-search.js"@,
{
    "thought-search.js"
}

/// The file name of the search module binary.
pub fn search_wasm_filename() -> (r: &'static str)
    ensures
        r@ == "thought-search.wasm"@,
{
    "thought-search.wasm"
}

/// Site-root-relative path of the search loader script.
pub fn search_script_path() -> (r: &'static str)
    ensures
        r@ == "assets/thought-search/thought-search.js"@,
{
    "assets/thought-search/thought-search.js"
}

/// Site-root-relative path of the search module binary.
pub fn search_wasm_path() -> (r: String)
    ensures
        r@ == "assets/thought-search/thought-search.wasm"@,
{
    let mut out = String::new();
    out.append("assets/thought-search");
    crate::text::push_char(&mut out, '/');
    out.append("thought-search.wasm");
    proof {
        reveal_strlit("assets/thought-search");
        reveal_strlit("thought-search.wasm");
        reveal_strlit("assets/thought-search/thought-search.wasm");
        assert(out@ =~= "assets/thought-search/thought-search.wasm"@);
    }
    out
}

/// Assets prefix for the index page: it sits at the site root.
pub fn index_assets_prefix() -> (r: &'static str)
    ensures
        r@ == ""@,
{
    ""
}

/// An asset path for the index page.
pub fn index_assets_path(filename: &str) -> (r: String)
    ensures
        r@ == "assets/"@ + filename@,
{
    let mut out = String::new();
    out.append("assets/");
    out.append(filename);
    out
}

/// Search script path for the index page.
pub fn index_search_script_path() -> (r: &'static str)
    ensures
        r@ == "assets/thought-search/thought-search.js"@,
{
    "assets/thought-search/thought-search.js"
}

} // verus!

