//! Article slugs: the directory name generated from a title.

use vstd::prelude::*;

verus! {

/// A generated slug came out empty.
#[derive(Debug, Clone, PartialEq, Eq, Structural)]
pub struct EmptySlug;

/// A non-empty article slug.
#[derive(Debug, Clone)]
pub struct ArticleSlug {
    text: String,
}

/// Whether a character is alphanumeric in the Unicode sense.
pub uninterp spec fn is_alnum(c: char) -> bool;

/// Relies on `char::is_alphanumeric`: the Unicode alphanumeric classes, a
/// function of the character alone.
#[verifier::external_body]
fn char_is_alphanumeric(c: char) -> (r: bool)
    ensures
        r == is_alnum(c),
{
    c.is_alphanumeric()
}

/// The lowercase form of a string.
pub uninterp spec fn lower_of(s: Seq<char>) -> Seq<char>;

/// Relies on `str::to_lowercase`: the Unicode lowercase of the input, a
/// function of the input alone.
#[verifier::external_body]
fn to_lowercase(s: &str) -> (r: String)
    ensures
        r@ == lower_of(s@),
{
    s.to_lowercase()
}

/// One slug character, if the character survives: spaces become dashes,
/// then only alphanumerics and dashes stay.
pub open spec fn slug_char(c: char) -> Seq<char> {
    let m = if c == ' ' {
        '-'
    } else {
        c
    };
    if m == '-' || is_alnum(m) {
        seq![m]
    } else {
        Seq::empty()
    }
}

/// The slug characters of a lowercased title.
pub open spec fn slug_chars(s: Seq<char>) -> Seq<char>
    decreases s.len(),
{
    if s.len() == 0 {
        Seq::empty()
    } else {
        slug_chars(s.drop_last()) + slug_char(s.last())
    }
}

/// The slug of a title: lowercase it, turn spaces into dashes, keep only
/// alphanumerics and dashes.
pub open spec fn slug_of(title: Seq<char>) -> Seq<char> {
    slug_chars(lower_of(title))
}

impl View for ArticleSlug {
    type V = Seq<char>;

    closed spec fn view(&self) -> Seq<char> {
        self.text@
    }
}

impl ArticleSlug {
    pub fn as_str(&self) -> (r: &str)
        ensures
            r@ == self@,
    {
        self.text.as_str()
    }

    pub fn into_string(self) -> (r: String)
        ensures
            r@ == self@,
    {
        self.text
    }

    /// Generates a slug from a title; empty results are rejected, so a
    /// slug is never empty.
    pub fn from_title(title: &str) -> (r: Result<ArticleSlug, EmptySlug>)
        ensures
            match r {
                Ok(s) => s@ == slug_of(title@) && slug_of(title@).len() > 0,
                Err(_) => slug_of(title@).len() == 0,
            },
    {
        let lowered = to_lowercase(title);
        let low = lowered.as_str();
        let n = low.unicode_len();
        let mut out = String::new();
        let mut i: usize = 0;
        while i < n
            invariant
                n == low@.len(),
                low@ == lower_of(title@),
                i <= n,
                out@ == slug_chars(low@.take(i as int)),
            decreases n - i,
        {
            let c = low.get_char(i);
            let m = if c == ' ' {
                '-'
            } else {
                c
            };
            if m == '-' {
                crate::text::push_char(&mut out, m);
            } else if char_is_alphanumeric(m) {
                crate::text::push_char(&mut out, m);
            }
            proof {
                assert(low@.take(i + 1).drop_last() =~= low@.take(i as int));
                assert(low@.take(i + 1).last() == low@[i as int]);
                assert(out@ =~= slug_chars(low@.take(i + 1)));
            }
            i = i + 1;
        }
        proof {
            assert(low@.take(n as int) =~= low@);
        }
        if out.unicode_len() == 0 {
            Err(EmptySlug)
        } else {
            Ok(ArticleSlug { text: out })
        }
    }
}

} // verus!
