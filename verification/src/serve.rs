//! The preview server's decisions: sanitizing request paths, mapping an
//! HTML request back to article segments and a locale, classifying a
//! request, and the candidate ports of the fallback probe.  The sockets
//! and files around these decisions stay with the application.

use vstd::prelude::*;

use crate::text::{split, split_string, str_eq};

verus! {

/// The sanitized parts of a request path: empty parts and `.` dropped; a
/// path climbing with `..` is rejected whole.
pub open spec fn sanitize_parts(parts: Seq<Seq<char>>) -> Option<Seq<Seq<char>>>
    decreases parts.len(),
{
    if parts.len() == 0 {
        Some(Seq::empty())
    } else {
        match sanitize_parts(parts.drop_last()) {
            None => None,
            Some(done) => if parts.last() == ".."@ {
                None
            } else if parts.last().len() == 0 || parts.last() == "."@ {
                Some(done)
            } else {
                Some(done.push(parts.last()))
            },
        }
    }
}

/// A climb anywhere rejects the whole path.
proof fn lemma_sanitize_dotdot(parts: Seq<Seq<char>>, i: int)
    requires
        0 <= i < parts.len(),
        parts[i] == ".."@,
    ensures
        sanitize_parts(parts) is None,
    decreases parts.len(),
{
    if i == parts.len() - 1 {
        assert(parts.last() == ".."@);
    } else {
        lemma_sanitize_dotdot(parts.drop_last(), i);
    }
}

/// The sanitized form of a raw request path.
pub open spec fn sanitized_path(s: Seq<char>) -> Option<Seq<Seq<char>>> {
    sanitize_parts(split(s, '/'))
}

/// Sanitizes a raw request path into its segments: empty segments and `.`
/// vanish, and any `..` rejects the request.
pub fn sanitize_relative_path(path: &str) -> (r: Option<Vec<String>>)
    ensures
        match r {
            Some(v) => sanitized_path(path@) == Some(v.deep_view()),
            None => sanitized_path(path@) is None,
        },
{
    let parts = split_string(path, '/');
    let ghost pdv = parts.deep_view();
    let mut out: Vec<String> = Vec::new();
    let mut i: usize = 0;
    while i < parts.len()
        invariant
            pdv == parts.deep_view(),
            pdv == split(path@, '/'),
            pdv.len() == parts@.len(),
            i <= parts@.len(),
            sanitize_parts(pdv.take(i as int)) == Some(out.deep_view()),
        decreases parts@.len() - i,
    {
        proof {
            assert(pdv.take(i + 1).drop_last() =~= pdv.take(i as int));
            assert(pdv.take(i + 1).last() == pdv[i as int]);
            assert(pdv[i as int] == parts@[i as int]@);
        }
        let part = parts[i].as_str();
        if str_eq(part, "..") {
            proof {
                lemma_sanitize_dotdot(pdv, i as int);
            }
            return None;
        }
        if part.unicode_len() == 0 || str_eq(part, ".") {
            proof {
                assert(sanitize_parts(pdv.take(i + 1)) == Some(out.deep_view()));
            }
        } else {
            let ghost prev_vec = out@;
            let ghost prev_dv = out.deep_view();
            let item = part.to_owned();
            out.push(item);
            proof {
                assert(out@ == prev_vec.push(out@[prev_vec.len() as int]));
                assert(out.deep_view() =~= prev_dv.push(pdv[i as int]));
            }
        }
        i = i + 1;
    }
    proof {
        assert(pdv.take(parts@.len() as int) =~= pdv);
    }
    Some(out)
}

/// The last-`.` split of a file name: the part before the first dot and
/// the part after, as `str::split_once` gives it.
pub open spec fn split_once_dot(s: Seq<char>) -> Option<(Seq<char>, Seq<char>)> {
    let parts = split(s, '.');
    if parts.len() >= 2 {
        Some((parts[0], join_rest(parts)))
    } else {
        None
    }
}

/// The remainder after the first part, joined back with dots.
pub open spec fn join_rest(parts: Seq<Seq<char>>) -> Seq<char> {
    crate::text::join(parts.drop_first(), "."@)
}

/// Splits the last segment of an article request into its slug and its
/// locale: a first dot with something on both sides names a locale;
/// otherwise the segment stays whole.
pub fn split_locale_from_segments(segments: Vec<String>) -> (r: Option<
    (Vec<String>, Option<String>),
>)
    ensures
        segments@.len() == 0 ==> r is None,
        segments@.len() > 0 ==> match r {
            Some(p) => {
                let last = segments@[segments@.len() - 1]@;
                &&& p.0@.len() == segments@.len()
                &&& (forall|j: int|
                    0 <= j < segments@.len() - 1 ==> #[trigger] p.0@[j]@ == segments@[j]@)
                &&& (match split_once_dot(last) {
                    Some(t) => if t.0.len() > 0 && t.1.len() > 0 {
                        p.0@[segments@.len() - 1]@ == t.0 && (p.1 matches Some(l) && l@ == t.1)
                    } else {
                        p.0@[segments@.len() - 1]@ == last && p.1 is None
                    },
                    None => p.0@[segments@.len() - 1]@ == last && p.1 is None,
                })
            },
            None => false,
        },
{
    let mut segments = segments;
    if segments.len() == 0 {
        return None;
    }
    let last = segments.pop().unwrap();
    let ghost lastv = last@;
    let parts = split_string(last.as_str(), '.');
    let ghost pdv = parts.deep_view();
    proof {
        crate::text::lemma_split_len(lastv, '.', Seq::empty());
    }
    if parts.len() >= 2 {
        let mut parts = parts;
        let slug = parts.remove(0);
        let rest = crate::text::join_strings(&parts, ".");
        proof {
            assert(parts.deep_view() =~= pdv.drop_first());
            assert(slug@ == pdv[0]);
            assert(rest@ == join_rest(pdv));
        }
        if slug.as_str().unicode_len() > 0 && rest.as_str().unicode_len() > 0 {
            segments.push(slug);
            return Some((segments, Some(rest)));
        } else {
            segments.push(last);
            return Some((segments, None));
        }
    }
    segments.push(last);
    Some((segments, None))
}

/// How the preview server answers a request, as a function of the
/// sanitized path and of what the build directory already holds.
#[derive(Debug, Clone, PartialEq, Eq, Structural)]
pub enum RoutePlan {
    /// An empty path: build the index on demand and serve it.
    ServeIndex,
    /// The build directory holds the file: serve it as it stands.
    ServeStatic,
    /// An `.html` request: render the article on demand.
    RenderArticle,
    /// No extension: retry the request with `.html` appended.
    TryHtml,
    /// Nothing fits.
    NotFound,
}

/// Whether the last segment carries an extension: it holds a dot.
pub open spec fn has_extension(parts: Seq<Seq<char>>) -> bool {
    parts.len() > 0 && split(parts[parts.len() - 1], '.').len() >= 2
}

/// Whether the last segment ends in `.html`.
pub open spec fn is_html_request(parts: Seq<Seq<char>>) -> bool {
    parts.len() > 0 && crate::text::ends_with(parts[parts.len() - 1], ".html"@)
}

/// Classifies a request: the index for an empty path, a static file when
/// one is there, a render for `.html`, a retry with `.html` for an
/// extensionless path, and nothing otherwise.
pub fn classify_request(sanitized: &Vec<String>, static_exists: bool) -> (r: RoutePlan)
    ensures
        sanitized@.len() == 0 ==> r == RoutePlan::ServeIndex,
        sanitized@.len() > 0 && static_exists ==> r == RoutePlan::ServeStatic,
        sanitized@.len() > 0 && !static_exists && is_html_request(sanitized.deep_view()) ==> r
            == RoutePlan::RenderArticle,
        sanitized@.len() > 0 && !static_exists && !is_html_request(sanitized.deep_view())
            && !has_extension(sanitized.deep_view()) ==> r == RoutePlan::TryHtml,
        sanitized@.len() > 0 && !static_exists && !is_html_request(sanitized.deep_view())
            && has_extension(sanitized.deep_view()) ==> r == RoutePlan::NotFound,
{
    if sanitized.len() == 0 {
        return RoutePlan::ServeIndex;
    }
    if static_exists {
        return RoutePlan::ServeStatic;
    }
    let last = sanitized[sanitized.len() - 1].as_str();
    proof {
        assert(sanitized.deep_view()[sanitized@.len() - 1] == sanitized@[sanitized@.len() - 1]@);
        crate::text::lemma_split_len(last@, '.', Seq::empty());
    }
    if crate::text::str_ends_with(last, ".html") {
        return RoutePlan::RenderArticle;
    }
    let parts = split_string(last, '.');
    if parts.len() < 2 {
        RoutePlan::TryHtml
    } else {
        RoutePlan::NotFound
    }
}

/// The candidate ports of the fallback probe: fifty, beginning at the
/// requested one.
pub fn port_candidates(start: u16) -> (r: Vec<u16>)
    requires
        start + 49 <= u16::MAX,
    ensures
        r@.len() == 50,
        forall|j: int| 0 <= j < 50 ==> r@[j] == start + j,
{
    let mut out: Vec<u16> = Vec::new();
    let mut i: u16 = 0;
    while i < 50
        invariant
            start + 49 <= u16::MAX,
            i <= 50,
            out@.len() == i as int,
            forall|j: int| 0 <= j < i ==> out@[j] == start + j,
        decreases 50 - i,
    {
        out.push(start + i);
        i = i + 1;
    }
    out
}

} // verus!
