//! The workspace: its root paths, and the content-tree rules — which
//! directories are articles or categories, which markdown files are locale
//! variants, how the default locale is resolved, and how an article is
//! assembled from what the application read off disk.

use vstd::prelude::*;

use crate::article::{Article, ArticlePreview, Category, Translation};
use crate::markdown::{extract, extract_spec, md_events_of, parse_events};
use crate::metadata::{ArticleMetadata, WorkspaceManifest};
use crate::text::{ends_with, split, split_string, str_ends_with, str_eq};

verus! {

/// What can go wrong while opening content.
#[derive(Debug, Clone)]
pub enum ContentError {
    ArticleNotFound,
    WorkspaceNotFound,
    MalformedMetadata { detail: String },
    InvalidPathEncoding,
}

/// A workspace: its root path and its manifest.
#[derive(Debug, Clone)]
pub struct Workspace {
    pub root: String,
    pub manifest: WorkspaceManifest,
}

impl Workspace {
    pub fn new(root: String, manifest: WorkspaceManifest) -> (r: Workspace)
        ensures
            r.root == root,
            r.manifest == manifest,
    {
        Workspace { root, manifest }
    }

    pub fn root(&self) -> (r: &str)
        ensures
            r@ == self.root@,
    {
        self.root.as_str()
    }

    pub fn manifest(&self) -> (r: &WorkspaceManifest)
        ensures
            r == &self.manifest,
    {
        &self.manifest
    }

    /// The workspace manifest file.
    pub fn manifest_path(&self) -> (r: String)
        ensures
            r@ == self.root@ + "/Thought.toml"@,
    {
        let mut out = String::new();
        out.append(self.root.as_str());
        out.append("/Thought.toml");
        out
    }

    /// The content root.
    pub fn articles_dir(&self) -> (r: String)
        ensures
            r@ == self.root@ + "/articles"@,
    {
        let mut out = String::new();
        out.append(self.root.as_str());
        out.append("/articles");
        out
    }

    /// The build output directory.
    pub fn build_dir(&self) -> (r: String)
        ensures
            r@ == self.root@ + "/build"@,
    {
        let mut out = String::new();
        out.append(self.root.as_str());
        out.append("/build");
        out
    }

    /// The cache directory.
    pub fn cache_dir(&self) -> (r: String)
        ensures
            r@ == self.root@ + "/.thought"@,
    {
        let mut out = String::new();
        out.append(self.root.as_str());
        out.append("/.thought");
        out
    }
}

/// Splits a slash-separated path into its segments.
pub fn into_segments(path: &str) -> (r: Vec<String>)
    ensures
        r.deep_view() == split(path@, '/'),
{
    split_string(path, '/')
}

/// One directory under the content root, as the application's walk saw
/// it: its segments, whether the two sidecars are there, and its plain
/// file names.
#[derive(Debug, Clone)]
pub struct DirRecord {
    pub segments: Vec<String>,
    pub has_article: bool,
    pub has_category: bool,
    pub files: Vec<String>,
}

/// Whether `p` is a strict prefix of `q`.
pub open spec fn strict_prefix_of(p: Seq<Seq<char>>, q: Seq<Seq<char>>) -> bool {
    p.len() < q.len() && p == q.take(p.len() as int)
}

/// Whether a directory's segments sit strictly inside some article
/// directory of the records.
pub open spec fn inside_article(records: Seq<DirRecord>, segs: Seq<Seq<char>>) -> bool {
    exists|j: int|
        0 <= j < records.len() && (#[trigger] records[j]).has_article && strict_prefix_of(
            records[j].segments.deep_view(),
            segs,
        )
}

/// The article directories of a walk: the records carrying the article
/// sidecar that do not sit inside another article directory — the walk
/// does not descend into articles.
pub open spec fn article_dirs(records: Seq<DirRecord>) -> Seq<Seq<Seq<char>>> {
    records.filter(
        |r: DirRecord| r.has_article && !inside_article(records, r.segments.deep_view()),
    ).map_values(|r: DirRecord| r.segments.deep_view())
}

/// Whether one record's segments are a strict prefix of another's.
fn is_strict_prefix(p: &Vec<String>, q: &Vec<String>) -> (r: bool)
    ensures
        r == strict_prefix_of(p.deep_view(), q.deep_view()),
{
    if p.len() >= q.len() {
        proof {
            assert(p.deep_view().len() == p@.len() && q.deep_view().len() == q@.len());
        }
        return false;
    }
    let mut i: usize = 0;
    while i < p.len()
        invariant
            p@.len() < q@.len(),
            i <= p@.len(),
            forall|j: int| 0 <= j < i ==> p.deep_view()[j] == q.deep_view()[j],
        decreases p@.len() - i,
    {
        if !str_eq(p[i].as_str(), q[i].as_str()) {
            proof {
                assert(p.deep_view()[i as int] == p@[i as int]@);
                assert(q.deep_view()[i as int] == q@[i as int]@);
                let qd = q.deep_view();
                assert(qd.take(p.deep_view().len() as int)[i as int] == qd[i as int]);
            }
            return false;
        }
        i = i + 1;
    }
    proof {
        assert(p.deep_view() =~= q.deep_view().take(p.deep_view().len() as int));
    }
    true
}

/// Selects the article directories of a walk, in walk order: every record
/// with the article sidecar that no other article record strictly
/// contains.
pub fn select_article_dirs(records: &Vec<DirRecord>) -> (r: Vec<Vec<String>>)
    ensures
        r.deep_view() == article_dirs(records@),
{
    let ghost rdv = records@;
    let ghost pred = |rec: DirRecord| rec.has_article && !inside_article(
        rdv,
        rec.segments.deep_view(),
    );
    let ghost proj = |rec: DirRecord| rec.segments.deep_view();
    let mut out: Vec<Vec<String>> = Vec::new();
    let mut i: usize = 0;
    while i < records.len()
        invariant
            rdv == records@,
            i <= records@.len(),
            pred == (|rec: DirRecord| rec.has_article && !inside_article(
                rdv,
                rec.segments.deep_view(),
            )),
            proj == (|rec: DirRecord| rec.segments.deep_view()),
            out.deep_view() == rdv.take(i as int).filter(pred).map_values(proj),
        decreases records@.len() - i,
    {
        proof {
            assert(rdv.take(i + 1).drop_last() =~= rdv.take(i as int));
            assert(rdv.take(i + 1).last() == rdv[i as int]);
            rdv.take(i as int).lemma_filter_push(rdv[i as int], pred);
            assert(rdv.take(i as int).push(rdv[i as int]) =~= rdv.take(i + 1));
        }
        let keep = if records[i].has_article {
            !contains_article_prefix(records, &records[i].segments)
        } else {
            false
        };
        proof {
            assert(keep == pred(rdv[i as int]));
        }
        if keep {
            let ghost prev_vec = out@;
            let ghost prev_dv = out.deep_view();
            proof {
                assert(prev_dv.len() == prev_vec.len());
            }
            let segs = crate::cache::clone_strings(&records[i].segments);
            let ghost segs_dv = segs.deep_view();
            out.push(segs);
            proof {
                let f1 = rdv.take(i as int).filter(pred);
                let goal = rdv.take(i + 1).filter(pred).map_values(proj);
                assert(rdv.take(i + 1).filter(pred) == f1.push(rdv[i as int]));
                assert(proj(rdv[i as int]) == rdv[i as int].segments.deep_view());
                assert(segs_dv == rdv[i as int].segments.deep_view());
                assert(out@ == prev_vec.push(segs));
                assert(out@[prev_vec.len() as int] == segs);
                assert(out.deep_view().len() == prev_vec.len() + 1);
                assert(goal.len() == f1.len() + 1);
                assert forall|j: int| 0 <= j < out.deep_view().len() implies out.deep_view()[j]
                    == goal[j] by {
                    if j < prev_vec.len() {
                        assert(out.deep_view()[j] == out@[j].deep_view());
                        assert(out@[j] == prev_vec[j]);
                        assert(prev_dv[j] == prev_vec[j].deep_view());
                        assert(prev_dv[j] == f1.map_values(proj)[j]);
                        assert(f1.push(rdv[i as int])[j] == f1[j]);
                        assert(goal[j] == proj(f1[j]));
                        assert(f1.map_values(proj)[j] == proj(f1[j]));
                    } else {
                        assert(out.deep_view()[j] == segs_dv);
                        assert(f1.push(rdv[i as int])[j] == rdv[i as int]);
                        assert(goal[j] == proj(rdv[i as int]));
                    }
                }
                assert(out.deep_view() =~= goal);
            }
        } else {
            proof {
                assert(out.deep_view() =~= rdv.take(i + 1).filter(pred).map_values(proj));
            }
        }
        i = i + 1;
    }
    proof {
        assert(rdv.take(records@.len() as int) =~= rdv);
    }
    out
}

/// Whether some article record of the walk strictly contains `segs`.
fn contains_article_prefix(records: &Vec<DirRecord>, segs: &Vec<String>) -> (r: bool)
    ensures
        r == inside_article(records@, segs.deep_view()),
{
    let ghost rdv = records@;
    let mut i: usize = 0;
    while i < records.len()
        invariant
            rdv == records@,
            i <= records@.len(),
            forall|j: int|
                0 <= j < i ==> !((#[trigger] rdv[j]).has_article && strict_prefix_of(
                    rdv[j].segments.deep_view(),
                    segs.deep_view(),
                )),
        decreases records@.len() - i,
    {
        if records[i].has_article {
            if is_strict_prefix(&records[i].segments, segs) {
                return true;
            }
        }
        i = i + 1;
    }
    false
}

/// The category directories of a walk: every record with the category
/// sidecar, in walk order.
pub fn select_category_dirs(records: &Vec<DirRecord>) -> (r: Vec<Vec<String>>)
    ensures
        r.deep_view() == records@.filter(|rec: DirRecord| rec.has_category).map_values(
            |rec: DirRecord| rec.segments.deep_view(),
        ),
{
    let ghost rdv = records@;
    let ghost pred = |rec: DirRecord| rec.has_category;
    let ghost proj = |rec: DirRecord| rec.segments.deep_view();
    let mut out: Vec<Vec<String>> = Vec::new();
    let mut i: usize = 0;
    while i < records.len()
        invariant
            rdv == records@,
            i <= records@.len(),
            pred == (|rec: DirRecord| rec.has_category),
            proj == (|rec: DirRecord| rec.segments.deep_view()),
            out.deep_view() == rdv.take(i as int).filter(pred).map_values(proj),
        decreases records@.len() - i,
    {
        proof {
            assert(rdv.take(i + 1).drop_last() =~= rdv.take(i as int));
            assert(rdv.take(i + 1).last() == rdv[i as int]);
            rdv.take(i as int).lemma_filter_push(rdv[i as int], pred);
            assert(rdv.take(i as int).push(rdv[i as int]) =~= rdv.take(i + 1));
        }
        if records[i].has_category {
            let ghost prev_vec = out@;
            let ghost prev_dv = out.deep_view();
            proof {
                assert(prev_dv.len() == prev_vec.len());
            }
            let segs = crate::cache::clone_strings(&records[i].segments);
            let ghost segs_dv = segs.deep_view();
            out.push(segs);
            proof {
                let f1 = rdv.take(i as int).filter(pred);
                let goal = rdv.take(i + 1).filter(pred).map_values(proj);
                assert(rdv.take(i + 1).filter(pred) == f1.push(rdv[i as int]));
                assert(proj(rdv[i as int]) == rdv[i as int].segments.deep_view());
                assert(segs_dv == rdv[i as int].segments.deep_view());
                assert(out@ == prev_vec.push(segs));
                assert(out@[prev_vec.len() as int] == segs);
                assert(out.deep_view().len() == prev_vec.len() + 1);
                assert(goal.len() == f1.len() + 1);
                assert forall|j: int| 0 <= j < out.deep_view().len() implies out.deep_view()[j]
                    == goal[j] by {
                    if j < prev_vec.len() {
                        assert(out.deep_view()[j] == out@[j].deep_view());
                        assert(out@[j] == prev_vec[j]);
                        assert(prev_dv[j] == prev_vec[j].deep_view());
                        assert(prev_dv[j] == f1.map_values(proj)[j]);
                        assert(f1.push(rdv[i as int])[j] == f1[j]);
                        assert(goal[j] == proj(f1[j]));
                        assert(f1.map_values(proj)[j] == proj(f1[j]));
                    } else {
                        assert(out.deep_view()[j] == segs_dv);
                        assert(f1.push(rdv[i as int])[j] == rdv[i as int]);
                        assert(goal[j] == proj(rdv[i as int]));
                    }
                }
                assert(out.deep_view() =~= goal);
            }
        } else {
            proof {
                assert(out.deep_view() =~= rdv.take(i + 1).filter(pred).map_values(proj));
            }
        }
        i = i + 1;
    }
    proof {
        assert(rdv.take(records@.len() as int) =~= rdv);
    }
    out
}

/// The locale of a markdown file name, when the file is a translation
/// variant: any `<stem>.md` except the default `article.md`.
pub open spec fn locale_of_file(name: Seq<char>) -> Option<Seq<char>> {
    if ends_with(name, ".md"@) && name != "article.md"@ {
        Some(name.take(name.len() - 3))
    } else {
        None
    }
}

/// The locale variants among a directory's files, in listing order.
pub open spec fn locales_of(files: Seq<Seq<char>>) -> Seq<Seq<char>>
    decreases files.len(),
{
    if files.len() == 0 {
        Seq::empty()
    } else {
        locales_of(files.drop_last()) + match locale_of_file(files.last()) {
            Some(l) => seq![l],
            None => Seq::empty(),
        }
    }
}

/// Lists the locale variants in a directory: the stem of every `.md` file
/// except the default `article.md`.
pub fn list_locales(files: &Vec<String>) -> (r: Vec<String>)
    ensures
        r.deep_view() == locales_of(files.deep_view()),
{
    let ghost fdv = files.deep_view();
    let mut out: Vec<String> = Vec::new();
    let mut i: usize = 0;
    while i < files.len()
        invariant
            fdv == files.deep_view(),
            fdv.len() == files@.len(),
            i <= files@.len(),
            out.deep_view() == locales_of(fdv.take(i as int)),
        decreases files@.len() - i,
    {
        proof {
            assert(fdv.take(i + 1).drop_last() =~= fdv.take(i as int));
            assert(fdv.take(i + 1).last() == fdv[i as int]);
            assert(fdv[i as int] == files@[i as int]@);
        }
        let name = files[i].as_str();
        if str_ends_with(name, ".md") && !str_eq(name, "article.md") {
            proof {
                reveal_strlit(".md");
            }
            let n = name.unicode_len();
            let stem = name.substring_char(0, n - 3).to_owned();
            let ghost prev_vec = out@;
            proof {
                assert(out.deep_view().len() == prev_vec.len());
                assert(stem@ == locale_of_file(fdv[i as int]).unwrap());
            }
            out.push(stem);
            proof {
                assert(out@ == prev_vec.push(out@[prev_vec.len() as int]));
                assert(out.deep_view() =~= locales_of(fdv.take(i + 1)));
            }
        } else {
            proof {
                assert(out.deep_view() =~= locales_of(fdv.take(i + 1)));
            }
        }
        i = i + 1;
    }
    proof {
        assert(fdv.take(files@.len() as int) =~= fdv);
    }
    out
}

/// The default locale of an article: the explicit metadata language when
/// it says something, else the detected language, else `en`.
pub open spec fn default_locale_of(
    lang: Option<Seq<char>>,
    detected: Option<Seq<char>>,
) -> Seq<char> {
    match lang {
        Some(l) => if !crate::metadata::is_blank(l) {
            l
        } else {
            fallback_locale(detected)
        },
        None => fallback_locale(detected),
    }
}

pub open spec fn fallback_locale(detected: Option<Seq<char>>) -> Seq<char> {
    match detected {
        Some(d) => d,
        None => "en"@,
    }
}

/// Resolves the default locale: explicit metadata language first, then a
/// reliable detection result, then `en`.
pub fn resolve_default_locale(lang: Option<&String>, detected: Option<String>) -> (r: String)
    ensures
        r@ == default_locale_of(
            match lang {
                Some(l) => Some(l@),
                None => None,
            },
            match detected {
                Some(d) => Some(d@),
                None => None,
            },
        ),
{
    match lang {
        Some(l) => {
            if !crate::metadata::str_is_blank(l.as_str()) {
                return l.clone();
            }
        },
        None => {},
    }
    match detected {
        Some(d) => d,
        None => {
            let mut s = String::new();
            s.append("en");
            s
        },
    }
}

/// The locale an article opens with: the requested one, else the default.
pub fn choose_locale(requested: Option<String>, default_locale: &str) -> (r: String)
    ensures
        match requested {
            Some(l) => r@ == l@,
            None => r@ == default_locale@,
        },
{
    match requested {
        Some(l) => l,
        None => default_locale.to_owned(),
    }
}

/// The markdown file of a locale: the default locale reads `article.md`,
/// any other reads `<locale>.md`.
pub fn content_file_for(locale: &str, default_locale: &str) -> (r: String)
    ensures
        locale@ == default_locale@ ==> r@ == "article.md"@,
        locale@ != default_locale@ ==> r@ == locale@ + ".md"@,
{
    if str_eq(locale, default_locale) {
        let mut s = String::new();
        s.append("article.md");
        s
    } else {
        let mut s = String::new();
        s.append(locale);
        s.append(".md");
        s
    }
}

/// Assembles an article from what the application read off disk: the
/// title is the first heading of the content, else the formatted creation
/// date; the description is the first paragraph after the title, unless
/// the metadata overrides it.  The segments must name the article: the
/// last one is its slug.
pub fn build_article(
    segments: &Vec<String>,
    category: Category,
    metadata: ArticleMetadata,
    content: String,
    locale: String,
    default_locale: String,
    translations: Vec<Translation>,
) -> (r: Result<Article, ContentError>)
    requires
        metadata.created.wf(),
    ensures
        match r {
            Ok(a) => {
                let events = md_events_of(content@);
                &&& segments@.len() > 0
                &&& a.preview.slug@ == segments@[segments@.len() - 1]@
                &&& a.preview.title@ == crate::article::title_of(
                    extract_spec(events).title,
                    metadata.created.seconds as int,
                )
                &&& a.preview.description@ == (match crate::metadata::opt_view(
                    metadata.description,
                ) {
                    Some(d) => d,
                    None => extract_spec(events).description,
                })
                &&& a.content == content
                &&& a.preview.category == category
                &&& a.preview.metadata == metadata
                &&& a.preview.locale == locale
                &&& a.preview.default_locale == default_locale
                &&& a.preview.translations == translations
            },
            Err(e) => segments@.len() == 0 && e is ArticleNotFound,
        },
{
    if segments.len() == 0 {
        return Err(ContentError::ArticleNotFound);
    }
    let slug = segments[segments.len() - 1].clone();
    let events = parse_events(content.as_str());
    let (extracted_title, extracted_description) = extract(&events);
    let title = crate::article::build_title(extracted_title, &metadata.created);
    let description = match &metadata.description {
        Some(d) => d.clone(),
        None => extracted_description,
    };
    Ok(
        Article {
            preview: ArticlePreview {
                title,
                slug,
                category,
                metadata,
                description,
                locale,
                default_locale,
                translations,
            },
            content,
        },
    )
}

} // verus!
