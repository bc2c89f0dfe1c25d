//! Articles, their previews, categories and locale variants, with the
//! output-path rules and the content-addressed fingerprint.

use vstd::prelude::*;

use crate::metadata::{opt_view, ArticleMetadata, CategoryMetadata};
use crate::text::{
    append_i64, append_quoted, append_str_array, dec_rep_i64, push_char, quoted, str_array,
    str_eq,
};
use crate::timefmt::display_date_of;

verus! {

/// A category in the workspace: the directory segments under the content
/// root and the sidecar metadata.
#[derive(Debug, Clone)]
pub struct Category {
    pub segments: Vec<String>,
    pub metadata: CategoryMetadata,
}

impl Category {
    pub fn new(segments: Vec<String>, metadata: CategoryMetadata) -> (r: Category)
        ensures
            r.segments == segments,
            r.metadata == metadata,
    {
        Category { segments, metadata }
    }

    pub fn segments(&self) -> (r: &Vec<String>)
        ensures
            r == &self.segments,
    {
        &self.segments
    }

    pub fn metadata(&self) -> (r: &CategoryMetadata)
        ensures
            r == &self.metadata,
    {
        &self.metadata
    }
}

/// A translated title for one locale.
#[derive(Debug, Clone)]
pub struct Translation {
    pub locale: String,
    pub title: String,
}

impl View for Translation {
    type V = (Seq<char>, Seq<char>);

    open spec fn view(&self) -> (Seq<char>, Seq<char>) {
        (self.locale@, self.title@)
    }
}

impl DeepView for Translation {
    type V = (Seq<char>, Seq<char>);

    open spec fn deep_view(&self) -> (Seq<char>, Seq<char>) {
        self.view()
    }
}

/// The spec-level image of a category.
pub struct CategoryV {
    pub segments: Seq<Seq<char>>,
    pub metadata: crate::metadata::CategoryMetadataV,
}

impl View for Category {
    type V = CategoryV;

    open spec fn view(&self) -> CategoryV {
        CategoryV { segments: self.segments.deep_view(), metadata: self.metadata@ }
    }
}

impl DeepView for Category {
    type V = CategoryV;

    open spec fn deep_view(&self) -> CategoryV {
        self.view()
    }
}

/// `../` once per category depth: the prefix from an article's output
/// directory back to the site root.
pub open spec fn up_prefix(depth: nat) -> Seq<char>
    decreases depth,
{
    if depth == 0 {
        Seq::empty()
    } else {
        up_prefix((depth - 1) as nat) + "../"@
    }
}

/// A file name with its leading slashes dropped, as asset paths expect.
pub open spec fn trim_leading_slashes(s: Seq<char>) -> Seq<char>
    decreases s.len(),
{
    if s.len() > 0 && s[0] == '/' {
        trim_leading_slashes(s.drop_first())
    } else {
        s
    }
}

/// A contents-preserving copy of a category.
pub fn duplicate_category(c: &Category) -> (r: Category)
    ensures
        r@ == c@,
{
    Category {
        segments: crate::cache::clone_strings(&c.segments),
        metadata: crate::metadata::CategoryMetadata {
            created: c.metadata.created,
            name: c.metadata.name.clone(),
            description: c.metadata.description.clone(),
        },
    }
}

/// A preview of an article: everything but the raw content.
#[derive(Debug, Clone)]
pub struct ArticlePreview {
    pub title: String,
    pub slug: String,
    pub category: Category,
    pub metadata: ArticleMetadata,
    pub description: String,
    pub locale: String,
    pub default_locale: String,
    pub translations: Vec<Translation>,
}

/// `seg0/seg1/.../` — every segment with a trailing separator.
pub open spec fn seg_prefix(parts: Seq<Seq<char>>) -> Seq<char>
    decreases parts.len(),
{
    if parts.len() == 0 {
        Seq::empty()
    } else {
        seg_prefix(parts.drop_last()) + parts.last() + seq!['/']
    }
}

/// The output path of an article, without extension:
/// `<category>/.../<slug>`.
pub open spec fn output_path_of(category: Seq<Seq<char>>, slug: Seq<char>) -> Seq<char> {
    seg_prefix(category) + slug
}

/// The output file of an article: the default locale gets `.html`, any
/// other locale gets `.<locale>.html` (the locale routing rule).
pub open spec fn output_file_of(
    category: Seq<Seq<char>>,
    slug: Seq<char>,
    locale: Seq<char>,
    default_locale: Seq<char>,
) -> Seq<char> {
    if locale == default_locale {
        output_path_of(category, slug) + ".html"@
    } else {
        output_path_of(category, slug) + seq!['.'] + locale + ".html"@
    }
}

/// Appends `seg0/seg1/.../slug` to `out`.
fn append_path(out: &mut String, category: &Vec<String>, slug: &str)
    ensures
        final(out)@ == old(out)@ + output_path_of(category.deep_view(), slug@),
{
    let ghost dv = category.deep_view();
    let mut i: usize = 0;
    while i < category.len()
        invariant
            dv == category.deep_view(),
            dv.len() == category@.len(),
            i <= category@.len(),
            out@ == old(out)@ + seg_prefix(dv.take(i as int)),
        decreases category@.len() - i,
    {
        out.append(category[i].as_str());
        push_char(out, '/');
        proof {
            assert(dv.take(i + 1).drop_last() =~= dv.take(i as int));
            assert(dv.take(i + 1).last() == dv[i as int]);
            assert(dv[i as int] == category@[i as int]@);
            assert(out@ =~= old(out)@ + seg_prefix(dv.take(i + 1)));
        }
        i = i + 1;
    }
    out.append(slug);
    proof {
        assert(dv.take(category@.len() as int) =~= dv);
        assert(out@ =~= old(out)@ + output_path_of(dv, slug@));
    }
}

impl ArticlePreview {
    pub fn title(&self) -> (r: &str)
        ensures
            r@ == self.title@,
    {
        self.title.as_str()
    }

    pub fn slug(&self) -> (r: &str)
        ensures
            r@ == self.slug@,
    {
        self.slug.as_str()
    }

    pub fn category(&self) -> (r: &Category)
        ensures
            r == &self.category,
    {
        &self.category
    }

    pub fn metadata(&self) -> (r: &ArticleMetadata)
        ensures
            r == &self.metadata,
    {
        &self.metadata
    }

    pub fn description(&self) -> (r: &str)
        ensures
            r@ == self.description@,
    {
        self.description.as_str()
    }

    pub fn locale(&self) -> (r: &str)
        ensures
            r@ == self.locale@,
    {
        self.locale.as_str()
    }

    pub fn default_locale(&self) -> (r: &str)
        ensures
            r@ == self.default_locale@,
    {
        self.default_locale.as_str()
    }

    pub fn translations(&self) -> (r: &Vec<Translation>)
        ensures
            r == &self.translations,
    {
        &self.translations
    }

    /// A contents-preserving copy of this preview.
    pub fn duplicate(&self) -> (r: ArticlePreview)
        ensures
            r@ == self@,
    {
        ArticlePreview {
            title: self.title.clone(),
            slug: self.slug.clone(),
            category: duplicate_category(&self.category),
            metadata: crate::metadata::ArticleMetadata {
                created: self.metadata.created,
                tags: crate::cache::clone_strings(&self.metadata.tags),
                author: self.metadata.author.clone(),
                description: clone_opt(&self.metadata.description),
                lang: clone_opt(&self.metadata.lang),
            },
            description: self.description.clone(),
            locale: self.locale.clone(),
            default_locale: self.default_locale.clone(),
            translations: duplicate_translations(&self.translations),
        }
    }

    /// Whether this variant carries the article's primary language.
    pub open spec fn is_default_locale_spec(self) -> bool {
        self.locale@ == self.default_locale@
    }

    pub fn is_default_locale(&self) -> (r: bool)
        ensures
            r == self.is_default_locale_spec(),
    {
        str_eq(self.locale.as_str(), self.default_locale.as_str())
    }

    /// The view of the output path, without extension.
    pub open spec fn output_path_spec(self) -> Seq<char> {
        output_path_of(self.category.segments.deep_view(), self.slug@)
    }

    /// The view of the output file name.
    pub open spec fn output_file_spec(self) -> Seq<char> {
        output_file_of(
            self.category.segments.deep_view(),
            self.slug@,
            self.locale@,
            self.default_locale@,
        )
    }

    /// Relative output path of the rendered article, without extension.
    pub fn output_path(&self) -> (r: String)
        ensures
            r@ == self.output_path_spec(),
    {
        let mut out = String::new();
        append_path(&mut out, &self.category.segments, self.slug.as_str());
        out
    }

    /// Relative output file of the rendered article: locale routing.
    pub fn output_file(&self) -> (r: String)
        ensures
            r@ == self.output_file_spec(),
    {
        let mut out = String::new();
        append_path(&mut out, &self.category.segments, self.slug.as_str());
        if !self.is_default_locale() {
            push_char(&mut out, '.');
            out.append(self.locale.as_str());
        }
        out.append(".html");
        proof {
            assert(out@ =~= self.output_file_spec());
        }
        out
    }

    /// The prefix from this article's page back to the site root: one
    /// `../` per category level.
    pub fn assets_prefix(&self) -> (r: String)
        ensures
            r@ == up_prefix(self.category.segments@.len() as nat),
    {
        let mut out = String::new();
        let depth = self.category.segments.len();
        let mut i: usize = 0;
        while i < depth
            invariant
                i <= depth,
                out@ == up_prefix(i as nat),
            decreases depth - i,
        {
            out.append("../");
            proof {
                assert(out@ =~= up_prefix((i + 1) as nat));
            }
            i = i + 1;
        }
        out
    }

    /// An asset path relative to this article's page: the root prefix,
    /// then `assets/`, then the file name with leading slashes dropped.
    pub fn assets_path(&self, filename: &str) -> (r: String)
        ensures
            filename@.len() == 0 ==> r@ == up_prefix(self.category.segments@.len() as nat),
            filename@.len() > 0 ==> r@ == up_prefix(self.category.segments@.len() as nat)
                + "assets/"@ + trim_leading_slashes(filename@),
    {
        let mut out = self.assets_prefix();
        let n = filename.unicode_len();
        if n == 0 {
            return out;
        }
        out.append("assets/");
        let mut i: usize = 0;
        loop
            invariant_except_break
                n == filename@.len(),
                i <= n,
                forall|j: int| 0 <= j < i ==> filename@[j] == '/',
            ensures
                n == filename@.len(),
                i <= n,
                forall|j: int| 0 <= j < i ==> filename@[j] == '/',
                i < n ==> filename@[i as int] != '/',
            decreases n - i,
        {
            if i >= n {
                break ;
            }
            if filename.get_char(i) != '/' {
                break ;
            }
            i = i + 1;
        }
        let rest = filename.substring_char(i, n);
        out.append(rest);
        proof {
            lemma_trim_at(filename@, i as int);
            assert(rest@ =~= trim_leading_slashes(filename@));
        }
        out
    }

    /// The search loader script, relative to this article's page.
    pub fn search_script_path(&self) -> (r: String)
        ensures
            r@ == up_prefix(self.category.segments@.len() as nat)
                + "assets/thought-search/thought-search.js"@,
    {
        let mut out = self.assets_prefix();
        out.append("assets/thought-search/thought-search.js");
        out
    }

    /// The search module binary, relative to this article's page.
    pub fn search_wasm_path(&self) -> (r: String)
        ensures
            r@ == up_prefix(self.category.segments@.len() as nat)
                + "assets/thought-search/thought-search.wasm"@,
    {
        let mut out = self.assets_prefix();
        out.append("assets/thought-search/thought-search.wasm");
        out
    }

    /// A permalink under a base URL: the base, one slash, the output file.
    pub fn permalink(&self, base_url: &str) -> (r: String)
        ensures
            base_url@.len() > 0 && base_url@.last() == '/' ==> r@ == base_url@
                + self.output_file_spec(),
            !(base_url@.len() > 0 && base_url@.last() == '/') ==> r@ == base_url@ + seq!['/']
                + self.output_file_spec(),
    {
        let mut out = String::new();
        out.append(base_url);
        let n = base_url.unicode_len();
        if n == 0 || base_url.get_char(n - 1) != '/' {
            push_char(&mut out, '/');
        }
        let file = self.output_file();
        out.append(file.as_str());
        out
    }
}

/// Trimming stops at the first character that is no slash.
proof fn lemma_trim_at(s: Seq<char>, i: int)
    requires
        0 <= i <= s.len(),
        forall|j: int| 0 <= j < i ==> s[j] == '/',
        i < s.len() ==> s[i] != '/',
    ensures
        trim_leading_slashes(s) == s.subrange(i, s.len() as int),
    decreases i,
{
    if i == 0 {
        assert(trim_leading_slashes(s) =~= s.subrange(0, s.len() as int));
    } else {
        assert(s[0] == '/');
        let t = s.drop_first();
        assert(forall|j: int| 0 <= j < i - 1 ==> t[j] == '/');
        assert(i - 1 < t.len() ==> t[i - 1] != '/');
        lemma_trim_at(t, i - 1);
        assert(t.subrange(i - 1, t.len() as int) =~= s.subrange(i, s.len() as int));
    }
}

/// The locale-routing law: the emitted output file is
/// `<category>/<slug>.html` exactly when the variant is in its default
/// locale, and `<category>/<slug>.<locale>.html` otherwise — and the two
/// shapes never coincide.
pub proof fn lemma_locale_routing(p: ArticlePreview)
    ensures
        p.is_default_locale_spec() ==> p.output_file_spec() == p.output_path_spec() + ".html"@,
        !p.is_default_locale_spec() ==> p.output_file_spec() == p.output_path_spec() + seq!['.']
            + p.locale@ + ".html"@,
        (p.output_file_spec() == p.output_path_spec() + ".html"@) <==> p.is_default_locale_spec(),
{
    reveal_strlit(".html");
    if !p.is_default_locale_spec() {
        assert(p.output_file_spec().len() == p.output_path_spec().len() + 6 + p.locale@.len());
        assert((p.output_path_spec() + ".html"@).len() == p.output_path_spec().len() + 5);
    }
}

/// The spec-level image of a preview.
pub struct ArticlePreviewV {
    pub title: Seq<char>,
    pub slug: Seq<char>,
    pub category: CategoryV,
    pub metadata: crate::metadata::ArticleMetadataV,
    pub description: Seq<char>,
    pub locale: Seq<char>,
    pub default_locale: Seq<char>,
    pub translations: Seq<(Seq<char>, Seq<char>)>,
}

impl View for ArticlePreview {
    type V = ArticlePreviewV;

    open spec fn view(&self) -> ArticlePreviewV {
        ArticlePreviewV {
            title: self.title@,
            slug: self.slug@,
            category: self.category@,
            metadata: self.metadata@,
            description: self.description@,
            locale: self.locale@,
            default_locale: self.default_locale@,
            translations: self.translations.deep_view(),
        }
    }
}

impl DeepView for ArticlePreview {
    type V = ArticlePreviewV;

    open spec fn deep_view(&self) -> ArticlePreviewV {
        self.view()
    }
}

fn clone_opt(v: &Option<String>) -> (r: Option<String>)
    ensures
        opt_view(r) == opt_view(*v),
{
    match v {
        Some(s) => Some(s.clone()),
        None => None,
    }
}

/// A contents-preserving copy of the translations.
pub fn duplicate_translations(ts: &Vec<Translation>) -> (r: Vec<Translation>)
    ensures
        r.deep_view() == ts.deep_view(),
{
    let mut out: Vec<Translation> = Vec::new();
    let mut i: usize = 0;
    while i < ts.len()
        invariant
            i <= ts@.len(),
            out.deep_view() == ts.deep_view().take(i as int),
        decreases ts@.len() - i,
    {
        let ghost prev_vec = out@;
        proof {
            assert(out.deep_view().len() == i as int);
        }
        let item = Translation { locale: ts[i].locale.clone(), title: ts[i].title.clone() };
        out.push(item);
        proof {
            assert(out@ == prev_vec.push(out@[i as int]));
            assert(out.deep_view() =~= ts.deep_view().take(i + 1));
        }
        i = i + 1;
    }
    proof {
        assert(ts.deep_view().take(ts@.len() as int) =~= ts.deep_view());
    }
    out
}

/// A full article: its preview plus the raw markdown content.
#[derive(Debug, Clone)]
pub struct Article {
    pub preview: ArticlePreview,
    pub content: String,
}

/// The spec-level image of an article.
pub struct ArticleV {
    pub preview: ArticlePreviewV,
    pub content: Seq<char>,
}

impl View for Article {
    type V = ArticleV;

    open spec fn view(&self) -> ArticleV {
        ArticleV { preview: self.preview@, content: self.content@ }
    }
}

impl DeepView for Article {
    type V = ArticleV;

    open spec fn deep_view(&self) -> ArticleV {
        self.view()
    }
}

/// The canonical field set the fingerprint covers; nothing else reaches
/// the hash.
pub struct CanonicalFields {
    pub title: Seq<char>,
    pub slug: Seq<char>,
    pub category: Seq<Seq<char>>,
    pub locale: Seq<char>,
    pub created: int,
    pub tags: Seq<Seq<char>>,
    pub author: Seq<char>,
    pub meta_description: Option<Seq<char>>,
    pub description: Seq<char>,
    pub content: Seq<char>,
    pub translations: Seq<(Seq<char>, Seq<char>)>,
}

/// A JSON value that is a string or null.
pub open spec fn opt_json(o: Option<Seq<char>>) -> Seq<char> {
    match o {
        Some(s) => quoted(s),
        None => "null"@,
    }
}

/// The contents of the translations array: `{"locale":...,"title":...}`
/// records.
pub open spec fn trans_body(ts: Seq<(Seq<char>, Seq<char>)>) -> Seq<char>
    decreases ts.len(),
{
    if ts.len() == 0 {
        Seq::empty()
    } else if ts.len() == 1 {
        trans_record(ts[0])
    } else {
        trans_body(ts.drop_last()) + seq![','] + trans_record(ts.last())
    }
}

pub open spec fn trans_record(t: (Seq<char>, Seq<char>)) -> Seq<char> {
    "{\"locale\":"@ + quoted(t.0) + ",\"title\":"@ + quoted(t.1) + seq!['}']
}

pub open spec fn trans_array(ts: Seq<(Seq<char>, Seq<char>)>) -> Seq<char> {
    seq!['['] + trans_body(ts) + seq![']']
}

/// The canonical JSON serialization the fingerprint hashes.  Byte-stable:
/// a function of the canonical field set alone.
pub open spec fn canonical_json(c: CanonicalFields) -> Seq<char> {
    "{\"title\":"@ + quoted(c.title) + ",\"slug\":"@ + quoted(c.slug) + ",\"category\":"@
        + str_array(c.category) + ",\"locale\":"@ + quoted(c.locale) + ",\"metadata\":{\"created\":"@
        + dec_rep_i64(c.created) + ",\"tags\":"@ + str_array(c.tags) + ",\"author\":"@ + quoted(
        c.author,
    ) + ",\"description\":"@ + opt_json(c.meta_description) + "},\"description\":"@ + quoted(
        c.description,
    ) + ",\"content\":"@ + quoted(c.content) + ",\"translations\":"@ + trans_array(c.translations)
        + seq!['}']
}

/// The hex digest of a string's bytes.
pub uninterp spec fn sha256_hex_of(s: Seq<char>) -> Seq<char>;

/// Relies on `sha2::Sha256`: the lowercase hex digest of the input's
/// bytes, a function of the input alone.
#[verifier::external_body]
pub(crate) fn sha256_hex(s: &str) -> (r: String)
    ensures
        r@ == sha256_hex_of(s@),
{
    let mut hasher = <sha2::Sha256 as sha2::Digest>::new();
    sha2::Digest::update(&mut hasher, s.as_bytes());
    let result = sha2::Digest::finalize(hasher);
    format!("{result:x}")
}

impl Article {
    /// Assembles an article from its parts.
    pub fn create(
        title: String,
        slug: String,
        category: Category,
        metadata: ArticleMetadata,
        description: String,
        content: String,
        locale: String,
        default_locale: String,
        translations: Vec<Translation>,
    ) -> (r: Article)
        ensures
            r.preview.title == title,
            r.preview.slug == slug,
            r.preview.category == category,
            r.preview.metadata == metadata,
            r.preview.description == description,
            r.content == content,
            r.preview.locale == locale,
            r.preview.default_locale == default_locale,
            r.preview.translations == translations,
    {
        Article {
            preview: ArticlePreview {
                title,
                slug,
                category,
                metadata,
                description,
                locale,
                default_locale,
                translations,
            },
            content,
        }
    }

    pub fn preview(&self) -> (r: &ArticlePreview)
        ensures
            r == &self.preview,
    {
        &self.preview
    }

    pub fn into_preview(self) -> (r: ArticlePreview)
        ensures
            r == self.preview,
    {
        self.preview
    }

    pub fn content(&self) -> (r: &str)
        ensures
            r@ == self.content@,
    {
        self.content.as_str()
    }

    pub fn title(&self) -> (r: &str)
        ensures
            r@ == self.preview.title@,
    {
        self.preview.title.as_str()
    }

    pub fn slug(&self) -> (r: &str)
        ensures
            r@ == self.preview.slug@,
    {
        self.preview.slug.as_str()
    }

    pub fn description(&self) -> (r: &str)
        ensures
            r@ == self.preview.description@,
    {
        self.preview.description.as_str()
    }

    pub fn category(&self) -> (r: &Category)
        ensures
            r == &self.preview.category,
    {
        &self.preview.category
    }

    pub fn metadata(&self) -> (r: &ArticleMetadata)
        ensures
            r == &self.preview.metadata,
    {
        &self.preview.metadata
    }

    pub fn is_default_locale(&self) -> (r: bool)
        ensures
            r == self.preview.is_default_locale_spec(),
    {
        self.preview.is_default_locale()
    }

    pub fn output_path(&self) -> (r: String)
        ensures
            r@ == self.preview.output_path_spec(),
    {
        self.preview.output_path()
    }

    pub fn output_file(&self) -> (r: String)
        ensures
            r@ == self.preview.output_file_spec(),
    {
        self.preview.output_file()
    }

    /// The segments that identify the article: its category's, then the
    /// slug.
    pub fn segments(&self) -> (r: Vec<String>)
        ensures
            r.deep_view() == self.preview.category.segments.deep_view().push(
                self.preview.slug@,
            ),
    {
        let mut segments: Vec<String> = Vec::new();
        let cat = &self.preview.category.segments;
        let mut i: usize = 0;
        while i < cat.len()
            invariant
                i <= cat@.len(),
                segments.deep_view() == cat.deep_view().take(i as int),
            decreases cat@.len() - i,
        {
            let ghost prev = segments.deep_view();
            let ghost prev_vec = segments@;
            proof {
                assert(prev.len() == i as int);
                assert(prev.len() == prev_vec.len());
            }
            let item = cat[i].clone();
            proof {
                assert(item@ == cat@[i as int]@);
            }
            segments.push(item);
            proof {
                assert(segments@ == prev_vec.push(segments@[i as int]));
                assert(segments@[i as int]@ == cat@[i as int]@);
                assert forall|j: int| 0 <= j < i + 1 implies segments.deep_view()[j]
                    == cat.deep_view().take(i + 1)[j] by {
                    if j < i {
                        assert(segments.deep_view()[j] == segments@[j]@);
                        assert(segments@[j] == prev_vec[j]);
                        assert(prev[j] == prev_vec[j]@);
                    } else {
                        assert(segments.deep_view()[j] == segments@[i as int]@);
                    }
                }
                assert(segments.deep_view() =~= cat.deep_view().take(i + 1));
            }
            i = i + 1;
        }
        proof {
            assert(cat.deep_view().take(cat@.len() as int) =~= cat.deep_view());
        }
        segments.push(self.preview.slug.clone());
        proof {
            assert(segments.deep_view() =~= cat.deep_view().push(self.preview.slug@));
        }
        segments
    }

    /// The canonical field set of this article.
    pub open spec fn canonical(self) -> CanonicalFields {
        CanonicalFields {
            title: self.preview.title@,
            slug: self.preview.slug@,
            category: self.preview.category.segments.deep_view(),
            locale: self.preview.locale@,
            created: self.preview.metadata.created.seconds as int,
            tags: self.preview.metadata.tags.deep_view(),
            author: self.preview.metadata.author@,
            meta_description: opt_view(self.preview.metadata.description),
            description: self.preview.description@,
            content: self.content@,
            translations: self.preview.translations.deep_view(),
        }
    }

    /// The content-addressed fingerprint: the hex digest of the canonical
    /// JSON serialization.
    pub fn sha256(&self) -> (r: String)
        ensures
            r@ == sha256_hex_of(canonical_json(self.canonical())),
    {
        let json = self.canonical_json_string();
        sha256_hex(json.as_str())
    }

    /// Builds the canonical JSON serialization.
    pub fn canonical_json_string(&self) -> (r: String)
        ensures
            r@ == canonical_json(self.canonical()),
    {
        let mut out = String::new();
        out.append("{\"title\":");
        append_quoted(&mut out, self.preview.title.as_str());
        out.append(",\"slug\":");
        append_quoted(&mut out, self.preview.slug.as_str());
        out.append(",\"category\":");
        append_str_array(&mut out, &self.preview.category.segments);
        out.append(",\"locale\":");
        append_quoted(&mut out, self.preview.locale.as_str());
        out.append(",\"metadata\":{\"created\":");
        append_i64(&mut out, self.preview.metadata.created.seconds);
        out.append(",\"tags\":");
        append_str_array(&mut out, &self.preview.metadata.tags);
        out.append(",\"author\":");
        append_quoted(&mut out, self.preview.metadata.author.as_str());
        out.append(",\"description\":");
        match &self.preview.metadata.description {
            Some(d) => append_quoted(&mut out, d.as_str()),
            None => out.append("null"),
        }
        out.append("},\"description\":");
        append_quoted(&mut out, self.preview.description.as_str());
        out.append(",\"content\":");
        append_quoted(&mut out, self.content.as_str());
        out.append(",\"translations\":");
        append_trans_array(&mut out, &self.preview.translations);
        push_char(&mut out, '}');
        proof {
            assert(out@ =~= canonical_json(self.canonical()));
        }
        out
    }
}

/// Appends the translations array to `out`.
fn append_trans_array(out: &mut String, ts: &Vec<Translation>)
    ensures
        final(out)@ == old(out)@ + trans_array(ts.deep_view()),
{
    let ghost dv = ts.deep_view();
    push_char(out, '[');
    let mut i: usize = 0;
    while i < ts.len()
        invariant
            dv == ts.deep_view(),
            dv.len() == ts@.len(),
            i <= ts@.len(),
            out@ == old(out)@ + seq!['['] + trans_body(dv.take(i as int)),
        decreases ts@.len() - i,
    {
        if i > 0 {
            push_char(out, ',');
        }
        let ghost before = out@;
        out.append("{\"locale\":");
        append_quoted(out, ts[i].locale.as_str());
        out.append(",\"title\":");
        append_quoted(out, ts[i].title.as_str());
        push_char(out, '}');
        proof {
            assert(dv[i as int] == ts@[i as int]@);
            assert(out@ =~= before + trans_record(dv[i as int]));
            assert(dv.take(i + 1).drop_last() =~= dv.take(i as int));
            assert(dv.take(i + 1).last() == dv[i as int]);
            if i == 0 {
                assert(trans_body(dv.take(1)) == trans_record(dv[0]));
                assert(out@ =~= old(out)@ + seq!['['] + trans_body(dv.take(1)));
            } else {
                assert(trans_body(dv.take(i + 1)) == trans_body(dv.take(i as int)) + seq![',']
                    + trans_record(dv[i as int]));
                assert(out@ =~= old(out)@ + seq!['['] + trans_body(dv.take(i + 1)));
            }
        }
        i = i + 1;
    }
    push_char(out, ']');
    proof {
        assert(dv.take(ts@.len() as int) =~= dv);
        assert(out@ =~= old(out)@ + trans_array(dv));
    }
}

/// The fingerprint-stability law: the fingerprint is a function of the
/// canonical field set alone — two articles that agree on it hash alike,
/// whatever else (workspace, host, file layout) differs.
pub proof fn lemma_fingerprint_stability(a: Article, b: Article)
    requires
        a.canonical() == b.canonical(),
    ensures
        sha256_hex_of(canonical_json(a.canonical())) == sha256_hex_of(
            canonical_json(b.canonical()),
        ),
{
}

/// The article's title: the first heading's text when the document has
/// one, else the formatted creation date.
pub open spec fn title_of(
    extracted: Option<Seq<char>>,
    created_seconds: int,
) -> Seq<char> {
    match extracted {
        Some(t) => t,
        None => display_date_of(created_seconds),
    }
}

/// Builds the title from the extraction result, falling back to the
/// formatted creation date.
pub fn build_title(extracted: Option<String>, created: &crate::timefmt::Timestamp) -> (r: String)
    requires
        created.wf(),
    ensures
        r@ == title_of(opt_view(extracted), created.seconds as int),
{
    match extracted {
        Some(t) => t,
        None => crate::timefmt::format_display_date(created),
    }
}

/// The no-heading fallback law: an article whose markdown has no
/// level-one heading takes the formatted creation date as its title.
pub proof fn lemma_title_fallback(events: Seq<crate::markdown::MdEventV>, created_seconds: int)
    requires
        !crate::markdown::has_h1(events),
    ensures
        title_of(crate::markdown::extract_spec(events).title, created_seconds)
            == display_date_of(created_seconds),
{
    crate::markdown::lemma_no_h1_no_title(events);
}

} // verus!
