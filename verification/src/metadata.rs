//! Metadata carried by articles, categories, the workspace manifest and
//! plugin manifests, together with the plugin registry that the manifest
//! declares.

use vstd::prelude::*;

use crate::timefmt::Timestamp;

verus! {

/// Metadata of one article, from its `Article.toml` sidecar.
#[derive(Debug, Clone)]
pub struct ArticleMetadata {
    pub created: Timestamp,
    pub tags: Vec<String>,
    pub author: String,
    pub description: Option<String>,
    pub lang: Option<String>,
}

impl ArticleMetadata {
    pub fn new(author: String, created: Timestamp) -> (r: ArticleMetadata)
        ensures
            r.author == author,
            r.created == created,
            r.tags@.len() == 0,
            r.description is None,
            r.lang is None,
    {
        ArticleMetadata { created, tags: Vec::new(), author, description: None, lang: None }
    }

    pub fn created(&self) -> (r: Timestamp)
        ensures
            r == self.created,
    {
        self.created
    }

    pub fn author(&self) -> (r: &str)
        ensures
            r@ == self.author@,
    {
        self.author.as_str()
    }

    pub fn set_author(&mut self, author: String)
        ensures
            *final(self) == (ArticleMetadata { author, ..*old(self) }),
    {
        self.author = author;
    }

    pub fn tags(&self) -> (r: &Vec<String>)
        ensures
            r == &self.tags,
    {
        &self.tags
    }

    pub fn add_tag(&mut self, tag: String)
        ensures
            final(self).tags@ == old(self).tags@.push(tag),
            final(self).created == old(self).created,
            final(self).author == old(self).author,
            final(self).description == old(self).description,
            final(self).lang == old(self).lang,
    {
        self.tags.push(tag);
    }

    pub fn description(&self) -> (r: Option<&str>)
        ensures
            match r {
                Some(d) => self.description matches Some(s) && d@ == s@,
                None => self.description is None,
            },
    {
        match &self.description {
            Some(d) => Some(d.as_str()),
            None => None,
        }
    }

    pub fn set_description(&mut self, description: String)
        ensures
            *final(self) == (ArticleMetadata { description: Some(description), ..*old(self) }),
    {
        self.description = Some(description);
    }

    /// Pointwise equality of all fields the article fingerprint covers.
    pub open spec fn same_fields(self, other: ArticleMetadata) -> bool {
        self.created == other.created && self.tags.deep_view() == other.tags.deep_view()
            && self.author@ == other.author@ && opt_view(self.description) == opt_view(
            other.description,
        ) && opt_view(self.lang) == opt_view(other.lang)
    }

    pub fn field_eq(&self, other: &ArticleMetadata) -> (r: bool)
        ensures
            r == self.same_fields(*other),
    {
        self.created == other.created && vec_str_eq(&self.tags, &other.tags) && self.author
            == other.author && opt_str_eq(&self.description, &other.description) && opt_str_eq(
            &self.lang,
            &other.lang,
        )
    }
}

/// The spec-level image of an article's metadata.
pub struct ArticleMetadataV {
    pub created: Timestamp,
    pub tags: Seq<Seq<char>>,
    pub author: Seq<char>,
    pub description: Option<Seq<char>>,
    pub lang: Option<Seq<char>>,
}

impl View for ArticleMetadata {
    type V = ArticleMetadataV;

    open spec fn view(&self) -> ArticleMetadataV {
        ArticleMetadataV {
            created: self.created,
            tags: self.tags.deep_view(),
            author: self.author@,
            description: opt_view(self.description),
            lang: opt_view(self.lang),
        }
    }
}

impl DeepView for ArticleMetadata {
    type V = ArticleMetadataV;

    open spec fn deep_view(&self) -> ArticleMetadataV {
        self.view()
    }
}

/// The spec-level image of a category's metadata.
pub struct CategoryMetadataV {
    pub created: Timestamp,
    pub name: Seq<char>,
    pub description: Seq<char>,
}

impl View for CategoryMetadata {
    type V = CategoryMetadataV;

    open spec fn view(&self) -> CategoryMetadataV {
        CategoryMetadataV { created: self.created, name: self.name@, description: self.description@ }
    }
}

impl DeepView for CategoryMetadata {
    type V = CategoryMetadataV;

    open spec fn deep_view(&self) -> CategoryMetadataV {
        self.view()
    }
}

/// The view of an optional string.
pub open spec fn opt_view(o: Option<String>) -> Option<Seq<char>> {
    match o {
        Some(s) => Some(s@),
        None => None,
    }
}

/// Equality of optional strings by contents.
pub fn opt_str_eq(a: &Option<String>, b: &Option<String>) -> (r: bool)
    ensures
        r == (opt_view(*a) == opt_view(*b)),
{
    match (a, b) {
        (Some(x), Some(y)) => {
            let r = crate::text::str_eq(x.as_str(), y.as_str());
            proof {
                assert(opt_view(*a) == Some(x@) && opt_view(*b) == Some(y@));
            }
            r
        },
        (None, None) => true,
        _ => false,
    }
}

/// Equality of string vectors by contents.
pub fn vec_str_eq(a: &Vec<String>, b: &Vec<String>) -> (r: bool)
    ensures
        r == (a.deep_view() == b.deep_view()),
{
    if a.len() != b.len() {
        proof {
            assert(a.deep_view().len() == a@.len() && b.deep_view().len() == b@.len());
        }
        return false;
    }
    let mut i: usize = 0;
    while i < a.len()
        invariant
            a@.len() == b@.len(),
            i <= a@.len(),
            forall|j: int| 0 <= j < i ==> a.deep_view()[j] == b.deep_view()[j],
        decreases a@.len() - i,
    {
        if !(a[i] == b[i]) {
            proof {
                assert(a.deep_view()[i as int] == a@[i as int]@);
                assert(b.deep_view()[i as int] == b@[i as int]@);
            }
            return false;
        }
        i = i + 1;
    }
    proof {
        assert(a.deep_view() =~= b.deep_view());
    }
    true
}

/// Metadata of one category, from its `Category.toml` sidecar.
#[derive(Debug, Clone)]
pub struct CategoryMetadata {
    pub created: Timestamp,
    pub name: String,
    pub description: String,
}

impl CategoryMetadata {
    pub fn new(name: String, created: Timestamp) -> (r: CategoryMetadata)
        ensures
            r.name == name,
            r.created == created,
            r.description@.len() == 0,
    {
        CategoryMetadata { created, name, description: String::new() }
    }

    pub fn created(&self) -> (r: Timestamp)
        ensures
            r == self.created,
    {
        self.created
    }

    pub fn name(&self) -> (r: &str)
        ensures
            r@ == self.name@,
    {
        self.name.as_str()
    }

    pub fn description(&self) -> (r: &str)
        ensures
            r@ == self.description@,
    {
        self.description.as_str()
    }

    pub fn set_description(&mut self, description: String)
        ensures
            *final(self) == (CategoryMetadata { description, ..*old(self) }),
    {
        self.description = description;
    }
}

/// Where a plugin is materialized from.
#[derive(Debug, Clone)]
pub enum PluginLocator {
    /// A published package with a fixed version.
    Registry { version: String },
    /// A version-controlled repository, optionally pinned.
    Git { url: String, rev: Option<String>, branch: Option<String> },
    /// A directory on the local filesystem.
    Local { path: String },
    /// A direct artifact download.
    ArtifactUrl { url: String },
}

/// Classification of plugin roles.
#[derive(Debug, Clone, PartialEq, Eq, Structural)]
pub enum PluginKind {
    Theme,
    Hook,
}

/// One named plugin declaration.
#[derive(Debug, Clone)]
pub struct PluginEntry {
    pub name: String,
    pub locator: PluginLocator,
}

impl PluginEntry {
    pub fn name(&self) -> (r: &str)
        ensures
            r@ == self.name@,
    {
        self.name.as_str()
    }

    pub fn locator(&self) -> (r: &PluginLocator)
        ensures
            r == &self.locator,
    {
        &self.locator
    }

    /// An entry that points at a repository, optionally pinned to a
    /// revision.
    pub fn git(name: String, url: String, rev: Option<String>) -> (r: PluginEntry)
        ensures
            r.name == name,
            r.locator matches PluginLocator::Git { url: u, rev: rv, branch: b } && u == url && rv
                == rev && b is None,
    {
        PluginEntry { name, locator: PluginLocator::Git { url, rev, branch: None } }
    }
}

/// The plugins a workspace declares, in declaration order, names unique.
#[derive(Debug, Clone)]
pub struct PluginRegistry {
    pub entries: Vec<PluginEntry>,
}

/// First locator registered under `name` at or after index `i`.
pub open spec fn find_from(s: Seq<PluginEntry>, name: Seq<char>, i: int) -> Option<PluginLocator>
    decreases s.len() - i,
{
    if i < 0 || i >= s.len() {
        None
    } else if s[i].name@ == name {
        Some(s[i].locator)
    } else {
        find_from(s, name, i + 1)
    }
}

proof fn lemma_find_from_push(s: Seq<PluginEntry>, e: PluginEntry, name: Seq<char>, i: int)
    requires
        0 <= i <= s.len(),
    ensures
        find_from(s.push(e), name, i) == if find_from(s, name, i) is Some {
            find_from(s, name, i)
        } else if e.name@ == name {
            Some(e.locator)
        } else {
            None
        },
    decreases s.len() - i,
{
    assert(s.push(e).len() == s.len() + 1);
    if i < s.len() {
        assert(s.push(e)[i] == s[i]);
        lemma_find_from_push(s, e, name, i + 1);
    } else {
        assert(s.push(e)[i] == e);
        assert(find_from(s, name, i) is None);
        assert(find_from(s.push(e), name, i + 1) is None);
    }
}

proof fn lemma_find_from_update(s: Seq<PluginEntry>, k: int, e: PluginEntry, name: Seq<char>, i: int)
    requires
        0 <= k < s.len(),
        0 <= i <= s.len(),
        e.name@ == s[k].name@,
    ensures
        s[k].name@ != name ==> find_from(s.update(k, e), name, i) == find_from(s, name, i),
        (s[k].name@ == name && (forall|j: int| i <= j < k ==> s[j].name@ != name) && i <= k)
            ==> find_from(s.update(k, e), name, i) == Some(e.locator),
    decreases s.len() - i,
{
    if i < s.len() {
        lemma_find_from_update(s, k, e, name, i + 1);
    }
}

impl PluginRegistry {
    /// The first locator declared under a name.
    pub open spec fn find_spec(self, name: Seq<char>) -> Option<PluginLocator> {
        find_from(self.entries@, name, 0)
    }

    pub fn new() -> (r: PluginRegistry)
        ensures
            r.entries@.len() == 0,
    {
        PluginRegistry { entries: Vec::new() }
    }

    /// Registers a locator under a name: replaces the locator of an
    /// existing declaration, else appends a new one.
    pub fn register(&mut self, name: String, locator: PluginLocator)
        ensures
            final(self).find_spec(name@) == Some(locator),
            forall|n: Seq<char>|
                n != name@ ==> final(self).find_spec(n) == old(self).find_spec(n),
            old(self).find_spec(name@) is Some ==> final(self).entries@.len() == old(
                self,
            ).entries@.len(),
            old(self).find_spec(name@) is None ==> final(self).entries@ == old(
                self,
            ).entries@.push((PluginEntry { name, locator })),
    {
        self.register_entry(PluginEntry { name, locator });
    }

    /// Registers a whole entry, with `register`'s replacement semantics.
    pub fn register_entry(&mut self, entry: PluginEntry)
        ensures
            final(self).find_spec(entry.name@) == Some(entry.locator),
            forall|n: Seq<char>|
                n != entry.name@ ==> final(self).find_spec(n) == old(self).find_spec(n),
            old(self).find_spec(entry.name@) is Some ==> final(self).entries@.len() == old(
                self,
            ).entries@.len(),
            old(self).find_spec(entry.name@) is None ==> final(self).entries@ == old(
                self,
            ).entries@.push(entry),
    {
        let ghost s0 = self.entries@;
        let mut i: usize = 0;
        while i < self.entries.len()
            invariant
                s0 == old(self).entries@,
                self.entries@ == s0,
                i <= s0.len(),
                forall|j: int| 0 <= j < i ==> s0[j].name@ != entry.name@,
            decreases s0.len() - i,
        {
            if crate::text::str_eq(self.entries[i].name.as_str(), entry.name.as_str()) {
                let name_copy = self.entries[i].name.clone();
                let replacement = PluginEntry { name: name_copy, locator: entry.locator };
                let ghost repl = replacement;
                let _ = self.entries.remove(i);
                self.entries.insert(i, replacement);
                proof {
                    assert(repl.name@ == s0[i as int].name@);
                    assert(repl.locator == entry.locator);
                    assert(self.entries@ =~= s0.update(i as int, repl));
                    assert(self.entries@.len() == s0.len());
                    lemma_find_from_update(s0, i as int, repl, entry.name@, 0);
                    assert forall|n: Seq<char>| n != entry.name@ implies find_from(
                        s0.update(i as int, repl),
                        n,
                        0,
                    ) == find_from(s0, n, 0) by {
                        lemma_find_from_update(s0, i as int, repl, n, 0);
                    }
                    lemma_find_first_some(s0, entry.name@, i as int);
                }
                return ;
            }
            i = i + 1;
        }
        proof {
            lemma_find_none(s0, entry.name@, 0);
        }
        self.entries.push(entry);
        proof {
            assert forall|n: Seq<char>| true implies find_from(self.entries@, n, 0)
                == if find_from(s0, n, 0) is Some {
                find_from(s0, n, 0)
            } else if entry.name@ == n {
                Some(entry.locator)
            } else {
                None
            } by {
                lemma_find_from_push(s0, entry, n, 0);
            }
        }
    }

    /// The declared plugins, in declaration order.
    pub fn plugins(&self) -> (r: &Vec<PluginEntry>)
        ensures
            r == &self.entries,
    {
        &self.entries
    }
}

proof fn lemma_find_first_some(s: Seq<PluginEntry>, name: Seq<char>, k: int)
    requires
        0 <= k < s.len(),
        s[k].name@ == name,
        forall|j: int| 0 <= j < k ==> s[j].name@ != name,
    ensures
        find_from(s, name, 0) is Some,
{
    lemma_find_reaches(s, name, 0, k);
}

proof fn lemma_find_reaches(s: Seq<PluginEntry>, name: Seq<char>, i: int, k: int)
    requires
        0 <= i <= k < s.len(),
        s[k].name@ == name,
        forall|j: int| i <= j < k ==> s[j].name@ != name,
    ensures
        find_from(s, name, i) is Some,
    decreases k - i,
{
    if i < k {
        lemma_find_reaches(s, name, i + 1, k);
    }
}

proof fn lemma_find_none(s: Seq<PluginEntry>, name: Seq<char>, i: int)
    requires
        0 <= i <= s.len(),
        forall|j: int| i <= j < s.len() ==> s[j].name@ != name,
    ensures
        find_from(s, name, i) is None,
    decreases s.len() - i,
{
    if i < s.len() {
        lemma_find_none(s, name, i + 1);
    }
}

/// The workspace manifest, from `Thought.toml` at the workspace root.
#[derive(Debug, Clone)]
pub struct WorkspaceManifest {
    pub name: String,
    pub description: String,
    pub owner: String,
    pub plugins: PluginRegistry,
}

impl WorkspaceManifest {
    pub fn new(name: String, description: String, owner: String, plugins: PluginRegistry) -> (r:
        WorkspaceManifest)
        ensures
            r.name == name,
            r.description == description,
            r.owner == owner,
            r.plugins == plugins,
    {
        WorkspaceManifest { name, description, owner, plugins }
    }

    pub fn set_owner(&mut self, owner: String)
        ensures
            *final(self) == (WorkspaceManifest { owner, ..*old(self) }),
    {
        self.owner = owner;
    }

    pub fn name(&self) -> (r: &str)
        ensures
            r@ == self.name@,
    {
        self.name.as_str()
    }

    pub fn description(&self) -> (r: &str)
        ensures
            r@ == self.description@,
    {
        self.description.as_str()
    }

    pub fn owner(&self) -> (r: &str)
        ensures
            r@ == self.owner@,
    {
        self.owner.as_str()
    }

    /// The declared plugins, in declaration order.
    pub fn plugins(&self) -> (r: &Vec<PluginEntry>)
        ensures
            r == &self.plugins.entries,
    {
        self.plugins.plugins()
    }
}

/// Metadata declared by an individual plugin, from its `Plugin.toml`.
#[derive(Debug, Clone)]
pub struct PluginManifest {
    pub name: String,
    pub author: String,
    pub version: String,
    pub kind: PluginKind,
    pub description: Option<String>,
}

/// Whether a string holds nothing but blanks.
pub open spec fn is_blank(s: Seq<char>) -> bool {
    forall|i: int| 0 <= i < s.len() ==> is_blank_char(#[trigger] s[i])
}

pub open spec fn is_blank_char(c: char) -> bool {
    c == ' ' || c == '\t' || c == '\n' || c == '\r'
}

pub fn str_is_blank(s: &str) -> (r: bool)
    ensures
        r == is_blank(s@),
{
    let n = s.unicode_len();
    let mut i: usize = 0;
    while i < n
        invariant
            n == s@.len(),
            i <= n,
            forall|j: int| 0 <= j < i ==> is_blank_char(#[trigger] s@[j]),
        decreases n - i,
    {
        let c = s.get_char(i);
        if !(c == ' ' || c == '\t' || c == '\n' || c == '\r') {
            return false;
        }
        i = i + 1;
    }
    true
}

/// A field a plugin manifest must fill.
#[derive(Debug, Clone, PartialEq, Eq, Structural)]
pub enum ManifestField {
    Name,
    Author,
    Version,
}

impl PluginManifest {
    /// A manifest is valid when name, author and version say something.
    pub open spec fn valid(self) -> bool {
        !is_blank(self.name@) && !is_blank(self.author@) && !is_blank(self.version@)
    }

    /// Checks the required fields, reporting the first blank one.
    pub fn validate(&self) -> (r: Result<(), ManifestField>)
        ensures
            r is Ok <==> self.valid(),
            r matches Err(f) ==> match f {
                ManifestField::Name => is_blank(self.name@),
                ManifestField::Author => !is_blank(self.name@) && is_blank(self.author@),
                ManifestField::Version => !is_blank(self.name@) && !is_blank(self.author@)
                    && is_blank(self.version@),
            },
    {
        if str_is_blank(self.name.as_str()) {
            return Err(ManifestField::Name);
        }
        if str_is_blank(self.author.as_str()) {
            return Err(ManifestField::Author);
        }
        if str_is_blank(self.version.as_str()) {
            return Err(ManifestField::Version);
        }
        Ok(())
    }
}

} // verus!
