//! The render cache: a map from an article's output path to its last
//! rendered entry, keyed by both the article fingerprint and the theme
//! fingerprint.  The cache is advisory: a lookup succeeds only when every
//! recorded field still matches the live article and the current theme.

use vstd::prelude::*;

use crate::article::{canonical_json, sha256_hex_of, Article};
use crate::metadata::ArticleMetadata;
use crate::text::str_eq;

verus! {

/// One cached render.
#[derive(Debug, Clone)]
pub struct CachedEntry {
    pub sha256: String,
    pub title: String,
    pub description: String,
    pub metadata: ArticleMetadata,
    pub html: String,
    pub theme_fingerprint: String,
}

impl CachedEntry {
    /// Whether this entry still describes `article` rendered under the
    /// theme with fingerprint `theme_fingerprint`: every recorded field
    /// matches.
    pub open spec fn matches_spec(self, article: Article, theme_fingerprint: Seq<char>) -> bool {
        &&& self.sha256@ == sha256_hex_of(canonical_json(article.canonical()))
        &&& self.title@ == article.preview.title@
        &&& self.description@ == article.preview.description@
        &&& self.metadata.same_fields(article.preview.metadata)
        &&& self.theme_fingerprint@ == theme_fingerprint
    }

    /// Checks every recorded field against the live article and the
    /// current theme fingerprint.
    pub fn matches(&self, article: &Article, theme_fingerprint: &str) -> (r: bool)
        ensures
            r == self.matches_spec(*article, theme_fingerprint@),
    {
        let sha = article.sha256();
        str_eq(self.sha256.as_str(), sha.as_str()) && str_eq(
            self.title.as_str(),
            article.title(),
        ) && str_eq(self.description.as_str(), article.description())
            && self.metadata.field_eq(article.metadata()) && str_eq(
            self.theme_fingerprint.as_str(),
            theme_fingerprint,
        )
    }

    /// Records a render of `article` as `html` under the given theme
    /// fingerprint.
    pub fn from_article(article: &Article, html: String, theme_fingerprint: String) -> (r:
        CachedEntry)
        ensures
            r.matches_spec(*article, theme_fingerprint@),
            r.html == html,
    {
        CachedEntry {
            sha256: article.sha256(),
            title: article.preview.title.clone(),
            description: article.preview.description.clone(),
            metadata: ArticleMetadata {
                created: article.preview.metadata.created,
                tags: clone_strings(&article.preview.metadata.tags),
                author: article.preview.metadata.author.clone(),
                description: clone_opt_string(&article.preview.metadata.description),
                lang: clone_opt_string(&article.preview.metadata.lang),
            },
            html,
            theme_fingerprint,
        }
    }
}

/// A contents-preserving clone of a string vector.
pub fn clone_strings(v: &Vec<String>) -> (r: Vec<String>)
    ensures
        r.deep_view() == v.deep_view(),
{
    let mut out: Vec<String> = Vec::new();
    let mut i: usize = 0;
    while i < v.len()
        invariant
            i <= v@.len(),
            out.deep_view() == v.deep_view().take(i as int),
        decreases v@.len() - i,
    {
        let ghost prev_vec = out@;
        proof {
            assert(out.deep_view().len() == i as int);
        }
        let item = v[i].clone();
        out.push(item);
        proof {
            assert(out@ == prev_vec.push(out@[i as int]));
            assert(out.deep_view() =~= v.deep_view().take(i + 1));
        }
        i = i + 1;
    }
    proof {
        assert(v.deep_view().take(v@.len() as int) =~= v.deep_view());
    }
    out
}

fn clone_opt_string(v: &Option<String>) -> (r: Option<String>)
    ensures
        crate::metadata::opt_view(r) == crate::metadata::opt_view(*v),
{
    match v {
        Some(s) => Some(s.clone()),
        None => None,
    }
}

/// One keyed slot of the cache.
#[derive(Debug, Clone)]
pub struct CacheSlot {
    pub key: String,
    pub entry: CachedEntry,
}

/// The first entry stored under `key` at or after index `i`.
pub open spec fn slot_find(s: Seq<CacheSlot>, key: Seq<char>, i: int) -> Option<CachedEntry>
    decreases s.len() - i,
{
    if i < 0 || i >= s.len() {
        None
    } else if s[i].key@ == key {
        Some(s[i].entry)
    } else {
        slot_find(s, key, i + 1)
    }
}

proof fn lemma_slot_find_push(s: Seq<CacheSlot>, e: CacheSlot, key: Seq<char>, i: int)
    requires
        0 <= i <= s.len(),
    ensures
        slot_find(s.push(e), key, i) == if slot_find(s, key, i) is Some {
            slot_find(s, key, i)
        } else if e.key@ == key {
            Some(e.entry)
        } else {
            None
        },
    decreases s.len() - i,
{
    assert(s.push(e).len() == s.len() + 1);
    if i < s.len() {
        assert(s.push(e)[i] == s[i]);
        lemma_slot_find_push(s, e, key, i + 1);
    } else {
        assert(s.push(e)[i] == e);
        assert(slot_find(s, key, i) is None);
        assert(slot_find(s.push(e), key, i + 1) is None);
    }
}

proof fn lemma_slot_find_update(s: Seq<CacheSlot>, k: int, e: CacheSlot, key: Seq<char>, i: int)
    requires
        0 <= k < s.len(),
        0 <= i <= s.len(),
        e.key@ == s[k].key@,
    ensures
        s[k].key@ != key ==> slot_find(s.update(k, e), key, i) == slot_find(s, key, i),
        (s[k].key@ == key && (forall|j: int| i <= j < k ==> s[j].key@ != key) && i <= k)
            ==> slot_find(s.update(k, e), key, i) == Some(e.entry),
    decreases s.len() - i,
{
    if i < s.len() {
        lemma_slot_find_update(s, k, e, key, i + 1);
    }
}

proof fn lemma_slot_find_at(s: Seq<CacheSlot>, key: Seq<char>, k: int)
    requires
        0 <= k < s.len(),
        s[k].key@ == key,
        forall|j: int| 0 <= j < k ==> s[j].key@ != key,
    ensures
        slot_find(s, key, 0) == Some(s[k].entry),
{
    lemma_slot_find_at_from(s, key, 0, k);
}

proof fn lemma_slot_find_at_from(s: Seq<CacheSlot>, key: Seq<char>, i: int, k: int)
    requires
        0 <= i <= k < s.len(),
        s[k].key@ == key,
        forall|j: int| i <= j < k ==> s[j].key@ != key,
    ensures
        slot_find(s, key, i) == Some(s[k].entry),
    decreases k - i,
{
    if i < k {
        lemma_slot_find_at_from(s, key, i + 1, k);
    }
}

proof fn lemma_slot_find_none(s: Seq<CacheSlot>, key: Seq<char>, i: int)
    requires
        0 <= i <= s.len(),
        forall|j: int| i <= j < s.len() ==> s[j].key@ != key,
    ensures
        slot_find(s, key, i) is None,
    decreases s.len() - i,
{
    if i < s.len() {
        lemma_slot_find_none(s, key, i + 1);
    }
}

/// The in-memory render cache; the application persists and reloads it
/// around runs.
#[derive(Debug)]
pub struct RenderCache {
    pub slots: Vec<CacheSlot>,
}

impl RenderCache {
    /// The entry stored under a key, if any.
    pub open spec fn stored(self, key: Seq<char>) -> Option<CachedEntry> {
        slot_find(self.slots@, key, 0)
    }

    /// An empty cache.
    pub fn new() -> (r: RenderCache)
        ensures
            r.slots@.len() == 0,
            forall|k: Seq<char>| r.stored(k) is None,
    {
        let c = RenderCache { slots: Vec::new() };
        proof {
            assert forall|k: Seq<char>| c.stored(k) is None by {
                assert(c.slots@.len() == 0);
            }
        }
        c
    }

    /// Rebuilds a cache from reloaded slots, as the application hands
    /// them back.
    pub fn from_slots(slots: Vec<CacheSlot>) -> (r: RenderCache)
        ensures
            r.slots == slots,
    {
        RenderCache { slots }
    }

    pub fn slots(&self) -> (r: &Vec<CacheSlot>)
        ensures
            r == &self.slots,
    {
        &self.slots
    }

    /// The cached HTML for `article` under the current theme, or nothing.
    /// A hit demands that the stored entry match the article on every
    /// fingerprint field and carry the current theme fingerprint.
    pub fn hit(&self, article: &Article, theme_fingerprint: &str) -> (r: Option<String>)
        ensures
            match r {
                Some(html) => self.stored(article.preview.output_path_spec()) matches Some(e)
                    && e.matches_spec(*article, theme_fingerprint@) && html@ == e.html@,
                None => !(self.stored(article.preview.output_path_spec()) matches Some(e)
                    && e.matches_spec(*article, theme_fingerprint@)),
            },
    {
        let key = article.output_path();
        let ghost s = self.slots@;
        let mut i: usize = 0;
        while i < self.slots.len()
            invariant
                s == self.slots@,
                key@ == article.preview.output_path_spec(),
                i <= s.len(),
                forall|j: int| 0 <= j < i ==> s[j].key@ != key@,
            decreases s.len() - i,
        {
            if str_eq(self.slots[i].key.as_str(), key.as_str()) {
                proof {
                    lemma_slot_find_at(s, key@, i as int);
                }
                if self.slots[i].entry.matches(article, theme_fingerprint) {
                    return Some(self.slots[i].entry.html.clone());
                } else {
                    return None;
                }
            }
            i = i + 1;
        }
        proof {
            lemma_slot_find_none(s, key@, 0);
        }
        None
    }

    /// Stores a rendered article, replacing any entry under the same
    /// output path.
    pub fn store(&mut self, article: &Article, html: String, theme_fingerprint: String)
        ensures
            final(self).stored(article.preview.output_path_spec()) matches Some(e)
                && e.matches_spec(*article, theme_fingerprint@) && e.html == html,
            forall|k: Seq<char>|
                k != article.preview.output_path_spec() ==> final(self).stored(k) == old(
                    self,
                ).stored(k),
    {
        let key = article.output_path();
        let entry = CachedEntry::from_article(article, html, theme_fingerprint);
        let slot = CacheSlot { key, entry };
        let ghost s0 = self.slots@;
        let ghost target = article.preview.output_path_spec();
        let mut i: usize = 0;
        while i < self.slots.len()
            invariant
                s0 == old(self).slots@,
                self.slots@ == s0,
                i <= s0.len(),
                forall|j: int| 0 <= j < i ==> s0[j].key@ != slot.key@,
                slot.key@ == target,
                target == article.preview.output_path_spec(),
                slot.entry.matches_spec(*article, theme_fingerprint@),
                slot.entry.html == html,
            decreases s0.len() - i,
        {
            if str_eq(self.slots[i].key.as_str(), slot.key.as_str()) {
                let ghost repl = slot;
                let _ = self.slots.remove(i);
                self.slots.insert(i, slot);
                proof {
                    assert(self.slots@ =~= s0.update(i as int, repl));
                    lemma_slot_find_update(s0, i as int, repl, target, 0);
                    assert forall|k: Seq<char>| k != target implies slot_find(
                        s0.update(i as int, repl),
                        k,
                        0,
                    ) == slot_find(s0, k, 0) by {
                        lemma_slot_find_update(s0, i as int, repl, k, 0);
                    }
                }
                return ;
            }
            i = i + 1;
        }
        proof {
            lemma_slot_find_none(s0, target, 0);
        }
        let ghost pushed = slot;
        self.slots.push(slot);
        proof {
            assert(self.slots@ =~= s0.push(pushed));
            assert forall|k: Seq<char>| true implies slot_find(s0.push(pushed), k, 0)
                == if slot_find(s0, k, 0) is Some {
                slot_find(s0, k, 0)
            } else if pushed.key@ == k {
                Some(pushed.entry)
            } else {
                None
            } by {
                lemma_slot_find_push(s0, pushed, k, 0);
            }
        }
    }
}

/// The cache-soundness law: a successful lookup returns HTML that was
/// recorded for an article with the same fingerprint — the same canonical
/// field set, title, description and metadata — rendered under the same
/// theme fingerprint.  Together with pipeline determinism this pins the
/// returned HTML to what a fresh render would produce.
pub proof fn lemma_cache_soundness(
    cache: RenderCache,
    article: Article,
    theme_fingerprint: Seq<char>,
    e: CachedEntry,
)
    requires
        cache.stored(article.preview.output_path_spec()) == Some(e),
        e.matches_spec(article, theme_fingerprint),
    ensures
        e.sha256@ == sha256_hex_of(canonical_json(article.canonical())),
        e.theme_fingerprint@ == theme_fingerprint,
        e.title@ == article.preview.title@,
        e.description@ == article.preview.description@,
        e.metadata.same_fields(article.preview.metadata),
{
}

/// The stale-theme law: an entry whose theme fingerprint differs from the
/// current one never matches, so the lookup misses and the caller
/// re-renders.
pub proof fn lemma_theme_change_misses(
    e: CachedEntry,
    article: Article,
    theme_fingerprint: Seq<char>,
)
    requires
        e.theme_fingerprint@ != theme_fingerprint,
    ensures
        !e.matches_spec(article, theme_fingerprint),
{
}

} // verus!
