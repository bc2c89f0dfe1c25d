//! The render engine's decisions for a full site build: per-article cache
//! planning, the previews the index page receives, and the site context
//! handed to templates.

use vstd::prelude::*;

use crate::article::{Article, ArticlePreview, ArticlePreviewV, ArticleV};
use crate::cache::RenderCache;

verus! {

/// What a per-article task must do.
#[derive(Debug, Clone)]
pub enum RenderAction {
    /// The cache holds a valid render: write it, skip the guests.
    UseCached { html: String },
    /// No valid cache entry: run the pipeline, then store the result.
    Render,
}

/// The plan for one article of a build.
#[derive(Debug, Clone)]
pub struct ArticleJob {
    pub output_file: String,
    pub action: RenderAction,
}

/// Plans one article: its output file by the locale-routing rule, and a
/// cached render exactly when the cache holds an entry matching the
/// article and the current theme fingerprint.
pub fn plan_article(cache: &RenderCache, article: &Article, theme_fingerprint: &str) -> (r:
    ArticleJob)
    ensures
        r.output_file@ == article.preview.output_file_spec(),
        match r.action {
            RenderAction::UseCached { html } => cache.stored(article.preview.output_path_spec())
                matches Some(e) && e.matches_spec(*article, theme_fingerprint@) && html@
                == e.html@,
            RenderAction::Render => !(cache.stored(article.preview.output_path_spec())
                matches Some(e) && e.matches_spec(*article, theme_fingerprint@)),
        },
{
    let output_file = article.output_file();
    match cache.hit(article, theme_fingerprint) {
        Some(html) => ArticleJob { output_file, action: RenderAction::UseCached { html } },
        None => ArticleJob { output_file, action: RenderAction::Render },
    }
}

/// Whether a preview's variant carries its article's primary language.
pub open spec fn is_default_v(p: ArticlePreviewV) -> bool {
    p.locale == p.default_locale
}

/// The previews of the default-locale articles, in traversal order.
pub open spec fn default_previews(articles: Seq<ArticleV>) -> Seq<ArticlePreviewV>
    decreases articles.len(),
{
    if articles.len() == 0 {
        Seq::empty()
    } else {
        default_previews(articles.drop_last()) + if is_default_v(articles.last().preview) {
            seq![articles.last().preview]
        } else {
            Seq::empty()
        }
    }
}

/// Collects the previews the index page receives: one per default-locale
/// article, in traversal order, and nothing else.
pub fn collect_previews(articles: &Vec<Article>) -> (r: Vec<ArticlePreview>)
    ensures
        r.deep_view() == default_previews(articles.deep_view()),
{
    let ghost adv = articles.deep_view();
    let mut previews: Vec<ArticlePreview> = Vec::new();
    let mut i: usize = 0;
    while i < articles.len()
        invariant
            adv == articles.deep_view(),
            adv.len() == articles@.len(),
            i <= articles@.len(),
            previews.deep_view() == default_previews(adv.take(i as int)),
        decreases articles@.len() - i,
    {
        proof {
            assert(adv.take(i + 1).drop_last() =~= adv.take(i as int));
            assert(adv.take(i + 1).last() == adv[i as int]);
            assert(adv[i as int] == articles@[i as int]@);
        }
        if articles[i].is_default_locale() {
            let ghost prev_vec = previews@;
            proof {
                assert(previews.deep_view().len() == prev_vec.len());
            }
            let copy = articles[i].preview.duplicate();
            previews.push(copy);
            proof {
                assert(previews@ == prev_vec.push(previews@[prev_vec.len() as int]));
                assert(previews@[prev_vec.len() as int]@ == articles@[i as int].preview@);
                assert(previews.deep_view() =~= default_previews(adv.take(i + 1)));
            }
        } else {
            proof {
                assert(previews.deep_view() =~= default_previews(adv.take(i + 1)));
            }
        }
        i = i + 1;
    }
    proof {
        assert(adv.take(articles@.len() as int) =~= adv);
    }
    previews
}

/// The index-coverage law: the previews handed to the index page are
/// exactly the previews of the default-locale articles, kept in traversal
/// order — every default-locale article appears, and nothing else does.
pub proof fn lemma_index_coverage(articles: Seq<ArticleV>)
    ensures
        default_previews(articles) == articles.filter(
            |a: ArticleV| is_default_v(a.preview),
        ).map_values(|a: ArticleV| a.preview),
    decreases articles.len(),
{
    let pred = |a: ArticleV| is_default_v(a.preview);
    let proj = |a: ArticleV| a.preview;
    if articles.len() == 0 {
        assert(articles.filter(pred) =~= Seq::<ArticleV>::empty());
        assert(default_previews(articles) =~= articles.filter(pred).map_values(proj));
    } else {
        lemma_index_coverage(articles.drop_last());
        articles.drop_last().lemma_filter_push(articles.last(), pred);
        assert(articles.drop_last().push(articles.last()) =~= articles);
        assert(articles.drop_last().push(articles.last()).filter(pred) == (if pred(
            articles.last(),
        ) {
            articles.drop_last().filter(pred).push(articles.last())
        } else {
            articles.drop_last().filter(pred)
        }));
        if pred(articles.last()) {
            assert(articles.filter(pred) == articles.drop_last().filter(pred).push(
                articles.last(),
            ));
            assert(articles.filter(pred).map_values(proj) =~= articles.drop_last().filter(
                pred,
            ).map_values(proj).push(articles.last().preview));
            assert(default_previews(articles) =~= articles.filter(pred).map_values(proj));
        } else {
            assert(articles.filter(pred) == articles.drop_last().filter(pred));
            assert(default_previews(articles) =~= default_previews(articles.drop_last()));
            assert(default_previews(articles) =~= articles.filter(pred).map_values(proj));
        }
    }
}

/// An empty workspace: no articles, so the index page receives no
/// previews.
pub proof fn lemma_empty_workspace()
    ensures
        default_previews(Seq::<ArticleV>::empty()) == Seq::<ArticlePreviewV>::empty(),
{
}

/// The site context handed to index templates.
#[derive(Debug, Clone)]
pub struct Site {
    pub title: String,
    pub owner: String,
    pub footer: String,
}

impl Site {
    pub fn new(title: String, owner: String, footer: String) -> (r: Site)
        ensures
            r.title == title,
            r.owner == owner,
            r.footer == footer,
    {
        Site { title, owner, footer }
    }

    pub fn set_footer(&mut self, footer: String)
        ensures
            *final(self) == (Site { footer, ..*old(self) }),
    {
        self.footer = footer;
    }
}

} // verus!
