//! The per-article render pipeline as a state machine: pre-render hooks in
//! declaration order, then the theme, then post-render hooks in declaration
//! order.  The host performs the guest calls and feeds each response back;
//! the machine fixes the order of calls and the flow of data, so the output
//! is a function of the article and the guest responses alone.

use vstd::prelude::*;

use crate::article::{Article, ArticlePreview};

verus! {

/// Where the pipeline stands.
#[derive(Debug, Clone, PartialEq, Eq, Structural)]
pub enum Stage {
    /// The next pre-render hook to call.
    Pre { next: usize },
    /// The theme's page render.
    Theme,
    /// The next post-render hook to call.
    Post { next: usize },
    /// All calls done; the output stands.
    Done,
}

/// What the host must call next.
#[derive(Debug, Clone, PartialEq, Eq, Structural)]
pub enum PipelineCall {
    /// Call `on_pre_render` of the hook with this index, with the current
    /// article.
    PreRender { hook: usize },
    /// Call `generate_page` of the theme, with the current article.
    GeneratePage,
    /// Call `on_post_render` of the hook with this index, with the current
    /// article and HTML.
    PostRender { hook: usize },
    /// Nothing: the render is finished.
    Finished,
}

/// What a guest call returned.
#[derive(Debug, Clone)]
pub enum GuestResponse {
    /// A transformed article, from `on_pre_render`.
    Article(Article),
    /// Rendered or transformed HTML, from `generate_page` or
    /// `on_post_render`.
    Html(String),
}

/// A response of the wrong kind for the current stage.
#[derive(Debug, Clone, PartialEq, Eq, Structural)]
pub struct ResponseMismatch;

/// The pipeline for one article.
#[derive(Debug, Clone)]
pub struct Pipeline {
    pub hook_count: usize,
    pub article: Article,
    pub html: Option<String>,
    pub stage: Stage,
}

impl Pipeline {
    /// The machine never points past the declared hooks.
    pub open spec fn wf(self) -> bool {
        match self.stage {
            Stage::Pre { next } => next < self.hook_count,
            Stage::Post { next } => next < self.hook_count,
            _ => true,
        }
    }

    /// The call the current stage demands.
    pub open spec fn call_spec(self) -> PipelineCall {
        match self.stage {
            Stage::Pre { next } => PipelineCall::PreRender { hook: next },
            Stage::Theme => PipelineCall::GeneratePage,
            Stage::Post { next } => PipelineCall::PostRender { hook: next },
            Stage::Done => PipelineCall::Finished,
        }
    }

    /// The exact state transition: pre-render hooks run in declaration
    /// order and replace the article; the theme produces the first HTML;
    /// post-render hooks run in declaration order and replace the HTML.
    pub open spec fn apply_spec(self, response: GuestResponse) -> Option<Pipeline> {
        match (self.stage, response) {
            (Stage::Pre { next }, GuestResponse::Article(a)) => Some(
                Pipeline {
                    article: a,
                    stage: if next + 1 < self.hook_count {
                        Stage::Pre { next: (next + 1) as usize }
                    } else {
                        Stage::Theme
                    },
                    ..self
                },
            ),
            (Stage::Theme, GuestResponse::Html(h)) => Some(
                Pipeline {
                    html: Some(h),
                    stage: if self.hook_count > 0 {
                        Stage::Post { next: 0 }
                    } else {
                        Stage::Done
                    },
                    ..self
                },
            ),
            (Stage::Post { next }, GuestResponse::Html(h)) => Some(
                Pipeline {
                    html: Some(h),
                    stage: if next + 1 < self.hook_count {
                        Stage::Post { next: (next + 1) as usize }
                    } else {
                        Stage::Done
                    },
                    ..self
                },
            ),
            _ => None,
        }
    }

    /// Starts the pipeline on an article: the first pre-render hook is
    /// next, or the theme when there are no hooks.
    pub fn start(article: Article, hook_count: usize) -> (r: Pipeline)
        ensures
            r.wf(),
            r.hook_count == hook_count,
            r.article == article,
            r.html is None,
            hook_count > 0 ==> r.stage == (Stage::Pre { next: 0 }),
            hook_count == 0 ==> r.stage == Stage::Theme,
    {
        let stage = if hook_count > 0 {
            Stage::Pre { next: 0 }
        } else {
            Stage::Theme
        };
        Pipeline { hook_count, article, html: None, stage }
    }

    /// The call the host must perform next.
    pub fn next_call(&self) -> (r: PipelineCall)
        ensures
            r == self.call_spec(),
    {
        match self.stage {
            Stage::Pre { next } => PipelineCall::PreRender { hook: next },
            Stage::Theme => PipelineCall::GeneratePage,
            Stage::Post { next } => PipelineCall::PostRender { hook: next },
            Stage::Done => PipelineCall::Finished,
        }
    }

    /// The article the next guest call receives.
    pub fn article(&self) -> (r: &Article)
        ensures
            r == &self.article,
    {
        &self.article
    }

    /// The HTML produced so far.
    pub fn html(&self) -> (r: &Option<String>)
        ensures
            r == &self.html,
    {
        &self.html
    }

    /// Whether every call has been made.
    pub fn is_done(&self) -> (r: bool)
        ensures
            r == (self.stage is Done),
    {
        match self.stage {
            Stage::Done => true,
            _ => false,
        }
    }

    /// Feeds one guest response into the machine.  The kind of response
    /// must fit the stage; the transition is exactly `apply_spec`.
    pub fn apply(self, response: GuestResponse) -> (r: Result<Pipeline, ResponseMismatch>)
        requires
            self.wf(),
        ensures
            match r {
                Ok(p) => Self::apply_spec(self, response) == Some(p) && p.wf(),
                Err(_) => Self::apply_spec(self, response) is None,
            },
    {
        match (&self.stage, response) {
            (Stage::Pre { next }, GuestResponse::Article(a)) => {
                let next = *next;
                let stage = if next + 1 < self.hook_count {
                    Stage::Pre { next: next + 1 }
                } else {
                    Stage::Theme
                };
                Ok(Pipeline { article: a, stage, ..self })
            },
            (Stage::Theme, GuestResponse::Html(h)) => {
                let stage = if self.hook_count > 0 {
                    Stage::Post { next: 0 }
                } else {
                    Stage::Done
                };
                Ok(Pipeline { html: Some(h), stage, ..self })
            },
            (Stage::Post { next }, GuestResponse::Html(h)) => {
                let next = *next;
                let stage = if next + 1 < self.hook_count {
                    Stage::Post { next: next + 1 }
                } else {
                    Stage::Done
                };
                Ok(Pipeline { html: Some(h), stage, ..self })
            },
            _ => Err(ResponseMismatch),
        }
    }
}

/// Runs the machine over a whole response sequence, at the spec level.
pub open spec fn run_spec(p: Pipeline, responses: Seq<GuestResponse>) -> Option<Pipeline>
    decreases responses.len(),
{
    if responses.len() == 0 {
        Some(p)
    } else {
        match p.apply_spec(responses[0]) {
            Some(p2) => run_spec(p2, responses.drop_first()),
            None => None,
        }
    }
}

/// The pipeline-determinism law: the render output is a function of the
/// starting article, the hook count, and the guest responses alone.  Two
/// runs from the same article under the same plugin set, whose guests
/// answer alike, end in the same state — in particular with byte-identical
/// HTML.
pub proof fn lemma_pipeline_deterministic(
    p1: Pipeline,
    p2: Pipeline,
    rs1: Seq<GuestResponse>,
    rs2: Seq<GuestResponse>,
)
    requires
        p1 == p2,
        rs1 == rs2,
    ensures
        run_spec(p1, rs1) == run_spec(p2, rs2),
{
}

/// The hook-order law: while pre-render hooks run, the machine demands
/// them strictly in declaration order, one step at a time; the same holds
/// of post-render hooks.
pub proof fn lemma_hook_order(p: Pipeline, response: GuestResponse)
    requires
        p.wf(),
    ensures
        match p.stage {
            Stage::Pre { next } => match p.apply_spec(response) {
                Some(q) => q.stage == (if next + 1 < p.hook_count {
                    Stage::Pre { next: (next + 1) as usize }
                } else {
                    Stage::Theme
                }),
                None => true,
            },
            Stage::Post { next } => match p.apply_spec(response) {
                Some(q) => q.stage == (if next + 1 < p.hook_count {
                    Stage::Post { next: (next + 1) as usize }
                } else {
                    Stage::Done
                }),
                None => true,
            },
            _ => true,
        },
{
}

/// A finished render: the preview that goes to the index, and the HTML
/// that goes to disk.
#[derive(Debug, Clone)]
pub struct RenderedArticle {
    pub preview: ArticlePreview,
    pub html: String,
}

/// A preview admitted to the index page.
#[derive(Debug, Clone)]
pub struct IndexToken {
    pub preview: ArticlePreview,
}

impl RenderedArticle {
    /// Splits a finished render into its index token and its HTML.
    pub fn into_parts(self) -> (r: (IndexToken, String))
        ensures
            r.0.preview == self.preview,
            r.1 == self.html,
    {
        (IndexToken { preview: self.preview }, self.html)
    }
}

} // verus!
