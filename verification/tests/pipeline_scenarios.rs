//! The render pipeline: call order, data flow, and the literal scenarios
//! of a theme with and without hooks.

use thought::article::{Article, Category, Translation};
use thought::metadata::{ArticleMetadata, CategoryMetadata};
use thought::pipeline::{GuestResponse, Pipeline, PipelineCall};
use thought::timefmt::Timestamp;

fn hello_article() -> Article {
    Article::create(
        "Hello".to_string(),
        "hello".to_string(),
        Category::new(
            vec!["posts".to_string()],
            CategoryMetadata::new("Posts".to_string(), Timestamp::new(0, 0)),
        ),
        ArticleMetadata::new("Jane".to_string(), Timestamp::new(0, 0)),
        "".to_string(),
        "# Hello\n".to_string(),
        "en".to_string(),
        "en".to_string(),
        Vec::<Translation>::new(),
    )
}

/// The test theme of the scenarios: `<h1>{title}</h1>`.
fn theme_page(a: &Article) -> String {
    format!("<h1>{}</h1>", a.title())
}

#[test]
fn single_article_without_hooks() {
    let mut p = Pipeline::start(hello_article(), 0);
    assert_eq!(p.next_call(), PipelineCall::GeneratePage);
    let html = theme_page(p.article());
    p = p.apply(GuestResponse::Html(html)).unwrap();
    assert!(p.is_done());
    assert_eq!(p.html().as_deref(), Some("<h1>Hello</h1>"));
}

#[test]
fn pre_render_hook_uppercases_title() {
    let mut p = Pipeline::start(hello_article(), 1);
    assert_eq!(p.next_call(), PipelineCall::PreRender { hook: 0 });
    let mut transformed = p.article().clone();
    transformed.preview.title = transformed.preview.title.to_uppercase();
    p = p.apply(GuestResponse::Article(transformed)).unwrap();
    assert_eq!(p.next_call(), PipelineCall::GeneratePage);
    let html = theme_page(p.article());
    p = p.apply(GuestResponse::Html(html)).unwrap();
    assert_eq!(p.next_call(), PipelineCall::PostRender { hook: 0 });
    let html = p.html().clone().unwrap();
    p = p.apply(GuestResponse::Html(html)).unwrap();
    assert!(p.is_done());
    assert_eq!(p.html().as_deref(), Some("<h1>HELLO</h1>"));
}

#[test]
fn hooks_run_in_declaration_order() {
    let mut p = Pipeline::start(hello_article(), 2);
    assert_eq!(p.next_call(), PipelineCall::PreRender { hook: 0 });
    let same = p.article().clone();
    p = p.apply(GuestResponse::Article(same)).unwrap();
    assert_eq!(p.next_call(), PipelineCall::PreRender { hook: 1 });
    let same = p.article().clone();
    p = p.apply(GuestResponse::Article(same)).unwrap();
    assert_eq!(p.next_call(), PipelineCall::GeneratePage);
    p = p.apply(GuestResponse::Html("x".to_string())).unwrap();
    assert_eq!(p.next_call(), PipelineCall::PostRender { hook: 0 });
    p = p.apply(GuestResponse::Html("y".to_string())).unwrap();
    assert_eq!(p.next_call(), PipelineCall::PostRender { hook: 1 });
    p = p.apply(GuestResponse::Html("z".to_string())).unwrap();
    assert!(p.is_done());
    assert_eq!(p.html().as_deref(), Some("z"));
}

#[test]
fn wrong_response_kind_is_rejected() {
    let p = Pipeline::start(hello_article(), 0);
    assert!(p.apply(GuestResponse::Article(hello_article())).is_err());
}

#[test]
fn rendered_article_splits() {
    let a = hello_article();
    let rendered = thought::pipeline::RenderedArticle {
        preview: a.preview().clone(),
        html: "<h1>Hello</h1>".to_string(),
    };
    let (token, html) = rendered.into_parts();
    assert_eq!(token.preview.slug(), "hello");
    assert_eq!(html, "<h1>Hello</h1>");
}
