//! The render cache, its invalidation rules, and the engine's planning.

use thought::article::{Article, Category, Translation};
use thought::cache::RenderCache;
use thought::engine::{collect_previews, plan_article, RenderAction, Site};
use thought::metadata::{ArticleMetadata, CategoryMetadata};
use thought::search::encode_search_payload;
use thought::timefmt::Timestamp;

fn article(slug: &str, locale: &str, default_locale: &str, content: &str) -> Article {
    Article::create(
        "Hello".to_string(),
        slug.to_string(),
        Category::new(
            vec!["posts".to_string()],
            CategoryMetadata::new("Posts".to_string(), Timestamp::new(0, 0)),
        ),
        ArticleMetadata::new("Jane".to_string(), Timestamp::new(0, 0)),
        "desc".to_string(),
        content.to_string(),
        locale.to_string(),
        default_locale.to_string(),
        Vec::<Translation>::new(),
    )
}

#[test]
fn cache_miss_then_hit() {
    let mut cache = RenderCache::new();
    let a = article("hello", "en", "en", "# Hello\n");
    assert!(cache.hit(&a, "theme1").is_none());
    cache.store(&a, "<h1>Hello</h1>".to_string(), "theme1".to_string());
    assert_eq!(cache.hit(&a, "theme1").as_deref(), Some("<h1>Hello</h1>"));
}

#[test]
fn theme_change_invalidates() {
    let mut cache = RenderCache::new();
    let a = article("hello", "en", "en", "# Hello\n");
    cache.store(&a, "<h1>Hello</h1>".to_string(), "theme1".to_string());
    assert!(cache.hit(&a, "theme2").is_none());
}

#[test]
fn content_change_invalidates() {
    let mut cache = RenderCache::new();
    let a = article("hello", "en", "en", "# Hello\n");
    cache.store(&a, "<h1>Hello</h1>".to_string(), "theme1".to_string());
    let changed = article("hello", "en", "en", "# Hello\n\nNew words.\n");
    assert!(cache.hit(&changed, "theme1").is_none());
}

#[test]
fn store_replaces_entry() {
    let mut cache = RenderCache::new();
    let a = article("hello", "en", "en", "# Hello\n");
    cache.store(&a, "<h1>old</h1>".to_string(), "theme1".to_string());
    cache.store(&a, "<h1>new</h1>".to_string(), "theme1".to_string());
    assert_eq!(cache.slots().len(), 1);
    assert_eq!(cache.hit(&a, "theme1").as_deref(), Some("<h1>new</h1>"));
}

#[test]
fn second_run_uses_cache() {
    let mut cache = RenderCache::new();
    let a = article("hello", "en", "en", "# Hello\n");
    let first = plan_article(&cache, &a, "theme1");
    assert!(matches!(first.action, RenderAction::Render));
    assert_eq!(first.output_file, "posts/hello.html");
    cache.store(&a, "<h1>Hello</h1>".to_string(), "theme1".to_string());
    let second = plan_article(&cache, &a, "theme1");
    match second.action {
        RenderAction::UseCached { html } => assert_eq!(html, "<h1>Hello</h1>"),
        RenderAction::Render => panic!("expected a cache hit"),
    }
}

#[test]
fn new_theme_forces_render() {
    let mut cache = RenderCache::new();
    let a = article("hello", "en", "en", "# Hello\n");
    cache.store(&a, "<h1>Hello</h1>".to_string(), "theme1".to_string());
    let plan = plan_article(&cache, &a, "theme2");
    assert!(matches!(plan.action, RenderAction::Render));
}

#[test]
fn previews_take_default_locales_only() {
    let articles = vec![
        article("hi", "en", "en", "# Hi\n"),
        article("hi", "zh", "en", "# Ni hao\n"),
        article("other", "en", "en", "# Other\n"),
    ];
    let previews = collect_previews(&articles);
    assert_eq!(previews.len(), 2);
    assert_eq!(previews[0].slug(), "hi");
    assert_eq!(previews[1].slug(), "other");
}

#[test]
fn empty_workspace_gives_empty_previews_and_payload() {
    let previews = collect_previews(&Vec::new());
    assert!(previews.is_empty());
    assert_eq!(encode_search_payload(&Vec::new()), "[]");
}

#[test]
fn site_context() {
    let mut site = Site::new("Blog".to_string(), "Jane".to_string(), "".to_string());
    site.set_footer("fin".to_string());
    assert_eq!(site.footer, "fin");
}
