//! Markdown extraction, title fallback and display dates.

use thought::article::{Category, Translation};
use thought::markdown::{extract, markdown_to_html, parse_events};
use thought::metadata::{ArticleMetadata, CategoryMetadata};
use thought::timefmt::{format_display_date, Timestamp};
use thought::workspace::build_article;

#[test]
fn extracts_title_and_description() {
    let events = parse_events("# Hello\n\nFirst paragraph.\n\nSecond paragraph.\n");
    let (title, description) = extract(&events);
    assert_eq!(title.as_deref(), Some("Hello"));
    assert_eq!(description, "First paragraph.");
}

#[test]
fn heading_without_paragraph_gives_empty_description() {
    let events = parse_events("# Hello\n");
    let (title, description) = extract(&events);
    assert_eq!(title.as_deref(), Some("Hello"));
    assert_eq!(description, "");
}

#[test]
fn no_heading_gives_no_title() {
    let events = parse_events("Just text, no heading.\n");
    let (title, _) = extract(&events);
    assert!(title.is_none());
}

#[test]
fn display_date_epoch() {
    // 1970-01-01 was a Thursday.
    assert_eq!(format_display_date(&Timestamp::new(0, 0)), "Thu 1 Jan");
}

#[test]
fn markdown_renders_heading() {
    assert_eq!(markdown_to_html("# Hi\n"), "<h1>Hi</h1>\n");
}

fn build(content: &str, created: i64) -> thought::article::Article {
    build_article(
        &vec!["posts".to_string(), "hello".to_string()],
        Category::new(
            vec!["posts".to_string()],
            CategoryMetadata::new("Posts".to_string(), Timestamp::new(0, 0)),
        ),
        ArticleMetadata::new("Jane".to_string(), Timestamp::new(created, 0)),
        content.to_string(),
        "en".to_string(),
        "en".to_string(),
        Vec::<Translation>::new(),
    )
    .unwrap()
}

#[test]
fn built_article_takes_heading_title() {
    let a = build("# Greetings\n\nWords.\n", 0);
    assert_eq!(a.title(), "Greetings");
    assert_eq!(a.description(), "Words.");
}

#[test]
fn built_article_falls_back_to_date_title() {
    let a = build("no heading here\n", 0);
    assert_eq!(a.title(), "Thu 1 Jan");
}

#[test]
fn built_article_empty_segments_rejected() {
    let r = build_article(
        &Vec::new(),
        Category::new(Vec::new(), CategoryMetadata::new("".to_string(), Timestamp::new(0, 0))),
        ArticleMetadata::new("Jane".to_string(), Timestamp::new(0, 0)),
        "x".to_string(),
        "en".to_string(),
        "en".to_string(),
        Vec::new(),
    );
    assert!(r.is_err());
}

#[test]
fn metadata_description_overrides_extraction() {
    let mut metadata = ArticleMetadata::new("Jane".to_string(), Timestamp::new(0, 0));
    metadata.set_description("Overridden.".to_string());
    let a = build_article(
        &vec!["hello".to_string()],
        Category::new(Vec::new(), CategoryMetadata::new("".to_string(), Timestamp::new(0, 0))),
        metadata,
        "# T\n\nExtracted.\n".to_string(),
        "en".to_string(),
        "en".to_string(),
        Vec::new(),
    )
    .unwrap();
    assert_eq!(a.description(), "Overridden.");
}
