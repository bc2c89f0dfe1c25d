//! Articles: output paths, locale routing, the canonical serialization and
//! the fingerprint.

use sha2::Digest;
use thought::article::{Article, ArticlePreview, Category, Translation};
use thought::metadata::{ArticleMetadata, CategoryMetadata};
use thought::timefmt::Timestamp;

fn category(segments: &[&str]) -> Category {
    Category::new(
        segments.iter().map(|s| s.to_string()).collect(),
        CategoryMetadata::new("Posts".to_string(), Timestamp::new(0, 0)),
    )
}

fn article(segments: &[&str], slug: &str, locale: &str, default_locale: &str) -> Article {
    let metadata = ArticleMetadata::new("Jane Doe".to_string(), Timestamp::new(1715504400, 0));
    Article::create(
        "Hello".to_string(),
        slug.to_string(),
        category(segments),
        metadata,
        "A first post.".to_string(),
        "# Hello\n\nA first post.\n".to_string(),
        locale.to_string(),
        default_locale.to_string(),
        vec![Translation { locale: "en".to_string(), title: "Hello".to_string() }],
    )
}

#[test]
fn output_path_joins_segments() {
    let a = article(&["posts"], "hello", "en", "en");
    assert_eq!(a.output_path(), "posts/hello");
    assert_eq!(a.segments(), vec!["posts".to_string(), "hello".to_string()]);
}

#[test]
fn locale_routing_default() {
    let a = article(&["posts"], "hello", "en", "en");
    assert_eq!(a.output_file(), "posts/hello.html");
}

#[test]
fn locale_routing_variant() {
    let a = article(&["posts"], "hello", "zh", "en");
    assert_eq!(a.output_file(), "posts/hello.zh.html");
}

#[test]
fn permalink_inserts_one_slash() {
    let a = article(&[], "hello", "en", "en");
    assert_eq!(a.preview().permalink("https://example.org"), "https://example.org/hello.html");
    assert_eq!(a.preview().permalink("https://example.org/"), "https://example.org/hello.html");
}

#[test]
fn canonical_json_exact() {
    let a = article(&["posts"], "hello", "en", "en");
    let mut expected = String::new();
    expected.push_str("{\"title\":\"Hello\",\"slug\":\"hello\",\"category\":[\"posts\"],");
    expected.push_str("\"locale\":\"en\",\"metadata\":{\"created\":1715504400,\"tags\":[],");
    expected.push_str("\"author\":\"Jane Doe\",\"description\":null},");
    expected.push_str("\"description\":\"A first post.\",");
    expected.push_str("\"content\":\"# Hello\\u000a\\u000aA first post.\\u000a\",");
    expected.push_str("\"translations\":[{\"locale\":\"en\",\"title\":\"Hello\"}]}");
    assert_eq!(a.canonical_json_string(), expected);
}

#[test]
fn fingerprint_is_digest_of_canonical_json() {
    let a = article(&["posts"], "hello", "en", "en");
    let expected = format!("{:x}", sha2::Sha256::digest(a.canonical_json_string().as_bytes()));
    assert_eq!(a.sha256(), expected);
}

#[test]
fn fingerprint_stable_across_copies() {
    let a = article(&["posts"], "hello", "en", "en");
    let b = article(&["posts"], "hello", "en", "en");
    assert_eq!(a.sha256(), b.sha256());
}

#[test]
fn fingerprint_tracks_content() {
    let a = article(&["posts"], "hello", "en", "en");
    let mut b = article(&["posts"], "hello", "en", "en");
    b.content.push_str("more");
    assert_ne!(a.sha256(), b.sha256());
}

#[test]
fn preview_getters() {
    let a = article(&["posts"], "hello", "en", "en");
    let p: &ArticlePreview = a.preview();
    assert_eq!(p.title(), "Hello");
    assert_eq!(p.slug(), "hello");
    assert_eq!(p.description(), "A first post.");
    assert_eq!(p.locale(), "en");
    assert_eq!(p.default_locale(), "en");
    assert!(p.is_default_locale());
    assert_eq!(p.translations().len(), 1);
    assert_eq!(p.category().segments(), &vec!["posts".to_string()]);
}

#[test]
fn asset_paths_climb_to_the_root() {
    let a = article(&["posts"], "hello", "en", "en");
    assert_eq!(a.preview().assets_prefix(), "../");
    assert_eq!(a.preview().assets_path("style.css"), "../assets/style.css");
    assert_eq!(a.preview().assets_path("/style.css"), "../assets/style.css");
    assert_eq!(a.preview().assets_path(""), "../");
    assert_eq!(
        a.preview().search_script_path(),
        "../assets/thought-search/thought-search.js"
    );
    assert_eq!(
        a.preview().search_wasm_path(),
        "../assets/thought-search/thought-search.wasm"
    );
    let top = article(&[], "hello", "en", "en");
    assert_eq!(top.preview().assets_prefix(), "");
}
