//! Workspace paths, the content walk, locale variants, manifests, slugs
//! and configuration entries.

use thought::metadata::{
    ManifestField, PluginEntry, PluginKind, PluginLocator, PluginManifest, PluginRegistry,
    WorkspaceManifest,
};
use thought::slug::ArticleSlug;
use thought::timefmt::Timestamp;
use thought::water::{BuildMode, PluginEntryRaw, PluginSpec, WaterToml};
use thought::workspace::{
    content_file_for, into_segments, list_locales, resolve_default_locale, select_article_dirs,
    select_category_dirs, DirRecord, Workspace,
};

fn record(segments: &[&str], has_article: bool, has_category: bool, files: &[&str]) -> DirRecord {
    DirRecord {
        segments: segments.iter().map(|s| s.to_string()).collect(),
        has_article,
        has_category,
        files: files.iter().map(|s| s.to_string()).collect(),
    }
}

fn manifest() -> WorkspaceManifest {
    let mut registry = PluginRegistry::new();
    registry.register_entry(PluginEntry::git(
        "zenflow".to_string(),
        "https://example.org/zenflow".to_string(),
        None,
    ));
    WorkspaceManifest::new(
        "my blog".to_string(),
        "words".to_string(),
        "Jane".to_string(),
        registry,
    )
}

#[test]
fn workspace_paths() {
    let ws = Workspace::new("/ws".to_string(), manifest());
    assert_eq!(ws.manifest_path(), "/ws/Thought.toml");
    assert_eq!(ws.articles_dir(), "/ws/articles");
    assert_eq!(ws.build_dir(), "/ws/build");
    assert_eq!(ws.cache_dir(), "/ws/.thought");
    assert_eq!(ws.manifest().name(), "my blog");
    assert_eq!(ws.manifest().owner(), "Jane");
}

#[test]
fn registry_registers_and_replaces() {
    let mut registry = PluginRegistry::new();
    registry.register(
        "toc".to_string(),
        PluginLocator::Local { path: "../toc".to_string() },
    );
    registry.register(
        "toc".to_string(),
        PluginLocator::Registry { version: "2.0".to_string() },
    );
    assert_eq!(registry.plugins().len(), 1);
    assert_eq!(registry.plugins()[0].name(), "toc");
    assert!(matches!(
        registry.plugins()[0].locator(),
        PluginLocator::Registry { version } if version == "2.0"
    ));
}

#[test]
fn manifest_validation_reports_first_blank_field() {
    let mut m = PluginManifest {
        name: "zenflow".to_string(),
        author: " ".to_string(),
        version: "1".to_string(),
        kind: PluginKind::Theme,
        description: None,
    };
    assert_eq!(m.validate(), Err(ManifestField::Author));
    m.author = "Jane".to_string();
    assert!(m.validate().is_ok());
}

#[test]
fn segments_split_on_slashes() {
    assert_eq!(into_segments("posts/hello"), vec!["posts".to_string(), "hello".to_string()]);
}

#[test]
fn walk_selects_articles_without_descending() {
    let records = vec![
        record(&[], false, true, &["Category.toml"]),
        record(&["posts"], false, true, &["Category.toml"]),
        record(&["posts", "hello"], true, false, &["Article.toml", "article.md"]),
        record(&["posts", "hello", "assets"], true, false, &["Article.toml"]),
        record(&["notes"], true, true, &["Article.toml", "Category.toml"]),
    ];
    let articles = select_article_dirs(&records);
    assert_eq!(
        articles,
        vec![
            vec!["posts".to_string(), "hello".to_string()],
            vec!["notes".to_string()],
        ]
    );
    let categories = select_category_dirs(&records);
    assert_eq!(categories.len(), 3);
    assert_eq!(categories[0], Vec::<String>::new());
}

#[test]
fn locale_variants_are_md_stems() {
    let files = vec![
        "Article.toml".to_string(),
        "article.md".to_string(),
        "zh.md".to_string(),
        "fr.md".to_string(),
        "image.png".to_string(),
    ];
    assert_eq!(list_locales(&files), vec!["zh".to_string(), "fr".to_string()]);
}

#[test]
fn default_locale_precedence() {
    assert_eq!(
        resolve_default_locale(Some(&"ja".to_string()), Some("zh".to_string())),
        "ja"
    );
    assert_eq!(
        resolve_default_locale(Some(&" ".to_string()), Some("zh".to_string())),
        "zh"
    );
    assert_eq!(resolve_default_locale(None, None), "en");
}

#[test]
fn content_file_per_locale() {
    assert_eq!(content_file_for("en", "en"), "article.md");
    assert_eq!(content_file_for("zh", "en"), "zh.md");
}

#[test]
fn slugs_from_titles() {
    let slug = ArticleSlug::from_title("Hello, World").unwrap();
    assert_eq!(slug.as_str(), "hello-world");
    assert_eq!(ArticleSlug::from_title("Caf\u{e9} Crema!").unwrap().as_str(), "caf\u{e9}-crema");
    assert!(ArticleSlug::from_title("!!!").is_err());
}

#[test]
fn water_entries_resolve_by_first_match() {
    let toml = WaterToml {
        entries: vec![
            ("a".to_string(), PluginEntryRaw::Simple { version: "1.0".to_string() }),
            (
                "b".to_string(),
                PluginEntryRaw::Detailed {
                    declared_kind: Some(PluginKind::Hook),
                    mode: Some(BuildMode::Cargo),
                    version: None,
                    github: Some("acme/b".to_string()),
                    repo: None,
                    rev: Some("v2".to_string()),
                    path: None,
                },
            ),
        ],
    };
    let specs = toml.plugins().unwrap();
    assert_eq!(specs.len(), 2);
    assert!(matches!(
        &specs[0].locator,
        thought::water::PluginLocator::Registry { version } if version == "1.0"
    ));
    assert_eq!(specs[0].mode, BuildMode::Precompiled);
    assert!(matches!(
        &specs[1].locator,
        thought::water::PluginLocator::Git { repo, rev: Some(r), is_github: true }
            if repo == "acme/b" && r == "v2"
    ));
}

#[test]
fn water_rejects_sourceless_entries() {
    let toml = WaterToml {
        entries: vec![(
            "a".to_string(),
            PluginEntryRaw::Detailed {
                declared_kind: None,
                mode: None,
                version: None,
                github: None,
                repo: None,
                rev: None,
                path: None,
            },
        )],
    };
    assert!(toml.plugins().is_err());
}

#[test]
fn spec_from_blank_version_is_rejected() {
    assert!(PluginSpec::from_version("a".to_string(), "  ".to_string()).is_err());
}

#[test]
fn timestamps_carry_fields() {
    let ts = Timestamp::new(12, 34);
    assert_eq!(ts.seconds, 12);
    assert_eq!(ts.nanos, 34);
}

#[test]
fn config_getters() {
    let c = thought::config::Config::new(
        "Thought".to_string(),
        "Jane".to_string(),
        "zen".to_string(),
    );
    assert_eq!(c.title(), "Thought");
    assert_eq!(c.owner(), "Jane");
    assert_eq!(c.template(), "zen");
}
