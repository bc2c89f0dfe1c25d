//! The resolver's decisions and the preview server's routing.

use thought::metadata::PluginLocator;
use thought::resolver::{
    classify_artifact_url, locator_stamp, normalize_name, parse_github, should_reuse, url_scheme,
    validate_locator, ArtifactKind, ResolveError, ResolvedPlugin,
};
use thought::serve::{
    classify_request, port_candidates, sanitize_relative_path, split_locale_from_segments,
    RoutePlan,
};

#[test]
fn rev_and_branch_together_are_invalid() {
    let locator = PluginLocator::Git {
        url: "https://example.org/repo".to_string(),
        rev: Some("v1".to_string()),
        branch: Some("main".to_string()),
    };
    assert!(matches!(
        validate_locator(&locator),
        Err(ResolveError::InvalidLocator { .. })
    ));
}

#[test]
fn single_pin_is_valid() {
    let locator = PluginLocator::Git {
        url: "https://example.org/repo".to_string(),
        rev: Some("v1".to_string()),
        branch: None,
    };
    assert!(validate_locator(&locator).is_ok());
    assert!(validate_locator(&PluginLocator::Local { path: "p".to_string() }).is_ok());
}

#[test]
fn names_are_normalized() {
    assert_eq!(normalize_name("a/b\\c:d"), "a-b-c-d");
    assert_eq!(normalize_name("plain"), "plain");
}

#[test]
fn artifact_urls_classify_by_suffix() {
    assert_eq!(classify_artifact_url("x/a.wasm").unwrap(), ArtifactKind::Wasm);
    assert_eq!(classify_artifact_url("x/a.tar.gz").unwrap(), ArtifactKind::TarGz);
    assert_eq!(classify_artifact_url("x/a.tgz").unwrap(), ArtifactKind::TarGz);
    assert_eq!(classify_artifact_url("x/a.zip").unwrap(), ArtifactKind::Zip);
    assert!(matches!(
        classify_artifact_url("x/a.exe"),
        Err(ResolveError::UnsupportedArtifact { .. })
    ));
}

#[test]
fn github_urls_are_recognized() {
    assert_eq!(
        parse_github("https://github.com/acme/zenflow.git"),
        Some(("acme".to_string(), "zenflow".to_string()))
    );
    assert_eq!(
        parse_github("https://github.com/acme/zenflow"),
        Some(("acme".to_string(), "zenflow".to_string()))
    );
    assert_eq!(parse_github("https://gitlab.example.org/acme/zenflow"), None);
    assert_eq!(parse_github("github.com/acme/zenflow"), None);
}

#[test]
fn schemes_are_read() {
    assert_eq!(url_scheme("https://x/y"), Some("https".to_string()));
    assert_eq!(url_scheme("no scheme"), None);
}

#[test]
fn reuse_requires_matching_stamp_and_remote_source() {
    let stamp = "s".to_string();
    assert!(should_reuse(Some(&stamp), "s", false));
    assert!(!should_reuse(Some(&stamp), "other", false));
    assert!(!should_reuse(None, "s", false));
    assert!(!should_reuse(Some(&stamp), "s", true));
}

#[test]
fn locator_stamps_are_exact() {
    let l = PluginLocator::Git {
        url: "https://example.org/r".to_string(),
        rev: None,
        branch: Some("main".to_string()),
    };
    assert_eq!(
        locator_stamp(&l),
        "{\"git\":\"https://example.org/r\",\"rev\":null,\"branch\":\"main\"}"
    );
    assert_eq!(
        locator_stamp(&PluginLocator::Registry { version: "1.2".to_string() }),
        "{\"registry\":\"1.2\"}"
    );
}

#[test]
fn resolved_plugin_paths() {
    let p = ResolvedPlugin {
        dir: "/ws/.thought/plugins/zenflow".to_string(),
        manifest: thought::metadata::PluginManifest {
            name: "zenflow".to_string(),
            author: "a".to_string(),
            version: "1".to_string(),
            kind: thought::metadata::PluginKind::Theme,
            description: None,
        },
        built: true,
        force_build: false,
    };
    assert_eq!(p.wasm_path(), "/ws/.thought/plugins/zenflow/main.wasm");
    assert!(p.is_built());
    assert!(!p.needs_build());
    assert_eq!(p.dir(), "/ws/.thought/plugins/zenflow");
    assert_eq!(p.manifest().name, "zenflow");
}

#[test]
fn request_paths_are_sanitized() {
    assert_eq!(
        sanitize_relative_path("./a//b").unwrap(),
        vec!["a".to_string(), "b".to_string()]
    );
    assert!(sanitize_relative_path("a/../b").is_none());
    assert_eq!(sanitize_relative_path("").unwrap(), Vec::<String>::new());
}

#[test]
fn locale_splits_off_requests() {
    let r = split_locale_from_segments(vec!["posts".to_string(), "hello.zh".to_string()]).unwrap();
    assert_eq!(r.0, vec!["posts".to_string(), "hello".to_string()]);
    assert_eq!(r.1.as_deref(), Some("zh"));

    let r = split_locale_from_segments(vec!["hello".to_string()]).unwrap();
    assert_eq!(r.0, vec!["hello".to_string()]);
    assert!(r.1.is_none());

    let r = split_locale_from_segments(vec!["hello.".to_string()]).unwrap();
    assert_eq!(r.0, vec!["hello.".to_string()]);
    assert!(r.1.is_none());

    assert!(split_locale_from_segments(Vec::new()).is_none());
}

#[test]
fn requests_are_classified() {
    assert_eq!(classify_request(&Vec::new(), false), RoutePlan::ServeIndex);
    assert_eq!(classify_request(&vec!["style.css".to_string()], true), RoutePlan::ServeStatic);
    assert_eq!(
        classify_request(&vec!["posts".to_string(), "hello.html".to_string()], false),
        RoutePlan::RenderArticle
    );
    assert_eq!(classify_request(&vec!["hello".to_string()], false), RoutePlan::TryHtml);
    assert_eq!(classify_request(&vec!["hello.css".to_string()], false), RoutePlan::NotFound);
}

#[test]
fn fifty_candidate_ports() {
    let ports = port_candidates(2006);
    assert_eq!(ports.len(), 50);
    assert_eq!(ports[0], 2006);
    assert_eq!(ports[49], 2055);
}
