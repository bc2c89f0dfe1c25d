//! The search payload, its round trip through real JSON, the emitted
//! WebAssembly module, the query plan and the index fingerprint.

use sha2::Digest;
use thought::article::{Article, Category, Translation};
use thought::metadata::{ArticleMetadata, CategoryMetadata};
use thought::search::{
    build_query_plan, build_search_wasm, combined_fingerprint, encode_search_payload,
    record_of_article, should_query, should_rebuild, SearchRecord, SearchSubquery,
};
use thought::timefmt::Timestamp;

fn article(slug: &str, title: &str, locale: &str, default_locale: &str) -> Article {
    Article::create(
        title.to_string(),
        slug.to_string(),
        Category::new(
            vec!["posts".to_string()],
            CategoryMetadata::new("Posts".to_string(), Timestamp::new(0, 0)),
        ),
        ArticleMetadata::new("Jane".to_string(), Timestamp::new(0, 0)),
        "about things".to_string(),
        "# Hi\n".to_string(),
        locale.to_string(),
        default_locale.to_string(),
        Vec::<Translation>::new(),
    )
}

fn records() -> Vec<SearchRecord> {
    vec![
        record_of_article(&article("hi", "Hi", "en", "en")),
        record_of_article(&article("hi", "\u{4f60}\u{597d}", "zh", "en")),
    ]
}

#[test]
fn payload_round_trips_through_json() {
    let payload = encode_search_payload(&records());
    let parsed: serde_json::Value = serde_json::from_str(&payload).unwrap();
    let arr = parsed.as_array().unwrap();
    assert_eq!(arr.len(), 2);
    assert_eq!(arr[0]["title"], "Hi");
    assert_eq!(arr[0]["slug"], "hi");
    assert_eq!(arr[0]["category"][0], "posts");
    assert_eq!(arr[0]["description"], "about things");
    assert_eq!(arr[0]["permalink"], "posts/hi.html");
    assert_eq!(arr[0]["locale"], "en");
    assert_eq!(arr[0]["default_locale"], "en");
    assert_eq!(arr[1]["title"], "\u{4f60}\u{597d}");
    assert_eq!(arr[1]["permalink"], "posts/hi.zh.html");
}

#[test]
fn bundle_module_loads_and_exports_payload() {
    let payload = encode_search_payload(&records());
    let wasm = build_search_wasm(&payload).unwrap();
    assert_eq!(&wasm[0..4], b"\0asm");

    let mut config = wasmtime::Config::new();
    config.memory_reservation(1 << 20);
    config.memory_guard_size(0);
    config.memory_reservation_for_growth(0);
    let engine = wasmtime::Engine::new(&config).unwrap();
    let module = wasmtime::Module::new(&engine, &wasm).unwrap();
    let mut store = wasmtime::Store::new(&engine, ());
    let instance = wasmtime::Instance::new(&mut store, &module, &[]).unwrap();
    let len_fn = instance
        .get_typed_func::<(), i32>(&mut store, "thought_search_data_len")
        .unwrap();
    let ptr_fn = instance
        .get_typed_func::<(), i32>(&mut store, "thought_search_data_ptr")
        .unwrap();
    let len = len_fn.call(&mut store, ()).unwrap() as usize;
    let ptr = ptr_fn.call(&mut store, ()).unwrap() as usize;
    assert_eq!(ptr, 0);
    assert_eq!(len, payload.as_bytes().len());
    let memory = instance.get_memory(&mut store, "memory").unwrap();
    let mut data = vec![0u8; len];
    memory.read(&store, ptr, &mut data).unwrap();
    assert_eq!(data, payload.as_bytes());
    let parsed: serde_json::Value = serde_json::from_slice(&data).unwrap();
    assert_eq!(parsed.as_array().unwrap().len(), 2);
}

#[test]
fn empty_payload_is_empty_array() {
    let payload = encode_search_payload(&Vec::new());
    assert_eq!(payload, "[]");
    let wasm = build_search_wasm(&payload).unwrap();
    assert_eq!(&wasm[0..4], b"\0asm");
}

#[test]
fn query_plan_has_fuzzy_terms_per_word() {
    let plan = build_query_plan("hello world");
    assert_eq!(plan.len(), 5);
    assert!(matches!(&plan[0], SearchSubquery::Parsed { query } if query == "hello world"));
    assert!(
        matches!(&plan[1], SearchSubquery::FuzzyContent { term, distance: 2, transpose: true } if term == "hello")
    );
    assert!(
        matches!(&plan[2], SearchSubquery::FuzzyTitle { term, distance: 2, transpose: true } if term == "hello")
    );
    assert!(
        matches!(&plan[3], SearchSubquery::FuzzyContent { term, distance: 2, transpose: true } if term == "world")
    );
    assert!(
        matches!(&plan[4], SearchSubquery::FuzzyTitle { term, distance: 2, transpose: true } if term == "world")
    );
}

#[test]
fn blank_queries_do_not_run() {
    assert!(!should_query("   "));
    assert!(should_query("rust"));
}

#[test]
fn rebuild_follows_fingerprint() {
    let current = "abc".to_string();
    assert!(should_rebuild(None, &current));
    assert!(should_rebuild(Some(&"old".to_string()), &current));
    assert!(!should_rebuild(Some(&"abc".to_string()), &current));
}

#[test]
fn combined_fingerprint_matches_manual_digest() {
    let a = article("hi", "Hi", "en", "en");
    let articles = vec![a];
    let fp = combined_fingerprint(&articles);
    let mut input = String::new();
    input.push_str("posts/hi.html");
    input.push_str(&articles[0].sha256());
    let expected = format!("{:x}", sha2::Sha256::digest(input.as_bytes()));
    assert_eq!(fp, expected);
}

#[test]
fn asset_paths() {
    assert_eq!(thought::search::search_asset_dir(), "assets/thought-search");
    assert_eq!(thought::search::search_js_filename(), "thought-search.js");
    assert_eq!(thought::search::search_wasm_filename(), "thought-search.wasm");
    assert_eq!(thought::search::search_script_path(), "assets/thought-search/thought-search.js");
    assert_eq!(thought::search::search_wasm_path(), "assets/thought-search/thought-search.wasm");
    assert_eq!(thought::search::index_assets_prefix(), "");
    assert_eq!(thought::search::index_assets_path("style.css"), "assets/style.css");
    assert_eq!(
        thought::search::index_search_script_path(),
        "assets/thought-search/thought-search.js"
    );
}
