use searxng::plugins::{decide_pre_search, pos_is_operator, CalculatorPlugin, HashPlugin, PreSearchResult, TrackerRemoverPlugin};
use searxng::results::Result;
use searxng::search::SearchQuery;

#[test]
fn test_md5_hash() {
    let plugin = HashPlugin::new();
    let result = plugin.process("md5 hello");
    assert!(result.is_some());
    let answer = result.unwrap();
    assert!(answer.answer.contains("5d41402abc4b2a76b9719d911017c592"));
}

#[test]
fn test_sha256_hash() {
    let plugin = HashPlugin::new();
    let result = plugin.process("sha256 hello");
    assert!(result.is_some());
}

#[test]
fn hash_answer_text() {
    let plugin = HashPlugin::new();
    let a = plugin.process("  SHA-256   hello ").unwrap();
    assert_eq!(
        a.answer,
        "SHA-256 hash of \"hello\": 2cf24dba5fb0a30e26e83b2ac5b9e29e1b161e5c1fa7425e73043362938b9824"
    );
    assert_eq!(a.engine, "hash_plugin");
    assert!(plugin.process("md5").is_none());
    assert!(plugin.process("md5    ").is_none());
    assert!(plugin.process("crc32 hello").is_none());
    assert_eq!(plugin.compute_hash("MD5", "hello"), Some("5d41402abc4b2a76b9719d911017c592".to_string()));
    assert_eq!(plugin.compute_hash("sha512", "").map(|d| d.len()), Some(128));
}

#[test]
fn test_remove_utm_params() {
    let plugin = TrackerRemoverPlugin::new();
    let url = "https://example.com/page?foo=bar&utm_source=google&utm_medium=cpc";
    let cleaned = plugin.clean_url(url);
    assert_eq!(cleaned, "https://example.com/page?foo=bar");
}

#[test]
fn test_remove_fbclid() {
    let plugin = TrackerRemoverPlugin::new();
    let url = "https://example.com/?fbclid=IwAR123456";
    let cleaned = plugin.clean_url(url);
    assert_eq!(cleaned, "https://example.com/");
}

#[test]
fn test_keep_non_tracking_params() {
    let plugin = TrackerRemoverPlugin::new();
    let url = "https://example.com/search?q=test&page=2";
    let cleaned = plugin.clean_url(url);
    assert!(cleaned.contains("q=test"));
    assert!(cleaned.contains("page=2"));
}

#[test]
fn tracker_removal_on_result() {
    let plugin = TrackerRemoverPlugin::new();
    let mut r = Result::new(
        "https://example.com/x?a=1&utm_source=g&fbclid=z&b=2".to_string(),
        "X".to_string(),
        "google".to_string(),
    );
    let q = SearchQuery::simple("x");
    assert!(plugin.on_result(&q, &mut r));
    assert_eq!(r.url, "https://example.com/x?a=1&b=2");
}

#[test]
fn tracking_parameter_names() {
    let plugin = TrackerRemoverPlugin::new();
    assert!(plugin.is_tracking_param("utm_anything"));
    assert!(plugin.is_tracking_param("_ga_id"));
    assert!(plugin.is_tracking_param("gclid"));
    assert!(plugin.is_tracking_param("ref"));
    assert!(!plugin.is_tracking_param("q"));
    assert!(!plugin.is_tracking_param("referrer"));
    assert_eq!(plugin.clean_url("not a url"), "not a url");
    assert_eq!(plugin.clean_url("https://example.com/?a=1"), "https://example.com/?a=1");
}

#[test]
fn calculator_triggers() {
    let calc = CalculatorPlugin::new();
    assert!(calc.matches_query("=2+2*3"));
    assert!(calc.matches_query("calc 5"));
    assert!(calc.matches_query(" 2 ^ 3 "));
    assert!(!calc.matches_query("42"));
    assert!(!calc.matches_query("hello world"));
    assert_eq!(calc.info().id, "calculator");
}

#[test]
fn minus_as_operator() {
    assert!(pos_is_operator("3-2", '-'));
    assert!(!pos_is_operator("-2", '-'));
    assert!(!pos_is_operator("3*-2", '-'));
    assert!(!pos_is_operator("32", '-'));
    assert!(pos_is_operator("", '+'));
}

#[test]
fn kept_pairs_are_encoded_again() {
    let plugin = TrackerRemoverPlugin::new();
    assert_eq!(plugin.clean_url("https://e.com/?q=a%26b&utm_source=x"), "https://e.com/?q=a%26b");
    assert_eq!(plugin.clean_url("https://e.com/p?x=1%3D2&gclid=9#top"), "https://e.com/p?x=1%3D2#top");
    let pairs = vec![("utm_term".to_string(), "a".to_string()), ("q".to_string(), "b".to_string())];
    assert_eq!(plugin.strip_tracking_pairs(&pairs), vec![("q".to_string(), "b".to_string())]);
}

#[test]
fn pre_search_takes_first_decision() {
    let v = vec![
        PreSearchResult::Continue,
        PreSearchResult::ModifyQuery("x".to_string()),
        PreSearchResult::Skip,
    ];
    assert!(matches!(decide_pre_search(v), PreSearchResult::ModifyQuery(ref t) if t == "x"));
    assert!(matches!(decide_pre_search(vec![PreSearchResult::Continue]), PreSearchResult::Continue));
    assert!(matches!(decide_pre_search(vec![]), PreSearchResult::Continue));
}

#[test]
fn result_hostname() {
    let r = Result::new("https://www.rust-lang.org/learn".to_string(), "R".to_string(), "g".to_string());
    assert_eq!(r.hostname(), Some("www.rust-lang.org".to_string()));
    let bad = Result::new("not a url".to_string(), "R".to_string(), "g".to_string());
    assert_eq!(bad.hostname(), None);
    assert_eq!(searxng::engines::Qwant::new().name(), "qwant");
}
