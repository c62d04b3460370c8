use searxng::container::ResultContainer;
use searxng::engines::Google;
use searxng::query::{ParsedQuery, TimeRange};
use searxng::registry::{EngineConfig, EngineInfo, EngineRegistry};
use searxng::results::{EngineError, Result};
use searxng::search::{
    classify_parse_error, classify_transport_error, collect_outcomes, get_external_bang_url,
    plan_search, EngineOutcome, EngineRef, EngineReport, EngineResults, RequestParams, Search,
    SearchPlan, SearchQuery,
};

fn hit(url: &str, title: &str, engine: &str, pos: u32) -> Result {
    Result::new(url.to_string(), title.to_string(), engine.to_string()).with_position(pos)
}

fn report(name: &str, outcome: EngineOutcome) -> EngineReport {
    EngineReport { name: name.to_string(), category: "general".to_string(), elapsed_ms: 10, outcome }
}

#[test]
fn test_simple_query() {
    let query = SearchQuery::simple("hello world");
    assert_eq!(query.query, "hello world");
    assert_eq!(query.pageno, 1);
    assert_eq!(query.safesearch, 0);
}

#[test]
fn test_query_builder() {
    let query = SearchQuery::simple("test").with_lang("en").with_safesearch(2).with_page(3);
    assert_eq!(query.lang, "en");
    assert_eq!(query.safesearch, 2);
    assert_eq!(query.pageno, 3);
}

#[test]
fn test_engine_refs() {
    let mut query = SearchQuery::simple("test");
    query.add_engine("google", "general");
    query.add_engine("google_images", "images");
    assert_eq!(query.engine_refs.len(), 2);
    let cats = query.categories();
    assert!(cats.contains(&"general".to_string()));
    assert!(cats.contains(&"images".to_string()));
}

#[test]
fn test_registry() {
    let mut registry = EngineRegistry::new();
    let google = Google::new().info();
    let config = EngineConfig {
        name: "google".to_string(),
        engine: "google".to_string(),
        shortcut: "g".to_string(),
        ..Default::default()
    };
    registry.register(google, config);
    assert!(registry.contains("google"));
    assert!(registry.get_by_shortcut("g").is_some());
}

#[test]
fn builder_caps_and_floors() {
    let q = SearchQuery::simple("x").with_safesearch(7).with_page(0).with_time_range(TimeRange::Day).with_timeout(1200);
    assert_eq!(q.safesearch, 2);
    assert_eq!(q.pageno, 1);
    assert_eq!(q.time_range, Some(TimeRange::Day));
    assert_eq!(q.effective_timeout(5000, 1000), 1000);
    assert_eq!(SearchQuery::simple("x").effective_timeout(5000, 1000), 5000);
}

#[test]
fn from_parsed_uses_engine_bangs() {
    let parsed = ParsedQuery::parse(":de !bing rust");
    let q = SearchQuery::from_parsed(parsed, vec![EngineRef::new("google", "general")]);
    assert_eq!(q.engine_refs.len(), 1);
    assert_eq!(q.engine_refs[0].name, "bing");
    assert_eq!(q.engine_refs[0].category, "general");
    assert_eq!(q.lang, "de");
    let q2 = SearchQuery::from_parsed(ParsedQuery::parse("rust"), vec![EngineRef::new("google", "it")]);
    assert_eq!(q2.engine_refs[0].name, "google");
    assert_eq!(q2.lang, "all");
}

#[test]
fn external_bang_redirect_url() {
    let parsed = ParsedQuery::parse("!g foo bar");
    let q = SearchQuery::from_parsed(parsed, vec![EngineRef::new("google", "general")]);
    match plan_search(&q) {
        SearchPlan::Redirect(url) => assert_eq!(url, "https://www.google.com/search?q=foo%20bar"),
        other => panic!("expected a redirect, got {:?}", other),
    }
    assert_eq!(
        get_external_bang_url("ddg", "a&b"),
        Some("https://duckduckgo.com/?q=a%26b".to_string())
    );
    assert_eq!(get_external_bang_url("nope", "x"), None);
}

#[test]
fn empty_query_needs_no_work() {
    let mut q = SearchQuery::simple("   ");
    q.add_engine("google", "general");
    assert!(matches!(plan_search(&q), SearchPlan::Nothing));
    let q2 = SearchQuery::simple("rust");
    assert!(matches!(plan_search(&q2), SearchPlan::Dispatch));
}

#[test]
fn external_bang_without_site_stops_the_search() {
    let parsed = ParsedQuery::parse("!wa foo");
    assert_eq!(parsed.external_bang, Some("wa".to_string()));
    let mut q = SearchQuery::from_parsed(parsed, vec![EngineRef::new("google", "general")]);
    assert!(matches!(plan_search(&q), SearchPlan::Nothing));
    q.external_bang = Some("yt".to_string());
    assert!(matches!(plan_search(&q), SearchPlan::Redirect(_)));
}

#[test]
fn error_classification() {
    assert_eq!(classify_transport_error("operation timeout"), EngineError::Timeout);
    assert_eq!(classify_transport_error("status 429"), EngineError::TooManyRequests);
    assert_eq!(classify_transport_error("status 403"), EngineError::AccessDenied);
    assert_eq!(classify_transport_error("connection refused"), EngineError::NetworkError);
    assert_eq!(classify_parse_error("CAPTCHA detected"), EngineError::Captcha);
    assert_eq!(classify_parse_error("bad json"), EngineError::ParseError);
}

#[test]
fn basic_multi_engine_merge() {
    let mut c = ResultContainer::new();
    let google = EngineResults::with_results(vec![
        hit("https://rust-lang.org", "Rust", "google", 1),
        hit("https://docs.rs", "docs", "google", 2),
    ]);
    let bing = EngineResults::with_results(vec![hit("https://rust-lang.org/", "The Rust Language", "bing", 1)]);
    collect_outcomes(&mut c, vec![report("google", EngineOutcome::Parsed(google)), report("bing", EngineOutcome::Parsed(bing))]);
    assert_eq!(c.result_count(), 2);
    let ranked = c.get_ordered_results();
    assert_eq!(ranked[0].url, "https://rust-lang.org");
    assert_eq!(ranked[0].engines, vec!["google".to_string(), "bing".to_string()]);
    assert_eq!(ranked[0].positions, vec![1, 1]);
    assert_eq!(ranked[0].category, Some("general".to_string()));
    assert_eq!(c.get_timings().len(), 2);
    assert!(c.get_unresponsive().is_empty());
}

#[test]
fn partial_failure_keeps_survivors() {
    let mut c = ResultContainer::new();
    let ok = EngineResults::with_results(vec![hit("https://a.org", "A", "google", 1)]);
    collect_outcomes(
        &mut c,
        vec![
            report("google", EngineOutcome::Parsed(ok)),
            report("bing", EngineOutcome::TransportFailed("HTTP 429 Too Many Requests".to_string())),
            report("brave", EngineOutcome::TimedOut),
            report("arxiv", EngineOutcome::BuildFailed),
        ],
    );
    assert_eq!(c.result_count(), 1);
    let un = c.get_unresponsive();
    assert_eq!(un.len(), 3);
    assert_eq!(un[0].error, EngineError::TooManyRequests);
    assert_eq!(un[1].name, "brave");
    assert_eq!(un[1].error, EngineError::Timeout);
    assert_eq!(un[2].error, EngineError::Unknown);
}

#[test]
fn timed_out_engine_adds_no_result() {
    let mut c = ResultContainer::new();
    collect_outcomes(&mut c, vec![report("spy", EngineOutcome::TimedOut)]);
    assert_eq!(c.result_count(), 0);
    assert_eq!(c.get_unresponsive()[0].name, "spy");
    assert_eq!(c.get_unresponsive()[0].error, EngineError::Timeout);
}

#[test]
fn engine_timeouts_and_weights() {
    let mut reg = EngineRegistry::new();
    reg.register(EngineInfo::new("slow", vec!["general".to_string()]), EngineConfig { timeout: Some(60_000), weight: 500, ..Default::default() });
    reg.register(Google::new().info(), EngineConfig::default());
    let search = Search::new(reg);
    let mut q = SearchQuery::simple("x");
    q.add_engine("slow", "general");
    q.add_engine("google", "general");
    q.add_engine("missing", "general");
    assert_eq!(search.engine_timeout(&q, "slow"), 30_000);
    assert_eq!(search.engine_timeout(&q, "google"), 5_000);
    assert_eq!(search.engine_timeout(&q.clone().with_timeout(100), "slow"), 100);
    let w = search.weights(&q);
    assert_eq!(w[0].1, 500);
    assert_eq!(w[1].1, 1000);
    assert_eq!(w[2].1, 1000);
    assert_eq!(search.dispatch_list(&q).len(), 2);
    let cq = search.category_query("rust", "general", 2);
    assert_eq!(cq.engine_refs.len(), 2);
    assert_eq!(cq.pageno, 2);
}

#[test]
fn request_params_for_engine() {
    let q = SearchQuery::simple("rust").with_lang("de");
    let p = RequestParams::for_engine(&q, &EngineRef::new("google", "it"));
    assert_eq!(p.query, "rust");
    assert_eq!(p.lang, "de");
    assert_eq!(p.category, "it");
    let d = RequestParams::new("x");
    assert_eq!(d.lang, "en");
    assert_eq!(d.category, "general");
}

#[test]
fn registry_lookups() {
    let mut reg = EngineRegistry::new();
    reg.register(Google::new().info(), EngineConfig { shortcut: "g".to_string(), ..Default::default() });
    reg.register(EngineInfo::new("off", vec!["images".to_string()]), EngineConfig { disabled: true, ..Default::default() });
    assert_eq!(reg.resolve_name("g"), Some("google".to_string()));
    assert_eq!(reg.resolve_name("google"), Some("google".to_string()));
    assert_eq!(reg.resolve_name("x"), None);
    assert_eq!(reg.get_by_category("web"), vec!["google".to_string()]);
    assert!(reg.get_by_category("nothing").is_empty());
    assert_eq!(reg.enabled(), vec!["google".to_string()]);
    assert_eq!(reg.len(), 2);
}

#[test]
fn error_messages() {
    assert_eq!(EngineError::HttpError(503).to_string(), "HTTP error: 503");
    assert_eq!(EngineError::Captcha.to_string(), "CAPTCHA required");
    assert_eq!(EngineError::Timeout.to_string(), "Request timed out");
}

#[test]
fn engine_refs_from_request_parameters() {
    let mut reg = EngineRegistry::new();
    reg.register(Google::new().info(), EngineConfig::default());
    reg.register(EngineInfo::new("pics", vec!["images".to_string()]), EngineConfig::default());
    let named = searxng::search::resolve_engine_refs(&reg, Some(" bing , google"), Some("images"));
    assert_eq!(named.len(), 2);
    assert_eq!(named[0].name, "bing");
    assert_eq!(named[1].category, "general");
    let by_cat = searxng::search::resolve_engine_refs(&reg, None, Some("images, general"));
    let pairs: Vec<(String, String)> = by_cat.iter().map(|e| (e.name.clone(), e.category.clone())).collect();
    assert_eq!(
        pairs,
        vec![("pics".to_string(), "images".to_string()), ("google".to_string(), "general".to_string())]
    );
    let default = searxng::search::resolve_engine_refs(&reg, None, None);
    assert_eq!(default.len(), 1);
    assert_eq!(default[0].name, "google");
}
