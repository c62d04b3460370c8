use searxng::engines::{get_backend, list_backends, ArXiv, EngineAbout, EngineLoader, EngineResponse, Google, StackOverflow, Wikipedia};
use searxng::locales::{accept_language, get_locale, get_supported_languages, is_rtl, parse_accept_language, Translations};
use searxng::metrics::Metrics;

#[test]
fn test_extract_tag() {
    let xml = "<entry><title>Test Title</title><summary>Abstract text</summary></entry>";
    assert_eq!(ArXiv::extract_tag(xml, "title"), Some("Test Title".to_string()));
    assert_eq!(ArXiv::extract_tag(xml, "summary"), Some("Abstract text".to_string()));
    assert_eq!(ArXiv::extract_tag(xml, "missing"), None);
}

#[test]
fn test_unescape_html() {
    assert_eq!(StackOverflow::unescape_html("&amp;&lt;&gt;&quot;&#39;"), "&<>\"'");
}

#[test]
fn unescape_applies_in_order() {
    assert_eq!(StackOverflow::unescape_html("&amp;lt; &apos;x&apos;"), "< 'x'");
    assert_eq!(StackOverflow::with_site("superuser").site, "superuser");
}

#[test]
fn test_language_url() {
    let wiki = Wikipedia::new();
    assert!(wiki.get_api_url("de").contains("de.wikipedia.org"));
    assert!(wiki.get_api_url("en-US").contains("en.wikipedia.org"));
    assert!(wiki.get_api_url("all").contains("en.wikipedia.org"));
}

#[test]
fn test_parse_accept_language() {
    let result = parse_accept_language("en-US,en;q=0.9,de;q=0.8");
    assert_eq!(result, Some("en".to_string()));
    let result = parse_accept_language("de-DE,de;q=0.9");
    assert_eq!(result, Some("de".to_string()));
}

#[test]
fn accept_language_prefers_weight() {
    assert_eq!(parse_accept_language("xx, fr;q=0.5, de;q=0.7"), Some("de".to_string()));
    assert_eq!(parse_accept_language("fr;q=0.5, de;q=0.5"), Some("fr".to_string()));
    assert_eq!(parse_accept_language("xx-YY"), None);
    assert_eq!(parse_accept_language(""), None);
}

#[test]
fn test_rtl() {
    assert!(is_rtl("ar"));
    assert!(is_rtl("ar-SA"));
    assert!(!is_rtl("en"));
}

#[test]
fn test_translations() {
    let t = Translations::new();
    assert_eq!(t.get("en", "search"), Some("Search"));
    assert_eq!(t.get("de", "search"), Some("Suchen"));
    assert_eq!(t.get("fr", "search"), Some("Rechercher"));
}

#[test]
fn translations_fall_back_to_english() {
    let t = Translations::new();
    assert_eq!(t.get("ja", "about"), Some("About"));
    assert_eq!(t.get("de-AT", "stats"), Some("Statistiken"));
    assert_eq!(t.get("de", "unknown"), None);
}

#[test]
fn locales_and_headers() {
    let l = get_locale("ar-EG").unwrap();
    assert_eq!(l.code, "ar");
    assert!(l.is_rtl);
    assert!(get_locale("xx").is_none());
    assert_eq!(get_supported_languages().len(), 14);
    assert_eq!(accept_language("all"), "en-US,en;q=0.9");
    assert_eq!(accept_language("de"), "de,en-US;q=0.9,en;q=0.8");
}

#[test]
fn test_metrics() {
    let mut metrics = Metrics::new();
    metrics.inc_search();
    metrics.record_engine_search("google");
    metrics.record_response_time("google", 100);
    metrics.record_success("google");
    assert_eq!(metrics.get_total_searches(), 1);
    assert_eq!(metrics.get_avg_response_time("google"), Some(100));
    let ok = metrics.success_count("google") as f64;
    let total = ok + metrics.error_count("google") as f64;
    let reliability = if total == 0.0 { 100.0 } else { ok / total * 100.0 };
    assert_eq!(reliability, 100.0);
}

#[test]
fn response_times_keep_the_last_hundred() {
    let mut m = Metrics::new();
    for i in 0..150u64 {
        m.record_response_time("bing", i);
    }
    assert_eq!(m.get_avg_response_time("bing"), Some(99));
    assert_eq!(m.get_avg_response_time("none"), None);
    m.record_error("bing");
    m.record_error("bing");
    assert_eq!(m.error_count("bing"), 2);
    assert_eq!(m.engine_search_count("bing"), 0);
}

#[test]
fn test_list_backends() {
    let backends = list_backends();
    assert!(backends.contains(&"duckduckgo"));
    assert!(backends.contains(&"google"));
    assert!(backends.contains(&"wikipedia"));
}

#[test]
fn test_get_backend() {
    assert!(get_backend("duckduckgo").is_some());
    assert!(get_backend("ddg").is_some());
    assert!(get_backend("google").is_some());
    assert!(get_backend("wikipedia").is_some());
    assert!(get_backend("wiki").is_some());
    assert!(get_backend("unknown").is_none());
}

#[test]
fn engine_metadata() {
    let g = Google::new();
    assert_eq!(g.name(), "google");
    assert_eq!(g.categories(), vec!["general", "web"]);
    assert!(g.supports_time_range());
    let about = g.about();
    assert_eq!(about.website, Some("https://www.google.com".to_string()));
    assert_eq!(about.results, "HTML");
    let a = EngineAbout::new().api_key_required(true).official_api(true);
    assert!(a.require_api_key && a.use_official_api);
    assert_eq!(EngineLoader::available_engines().len(), 12);
}

#[test]
fn response_status_checks() {
    let r = EngineResponse { status: 429, headers: vec![], text: "please solve the captcha".to_string(), url: String::new() };
    assert!(r.is_rate_limited());
    assert!(!r.is_success());
    assert!(r.is_captcha());
    let ok = EngineResponse { status: 204, headers: vec![], text: "fine".to_string(), url: String::new() };
    assert!(ok.is_success());
    assert!(!ok.is_captcha());
}

#[test]
fn test_arxiv_request() {
    let arxiv = ArXiv::new();
    let params = searxng::search::RequestParams::new("machine learning");
    let request = arxiv.request(&params);
    assert!(request.url.contains("arxiv.org"));
    assert!(request.params.iter().any(|(k, _)| k == "search_query"));
    assert_eq!(
        request.params.iter().find(|(k, _)| k == "search_query").map(|(_, v)| v),
        Some(&"all:machine learning".to_string())
    );
}

#[test]
fn arxiv_page_offset() {
    let mut params = searxng::search::RequestParams::new("x");
    params.pageno = 3;
    let request = ArXiv::new().request(&params);
    assert_eq!(request.params[1], ("start".to_string(), "20".to_string()));
    assert_eq!(searxng::engines::decimal_string(0), "0");
    assert_eq!(searxng::engines::decimal_string(1234567890), "1234567890");
}

#[test]
fn request_builders_replace_keys() {
    let r = searxng::engines::EngineRequest::get("https://x")
        .header("Accept", "a")
        .param("q", "1")
        .header("Accept", "b")
        .cookie("c", "d");
    assert_eq!(r.headers, vec![("Accept".to_string(), "b".to_string())]);
    assert_eq!(r.params.len(), 1);
    assert_eq!(r.cookies.len(), 1);
    assert_eq!(r.method, searxng::engines::HttpMethod::Get);
    let p = searxng::engines::EngineRequest::post("https://y").json("{}".to_string());
    assert!(matches!(p.data, Some(searxng::engines::RequestBody::Json(_))));
}

fn has_key(pairs: &[(String, String)], key: &str) -> bool {
    pairs.iter().any(|(k, _)| k == key)
}

fn value_of<'a>(pairs: &'a [(String, String)], key: &str) -> Option<&'a String> {
    pairs.iter().find(|(k, _)| k == key).map(|(_, v)| v)
}

#[test]
fn test_google_request() {
    let google = Google::new();
    let params = searxng::search::RequestParams::new("rust programming");
    let request = google.request(&params);
    assert!(request.url.contains("google.com"));
    assert!(has_key(&request.params, "q"));
}

#[test]
fn test_github_request() {
    let github = searxng::engines::GitHub::new();
    let params = searxng::search::RequestParams::new("rust");
    let request = github.request(&params);
    assert!(request.url.contains("api.github.com"));
    assert!(has_key(&request.params, "q"));
    assert!(has_key(&request.headers, "Accept"));
    assert!(has_key(&request.headers, "User-Agent"));
}

#[test]
fn test_stackoverflow_request() {
    let so = StackOverflow::new();
    let params = searxng::search::RequestParams::new("rust async");
    let request = so.request(&params);
    assert!(request.url.contains("api.stackexchange.com"));
    assert!(has_key(&request.params, "q"));
    assert_eq!(value_of(&request.params, "site"), Some(&"stackoverflow".to_string()));
}

#[test]
fn test_wikipedia_request() {
    let wiki = Wikipedia::new();
    let params = searxng::search::RequestParams::new("rust programming");
    let request = wiki.request(&params);
    assert!(request.url.contains("wikipedia.org"));
    assert!(has_key(&request.params, "gsrsearch"));
}

#[test]
fn google_request_options() {
    let mut params = searxng::search::RequestParams::new("x");
    params.pageno = 2;
    params.safesearch = 1;
    params.time_range = Some(searxng::query::TimeRange::Week);
    let r = Google::new().request(&params);
    assert_eq!(value_of(&r.params, "start"), Some(&"10".to_string()));
    assert_eq!(value_of(&r.params, "safe"), Some(&"medium".to_string()));
    assert_eq!(value_of(&r.params, "tbs"), Some(&"qdr:w".to_string()));
    assert_eq!(value_of(&r.cookies, "CONSENT"), Some(&"YES+".to_string()));
    let w = Wikipedia::new().request(&params);
    assert_eq!(value_of(&w.params, "gsroffset"), Some(&"10".to_string()));
}

#[test]
fn test_youtube_request() {
    let youtube = searxng::engines::YouTube::new();
    let params = searxng::search::RequestParams::new("rust programming");
    let request = youtube.request(&params);
    assert!(request.url.contains("youtube.com"));
    assert!(has_key(&request.params, "search_query"));
    assert!(has_key(&request.cookies, "CONSENT"));
}

#[test]
fn test_brave_request() {
    let brave = searxng::engines::Brave::new();
    let params = searxng::search::RequestParams::new("rust programming");
    let request = brave.request(&params);
    assert!(request.url.contains("brave.com"));
    assert!(has_key(&request.params, "q"));
}

#[test]
fn test_bing_request() {
    let bing = searxng::engines::Bing::new();
    let params = searxng::search::RequestParams::new("rust programming");
    let request = bing.request(&params);
    assert!(request.url.contains("bing.com"));
    assert!(has_key(&request.params, "q"));
}

#[test]
fn bing_and_brave_request_options() {
    let mut params = searxng::search::RequestParams::new("x");
    params.pageno = 3;
    params.safesearch = 2;
    let bing = searxng::engines::Bing::new().request(&params);
    assert_eq!(value_of(&bing.params, "first"), Some(&"21".to_string()));
    assert_eq!(value_of(&bing.cookies, "SRCHHPGUSR"), Some(&"ADLT=STRICT".to_string()));
    let brave = searxng::engines::Brave::new().request(&params);
    assert_eq!(value_of(&brave.params, "offset"), Some(&"2".to_string()));
    assert_eq!(value_of(&brave.cookies, "safesearch"), Some(&"strict".to_string()));
}

#[test]
fn test_duckduckgo_request() {
    let ddg = searxng::engines::DuckDuckGo::new();
    let params = searxng::search::RequestParams::new("rust programming");
    let request = ddg.request(&params);
    assert!(request.url.contains("duckduckgo.com"));
}

#[test]
fn duckduckgo_form_fields() {
    let mut params = searxng::search::RequestParams::new("x");
    params.pageno = 3;
    params.lang = "all".to_string();
    let request = searxng::engines::DuckDuckGo::new().request(&params);
    match request.data {
        Some(searxng::engines::RequestBody::Form(form)) => {
            assert_eq!(value_of(&form, "s"), Some(&"25".to_string()));
            assert_eq!(value_of(&form, "dc"), Some(&"26".to_string()));
            assert_eq!(value_of(&form, "kl"), Some(&String::new()));
            assert_eq!(value_of(&form, "kp"), Some(&"-2".to_string()));
        }
        _ => panic!("expected a form body"),
    }
    assert_eq!(request.method, searxng::engines::HttpMethod::Post);
}

#[test]
fn image_news_and_instant_requests() {
    let mut params = searxng::search::RequestParams::new("cats");
    params.pageno = 2;
    params.safesearch = 1;
    let gi = searxng::engines::GoogleImages::new().request(&params);
    assert_eq!(value_of(&gi.params, "async"), Some(&"_fmt:json,p:1,ijn:1".to_string()));
    assert_eq!(value_of(&gi.params, "safe"), Some(&"active".to_string()));
    assert!(has_key(&gi.headers, "User-Agent"));
    let bi = searxng::engines::BingImages::new().request(&params);
    assert_eq!(value_of(&bi.params, "first"), Some(&"36".to_string()));
    params.time_range = Some(searxng::query::TimeRange::Year);
    let gn = searxng::engines::GoogleNews::new().request(&params);
    assert_eq!(value_of(&gn.params, "tbm"), Some(&"nws".to_string()));
    assert_eq!(value_of(&gn.params, "tbs"), Some(&"qdr:y".to_string()));
    let ia = searxng::engines::DuckDuckGoInstant::new().request(&params);
    assert_eq!(ia.params.len(), 4);
    assert!(ia.url.contains("api.duckduckgo.com"));
}

#[test]
fn metrics_keep_other_engines() {
    let mut m = Metrics::new();
    m.inc_search();
    m.record_response_time("google", 100);
    m.record_response_time("bing", 40);
    m.record_response_time("google", 200);
    assert_eq!(m.get_avg_response_time("google"), Some(150));
    assert_eq!(m.get_avg_response_time("bing"), Some(40));
    assert_eq!(m.get_total_searches(), 1);
}
