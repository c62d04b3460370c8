use searxng::container::{url_key, ResultContainer};
use searxng::results::{Answer, InfoBox, Result, Suggestion};

fn hit(url: &str, title: &str, engine: &str, pos: u32) -> Result {
    Result::new(url.to_string(), title.to_string(), engine.to_string()).with_position(pos)
}

#[test]
fn test_result_deduplication() {
    let mut container = ResultContainer::new();
    let r1 = Result::new(
        "https://example.com".to_string(),
        "Example".to_string(),
        "google".to_string(),
    )
    .with_position(1);
    let r2 = Result::new(
        "https://example.com/".to_string(),
        "Example Site".to_string(),
        "bing".to_string(),
    )
    .with_position(2);
    container.add_result(r1);
    container.add_result(r2);
    assert_eq!(container.result_count(), 1);
    let results = container.get_ordered_results();
    assert_eq!(results[0].engines.len(), 2);
}

#[test]
fn test_result_ordering() {
    let mut container = ResultContainer::new();
    let r1 = Result::new(
        "https://first.com".to_string(),
        "First".to_string(),
        "google".to_string(),
    )
    .with_position(5);
    let r2 = Result::new(
        "https://second.com".to_string(),
        "Second".to_string(),
        "google".to_string(),
    )
    .with_position(1);
    container.add_result(r1);
    container.add_result(r2);
    let results = container.get_ordered_results();
    assert_eq!(results[0].url, "https://second.com");
}

#[test]
fn dedup_key_normalizes_urls() {
    assert_eq!(url_key("https://www.Example.com/Path/"), "example.com/path");
    assert_eq!(url_key("http://example.com"), "example.com");
    assert_eq!(url_key("example.com//"), "example.com/");
    assert_eq!(url_key("ftp://example.com"), "ftp://example.com");
}

#[test]
fn same_key_results_merge_engines_and_positions() {
    let mut c = ResultContainer::new();
    c.add_result(hit("https://rust-lang.org", "Rust", "google", 3));
    c.add_result(hit("http://www.rust-lang.org/", "Other", "bing", 7).with_content("text".to_string()));
    assert_eq!(c.result_count(), 1);
    let r = &c.results[0];
    assert_eq!(r.engines, vec!["google".to_string(), "bing".to_string()]);
    assert_eq!(r.positions, vec![3, 7]);
    assert_eq!(r.title, "Rust");
    assert_eq!(r.url, "https://rust-lang.org");
    assert_eq!(r.content, Some("text".to_string()));
}

#[test]
fn merge_keeps_first_content() {
    let mut c = ResultContainer::new();
    c.add_result(hit("https://a.org", "A", "google", 1).with_content("first".to_string()));
    c.add_result(hit("https://a.org", "A", "google", 2).with_content("second".to_string()));
    assert_eq!(c.results[0].content, Some("first".to_string()));
    assert_eq!(c.results[0].engines.len(), 1);
    assert_eq!(c.results[0].positions, vec![1, 2]);
}

#[test]
fn ordering_is_repeatable() {
    let mut c = ResultContainer::new();
    c.add_result(hit("https://a.org", "A", "google", 2));
    c.add_result(hit("https://b.org", "B", "google", 2));
    c.add_result(hit("https://c.org", "C", "google", 1));
    let first: Vec<String> = c.get_ordered_results().iter().map(|r| r.url.clone()).collect();
    let second: Vec<String> = c.get_ordered_results().iter().map(|r| r.url.clone()).collect();
    assert_eq!(first, second);
    assert_eq!(first, vec!["https://c.org", "https://a.org", "https://b.org"]);
}

#[test]
fn worse_position_scores_lower() {
    let mut c = ResultContainer::new();
    c.add_result(hit("https://a.org", "A", "google", 2));
    c.add_result(hit("https://b.org", "B", "google", 9));
    let ranked = c.get_ordered_results();
    assert_eq!(ranked[0].score, 500_000);
    assert_eq!(ranked[1].score, 111_111);
}

#[test]
fn two_engine_score_is_boosted() {
    let mut c = ResultContainer::new();
    c.add_result(hit("https://a.org", "A", "google", 1));
    c.add_result(hit("https://a.org", "A", "bing", 2));
    let ranked = c.get_ordered_results();
    assert_eq!(ranked[0].score, 2 * (1_000_000 + 500_000));
}

#[test]
fn weights_scale_scores() {
    let mut c = ResultContainer::with_weights(vec![("google".to_string(), 2000), ("bing".to_string(), 0)]);
    c.add_result(hit("https://a.org", "A", "google", 1));
    c.add_result(hit("https://b.org", "B", "bing", 1));
    let ranked = c.get_ordered_results();
    assert_eq!(ranked[0].url, "https://a.org");
    assert_eq!(ranked[0].score, 2_000_000);
    assert_eq!(ranked[1].score, 0);
}

#[test]
fn pages_of_results() {
    let mut c = ResultContainer::new();
    for i in 1..=5u32 {
        c.add_result(hit(&format!("https://site{}.org", i), "S", "google", i));
    }
    let p1 = c.get_results_page(1, 2);
    assert_eq!(p1.len(), 2);
    assert_eq!(p1[0].url, "https://site1.org");
    let p3 = c.get_results_page(3, 2);
    assert_eq!(p3.len(), 1);
    assert_eq!(p3[0].url, "https://site5.org");
    assert!(c.get_results_page(4, 2).is_empty());
    assert_eq!(c.get_results_page(0, 2).len(), 2);
    assert!(c.get_results_page(usize::MAX, usize::MAX).is_empty());
}

#[test]
fn answers_keep_the_earliest_text() {
    let mut c = ResultContainer::new();
    c.add_answer(Answer::new("42".to_string(), "a".to_string()));
    c.add_answer(Answer::new("42".to_string(), "b".to_string()));
    c.add_answer(Answer::new("43".to_string(), "b".to_string()));
    assert_eq!(c.get_answers().len(), 2);
    assert_eq!(c.get_answers()[0].engine, "a");
}

#[test]
fn suggestions_are_a_set_of_text_and_engine() {
    let mut c = ResultContainer::new();
    let s = |t: &str, e: &str| Suggestion { text: t.to_string(), engine: e.to_string() };
    c.add_suggestion(s("rust", "google"));
    c.add_suggestion(s("rust", "google"));
    c.add_suggestion(s("rust", "bing"));
    assert_eq!(c.get_suggestions().len(), 2);
}

#[test]
fn infobox_with_longer_content_replaces() {
    let mut c = ResultContainer::new();
    let b = |content: Option<&str>, engine: &str| InfoBox {
        id: "rust".to_string(),
        title: "Rust".to_string(),
        content: content.map(|x| x.to_string()),
        img_src: None,
        url: None,
        engine: engine.to_string(),
        attributes: vec![],
        urls: vec![],
    };
    c.add_infobox(b(Some("short"), "a"));
    c.add_infobox(b(Some("much longer text"), "b"));
    c.add_infobox(b(None, "c"));
    assert_eq!(c.get_infoboxes().len(), 1);
    assert_eq!(c.get_infoboxes()[0].engine, "b");
}

#[test]
fn engine_count_counts_distinct_engines() {
    let mut c = ResultContainer::new();
    c.add_result(hit("https://a.org", "A", "google", 1));
    c.add_result(hit("https://a.org", "A", "bing", 1));
    c.add_result(hit("https://b.org", "B", "google", 2));
    assert_eq!(c.engine_count(), 2);
    assert_eq!(c.result_count(), 2);
}

#[test]
fn redirect_last_writer_wins() {
    let mut c = ResultContainer::new();
    assert_eq!(c.get_redirect(), None);
    c.set_redirect("https://a".to_string());
    c.set_redirect("https://b".to_string());
    assert_eq!(c.get_redirect(), Some("https://b".to_string()));
}
