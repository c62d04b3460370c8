use searxng::query::{ParsedQuery, TimeRange};

#[test]
fn test_basic_query() {
    let parsed = ParsedQuery::parse("hello world");
    assert_eq!(parsed.query, "hello world");
    assert!(parsed.languages.is_empty());
    assert!(parsed.categories.is_empty());
}

#[test]
fn test_language_parsing() {
    let parsed = ParsedQuery::parse("hello :en world");
    assert_eq!(parsed.query, "hello world");
    assert_eq!(parsed.languages, vec!["en"]);
}

#[test]
fn test_timeout_parsing() {
    let parsed = ParsedQuery::parse("hello <3 world");
    assert_eq!(parsed.query, "hello world");
    assert_eq!(parsed.timeout.map(|ms| ms as f64 / 1000.0), Some(3.0));
}

#[test]
fn test_category_bang() {
    let parsed = ParsedQuery::parse("rust tutorial !images");
    assert_eq!(parsed.query, "rust tutorial");
    assert_eq!(parsed.categories, vec!["images"]);
}

#[test]
fn test_engine_bang() {
    let parsed = ParsedQuery::parse("rust !google");
    assert_eq!(parsed.query, "rust");
    assert_eq!(parsed.engines, vec!["google"]);
}

#[test]
fn test_time_range() {
    let parsed = ParsedQuery::parse("news !week");
    assert_eq!(parsed.query, "news");
    assert_eq!(parsed.time_range, Some(TimeRange::Week));
}

#[test]
fn test_safesearch() {
    let parsed = ParsedQuery::parse("query !safesearch");
    assert_eq!(parsed.safesearch, Some(2));
}

#[test]
fn double_bang_redirects_to_first() {
    let parsed = ParsedQuery::parse("!!foo");
    assert!(parsed.redirect_to_first);
    assert_eq!(parsed.query, "foo");
}

#[test]
fn bare_bang_redirects_to_first() {
    let parsed = ParsedQuery::parse("! foo");
    assert!(parsed.redirect_to_first);
    assert_eq!(parsed.query, "foo");
}

#[test]
fn two_language_tags() {
    let parsed = ParsedQuery::parse(":en :de foo");
    assert_eq!(parsed.languages, vec!["en", "de"]);
    assert_eq!(parsed.query, "foo");
}

#[test]
fn regional_language_tag() {
    let parsed = ParsedQuery::parse("foo :pt-BR");
    assert_eq!(parsed.languages, vec!["pt-BR"]);
    assert_eq!(parsed.query, "foo");
}

#[test]
fn external_bang_is_recognized() {
    let parsed = ParsedQuery::parse("!g foo bar");
    assert_eq!(parsed.external_bang, Some("g".to_string()));
    assert_eq!(parsed.query, "foo bar");
    assert!(parsed.engines.is_empty());
}

#[test]
fn external_bang_ignores_case() {
    let parsed = ParsedQuery::parse("!YT cats");
    assert_eq!(parsed.external_bang, Some("yt".to_string()));
    assert_eq!(parsed.query, "cats");
}

#[test]
fn engine_shortcuts_map_to_names() {
    let parsed = ParsedQuery::parse("!ddg !so borrow checker");
    assert_eq!(parsed.engines, vec!["duckduckgo", "stackoverflow"]);
    assert_eq!(parsed.query, "borrow checker");
}

#[test]
fn plain_query_is_whitespace_normalized() {
    let parsed = ParsedQuery::parse("  rust   async\tawait  ");
    assert_eq!(parsed.query, "rust async await");
    assert!(!parsed.redirect_to_first);
}

#[test]
fn unknown_bang_stays_in_place() {
    let parsed = ParsedQuery::parse("foo !nosuchengine bar");
    assert_eq!(parsed.query, "foo !nosuchengine bar");
    assert!(parsed.engines.is_empty());
    assert_eq!(parsed.external_bang, None);
}

#[test]
fn every_modifier_is_removed() {
    let parsed = ParsedQuery::parse(":fr <2 !nosafesearch !month !news !github !w rust");
    assert_eq!(parsed.query, "rust");
    assert_eq!(parsed.languages, vec!["fr"]);
    assert_eq!(parsed.timeout, Some(2000));
    assert_eq!(parsed.safesearch, Some(0));
    assert_eq!(parsed.time_range, Some(TimeRange::Month));
    assert_eq!(parsed.categories, vec!["news"]);
    assert_eq!(parsed.engines, vec!["github"]);
    assert_eq!(parsed.external_bang, Some("w".to_string()));
}

#[test]
fn timeout_in_milliseconds_and_fractions() {
    assert_eq!(ParsedQuery::parse("x <250ms").timeout, Some(250));
    assert_eq!(ParsedQuery::parse("x <1.5").timeout, Some(1500));
    assert_eq!(ParsedQuery::parse("x <1.5 <9").timeout, Some(1500));
}

#[test]
fn nosafesearch_wins_over_safesearch() {
    let parsed = ParsedQuery::parse("!safesearch x !nosafesearch");
    assert_eq!(parsed.safesearch, Some(0));
    assert_eq!(parsed.query, "x");
}

#[test]
fn first_time_range_wins() {
    let parsed = ParsedQuery::parse("x !year !day");
    assert_eq!(parsed.time_range, Some(TimeRange::Year));
    assert_eq!(parsed.query, "x");
}

#[test]
fn empty_query_after_modifiers() {
    let parsed = ParsedQuery::parse("!images :en");
    assert_eq!(parsed.query, "");
    assert_eq!(parsed.pageno, 1);
}

#[test]
fn time_range_names() {
    assert_eq!(TimeRange::Day.as_str(), "day");
    assert_eq!(TimeRange::Year.as_str(), "year");
}

#[test]
fn effective_categories_fall_back() {
    let defaults = vec!["general".to_string()];
    assert_eq!(ParsedQuery::parse("x").effective_categories(&defaults), defaults);
    assert_eq!(ParsedQuery::parse("x !it").effective_categories(&defaults), vec!["it".to_string()]);
    assert!(ParsedQuery::parse("!news").is_empty());
    assert!(!ParsedQuery::parse("x").is_empty());
}
