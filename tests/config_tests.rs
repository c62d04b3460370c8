use searxng::config::{default_engines, generate_secret_key, PluginsSettings, SearchSettings, Settings};

#[test]
fn test_default_settings() {
    let settings = Settings::default();
    assert_eq!(settings.server.port, 8888);
    assert!(!settings.general.debug);
    assert!(!settings.engines.is_empty());
}

#[test]
fn test_engine_lookup() {
    let settings = Settings::default();
    let google = settings.get_engine("google");
    assert!(google.is_some());
    assert_eq!(google.unwrap().shortcut, "g");
}

#[test]
fn secret_keys_are_alphanumeric() {
    let k = generate_secret_key();
    assert_eq!(k.chars().count(), 32);
    assert!(k.chars().all(|c| c.is_ascii_alphanumeric()));
}

#[test]
fn engine_selection_by_category() {
    let mut settings = Settings::default();
    assert_eq!(settings.engines_by_category("images").len(), 2);
    assert_eq!(settings.enabled_engines().len(), default_engines().len());
    settings.engines[5].disabled = true;
    let images: Vec<String> = settings.engines_by_category("images").iter().map(|e| e.name.clone()).collect();
    assert_eq!(images, vec!["bing images".to_string()]);
    assert!(settings.get_engine("nothing").is_none());
}

#[test]
fn default_search_and_plugin_settings() {
    let s = SearchSettings::default();
    assert_eq!(s.max_page, 10);
    assert_eq!(s.formats.len(), 4);
    assert_eq!(PluginsSettings::default().enabled[2], "tracker_url_remover");
}
