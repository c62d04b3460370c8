//! Instance configuration: the settings the core reads, their defaults,
//! and the default engine list.

use vstd::prelude::*;
use vstd::string::*;
use crate::query::strs;
use crate::registry::EngineConfig;
use crate::text::str_eq;

verus! {

/// General instance settings.
#[derive(Debug, Clone)]
pub struct GeneralSettings {
    pub debug: bool,
    pub instance_name: String,
    pub enable_metrics: bool,
    pub privacypolicy_url: Option<String>,
    pub donation_url: Option<String>,
    pub contact_url: Option<String>,
}

impl Default for GeneralSettings {
    fn default() -> (r: GeneralSettings)
        ensures
            !r.debug,
            r.instance_name@ == "SearXNG"@,
            r.enable_metrics,
            r.privacypolicy_url is None,
            r.donation_url is None,
            r.contact_url is None,
    {
        GeneralSettings {
            debug: false,
            instance_name: String::from_str("SearXNG"),
            enable_metrics: true,
            privacypolicy_url: None,
            donation_url: None,
            contact_url: None,
        }
    }
}

/// How long (seconds) an engine is suspended after each kind of failure.
#[derive(Debug, Clone)]
pub struct SuspendedTimes {
    pub network_error: u64,
    pub http_error: u64,
    pub captcha: u64,
    pub too_many_requests: u64,
}

impl Default for SuspendedTimes {
    fn default() -> (r: SuspendedTimes)
        ensures
            r.network_error == 120,
            r.http_error == 60,
            r.captcha == 3600,
            r.too_many_requests == 600,
    {
        SuspendedTimes { network_error: 120, http_error: 60, captcha: 3600, too_many_requests: 600 }
    }
}

/// Search behaviour settings.
#[derive(Debug, Clone)]
pub struct SearchSettings {
    /// 0, 1 or 2.
    pub safe_search: u8,
    pub autocomplete: Option<String>,
    pub default_lang: String,
    pub ban_time_on_fail: u64,
    pub max_ban_time_on_fail: u64,
    pub suspended_times: SuspendedTimes,
    pub default_categories: Vec<String>,
    pub max_page: u32,
    pub formats: Vec<String>,
}

fn strings(items: &[&str]) -> (r: Vec<String>)
    ensures
        strs(r@) == items@.map_values(|s: &str| s@),
{
    let mut v: Vec<String> = Vec::new();
    let mut i: usize = 0;
    while i < items.len()
        invariant
            i <= items@.len(),
            strs(v@) == items@.take(i as int).map_values(|s: &str| s@),
        decreases items@.len() - i,
    {
        let ghost pre = strs(v@);
        v.push(String::from_str(items[i]));
        assert(strs(v@) =~= pre.push(items@[i as int]@));
        assert(items@.take(i + 1).map_values(|s: &str| s@) =~= items@.take(i as int).map_values(|s: &str| s@).push(items@[i as int]@));
        i = i + 1;
    }
    assert(items@.take(items@.len() as int) =~= items@);
    v
}

impl Default for SearchSettings {
    fn default() -> (r: SearchSettings)
        ensures
            r.safe_search == 0,
            r.autocomplete is None,
            r.default_lang@ == "auto"@,
            r.ban_time_on_fail == 5,
            r.max_ban_time_on_fail == 120,
            r.suspended_times.captcha == 3600,
            strs(r.default_categories@) == seq!["general"@],
            r.max_page == 10,
            strs(r.formats@) == seq!["html"@, "json"@, "csv"@, "rss"@],
    {
        let default_categories = strings(&["general"]);
        let formats = strings(&["html", "json", "csv", "rss"]);
        SearchSettings {
            safe_search: 0,
            autocomplete: None,
            default_lang: String::from_str("auto"),
            ban_time_on_fail: 5,
            max_ban_time_on_fail: 120,
            suspended_times: SuspendedTimes::default(),
            default_categories,
            max_page: 10,
            formats,
        }
    }
}

/// Where the client's address is read from.
#[derive(Debug, Clone, Copy, PartialEq, Eq, Structural)]
pub enum RealIpMethod {
    XForwardedFor,
    XRealIp,
    Connection,
}

impl Default for RealIpMethod {
    fn default() -> (r: RealIpMethod)
        ensures
            r == RealIpMethod::Connection,
    {
        RealIpMethod::Connection
    }
}

/// An ASCII letter or digit.
pub open spec fn alphanumeric(c: char) -> bool {
    ('a' <= c && c <= 'z') || ('A' <= c && c <= 'Z') || ('0' <= c && c <= '9')
}

/// Relies on `rand::distributions::Alphanumeric`, which samples a byte from
/// `A-Z`, `a-z` and `0-9`, with the thread-local generator.
#[verifier::external_body]
fn random_alphanumeric() -> (r: char)
    ensures
        alphanumeric(r),
{
    <rand::rngs::ThreadRng as rand::Rng>::sample(&mut rand::thread_rng(), rand::distributions::Alphanumeric) as char
}

/// A fresh 32-character alphanumeric secret.
pub fn generate_secret_key() -> (r: String)
    ensures
        r@.len() == 32,
        forall|i: int| 0 <= i < 32 ==> alphanumeric(#[trigger] r@[i]),
{
    let mut v: Vec<char> = Vec::new();
    let mut i: usize = 0;
    while i < 32
        invariant
            i <= 32,
            v@.len() == i,
            forall|j: int| 0 <= j < i ==> alphanumeric(#[trigger] v@[j]),
        decreases 32 - i,
    {
        v.push(random_alphanumeric());
        i = i + 1;
    }
    crate::text::string_of(&v)
}

/// HTTP server settings.
#[derive(Debug, Clone)]
pub struct ServerSettings {
    pub port: u16,
    pub bind_address: String,
    pub base_url: Option<String>,
    pub limiter: bool,
    pub public_instance: bool,
    pub secret_key: String,
    pub image_proxy: bool,
    pub http_protocol_version: String,
    pub real_ip_method: RealIpMethod,
}

impl Default for ServerSettings {
    /// Port 8888 on 127.0.0.1, with a freshly drawn secret key.
    fn default() -> (r: ServerSettings)
        ensures
            r.port == 8888,
            r.bind_address@ == "127.0.0.1"@,
            r.base_url is None,
            !r.limiter,
            !r.public_instance,
            r.secret_key@.len() == 32,
            !r.image_proxy,
            r.http_protocol_version@ == "1.1"@,
            r.real_ip_method == RealIpMethod::Connection,
    {
        ServerSettings {
            port: 8888,
            bind_address: String::from_str("127.0.0.1"),
            base_url: None,
            limiter: false,
            public_instance: false,
            secret_key: generate_secret_key(),
            image_proxy: false,
            http_protocol_version: String::from_str("1.1"),
            real_ip_method: RealIpMethod::Connection,
        }
    }
}

/// Outgoing proxy settings.
#[derive(Debug, Clone)]
pub struct ProxySettings {
    pub http: Option<String>,
    pub https: Option<String>,
    pub all: Option<String>,
}

impl Default for ProxySettings {
    fn default() -> (r: ProxySettings)
        ensures
            r.http is None,
            r.https is None,
            r.all is None,
    {
        ProxySettings { http: None, https: None, all: None }
    }
}

/// Outgoing request settings.
#[derive(Debug, Clone)]
pub struct OutgoingSettings {
    /// Milliseconds.
    pub request_timeout: u64,
    /// Milliseconds.
    pub max_request_timeout: Option<u64>,
    pub useragent_suffix: Option<String>,
    pub pool_connections: usize,
    pub pool_maxsize: usize,
    pub enable_ipv6: bool,
    pub verify_ssl: bool,
    pub proxies: ProxySettings,
    pub extra_headers: Vec<(String, String)>,
}

impl Default for OutgoingSettings {
    fn default() -> (r: OutgoingSettings)
        ensures
            r.request_timeout == 5000,
            r.max_request_timeout == Some(30000u64),
            r.useragent_suffix is None,
            r.pool_connections == 100,
            r.pool_maxsize == 20,
            r.enable_ipv6,
            r.verify_ssl,
            r.extra_headers@.len() == 0,
    {
        OutgoingSettings {
            request_timeout: 5000,
            max_request_timeout: Some(30000),
            useragent_suffix: None,
            pool_connections: 100,
            pool_maxsize: 20,
            enable_ipv6: true,
            verify_ssl: true,
            proxies: ProxySettings::default(),
            extra_headers: Vec::new(),
        }
    }
}

/// Which plugins are switched on and off.
#[derive(Debug, Clone)]
pub struct PluginsSettings {
    pub enabled: Vec<String>,
    pub disabled: Vec<String>,
}

impl Default for PluginsSettings {
    fn default() -> (r: PluginsSettings)
        ensures
            strs(r.enabled@) == seq!["hash_plugin"@, "self_info"@, "tracker_url_remover"@],
            r.disabled@.len() == 0,
    {
        PluginsSettings { enabled: strings(&["hash_plugin", "self_info", "tracker_url_remover"]), disabled: Vec::new() }
    }
}

/// Interface settings.
#[derive(Debug, Clone)]
pub struct UiSettings {
    pub default_theme: String,
    pub themes: Vec<String>,
    pub default_locale: String,
    pub results_per_page: u32,
    pub infinite_scroll: bool,
    pub center_alignment: bool,
    pub query_in_title: bool,
}

impl Default for UiSettings {
    fn default() -> (r: UiSettings)
        ensures
            r.default_theme@ == "simple"@,
            strs(r.themes@) == seq!["simple"@],
            r.default_locale@ == "en"@,
            r.results_per_page == 10,
            !r.infinite_scroll,
            !r.center_alignment,
            r.query_in_title,
    {
        UiSettings {
            default_theme: String::from_str("simple"),
            themes: strings(&["simple"]),
            default_locale: String::from_str("en"),
            results_per_page: 10,
            infinite_scroll: false,
            center_alignment: false,
            query_in_title: true,
        }
    }
}

/// Cache server location.
#[derive(Debug, Clone)]
pub struct RedisSettings {
    pub url: String,
}

/// The default engines: name, engine, categories and shortcut.
pub open spec fn default_engine_table() -> Seq<(Seq<char>, Seq<char>, Seq<Seq<char>>, Seq<char>)> {
    seq![
        ("google"@, "google"@, seq!["general"@, "web"@], "g"@),
        ("duckduckgo"@, "duckduckgo"@, seq!["general"@, "web"@], "ddg"@),
        ("bing"@, "bing"@, seq!["general"@, "web"@], "bi"@),
        ("brave"@, "brave"@, seq!["general"@, "web"@], "br"@),
        ("wikipedia"@, "wikipedia"@, seq!["general"@], "wp"@),
        ("google images"@, "google_images"@, seq!["images"@], "gi"@),
        ("bing images"@, "bing_images"@, seq!["images"@], "bii"@),
        ("youtube"@, "youtube"@, seq!["videos"@], "yt"@),
        ("google news"@, "google_news"@, seq!["news"@], "gn"@),
        ("arxiv"@, "arxiv"@, seq!["science"@], "arx"@),
        ("github"@, "github"@, seq!["it"@], "gh"@),
        ("stackoverflow"@, "stackoverflow"@, seq!["it"@], "so"@)
    ]
}

pub open spec fn config_row(c: EngineConfig) -> (Seq<char>, Seq<char>, Seq<Seq<char>>, Seq<char>) {
    (c.name@, c.engine@, strs(c.categories@), c.shortcut@)
}

fn category_list(first: &str, second: Option<&str>) -> (r: Vec<String>)
    ensures
        strs(r@) == match second {
            Some(b) => seq![first@, b@],
            None => seq![first@],
        },
{
    let mut v: Vec<String> = Vec::new();
    v.push(String::from_str(first));
    match second {
        Some(b) => {
            v.push(String::from_str(b));
            assert(strs(v@) =~= seq![first@, b@]);
        },
        None => {
            assert(strs(v@) =~= seq![first@]);
        },
    }
    v
}

fn engine_config(name: &str, engine: &str, categories: Vec<String>, shortcut: &str) -> (r: EngineConfig)
    ensures
        config_row(r) == (name@, engine@, strs(categories@), shortcut@),
        !r.disabled,
        r.timeout is None,
        r.weight == 1000,
        r.display_name is None,
        r.api_key is None,
{
    EngineConfig {
        name: String::from_str(name),
        engine: String::from_str(engine),
        categories,
        shortcut: String::from_str(shortcut),
        disabled: false,
        timeout: None,
        weight: 1000,
        display_name: None,
        api_key: None,
    }
}

/// The engines configured out of the box, all enabled with weight 1.0.
pub fn default_engines() -> (r: Vec<EngineConfig>)
    ensures
        r@.map_values(|c: EngineConfig| config_row(c)) == default_engine_table(),
        forall|i: int| 0 <= i < r@.len() ==> !(#[trigger] r@[i]).disabled && r@[i].weight == 1000 && r@[i].timeout is None,
{
    let mut v: Vec<EngineConfig> = Vec::new();
    v.push(engine_config("google", "google", category_list("general", Some("web")), "g"));
    v.push(engine_config("duckduckgo", "duckduckgo", category_list("general", Some("web")), "ddg"));
    v.push(engine_config("bing", "bing", category_list("general", Some("web")), "bi"));
    v.push(engine_config("brave", "brave", category_list("general", Some("web")), "br"));
    v.push(engine_config("wikipedia", "wikipedia", category_list("general", None), "wp"));
    v.push(engine_config("google images", "google_images", category_list("images", None), "gi"));
    v.push(engine_config("bing images", "bing_images", category_list("images", None), "bii"));
    v.push(engine_config("youtube", "youtube", category_list("videos", None), "yt"));
    v.push(engine_config("google news", "google_news", category_list("news", None), "gn"));
    v.push(engine_config("arxiv", "arxiv", category_list("science", None), "arx"));
    v.push(engine_config("github", "github", category_list("it", None), "gh"));
    v.push(engine_config("stackoverflow", "stackoverflow", category_list("it", None), "so"));
    assert(v@.map_values(|c: EngineConfig| config_row(c)) =~= default_engine_table());
    v
}

/// The whole configuration.
#[derive(Debug, Clone)]
pub struct Settings {
    pub general: GeneralSettings,
    pub search: SearchSettings,
    pub server: ServerSettings,
    pub outgoing: OutgoingSettings,
    pub engines: Vec<EngineConfig>,
    pub plugins: PluginsSettings,
    pub ui: UiSettings,
    pub redis: Option<RedisSettings>,
}

impl Default for Settings {
    fn default() -> (r: Settings)
        ensures
            r.engines@.map_values(|c: EngineConfig| config_row(c)) == default_engine_table(),
            r.server.port == 8888,
            !r.general.debug,
            r.redis is None,
    {
        Settings {
            general: GeneralSettings::default(),
            search: SearchSettings::default(),
            server: ServerSettings::default(),
            outgoing: OutgoingSettings::default(),
            engines: default_engines(),
            plugins: PluginsSettings::default(),
            ui: UiSettings::default(),
            redis: None,
        }
    }
}

/// Index of the first engine configuration named `name`, from `i`.
pub open spec fn config_index(es: Seq<EngineConfig>, name: Seq<char>, i: int) -> Option<int>
    decreases es.len() - i,
{
    if i < 0 || i >= es.len() {
        None
    } else if es[i].name@ == name {
        Some(i)
    } else {
        config_index(es, name, i + 1)
    }
}

/// The configurations that satisfy `keep`, as indices, in order.
pub open spec fn config_indices(es: Seq<EngineConfig>, category: Option<Seq<char>>) -> Seq<int>
    decreases es.len(),
{
    if es.len() == 0 {
        seq![]
    } else {
        let pre = config_indices(es.drop_last(), category);
        let e = es.last();
        let keep = !e.disabled && match category {
            Some(c) => strs(e.categories@).contains(c),
            None => true,
        };
        if keep {
            pre.push(es.len() - 1)
        } else {
            pre
        }
    }
}

impl Settings {
    /// The configuration of engine `name`.
    pub fn get_engine(&self, name: &str) -> (r: Option<&EngineConfig>)
        ensures
            match config_index(self.engines@, name@, 0) {
                Some(i) => r == Some(&self.engines@[i]),
                None => r is None,
            },
    {
        let mut i: usize = 0;
        while i < self.engines.len()
            invariant
                i <= self.engines@.len(),
                config_index(self.engines@, name@, 0) == config_index(self.engines@, name@, i as int),
            decreases self.engines@.len() - i,
        {
            if str_eq(self.engines[i].name.as_str(), name) {
                return Some(&self.engines[i]);
            }
            i = i + 1;
        }
        None
    }

    fn select(&self, category: Option<&str>) -> (r: Vec<&EngineConfig>)
        ensures
            r@.len() == config_indices(self.engines@, match category { Some(c) => Some(c@), None => None }).len(),
            forall|k: int| 0 <= k < r@.len() ==> *r@[k] == self.engines@[config_indices(self.engines@, match category { Some(c) => Some(c@), None => None })[k]],
    {
        let ghost cat = match category {
            Some(c) => Some(c@),
            None => None,
        };
        let mut r: Vec<&EngineConfig> = Vec::new();
        let mut i: usize = 0;
        while i < self.engines.len()
            invariant
                i <= self.engines@.len(),
                cat == match category { Some(c) => Some(c@), None => None },
                r@.len() == config_indices(self.engines@.take(i as int), cat).len(),
                forall|k: int| 0 <= k < r@.len() ==> *r@[k] == self.engines@[config_indices(self.engines@.take(i as int), cat)[k]],
                forall|k: int| 0 <= k < r@.len() ==> 0 <= #[trigger] config_indices(self.engines@.take(i as int), cat)[k] < i,
            decreases self.engines@.len() - i,
        {
            let e = &self.engines[i];
            let ghost es = self.engines@.take(i + 1);
            assert(es.drop_last() =~= self.engines@.take(i as int));
            assert(es.last() == *e);
            let keep = !e.disabled && match category {
                Some(c) => crate::registry::contains_str(&e.categories, c),
                None => true,
            };
            if keep {
                r.push(e);
            }
            i = i + 1;
        }
        assert(self.engines@.take(self.engines@.len() as int) =~= self.engines@);
        r
    }

    /// The configurations of the engines that are not disabled.
    pub fn enabled_engines(&self) -> (r: Vec<&EngineConfig>)
        ensures
            r@.len() == config_indices(self.engines@, None).len(),
            forall|k: int| 0 <= k < r@.len() ==> *r@[k] == self.engines@[config_indices(self.engines@, None)[k]],
    {
        self.select(None)
    }

    /// The enabled engines in `category`.
    pub fn engines_by_category(&self, category: &str) -> (r: Vec<&EngineConfig>)
        ensures
            r@.len() == config_indices(self.engines@, Some(category@)).len(),
            forall|k: int| 0 <= k < r@.len() ==> *r@[k] == self.engines@[config_indices(self.engines@, Some(category@))[k]],
    {
        self.select(Some(category))
    }
}

} // verus!
