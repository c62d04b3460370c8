//! The engine contract's data (requests, responses, metadata) and the
//! metadata of the built-in engines, with the small text helpers some of
//! them use.

use vstd::prelude::*;
use vstd::string::*;
use crate::query::{opt_str, strs};
use crate::registry::EngineInfo;
use crate::search::{contains_lit, occurs};
use crate::text::{chars_of, string_of, str_eq, sub_chars, starts_with_lit, has_prefix};

verus! {

pub open spec fn lits(v: Seq<&'static str>) -> Seq<Seq<char>> {
    v.map_values(|s: &'static str| s@)
}

/// HTTP method of an engine request.
#[derive(Debug, Clone, Copy, PartialEq, Eq, Structural)]
pub enum HttpMethod {
    Get,
    Post,
}

pub open spec fn kv_views(v: Seq<(String, String)>) -> Seq<(Seq<char>, Seq<char>)> {
    v.map_values(|p: (String, String)| (p.0@, p.1@))
}

/// Index of the first pair with key `k`, from `i`.
pub open spec fn key_index(ps: Seq<(Seq<char>, Seq<char>)>, k: Seq<char>, i: int) -> Option<int>
    decreases ps.len() - i,
{
    if i < 0 || i >= ps.len() {
        None
    } else if ps[i].0 == k {
        Some(i)
    } else {
        key_index(ps, k, i + 1)
    }
}

/// The pairs with `k` set to `v`: its pair replaced, or appended when absent.
pub open spec fn with_pair(ps: Seq<(Seq<char>, Seq<char>)>, k: Seq<char>, v: Seq<char>) -> Seq<(Seq<char>, Seq<char>)> {
    match key_index(ps, k, 0) {
        Some(i) => ps.update(i, (k, v)),
        None => ps.push((k, v)),
    }
}

/// Sets `key` to `value` in a list of pairs used as a map.
pub fn set_pair(ps: &mut Vec<(String, String)>, key: &str, value: &str)
    ensures
        kv_views(final(ps)@) == with_pair(kv_views(old(ps)@), key@, value@),
{
    let ghost pv = kv_views(ps@);
    let mut i: usize = 0;
    while i < ps.len()
        invariant
            i <= ps@.len(),
            ps@ == old(ps)@,
            pv == kv_views(ps@),
            key_index(pv, key@, 0) == key_index(pv, key@, i as int),
        decreases ps@.len() - i,
    {
        assert(pv[i as int] == (ps@[i as int].0@, ps@[i as int].1@));
        if str_eq(ps[i].0.as_str(), key) {
            ps.set(i, (String::from_str(key), String::from_str(value)));
            assert(kv_views(ps@) =~= pv.update(i as int, (key@, value@)));
            return;
        }
        i = i + 1;
    }
    ps.push((String::from_str(key), String::from_str(value)));
    assert(kv_views(ps@) =~= pv.push((key@, value@)));
}

/// Body of a POST request.
#[derive(Debug, Clone)]
pub enum RequestBody {
    /// Form fields, sent url-encoded.
    Form(Vec<(String, String)>),
    /// A JSON document, as text.
    Json(String),
    Raw(Vec<u8>),
}

/// The HTTP call an engine asks for.
#[derive(Debug, Clone)]
pub struct EngineRequest {
    pub url: String,
    pub method: HttpMethod,
    pub headers: Vec<(String, String)>,
    /// Query parameters.
    pub params: Vec<(String, String)>,
    pub data: Option<RequestBody>,
    pub cookies: Vec<(String, String)>,
}

impl EngineRequest {
    fn bare(url: &str, method: HttpMethod) -> (r: EngineRequest)
        ensures
            r.url@ == url@,
            r.method == method,
            r.headers@.len() == 0,
            r.params@.len() == 0,
            r.data is None,
            r.cookies@.len() == 0,
    {
        EngineRequest {
            url: String::from_str(url),
            method,
            headers: Vec::new(),
            params: Vec::new(),
            data: None,
            cookies: Vec::new(),
        }
    }

    /// A GET request with nothing set.
    pub fn get(url: &str) -> (r: EngineRequest)
        ensures
            r.url@ == url@,
            r.method == HttpMethod::Get,
            r.headers@.len() == 0,
            r.params@.len() == 0,
            r.data is None,
            r.cookies@.len() == 0,
    {
        EngineRequest::bare(url, HttpMethod::Get)
    }

    /// A POST request with nothing set.
    pub fn post(url: &str) -> (r: EngineRequest)
        ensures
            r.url@ == url@,
            r.method == HttpMethod::Post,
            r.headers@.len() == 0,
            r.params@.len() == 0,
            r.data is None,
            r.cookies@.len() == 0,
    {
        EngineRequest::bare(url, HttpMethod::Post)
    }

    pub fn header(self, key: &str, value: &str) -> (r: EngineRequest)
        ensures
            kv_views(r.headers@) == with_pair(kv_views(self.headers@), key@, value@),
            r == (EngineRequest { headers: r.headers, ..self }),
    {
        let mut r = self;
        set_pair(&mut r.headers, key, value);
        r
    }

    pub fn param(self, key: &str, value: &str) -> (r: EngineRequest)
        ensures
            kv_views(r.params@) == with_pair(kv_views(self.params@), key@, value@),
            r == (EngineRequest { params: r.params, ..self }),
    {
        let mut r = self;
        set_pair(&mut r.params, key, value);
        r
    }

    pub fn cookie(self, key: &str, value: &str) -> (r: EngineRequest)
        ensures
            kv_views(r.cookies@) == with_pair(kv_views(self.cookies@), key@, value@),
            r == (EngineRequest { cookies: r.cookies, ..self }),
    {
        let mut r = self;
        set_pair(&mut r.cookies, key, value);
        r
    }

    /// Sends these form fields as the body.
    pub fn form(self, data: Vec<(String, String)>) -> (r: EngineRequest)
        ensures
            r.data matches Some(RequestBody::Form(d)) && d@ == data@,
            r == (EngineRequest { data: r.data, ..self }),
    {
        let mut r = self;
        r.data = Some(RequestBody::Form(data));
        r
    }

    /// Sends this JSON text as the body.
    pub fn json(self, data: String) -> (r: EngineRequest)
        ensures
            r.data matches Some(RequestBody::Json(d)) && d@ == data@,
            r == (EngineRequest { data: r.data, ..self }),
    {
        let mut r = self;
        r.data = Some(RequestBody::Json(data));
        r
    }
}

/// Engine metadata shown on the about page.
#[derive(Debug, Clone)]
pub struct EngineAbout {
    pub website: Option<String>,
    pub wikidata_id: Option<String>,
    pub use_official_api: bool,
    pub require_api_key: bool,
    /// Result format (HTML, JSON, XML).
    pub results: String,
}

impl EngineAbout {
    pub fn new() -> (r: EngineAbout)
        ensures
            r.website is None,
            r.wikidata_id is None,
            !r.use_official_api,
            !r.require_api_key,
            r.results@.len() == 0,
    {
        EngineAbout {
            website: None,
            wikidata_id: None,
            use_official_api: false,
            require_api_key: false,
            results: String::new(),
        }
    }

    pub fn website(self, url: &str) -> (r: EngineAbout)
        ensures
            opt_str(r.website) == Some(url@),
            r.wikidata_id == self.wikidata_id,
            r.use_official_api == self.use_official_api,
            r.require_api_key == self.require_api_key,
            r.results == self.results,
    {
        let mut r = self;
        r.website = Some(String::from_str(url));
        r
    }

    pub fn official_api(self, uses: bool) -> (r: EngineAbout)
        ensures
            r == (EngineAbout { use_official_api: uses, ..self }),
    {
        let mut r = self;
        r.use_official_api = uses;
        r
    }

    pub fn api_key_required(self, required: bool) -> (r: EngineAbout)
        ensures
            r == (EngineAbout { require_api_key: required, ..self }),
    {
        let mut r = self;
        r.require_api_key = required;
        r
    }

    pub fn results_format(self, format: &str) -> (r: EngineAbout)
        ensures
            r.results@ == format@,
            r.website == self.website,
            r.wikidata_id == self.wikidata_id,
            r.use_official_api == self.use_official_api,
            r.require_api_key == self.require_api_key,
    {
        let mut r = self;
        r.results = String::from_str(format);
        r
    }
}

/// An engine's HTTP response.
#[derive(Debug, Clone)]
pub struct EngineResponse {
    pub status: u16,
    pub headers: Vec<(String, String)>,
    pub text: String,
    /// URL after redirects.
    pub url: String,
}

/// A body that asks for a CAPTCHA or reports automated traffic.
pub open spec fn captcha_body(t: Seq<char>) -> bool {
    occurs(t, "captcha"@) || occurs(t, "CAPTCHA"@) || occurs(t, "unusual traffic"@) || occurs(t, "automated requests"@)
}

impl EngineResponse {
    /// Status 2xx.
    pub fn is_success(&self) -> (r: bool)
        ensures
            r == (200 <= self.status < 300),
    {
        200 <= self.status && self.status < 300
    }

    pub fn is_rate_limited(&self) -> (r: bool)
        ensures
            r == (self.status == 429),
    {
        self.status == 429
    }

    pub fn is_captcha(&self) -> (r: bool)
        ensures
            r == captcha_body(self.text@),
    {
        let t = self.text.as_str();
        contains_lit(t, "captcha") || contains_lit(t, "CAPTCHA") || contains_lit(t, "unusual traffic")
            || contains_lit(t, "automated requests")
    }
}

/// arXiv scholarly articles.
pub struct ArXiv;

impl ArXiv {
    pub fn new() -> (r: ArXiv)
    {
        ArXiv
    }

    pub fn name(&self) -> (r: &'static str)
        ensures
            r@ == "arxiv"@,
    {
        "arxiv"
    }

    pub fn about(&self) -> (r: EngineAbout)
        ensures
            opt_str(r.website) == Some("https://arxiv.org"@),
            r.use_official_api == true,
            !r.require_api_key,
            r.results@ == "XML-RSS"@,
    {
        EngineAbout::new().website("https://arxiv.org").official_api(true).results_format("XML-RSS")
    }

    pub fn categories(&self) -> (r: Vec<&'static str>)
        ensures
            lits(r@) == seq!["science"@, "scientific publications"@],
    {
        let mut v: Vec<&'static str> = Vec::new();
        v.push("science");
        v.push("scientific publications");
        assert(lits(v@) =~= seq!["science"@, "scientific publications"@]);
        v
    }

    pub fn supports_paging(&self) -> (r: bool)
        ensures
            r == true,
    {
        true
    }

    pub fn supports_time_range(&self) -> (r: bool)
        ensures
            r == false,
    {
        false
    }

    pub fn supports_safesearch(&self) -> (r: bool)
        ensures
            r == false,
    {
        false
    }

    /// What the registry records of this engine: its name and categories,
    /// a 5 s timeout and weight 1.0.
    pub fn info(&self) -> (r: EngineInfo)
        ensures
            r.name@ == "arxiv"@,
            strs(r.categories@) == seq!["science"@, "scientific publications"@],
            r.timeout == 5000,
            r.weight == 1000,
    {
        let mut categories: Vec<String> = Vec::new();
        categories.push(String::from_str("science"));
        categories.push(String::from_str("scientific publications"));
        assert(strs(categories@) =~= seq!["science"@, "scientific publications"@]);
        EngineInfo::new("arxiv", categories)
    }
}

/// Bing web search.
pub struct Bing;

impl Bing {
    pub fn new() -> (r: Bing)
    {
        Bing
    }

    pub fn name(&self) -> (r: &'static str)
        ensures
            r@ == "bing"@,
    {
        "bing"
    }

    pub fn about(&self) -> (r: EngineAbout)
        ensures
            opt_str(r.website) == Some("https://www.bing.com"@),
            r.use_official_api == false,
            !r.require_api_key,
            r.results@ == "HTML"@,
    {
        EngineAbout::new().website("https://www.bing.com").official_api(false).results_format("HTML")
    }

    pub fn categories(&self) -> (r: Vec<&'static str>)
        ensures
            lits(r@) == seq!["general"@, "web"@],
    {
        let mut v: Vec<&'static str> = Vec::new();
        v.push("general");
        v.push("web");
        assert(lits(v@) =~= seq!["general"@, "web"@]);
        v
    }

    pub fn supports_paging(&self) -> (r: bool)
        ensures
            r == true,
    {
        true
    }

    pub fn supports_time_range(&self) -> (r: bool)
        ensures
            r == true,
    {
        true
    }

    pub fn supports_safesearch(&self) -> (r: bool)
        ensures
            r == true,
    {
        true
    }

    /// What the registry records of this engine: its name and categories,
    /// a 5 s timeout and weight 1.0.
    pub fn info(&self) -> (r: EngineInfo)
        ensures
            r.name@ == "bing"@,
            strs(r.categories@) == seq!["general"@, "web"@],
            r.timeout == 5000,
            r.weight == 1000,
    {
        let mut categories: Vec<String> = Vec::new();
        categories.push(String::from_str("general"));
        categories.push(String::from_str("web"));
        assert(strs(categories@) =~= seq!["general"@, "web"@]);
        EngineInfo::new("bing", categories)
    }
}

/// Bing image search.
pub struct BingImages;

impl BingImages {
    pub fn new() -> (r: BingImages)
    {
        BingImages
    }

    pub fn name(&self) -> (r: &'static str)
        ensures
            r@ == "bing_images"@,
    {
        "bing_images"
    }

    pub fn about(&self) -> (r: EngineAbout)
        ensures
            opt_str(r.website) == Some("https://www.bing.com/images"@),
            r.use_official_api == false,
            !r.require_api_key,
            r.results@ == "HTML"@,
    {
        EngineAbout::new().website("https://www.bing.com/images").official_api(false).results_format("HTML")
    }

    pub fn categories(&self) -> (r: Vec<&'static str>)
        ensures
            lits(r@) == seq!["images"@],
    {
        let mut v: Vec<&'static str> = Vec::new();
        v.push("images");
        assert(lits(v@) =~= seq!["images"@]);
        v
    }

    pub fn supports_paging(&self) -> (r: bool)
        ensures
            r == true,
    {
        true
    }

    pub fn supports_time_range(&self) -> (r: bool)
        ensures
            r == false,
    {
        false
    }

    pub fn supports_safesearch(&self) -> (r: bool)
        ensures
            r == true,
    {
        true
    }

    /// What the registry records of this engine: its name and categories,
    /// a 5 s timeout and weight 1.0.
    pub fn info(&self) -> (r: EngineInfo)
        ensures
            r.name@ == "bing_images"@,
            strs(r.categories@) == seq!["images"@],
            r.timeout == 5000,
            r.weight == 1000,
    {
        let mut categories: Vec<String> = Vec::new();
        categories.push(String::from_str("images"));
        assert(strs(categories@) =~= seq!["images"@]);
        EngineInfo::new("bing_images", categories)
    }
}

/// Brave web search.
pub struct Brave;

impl Brave {
    pub fn new() -> (r: Brave)
    {
        Brave
    }

    pub fn name(&self) -> (r: &'static str)
        ensures
            r@ == "brave"@,
    {
        "brave"
    }

    pub fn about(&self) -> (r: EngineAbout)
        ensures
            opt_str(r.website) == Some("https://search.brave.com"@),
            r.use_official_api == false,
            !r.require_api_key,
            r.results@ == "HTML"@,
    {
        EngineAbout::new().website("https://search.brave.com").official_api(false).results_format("HTML")
    }

    pub fn categories(&self) -> (r: Vec<&'static str>)
        ensures
            lits(r@) == seq!["general"@, "web"@],
    {
        let mut v: Vec<&'static str> = Vec::new();
        v.push("general");
        v.push("web");
        assert(lits(v@) =~= seq!["general"@, "web"@]);
        v
    }

    pub fn supports_paging(&self) -> (r: bool)
        ensures
            r == true,
    {
        true
    }

    pub fn supports_time_range(&self) -> (r: bool)
        ensures
            r == true,
    {
        true
    }

    pub fn supports_safesearch(&self) -> (r: bool)
        ensures
            r == true,
    {
        true
    }

    /// What the registry records of this engine: its name and categories,
    /// a 5 s timeout and weight 1.0.
    pub fn info(&self) -> (r: EngineInfo)
        ensures
            r.name@ == "brave"@,
            strs(r.categories@) == seq!["general"@, "web"@],
            r.timeout == 5000,
            r.weight == 1000,
    {
        let mut categories: Vec<String> = Vec::new();
        categories.push(String::from_str("general"));
        categories.push(String::from_str("web"));
        assert(strs(categories@) =~= seq!["general"@, "web"@]);
        EngineInfo::new("brave", categories)
    }
}

/// DuckDuckGo web search.
pub struct DuckDuckGo;

impl DuckDuckGo {
    pub fn new() -> (r: DuckDuckGo)
    {
        DuckDuckGo
    }

    pub fn name(&self) -> (r: &'static str)
        ensures
            r@ == "duckduckgo"@,
    {
        "duckduckgo"
    }

    pub fn about(&self) -> (r: EngineAbout)
        ensures
            opt_str(r.website) == Some("https://duckduckgo.com"@),
            r.use_official_api == false,
            !r.require_api_key,
            r.results@ == "HTML"@,
    {
        EngineAbout::new().website("https://duckduckgo.com").official_api(false).results_format("HTML")
    }

    pub fn categories(&self) -> (r: Vec<&'static str>)
        ensures
            lits(r@) == seq!["general"@, "web"@],
    {
        let mut v: Vec<&'static str> = Vec::new();
        v.push("general");
        v.push("web");
        assert(lits(v@) =~= seq!["general"@, "web"@]);
        v
    }

    pub fn supports_paging(&self) -> (r: bool)
        ensures
            r == true,
    {
        true
    }

    pub fn supports_time_range(&self) -> (r: bool)
        ensures
            r == false,
    {
        false
    }

    pub fn supports_safesearch(&self) -> (r: bool)
        ensures
            r == true,
    {
        true
    }

    /// What the registry records of this engine: its name and categories,
    /// a 5 s timeout and weight 1.0.
    pub fn info(&self) -> (r: EngineInfo)
        ensures
            r.name@ == "duckduckgo"@,
            strs(r.categories@) == seq!["general"@, "web"@],
            r.timeout == 5000,
            r.weight == 1000,
    {
        let mut categories: Vec<String> = Vec::new();
        categories.push(String::from_str("general"));
        categories.push(String::from_str("web"));
        assert(strs(categories@) =~= seq!["general"@, "web"@]);
        EngineInfo::new("duckduckgo", categories)
    }
}

/// DuckDuckGo instant answers.
pub struct DuckDuckGoInstant;

impl DuckDuckGoInstant {
    pub fn new() -> (r: DuckDuckGoInstant)
    {
        DuckDuckGoInstant
    }

    pub fn name(&self) -> (r: &'static str)
        ensures
            r@ == "duckduckgo_instant"@,
    {
        "duckduckgo_instant"
    }

    pub fn about(&self) -> (r: EngineAbout)
        ensures
            opt_str(r.website) == Some("https://duckduckgo.com"@),
            r.use_official_api == true,
            !r.require_api_key,
            r.results@ == "JSON"@,
    {
        EngineAbout::new().website("https://duckduckgo.com").official_api(true).results_format("JSON")
    }

    pub fn categories(&self) -> (r: Vec<&'static str>)
        ensures
            lits(r@) == seq!["general"@],
    {
        let mut v: Vec<&'static str> = Vec::new();
        v.push("general");
        assert(lits(v@) =~= seq!["general"@]);
        v
    }

    pub fn supports_paging(&self) -> (r: bool)
        ensures
            r == false,
    {
        false
    }

    pub fn supports_time_range(&self) -> (r: bool)
        ensures
            r == false,
    {
        false
    }

    pub fn supports_safesearch(&self) -> (r: bool)
        ensures
            r == false,
    {
        false
    }

    /// What the registry records of this engine: its name and categories,
    /// a 5 s timeout and weight 1.0.
    pub fn info(&self) -> (r: EngineInfo)
        ensures
            r.name@ == "duckduckgo_instant"@,
            strs(r.categories@) == seq!["general"@],
            r.timeout == 5000,
            r.weight == 1000,
    {
        let mut categories: Vec<String> = Vec::new();
        categories.push(String::from_str("general"));
        assert(strs(categories@) =~= seq!["general"@]);
        EngineInfo::new("duckduckgo_instant", categories)
    }
}

/// GitHub repository search.
pub struct GitHub;

impl GitHub {
    pub fn new() -> (r: GitHub)
    {
        GitHub
    }

    pub fn name(&self) -> (r: &'static str)
        ensures
            r@ == "github"@,
    {
        "github"
    }

    pub fn about(&self) -> (r: EngineAbout)
        ensures
            opt_str(r.website) == Some("https://github.com"@),
            r.use_official_api == true,
            !r.require_api_key,
            r.results@ == "JSON"@,
    {
        EngineAbout::new().website("https://github.com").official_api(true).results_format("JSON")
    }

    pub fn categories(&self) -> (r: Vec<&'static str>)
        ensures
            lits(r@) == seq!["it"@, "repos"@],
    {
        let mut v: Vec<&'static str> = Vec::new();
        v.push("it");
        v.push("repos");
        assert(lits(v@) =~= seq!["it"@, "repos"@]);
        v
    }

    pub fn supports_paging(&self) -> (r: bool)
        ensures
            r == true,
    {
        true
    }

    pub fn supports_time_range(&self) -> (r: bool)
        ensures
            r == false,
    {
        false
    }

    pub fn supports_safesearch(&self) -> (r: bool)
        ensures
            r == false,
    {
        false
    }

    /// What the registry records of this engine: its name and categories,
    /// a 5 s timeout and weight 1.0.
    pub fn info(&self) -> (r: EngineInfo)
        ensures
            r.name@ == "github"@,
            strs(r.categories@) == seq!["it"@, "repos"@],
            r.timeout == 5000,
            r.weight == 1000,
    {
        let mut categories: Vec<String> = Vec::new();
        categories.push(String::from_str("it"));
        categories.push(String::from_str("repos"));
        assert(strs(categories@) =~= seq!["it"@, "repos"@]);
        EngineInfo::new("github", categories)
    }
}

/// Google web search.
pub struct Google;

impl Google {
    pub fn new() -> (r: Google)
    {
        Google
    }

    pub fn name(&self) -> (r: &'static str)
        ensures
            r@ == "google"@,
    {
        "google"
    }

    pub fn about(&self) -> (r: EngineAbout)
        ensures
            opt_str(r.website) == Some("https://www.google.com"@),
            r.use_official_api == false,
            !r.require_api_key,
            r.results@ == "HTML"@,
    {
        EngineAbout::new().website("https://www.google.com").official_api(false).results_format("HTML")
    }

    pub fn categories(&self) -> (r: Vec<&'static str>)
        ensures
            lits(r@) == seq!["general"@, "web"@],
    {
        let mut v: Vec<&'static str> = Vec::new();
        v.push("general");
        v.push("web");
        assert(lits(v@) =~= seq!["general"@, "web"@]);
        v
    }

    pub fn supports_paging(&self) -> (r: bool)
        ensures
            r == true,
    {
        true
    }

    pub fn supports_time_range(&self) -> (r: bool)
        ensures
            r == true,
    {
        true
    }

    pub fn supports_safesearch(&self) -> (r: bool)
        ensures
            r == true,
    {
        true
    }

    /// What the registry records of this engine: its name and categories,
    /// a 5 s timeout and weight 1.0.
    pub fn info(&self) -> (r: EngineInfo)
        ensures
            r.name@ == "google"@,
            strs(r.categories@) == seq!["general"@, "web"@],
            r.timeout == 5000,
            r.weight == 1000,
    {
        let mut categories: Vec<String> = Vec::new();
        categories.push(String::from_str("general"));
        categories.push(String::from_str("web"));
        assert(strs(categories@) =~= seq!["general"@, "web"@]);
        EngineInfo::new("google", categories)
    }
}

/// Google image search.
pub struct GoogleImages;

impl GoogleImages {
    pub fn new() -> (r: GoogleImages)
    {
        GoogleImages
    }

    pub fn name(&self) -> (r: &'static str)
        ensures
            r@ == "google_images"@,
    {
        "google_images"
    }

    pub fn about(&self) -> (r: EngineAbout)
        ensures
            opt_str(r.website) == Some("https://images.google.com"@),
            r.use_official_api == false,
            !r.require_api_key,
            r.results@ == "JSON"@,
    {
        EngineAbout::new().website("https://images.google.com").official_api(false).results_format("JSON")
    }

    pub fn categories(&self) -> (r: Vec<&'static str>)
        ensures
            lits(r@) == seq!["images"@],
    {
        let mut v: Vec<&'static str> = Vec::new();
        v.push("images");
        assert(lits(v@) =~= seq!["images"@]);
        v
    }

    pub fn supports_paging(&self) -> (r: bool)
        ensures
            r == true,
    {
        true
    }

    pub fn supports_time_range(&self) -> (r: bool)
        ensures
            r == true,
    {
        true
    }

    pub fn supports_safesearch(&self) -> (r: bool)
        ensures
            r == true,
    {
        true
    }

    /// What the registry records of this engine: its name and categories,
    /// a 5 s timeout and weight 1.0.
    pub fn info(&self) -> (r: EngineInfo)
        ensures
            r.name@ == "google_images"@,
            strs(r.categories@) == seq!["images"@],
            r.timeout == 5000,
            r.weight == 1000,
    {
        let mut categories: Vec<String> = Vec::new();
        categories.push(String::from_str("images"));
        assert(strs(categories@) =~= seq!["images"@]);
        EngineInfo::new("google_images", categories)
    }
}

/// Google news search.
pub struct GoogleNews;

impl GoogleNews {
    pub fn new() -> (r: GoogleNews)
    {
        GoogleNews
    }

    pub fn name(&self) -> (r: &'static str)
        ensures
            r@ == "google_news"@,
    {
        "google_news"
    }

    pub fn about(&self) -> (r: EngineAbout)
        ensures
            opt_str(r.website) == Some("https://news.google.com"@),
            r.use_official_api == false,
            !r.require_api_key,
            r.results@ == "HTML"@,
    {
        EngineAbout::new().website("https://news.google.com").official_api(false).results_format("HTML")
    }

    pub fn categories(&self) -> (r: Vec<&'static str>)
        ensures
            lits(r@) == seq!["news"@],
    {
        let mut v: Vec<&'static str> = Vec::new();
        v.push("news");
        assert(lits(v@) =~= seq!["news"@]);
        v
    }

    pub fn supports_paging(&self) -> (r: bool)
        ensures
            r == true,
    {
        true
    }

    pub fn supports_time_range(&self) -> (r: bool)
        ensures
            r == true,
    {
        true
    }

    pub fn supports_safesearch(&self) -> (r: bool)
        ensures
            r == false,
    {
        false
    }

    /// What the registry records of this engine: its name and categories,
    /// a 5 s timeout and weight 1.0.
    pub fn info(&self) -> (r: EngineInfo)
        ensures
            r.name@ == "google_news"@,
            strs(r.categories@) == seq!["news"@],
            r.timeout == 5000,
            r.weight == 1000,
    {
        let mut categories: Vec<String> = Vec::new();
        categories.push(String::from_str("news"));
        assert(strs(categories@) =~= seq!["news"@]);
        EngineInfo::new("google_news", categories)
    }
}

/// StackExchange question search.
pub struct StackOverflow {
    /// The StackExchange site queried.
    pub site: String,
}

impl StackOverflow {
    pub fn new() -> (r: StackOverflow)
        ensures
            r.site@ == "stackoverflow"@,
    {
        StackOverflow { site: String::from_str("stackoverflow") }
    }

    pub fn name(&self) -> (r: &'static str)
        ensures
            r@ == "stackoverflow"@,
    {
        "stackoverflow"
    }

    pub fn about(&self) -> (r: EngineAbout)
        ensures
            opt_str(r.website) == Some("https://stackoverflow.com"@),
            r.use_official_api == true,
            !r.require_api_key,
            r.results@ == "JSON"@,
    {
        EngineAbout::new().website("https://stackoverflow.com").official_api(true).results_format("JSON")
    }

    pub fn categories(&self) -> (r: Vec<&'static str>)
        ensures
            lits(r@) == seq!["it"@, "q&a"@],
    {
        let mut v: Vec<&'static str> = Vec::new();
        v.push("it");
        v.push("q&a");
        assert(lits(v@) =~= seq!["it"@, "q&a"@]);
        v
    }

    pub fn supports_paging(&self) -> (r: bool)
        ensures
            r == true,
    {
        true
    }

    pub fn supports_time_range(&self) -> (r: bool)
        ensures
            r == false,
    {
        false
    }

    pub fn supports_safesearch(&self) -> (r: bool)
        ensures
            r == false,
    {
        false
    }

    /// What the registry records of this engine: its name and categories,
    /// a 5 s timeout and weight 1.0.
    pub fn info(&self) -> (r: EngineInfo)
        ensures
            r.name@ == "stackoverflow"@,
            strs(r.categories@) == seq!["it"@, "q&a"@],
            r.timeout == 5000,
            r.weight == 1000,
    {
        let mut categories: Vec<String> = Vec::new();
        categories.push(String::from_str("it"));
        categories.push(String::from_str("q&a"));
        assert(strs(categories@) =~= seq!["it"@, "q&a"@]);
        EngineInfo::new("stackoverflow", categories)
    }
}

/// Wikipedia article search.
pub struct Wikipedia;

impl Wikipedia {
    pub fn new() -> (r: Wikipedia)
    {
        Wikipedia
    }

    pub fn name(&self) -> (r: &'static str)
        ensures
            r@ == "wikipedia"@,
    {
        "wikipedia"
    }

    pub fn about(&self) -> (r: EngineAbout)
        ensures
            opt_str(r.website) == Some("https://www.wikipedia.org"@),
            r.use_official_api == true,
            !r.require_api_key,
            r.results@ == "JSON"@,
    {
        EngineAbout::new().website("https://www.wikipedia.org").official_api(true).results_format("JSON")
    }

    pub fn categories(&self) -> (r: Vec<&'static str>)
        ensures
            lits(r@) == seq!["general"@],
    {
        let mut v: Vec<&'static str> = Vec::new();
        v.push("general");
        assert(lits(v@) =~= seq!["general"@]);
        v
    }

    pub fn supports_paging(&self) -> (r: bool)
        ensures
            r == true,
    {
        true
    }

    pub fn supports_time_range(&self) -> (r: bool)
        ensures
            r == false,
    {
        false
    }

    pub fn supports_safesearch(&self) -> (r: bool)
        ensures
            r == false,
    {
        false
    }

    /// What the registry records of this engine: its name and categories,
    /// a 5 s timeout and weight 1.0.
    pub fn info(&self) -> (r: EngineInfo)
        ensures
            r.name@ == "wikipedia"@,
            strs(r.categories@) == seq!["general"@],
            r.timeout == 5000,
            r.weight == 1000,
    {
        let mut categories: Vec<String> = Vec::new();
        categories.push(String::from_str("general"));
        assert(strs(categories@) =~= seq!["general"@]);
        EngineInfo::new("wikipedia", categories)
    }
}

/// YouTube video search.
pub struct YouTube;

impl YouTube {
    pub fn new() -> (r: YouTube)
    {
        YouTube
    }

    pub fn name(&self) -> (r: &'static str)
        ensures
            r@ == "youtube"@,
    {
        "youtube"
    }

    pub fn about(&self) -> (r: EngineAbout)
        ensures
            opt_str(r.website) == Some("https://www.youtube.com"@),
            r.use_official_api == false,
            !r.require_api_key,
            r.results@ == "HTML"@,
    {
        EngineAbout::new().website("https://www.youtube.com").official_api(false).results_format("HTML")
    }

    pub fn categories(&self) -> (r: Vec<&'static str>)
        ensures
            lits(r@) == seq!["videos"@, "music"@],
    {
        let mut v: Vec<&'static str> = Vec::new();
        v.push("videos");
        v.push("music");
        assert(lits(v@) =~= seq!["videos"@, "music"@]);
        v
    }

    pub fn supports_paging(&self) -> (r: bool)
        ensures
            r == true,
    {
        true
    }

    pub fn supports_time_range(&self) -> (r: bool)
        ensures
            r == true,
    {
        true
    }

    pub fn supports_safesearch(&self) -> (r: bool)
        ensures
            r == false,
    {
        false
    }

    /// What the registry records of this engine: its name and categories,
    /// a 5 s timeout and weight 1.0.
    pub fn info(&self) -> (r: EngineInfo)
        ensures
            r.name@ == "youtube"@,
            strs(r.categories@) == seq!["videos"@, "music"@],
            r.timeout == 5000,
            r.weight == 1000,
    {
        let mut categories: Vec<String> = Vec::new();
        categories.push(String::from_str("videos"));
        categories.push(String::from_str("music"));
        assert(strs(categories@) =~= seq!["videos"@, "music"@]);
        EngineInfo::new("youtube", categories)
    }
}

/// Index of the first occurrence of `t` in `s` at or after `from`.
pub open spec fn find_from(s: Seq<char>, t: Seq<char>, from: int) -> Option<int>
    decreases s.len() + 1 - from,
{
    if from < 0 || from + t.len() > s.len() {
        None
    } else if s.subrange(from, from + t.len()) == t {
        Some(from)
    } else {
        find_from(s, t, from + 1)
    }
}

proof fn lemma_find_from_bounds(s: Seq<char>, t: Seq<char>, from: int)
    ensures
        find_from(s, t, from) matches Some(i) ==> from <= i && i + t.len() <= s.len(),
    decreases s.len() + 1 - from,
{
    if from >= 0 && from + t.len() <= s.len() && s.subrange(from, from + t.len()) != t {
        lemma_find_from_bounds(s, t, from + 1);
    }
}

/// Finds `lit` in `s` at or after `from`.
fn find_lit(s: &Vec<char>, lit: &Vec<char>, from: usize) -> (r: Option<usize>)
    requires
        from <= s@.len(),
    ensures
        r matches Some(i) ==> find_from(s@, lit@, from as int) == Some(i as int) && from <= i && i + lit@.len() <= s@.len(),
        r is None ==> find_from(s@, lit@, from as int) is None,
{
    proof {
        lemma_find_from_bounds(s@, lit@, from as int);
    }
    let n = s.len();
    let m = lit.len();
    let mut i = from;
    while i <= n && m <= n - i
        invariant
            from <= i,
            n == s@.len(),
            m == lit@.len(),
            find_from(s@, lit@, from as int) == find_from(s@, lit@, i as int),
        decreases n + 1 - i,
    {
        let mut j: usize = 0;
        while j < m && s[i + j] == lit[j]
            invariant
                j <= m,
                i + m <= n,
                n == s@.len(),
                m == lit@.len(),
                forall|k: int| 0 <= k < j ==> s@[i + k] == lit@[k],
            decreases m - j,
        {
            j = j + 1;
        }
        if j == m {
            assert(s@.subrange(i as int, i + m) =~= lit@);
            return Some(i);
        }
        assert(s@.subrange(i as int, i + m)[j as int] != lit@[j as int]);
        i = i + 1;
    }
    None
}

pub open spec fn open_tag(tag: Seq<char>) -> Seq<char> {
    seq!['<'] + tag
}

pub open spec fn close_tag(tag: Seq<char>) -> Seq<char> {
    seq!['<', '/'] + tag + seq!['>']
}

/// The text between the first `<tag...>` and the next `</tag>`.
pub open spec fn tag_text(xml: Seq<char>, tag: Seq<char>) -> Option<Seq<char>> {
    match find_from(xml, open_tag(tag), 0) {
        Some(start) => match find_from(xml, seq!['>'], start) {
            Some(gt) => match find_from(xml, close_tag(tag), gt + 1) {
                Some(end) => Some(xml.subrange(gt + 1, end)),
                None => None,
            },
            None => None,
        },
        None => None,
    }
}

/// Replaces every occurrence of `p` (non-empty), left to right.
pub open spec fn replace_all(s: Seq<char>, p: Seq<char>, r: Seq<char>) -> Seq<char>
    decreases s.len(),
{
    if s.len() == 0 || p.len() == 0 {
        s
    } else if has_prefix(s, p) {
        r + replace_all(s.skip(p.len() as int), p, r)
    } else {
        seq![s[0]] + replace_all(s.drop_first(), p, r)
    }
}

/// `s` with every `pat` replaced by `rep`.
pub fn replace_lit(s: &Vec<char>, pat: &str, rep: &str) -> (r: Vec<char>)
    requires
        pat@.len() > 0,
    ensures
        r@ == replace_all(s@, pat@, rep@),
{
    let repc = chars_of(rep);
    let m = pat.unicode_len();
    let mut out: Vec<char> = Vec::new();
    let mut i: usize = 0;
    assert(s@.skip(0) =~= s@);
    while i < s.len()
        invariant
            i <= s@.len(),
            m == pat@.len(),
            m > 0,
            repc@ == rep@,
            replace_all(s@, pat@, rep@) == out@ + replace_all(s@.skip(i as int), pat@, rep@),
        decreases s@.len() - i,
    {
        let ghost rest = s@.skip(i as int);
        if starts_with_lit(s, i, pat) {
            assert(rest.skip(m as int) =~= s@.skip(i + m));
            crate::plugins::append_chars(&mut out, &repc);
            assert(out@ + replace_all(s@.skip(i + m), pat@, rep@) =~= (out@.subrange(0, out@.len() - repc@.len()) + (rep@ + replace_all(rest.skip(m as int), pat@, rep@))));
            i = i + m;
        } else {
            assert(rest.drop_first() =~= s@.skip(i + 1));
            assert(rest[0] == s@[i as int]);
            let ghost pre = out@;
            out.push(s[i]);
            assert(pre + (seq![s@[i as int]] + replace_all(rest.drop_first(), pat@, rep@)) =~= out@ + replace_all(s@.skip(i + 1), pat@, rep@));
            i = i + 1;
        }
    }
    assert(s@.skip(i as int) =~= Seq::<char>::empty());
    assert(out@ + Seq::<char>::empty() =~= out@);
    out
}

impl ArXiv {
    /// The text of the first `tag` element of `xml`.
    pub fn extract_tag(xml: &str, tag: &str) -> (r: Option<String>)
        ensures
            opt_str(r) == tag_text(xml@, tag@),
    {
        let x = chars_of(xml);
        let t = chars_of(tag);
        let mut open: Vec<char> = Vec::new();
        open.push('<');
        crate::plugins::append_chars(&mut open, &t);
        assert(open@ =~= open_tag(tag@));
        let mut close: Vec<char> = Vec::new();
        close.push('<');
        close.push('/');
        crate::plugins::append_chars(&mut close, &t);
        close.push('>');
        assert(close@ =~= close_tag(tag@));
        let mut gt_lit: Vec<char> = Vec::new();
        gt_lit.push('>');
        assert(gt_lit@ =~= seq!['>']);
        let start = match find_lit(&x, &open, 0) {
            Some(i) => i,
            None => return None,
        };
        let xl = x.len();
        let gt = match find_lit(&x, &gt_lit, start) {
            Some(i) => i,
            None => return None,
        };
        assert(gt + 1 <= xl);
        let end = match find_lit(&x, &close, gt + 1) {
            Some(i) => i,
            None => return None,
        };
        Some(string_of(&sub_chars(&x, gt + 1, end)))
    }
}

/// HTML entities decoded in this order: `&amp;`, `&lt;`, `&gt;`, `&quot;`, `&#39;`, `&apos;`.
pub open spec fn unescaped(s: Seq<char>) -> Seq<char> {
    replace_all(replace_all(replace_all(replace_all(replace_all(replace_all(
        s, "&amp;"@, "&"@), "&lt;"@, "<"@), "&gt;"@, ">"@), "&quot;"@, "\""@), "&#39;"@, "'"@),
        "&apos;"@, "'"@)
}

impl StackOverflow {
    /// A StackExchange engine for another site.
    pub fn with_site(site: &str) -> (r: StackOverflow)
        ensures
            r.site@ == site@,
    {
        StackOverflow { site: String::from_str(site) }
    }

    /// Decodes the HTML entities the StackExchange API leaves in titles.
    pub fn unescape_html(s: &str) -> (r: String)
        ensures
            r@ == unescaped(s@),
    {
        proof {
            reveal_strlit("&amp;");
            reveal_strlit("&lt;");
            reveal_strlit("&gt;");
            reveal_strlit("&quot;");
            reveal_strlit("&#39;");
            reveal_strlit("&apos;");
        }
        let c0 = chars_of(s);
        let c1 = replace_lit(&c0, "&amp;", "&");
        let c2 = replace_lit(&c1, "&lt;", "<");
        let c3 = replace_lit(&c2, "&gt;", ">");
        let c4 = replace_lit(&c3, "&quot;", "\"");
        let c5 = replace_lit(&c4, "&#39;", "'");
        let c6 = replace_lit(&c5, "&apos;", "'");
        string_of(&c6)
    }
}

/// The language of a Wikipedia host: "en" for "all" or none, else the part before the first `-`.
pub open spec fn wiki_lang(lang: Seq<char>) -> Seq<char> {
    if lang == "all"@ || lang.len() == 0 {
        "en"@
    } else {
        match first_dash(lang) {
            Some(k) => lang.take(k),
            None => lang,
        }
    }
}

/// Index of the first `-`.
pub open spec fn first_dash(s: Seq<char>) -> Option<int>
    decreases s.len(),
{
    if s.len() == 0 {
        None
    } else if s[0] == '-' {
        Some(0)
    } else {
        match first_dash(s.drop_first()) {
            Some(k) => Some(k + 1),
            None => None,
        }
    }
}

/// The characters before the first `-` (all of them when there is none).
pub fn base_code(s: &str) -> (r: Vec<char>)
    ensures
        r@ == match first_dash(s@) {
            Some(k) => s@.take(k),
            None => s@,
        },
{
    let cs = chars_of(s);
    let mut i: usize = 0;
    while i < cs.len() && cs[i] != '-'
        invariant
            i <= cs@.len(),
            cs@ == s@,
            forall|j: int| 0 <= j < i ==> cs@[j] != '-',
        decreases cs@.len() - i,
    {
        i = i + 1;
    }
    proof {
        lemma_first_dash(s@, i as int);
    }
    sub_chars(&cs, 0, i)
}

proof fn lemma_first_dash(s: Seq<char>, i: int)
    requires
        0 <= i <= s.len(),
        forall|j: int| 0 <= j < i ==> s[j] != '-',
        i < s.len() ==> s[i] == '-',
    ensures
        first_dash(s) == if i < s.len() { Some(i) } else { None::<int> },
        s.subrange(0, i) == if i < s.len() { s.take(i) } else { s },
    decreases s.len(),
{
    if s.len() > 0 && i > 0 {
        lemma_first_dash(s.drop_first(), i - 1);
    }
    assert(s.subrange(0, i) =~= s.take(i));
    if i == s.len() {
        assert(s.take(i) =~= s);
    }
}

impl Wikipedia {
    /// The API endpoint for a language.
    pub fn get_api_url(&self, lang: &str) -> (r: String)
        ensures
            r@ == "https://"@ + wiki_lang(lang@) + ".wikipedia.org/w/api.php"@,
    {
        let l = if str_eq(lang, "all") || lang.unicode_len() == 0 {
            chars_of("en")
        } else {
            base_code(lang)
        };
        let mut url = String::from_str("https://");
        url.append(string_of(&l).as_str());
        url.append(".wikipedia.org/w/api.php");
        url
    }
}

/// Fetches article summaries for the infobox.
pub struct WikipediaInfobox {
    pub api_url: String,
}

impl WikipediaInfobox {
    pub fn new() -> (r: WikipediaInfobox)
        ensures
            r.api_url@ == "https://en.wikipedia.org/api/rest_v1/page/summary/"@,
    {
        WikipediaInfobox { api_url: String::from_str("https://en.wikipedia.org/api/rest_v1/page/summary/") }
    }
}

/// The autocomplete backends.
pub fn list_backends() -> (r: Vec<&'static str>)
    ensures
        lits(r@) == seq!["duckduckgo"@, "google"@, "wikipedia"@, "brave"@, "qwant"@],
{
    let mut v: Vec<&'static str> = Vec::new();
    v.push("duckduckgo");
    v.push("google");
    v.push("wikipedia");
    v.push("brave");
    v.push("qwant");
    assert(lits(v@) =~= seq!["duckduckgo"@, "google"@, "wikipedia"@, "brave"@, "qwant"@]);
    v
}

/// The Qwant autocomplete backend.
pub struct Qwant;

impl Qwant {
    pub fn new() -> (r: Qwant) {
        Qwant
    }

    pub fn name(&self) -> (r: &'static str)
        ensures
            r@ == "qwant"@,
    {
        "qwant"
    }
}

/// The autocomplete backend a name selects ("ddg" and "wiki" are aliases).
pub open spec fn backend_for(n: Seq<char>) -> Option<Seq<char>> {
    if n == "duckduckgo"@ || n == "ddg"@ {
        Some("duckduckgo"@)
    } else if n == "google"@ {
        Some("google"@)
    } else if n == "wikipedia"@ || n == "wiki"@ {
        Some("wikipedia"@)
    } else if n == "brave"@ {
        Some("brave"@)
    } else if n == "qwant"@ {
        Some("qwant"@)
    } else {
        None
    }
}

/// The autocomplete backend named `name` (any case).
pub fn get_backend(name: &str) -> (r: Option<&'static str>)
    ensures
        match backend_for(crate::container::lowercase_of(name@)) {
            Some(b) => r matches Some(x) && x@ == b,
            None => r is None,
        },
{
    let lower = crate::container::lowercase(name);
    let name = lower.as_str();
    if str_eq(name, "duckduckgo") || str_eq(name, "ddg") {
        Some("duckduckgo")
    } else if str_eq(name, "google") {
        Some("google")
    } else if str_eq(name, "wikipedia") || str_eq(name, "wiki") {
        Some("wikipedia")
    } else if str_eq(name, "brave") {
        Some("brave")
    } else if str_eq(name, "qwant") {
        Some("qwant")
    } else {
        None
    }
}

/// Builds the built-in engines by name.
pub struct EngineLoader;

impl EngineLoader {
    /// The names of the built-in engines.
    pub fn available_engines() -> (r: Vec<&'static str>)
        ensures
            lits(r@) == seq![
                "google"@, "google_images"@, "google_news"@, "duckduckgo"@, "bing"@,
                "bing_images"@, "brave"@, "wikipedia"@, "youtube"@, "github"@,
                "stackoverflow"@, "arxiv"@,
            ],
    {
        let mut v: Vec<&'static str> = Vec::new();
        v.push("google");
        v.push("google_images");
        v.push("google_news");
        v.push("duckduckgo");
        v.push("bing");
        v.push("bing_images");
        v.push("brave");
        v.push("wikipedia");
        v.push("youtube");
        v.push("github");
        v.push("stackoverflow");
        v.push("arxiv");
        assert(lits(v@) =~= seq![
            "google"@, "google_images"@, "google_news"@, "duckduckgo"@, "bing"@,
            "bing_images"@, "brave"@, "wikipedia"@, "youtube"@, "github"@,
            "stackoverflow"@, "arxiv"@,
        ]);
        v
    }
}

/// The decimal digits of `n`.
pub open spec fn dec_str(n: nat) -> Seq<char>
    decreases n,
{
    if n < 10 {
        seq![digit_char(n)]
    } else {
        dec_str(n / 10) + seq![digit_char(n % 10)]
    }
}

pub open spec fn digit_char(d: nat) -> char {
    if d == 0 { '0' } else if d == 1 { '1' } else if d == 2 { '2' } else if d == 3 { '3' }
    else if d == 4 { '4' } else if d == 5 { '5' } else if d == 6 { '6' } else if d == 7 { '7' }
    else if d == 8 { '8' } else { '9' }
}

fn digit(d: u64) -> (r: char)
    requires
        d < 10,
    ensures
        r == digit_char(d as nat),
{
    if d == 0 { '0' } else if d == 1 { '1' } else if d == 2 { '2' } else if d == 3 { '3' }
    else if d == 4 { '4' } else if d == 5 { '5' } else if d == 6 { '6' } else if d == 7 { '7' }
    else if d == 8 { '8' } else { '9' }
}

/// `n` written in decimal.
pub fn decimal_string(n: u64) -> (r: String)
    ensures
        r@ == dec_str(n as nat),
{
    let mut rev: Vec<char> = Vec::new();
    let mut m: u64 = n;
    let ghost mut done: Seq<char> = seq![];
    // Digits are produced least significant first, then reversed.
    loop
        invariant_except_break
            dec_str(n as nat) == dec_str(m as nat) + done,
        invariant
            rev@ == done.reverse(),
        ensures
            dec_str(n as nat) == done,
        decreases m,
    {
        let d = m % 10;
        let c = digit(d);
        if m < 10 {
            rev.push(c);
            proof {
                assert(dec_str(m as nat) == seq![c]);
                done = seq![c] + done;
                assert(rev@ =~= done.reverse());
            }
            break;
        }
        rev.push(c);
        proof {
            assert(dec_str(m as nat) == dec_str((m / 10) as nat) + seq![c]);
            done = seq![c] + done;
            assert(rev@ =~= done.reverse());
        }
        m = m / 10;
    }
    let mut out: Vec<char> = Vec::new();
    let mut i: usize = rev.len();
    while i > 0
        invariant
            i <= rev@.len(),
            rev@ == done.reverse(),
            dec_str(n as nat) == done,
            out@ == done.take(rev@.len() - i),
        decreases i,
    {
        out.push(rev[i - 1]);
        assert(done.take(rev@.len() - i + 1) =~= done.take(rev@.len() - i).push(rev@[i - 1]));
        i = i - 1;
    }
    assert(done.take(done.len() as int) =~= done);
    string_of(&out)
}

impl ArXiv {
    /// The API query for a search: every field, ten results from the page's offset.
    pub fn request(&self, params: &crate::search::RequestParams) -> (r: EngineRequest)
        requires
            params.pageno >= 1,
        ensures
            r.url@ == "https://export.arxiv.org/api/query"@,
            r.method == HttpMethod::Get,
            kv_views(r.params@) == seq![
                ("search_query"@, "all:"@ + params.query@),
                ("start"@, dec_str(((params.pageno - 1) * 10) as nat)),
                ("max_results"@, "10"@),
            ],
    {
        let mut q = String::from_str("all:");
        q.append(params.query.as_str());
        let start = decimal_string((params.pageno as u64 - 1) * 10);
        let mut req = EngineRequest::get("https://export.arxiv.org/api/query");
        req.params.push((String::from_str("search_query"), q));
        req.params.push((String::from_str("start"), start));
        req.params.push((String::from_str("max_results"), String::from_str("10")));
        assert(kv_views(req.params@) =~= seq![
            ("search_query"@, "all:"@ + params.query@),
            ("start"@, dec_str(((params.pageno - 1) * 10) as nat)),
            ("max_results"@, "10"@),
        ]);
        req
    }
}

/// Appends a key and value.
fn push_kv(v: &mut Vec<(String, String)>, key: &str, value: &str)
    ensures
        kv_views(final(v)@) == kv_views(old(v)@).push((key@, value@)),
{
    let ghost pre = kv_views(v@);
    v.push((String::from_str(key), String::from_str(value)));
    assert(kv_views(v@) =~= pre.push((key@, value@)));
}

/// Appends a key and an owned value.
fn push_kv_owned(v: &mut Vec<(String, String)>, key: &str, value: String)
    ensures
        kv_views(final(v)@) == kv_views(old(v)@).push((key@, value@)),
{
    let ghost pre = kv_views(v@);
    v.push((String::from_str(key), value));
    assert(kv_views(v@) =~= pre.push((key@, value@)));
}

pub open spec fn google_safe(level: u8) -> Seq<char> {
    if level == 2 {
        "high"@
    } else if level == 1 {
        "medium"@
    } else {
        "off"@
    }
}

pub open spec fn google_tbs(r: crate::query::TimeRange) -> Seq<char> {
    match r {
        crate::query::TimeRange::Day => "qdr:d"@,
        crate::query::TimeRange::Week => "qdr:w"@,
        crate::query::TimeRange::Month => "qdr:m"@,
        crate::query::TimeRange::Year => "qdr:y"@,
    }
}

/// The query parameters of a Google search.
pub open spec fn google_params(p: crate::search::RequestParams) -> Seq<(Seq<char>, Seq<char>)> {
    seq![("q"@, p.query@), ("hl"@, p.lang@), ("ie"@, "utf8"@), ("oe"@, "utf8"@)]
        + (if p.pageno > 1 { seq![("start"@, dec_str(((p.pageno - 1) * 10) as nat))] } else { seq![] })
        + seq![("safe"@, google_safe(p.safesearch))]
        + (match p.time_range {
            Some(r) => seq![("tbs"@, google_tbs(r))],
            None => seq![],
        })
        + seq![("filter"@, "0"@)]
}

impl Google {
    /// The search page request: query, language, page offset, safesearch,
    /// time range, the consent cookie and an Accept header.
    pub fn request(&self, params: &crate::search::RequestParams) -> (r: EngineRequest)
        ensures
            r.url@ == "https://www.google.com/search"@,
            r.method == HttpMethod::Get,
            kv_views(r.params@) == google_params(*params),
            kv_views(r.cookies@) == seq![("CONSENT"@, "YES+"@)],
            kv_views(r.headers@) == seq![("Accept"@, "*/*"@)],
            r.data is None,
    {
        let mut req = EngineRequest::get("https://www.google.com/search");
        let ghost p = *params;
        push_kv(&mut req.params, "q", params.query.as_str());
        push_kv(&mut req.params, "hl", params.lang.as_str());
        push_kv(&mut req.params, "ie", "utf8");
        push_kv(&mut req.params, "oe", "utf8");
        let ghost base = kv_views(req.params@);
        assert(base =~= seq![("q"@, p.query@), ("hl"@, p.lang@), ("ie"@, "utf8"@), ("oe"@, "utf8"@)]);
        if params.pageno > 1 {
            push_kv_owned(&mut req.params, "start", decimal_string((params.pageno as u64 - 1) * 10));
        }
        let ghost with_page = kv_views(req.params@);
        assert(with_page =~= base + (if p.pageno > 1 { seq![("start"@, dec_str(((p.pageno - 1) * 10) as nat))] } else { seq![] }));
        let safe = if params.safesearch == 2 {
            "high"
        } else if params.safesearch == 1 {
            "medium"
        } else {
            "off"
        };
        push_kv(&mut req.params, "safe", safe);
        let ghost with_safe = kv_views(req.params@);
        match params.time_range {
            Some(r) => push_kv(&mut req.params, "tbs", google_tbs_of(r)),
            None => {},
        }
        let ghost with_time = kv_views(req.params@);
        assert(with_time =~= with_safe + (match p.time_range {
            Some(r) => seq![("tbs"@, google_tbs(r))],
            None => seq![],
        }));
        push_kv(&mut req.params, "filter", "0");
        assert(kv_views(req.params@) =~= google_params(p));
        let req = req.cookie("CONSENT", "YES+");
        let req = req.header("Accept", "*/*");
        assert(kv_views(req.cookies@) =~= seq![("CONSENT"@, "YES+"@)]);
        assert(kv_views(req.headers@) =~= seq![("Accept"@, "*/*"@)]);
        req
    }
}

impl GitHub {
    /// The repository search API request, most starred first, ten per page.
    pub fn request(&self, params: &crate::search::RequestParams) -> (r: EngineRequest)
        ensures
            r.url@ == "https://api.github.com/search/repositories"@,
            r.method == HttpMethod::Get,
            kv_views(r.params@) == seq![
                ("q"@, params.query@),
                ("sort"@, "stars"@),
                ("order"@, "desc"@),
                ("per_page"@, "10"@),
                ("page"@, dec_str(params.pageno as nat)),
            ],
            kv_views(r.headers@) == seq![
                ("Accept"@, "application/vnd.github.preview.text-match+json"@),
                ("User-Agent"@, "SearXNG-RS/1.0"@),
            ],
    {
        let mut req = EngineRequest::get("https://api.github.com/search/repositories");
        push_kv(&mut req.params, "q", params.query.as_str());
        push_kv(&mut req.params, "sort", "stars");
        push_kv(&mut req.params, "order", "desc");
        push_kv(&mut req.params, "per_page", "10");
        push_kv_owned(&mut req.params, "page", decimal_string(params.pageno as u64));
        push_kv(&mut req.headers, "Accept", "application/vnd.github.preview.text-match+json");
        push_kv(&mut req.headers, "User-Agent", "SearXNG-RS/1.0");
        assert(kv_views(req.params@) =~= seq![
            ("q"@, params.query@),
            ("sort"@, "stars"@),
            ("order"@, "desc"@),
            ("per_page"@, "10"@),
            ("page"@, dec_str(params.pageno as nat)),
        ]);
        assert(kv_views(req.headers@) =~= seq![
            ("Accept"@, "application/vnd.github.preview.text-match+json"@),
            ("User-Agent"@, "SearXNG-RS/1.0"@),
        ]);
        req
    }
}

impl StackOverflow {
    /// The advanced search API request on this engine's site, by relevance.
    pub fn request(&self, params: &crate::search::RequestParams) -> (r: EngineRequest)
        ensures
            r.url@ == "https://api.stackexchange.com/2.3/search/advanced"@,
            r.method == HttpMethod::Get,
            kv_views(r.params@) == seq![
                ("q"@, params.query@),
                ("site"@, self.site@),
                ("sort"@, "relevance"@),
                ("order"@, "desc"@),
                ("pagesize"@, "10"@),
                ("page"@, dec_str(params.pageno as nat)),
                ("filter"@, "!-*jbN-o9Aeie"@),
            ],
    {
        let mut req = EngineRequest::get("https://api.stackexchange.com/2.3/search/advanced");
        push_kv(&mut req.params, "q", params.query.as_str());
        push_kv(&mut req.params, "site", self.site.as_str());
        push_kv(&mut req.params, "sort", "relevance");
        push_kv(&mut req.params, "order", "desc");
        push_kv(&mut req.params, "pagesize", "10");
        push_kv_owned(&mut req.params, "page", decimal_string(params.pageno as u64));
        push_kv(&mut req.params, "filter", "!-*jbN-o9Aeie");
        assert(kv_views(req.params@) =~= seq![
            ("q"@, params.query@),
            ("site"@, self.site@),
            ("sort"@, "relevance"@),
            ("order"@, "desc"@),
            ("pagesize"@, "10"@),
            ("page"@, dec_str(params.pageno as nat)),
            ("filter"@, "!-*jbN-o9Aeie"@),
        ]);
        req
    }
}

/// The query parameters of a Wikipedia search.
pub open spec fn wikipedia_params(p: crate::search::RequestParams) -> Seq<(Seq<char>, Seq<char>)> {
    seq![
        ("action"@, "query"@),
        ("format"@, "json"@),
        ("generator"@, "search"@),
        ("gsrsearch"@, p.query@),
        ("gsrlimit"@, "10"@),
        ("prop"@, "extracts|pageimages|info"@),
        ("exintro"@, "1"@),
        ("explaintext"@, "1"@),
        ("exlimit"@, "10"@),
        ("inprop"@, "url"@),
        ("pithumbsize"@, "300"@),
    ] + (if p.pageno > 1 { seq![("gsroffset"@, dec_str(((p.pageno - 1) * 10) as nat))] } else { seq![] })
}

impl Wikipedia {
    /// The search API request on the wiki of the query's language.
    pub fn request(&self, params: &crate::search::RequestParams) -> (r: EngineRequest)
        ensures
            r.url@ == "https://"@ + wiki_lang(params.lang@) + ".wikipedia.org/w/api.php"@,
            r.method == HttpMethod::Get,
            kv_views(r.params@) == wikipedia_params(*params),
    {
        let url = self.get_api_url(params.lang.as_str());
        let mut req = EngineRequest::get(url.as_str());
        push_kv(&mut req.params, "action", "query");
        push_kv(&mut req.params, "format", "json");
        push_kv(&mut req.params, "generator", "search");
        push_kv(&mut req.params, "gsrsearch", params.query.as_str());
        push_kv(&mut req.params, "gsrlimit", "10");
        push_kv(&mut req.params, "prop", "extracts|pageimages|info");
        push_kv(&mut req.params, "exintro", "1");
        push_kv(&mut req.params, "explaintext", "1");
        push_kv(&mut req.params, "exlimit", "10");
        push_kv(&mut req.params, "inprop", "url");
        push_kv(&mut req.params, "pithumbsize", "300");
        if params.pageno > 1 {
            push_kv_owned(&mut req.params, "gsroffset", decimal_string((params.pageno as u64 - 1) * 10));
        }
        assert(kv_views(req.params@) =~= wikipedia_params(*params));
        req
    }
}

pub open spec fn youtube_sp(r: crate::query::TimeRange) -> Seq<char> {
    match r {
        crate::query::TimeRange::Day => "EgIIAg%3D%3D"@,
        crate::query::TimeRange::Week => "EgIIAw%3D%3D"@,
        crate::query::TimeRange::Month => "EgIIBA%3D%3D"@,
        crate::query::TimeRange::Year => "EgIIBQ%3D%3D"@,
    }
}

impl YouTube {
    /// The results page request, with the time filter and the consent cookie.
    pub fn request(&self, params: &crate::search::RequestParams) -> (r: EngineRequest)
        ensures
            r.url@ == "https://www.youtube.com/results"@,
            r.method == HttpMethod::Get,
            kv_views(r.params@) == seq![("search_query"@, params.query@)] + match params.time_range {
                Some(t) => seq![("sp"@, youtube_sp(t))],
                None => seq![],
            },
            kv_views(r.cookies@) == seq![("CONSENT"@, "YES+"@)],
    {
        let mut req = EngineRequest::get("https://www.youtube.com/results");
        push_kv(&mut req.params, "search_query", params.query.as_str());
        let ghost base = kv_views(req.params@);
        match params.time_range {
            Some(t) => {
                let sp = match t {
                    crate::query::TimeRange::Day => "EgIIAg%3D%3D",
                    crate::query::TimeRange::Week => "EgIIAw%3D%3D",
                    crate::query::TimeRange::Month => "EgIIBA%3D%3D",
                    crate::query::TimeRange::Year => "EgIIBQ%3D%3D",
                };
                push_kv(&mut req.params, "sp", sp);
            },
            None => {},
        }
        assert(kv_views(req.params@) =~= base + match params.time_range {
            Some(t) => seq![("sp"@, youtube_sp(t))],
            None => seq![],
        });
        push_kv(&mut req.cookies, "CONSENT", "YES+");
        assert(kv_views(req.cookies@) =~= seq![("CONSENT"@, "YES+"@)]);
        req
    }
}

pub open spec fn brave_tf(r: crate::query::TimeRange) -> Seq<char> {
    match r {
        crate::query::TimeRange::Day => "pd"@,
        crate::query::TimeRange::Week => "pw"@,
        crate::query::TimeRange::Month => "pm"@,
        crate::query::TimeRange::Year => "py"@,
    }
}

pub open spec fn brave_safe(level: u8) -> Seq<char> {
    if level == 2 {
        "strict"@
    } else if level == 1 {
        "moderate"@
    } else {
        "off"@
    }
}

/// The query parameters of a Brave search.
pub open spec fn brave_params(p: crate::search::RequestParams) -> Seq<(Seq<char>, Seq<char>)> {
    seq![("q"@, p.query@), ("source"@, "web"@)]
        + (if p.pageno > 1 { seq![("offset"@, dec_str((p.pageno - 1) as nat))] } else { seq![] })
        + match p.time_range {
            Some(t) => seq![("tf"@, brave_tf(t))],
            None => seq![],
        }
}

impl Brave {
    /// The search page request, with safesearch carried in a cookie.
    pub fn request(&self, params: &crate::search::RequestParams) -> (r: EngineRequest)
        ensures
            r.url@ == "https://search.brave.com/search"@,
            r.method == HttpMethod::Get,
            kv_views(r.params@) == brave_params(*params),
            kv_views(r.cookies@) == seq![
                ("safesearch"@, brave_safe(params.safesearch)),
                ("useLocation"@, "0"@),
                ("summarizer"@, "0"@),
            ],
            kv_views(r.headers@) == seq![("Accept-Encoding"@, "gzip, deflate"@)],
    {
        let mut req = EngineRequest::get("https://search.brave.com/search");
        push_kv(&mut req.params, "q", params.query.as_str());
        push_kv(&mut req.params, "source", "web");
        let ghost base = kv_views(req.params@);
        if params.pageno > 1 {
            push_kv_owned(&mut req.params, "offset", decimal_string(params.pageno as u64 - 1));
        }
        let ghost paged = kv_views(req.params@);
        assert(paged =~= base + (if params.pageno > 1 { seq![("offset"@, dec_str((params.pageno - 1) as nat))] } else { seq![] }));
        match params.time_range {
            Some(t) => {
                let tf = match t {
                    crate::query::TimeRange::Day => "pd",
                    crate::query::TimeRange::Week => "pw",
                    crate::query::TimeRange::Month => "pm",
                    crate::query::TimeRange::Year => "py",
                };
                push_kv(&mut req.params, "tf", tf);
            },
            None => {},
        }
        assert(kv_views(req.params@) =~= brave_params(*params));
        let safe = if params.safesearch == 2 {
            "strict"
        } else if params.safesearch == 1 {
            "moderate"
        } else {
            "off"
        };
        push_kv(&mut req.cookies, "safesearch", safe);
        push_kv(&mut req.cookies, "useLocation", "0");
        push_kv(&mut req.cookies, "summarizer", "0");
        push_kv(&mut req.headers, "Accept-Encoding", "gzip, deflate");
        assert(kv_views(req.cookies@) =~= seq![
            ("safesearch"@, brave_safe(params.safesearch)),
            ("useLocation"@, "0"@),
            ("summarizer"@, "0"@),
        ]);
        assert(kv_views(req.headers@) =~= seq![("Accept-Encoding"@, "gzip, deflate"@)]);
        req
    }
}

pub open spec fn bing_filters(r: crate::query::TimeRange) -> Seq<char> {
    match r {
        crate::query::TimeRange::Day => "ex1:\"ez1\""@,
        crate::query::TimeRange::Week => "ex1:\"ez2\""@,
        crate::query::TimeRange::Month => "ex1:\"ez3\""@,
        crate::query::TimeRange::Year => "ex1:\"ez5\""@,
    }
}

pub open spec fn bing_adult(level: u8) -> Seq<char> {
    if level == 2 {
        "STRICT"@
    } else if level == 1 {
        "MODERATE"@
    } else {
        "OFF"@
    }
}

/// The query parameters of a Bing search.
pub open spec fn bing_params(p: crate::search::RequestParams) -> Seq<(Seq<char>, Seq<char>)> {
    seq![("q"@, p.query@), ("setlang"@, p.lang@)]
        + (if p.pageno > 1 { seq![("first"@, dec_str(((p.pageno - 1) * 10 + 1) as nat))] } else { seq![] })
        + match p.time_range {
            Some(t) => seq![("filters"@, bing_filters(t))],
            None => seq![],
        }
}

impl Bing {
    /// The search page request, with the adult filter carried in a cookie.
    pub fn request(&self, params: &crate::search::RequestParams) -> (r: EngineRequest)
        ensures
            r.url@ == "https://www.bing.com/search"@,
            r.method == HttpMethod::Get,
            kv_views(r.params@) == bing_params(*params),
            kv_views(r.cookies@) == seq![("SRCHHPGUSR"@, "ADLT="@ + bing_adult(params.safesearch))],
    {
        let mut req = EngineRequest::get("https://www.bing.com/search");
        push_kv(&mut req.params, "q", params.query.as_str());
        push_kv(&mut req.params, "setlang", params.lang.as_str());
        let ghost base = kv_views(req.params@);
        if params.pageno > 1 {
            push_kv_owned(&mut req.params, "first", decimal_string((params.pageno as u64 - 1) * 10 + 1));
        }
        let ghost paged = kv_views(req.params@);
        assert(paged =~= base + (if params.pageno > 1 { seq![("first"@, dec_str(((params.pageno - 1) * 10 + 1) as nat))] } else { seq![] }));
        match params.time_range {
            Some(t) => {
                let f = match t {
                    crate::query::TimeRange::Day => "ex1:\"ez1\"",
                    crate::query::TimeRange::Week => "ex1:\"ez2\"",
                    crate::query::TimeRange::Month => "ex1:\"ez3\"",
                    crate::query::TimeRange::Year => "ex1:\"ez5\"",
                };
                push_kv(&mut req.params, "filters", f);
            },
            None => {},
        }
        assert(kv_views(req.params@) =~= bing_params(*params));
        let adult = if params.safesearch == 2 {
            "STRICT"
        } else if params.safesearch == 1 {
            "MODERATE"
        } else {
            "OFF"
        };
        let mut cookie = String::from_str("ADLT=");
        cookie.append(adult);
        push_kv_owned(&mut req.cookies, "SRCHHPGUSR", cookie);
        assert(kv_views(req.cookies@) =~= seq![("SRCHHPGUSR"@, "ADLT="@ + bing_adult(params.safesearch))]);
        req
    }
}

pub open spec fn ddg_kp(level: u8) -> Seq<char> {
    if level == 2 {
        "1"@
    } else if level == 1 {
        "-1"@
    } else {
        "-2"@
    }
}

/// Result offset of a DuckDuckGo page: 10 for page 2, then 15 per page.
pub open spec fn ddg_offset(pageno: u32) -> nat {
    10 + (if pageno >= 2 { (pageno - 2) as nat } else { 0 }) * 15
}

/// The form fields of a DuckDuckGo search.
pub open spec fn ddg_form(p: crate::search::RequestParams) -> Seq<(Seq<char>, Seq<char>)> {
    seq![("q"@, p.query@)]
        + (if p.pageno == 1 {
            seq![("b"@, ""@)]
        } else {
            seq![
                ("s"@, dec_str(ddg_offset(p.pageno))),
                ("dc"@, dec_str(ddg_offset(p.pageno) + 1)),
                ("v"@, "l"@),
                ("o"@, "json"@),
                ("api"@, "d.js"@),
            ]
        })
        + seq![
            ("kl"@, if p.lang@ == "all"@ || p.lang@.len() == 0 { ""@ } else { p.lang@ }),
            ("kp"@, ddg_kp(p.safesearch)),
        ]
}

impl DuckDuckGo {
    /// The HTML endpoint's form POST, with the headers its bot check expects.
    pub fn request(&self, params: &crate::search::RequestParams) -> (r: EngineRequest)
        ensures
            r.url@ == "https://html.duckduckgo.com/html/"@,
            r.method == HttpMethod::Post,
            r.data matches Some(RequestBody::Form(d)) && kv_views(d@) == ddg_form(*params),
            kv_views(r.headers@) == seq![
                ("Content-Type"@, "application/x-www-form-urlencoded"@),
                ("Referer"@, "https://html.duckduckgo.com/html/"@),
                ("Sec-Fetch-Dest"@, "document"@),
                ("Sec-Fetch-Mode"@, "navigate"@),
                ("Sec-Fetch-Site"@, "same-origin"@),
                ("Sec-Fetch-User"@, "?1"@),
            ],
    {
        let mut form: Vec<(String, String)> = Vec::new();
        push_kv(&mut form, "q", params.query.as_str());
        let ghost base = kv_views(form@);
        if params.pageno == 1 {
            push_kv(&mut form, "b", "");
        } else {
            let skip: u64 = if params.pageno >= 2 {
                params.pageno as u64 - 2
            } else {
                0
            };
            let offset: u64 = 10 + skip * 15;
            push_kv_owned(&mut form, "s", decimal_string(offset));
            push_kv_owned(&mut form, "dc", decimal_string(offset + 1));
            push_kv(&mut form, "v", "l");
            push_kv(&mut form, "o", "json");
            push_kv(&mut form, "api", "d.js");
        }
        let ghost paged = kv_views(form@);
        proof {
            reveal_strlit("");
        }
        assert(paged =~= base + (if params.pageno == 1 {
            seq![("b"@, ""@)]
        } else {
            seq![
                ("s"@, dec_str(ddg_offset(params.pageno))),
                ("dc"@, dec_str(ddg_offset(params.pageno) + 1)),
                ("v"@, "l"@),
                ("o"@, "json"@),
                ("api"@, "d.js"@),
            ]
        }));
        let kl = if str_eq(params.lang.as_str(), "all") || params.lang.as_str().unicode_len() == 0 {
            String::new()
        } else {
            params.lang.clone()
        };
        assert(kl@ == (if params.lang@ == "all"@ || params.lang@.len() == 0 { ""@ } else { params.lang@ }));
        push_kv_owned(&mut form, "kl", kl);
        let kp = if params.safesearch == 2 {
            "1"
        } else if params.safesearch == 1 {
            "-1"
        } else {
            "-2"
        };
        push_kv(&mut form, "kp", kp);
        assert(kv_views(form@) =~= ddg_form(*params));
        let mut req = EngineRequest::post("https://html.duckduckgo.com/html/").form(form);
        push_kv(&mut req.headers, "Content-Type", "application/x-www-form-urlencoded");
        push_kv(&mut req.headers, "Referer", "https://html.duckduckgo.com/html/");
        push_kv(&mut req.headers, "Sec-Fetch-Dest", "document");
        push_kv(&mut req.headers, "Sec-Fetch-Mode", "navigate");
        push_kv(&mut req.headers, "Sec-Fetch-Site", "same-origin");
        push_kv(&mut req.headers, "Sec-Fetch-User", "?1");
        assert(kv_views(req.headers@) =~= seq![
            ("Content-Type"@, "application/x-www-form-urlencoded"@),
            ("Referer"@, "https://html.duckduckgo.com/html/"@),
            ("Sec-Fetch-Dest"@, "document"@),
            ("Sec-Fetch-Mode"@, "navigate"@),
            ("Sec-Fetch-Site"@, "same-origin"@),
            ("Sec-Fetch-User"@, "?1"@),
        ]);
        req
    }
}

fn google_tbs_of(r: crate::query::TimeRange) -> (t: &'static str)
    ensures
        t@ == google_tbs(r),
{
    match r {
        crate::query::TimeRange::Day => "qdr:d",
        crate::query::TimeRange::Week => "qdr:w",
        crate::query::TimeRange::Month => "qdr:m",
        crate::query::TimeRange::Year => "qdr:y",
    }
}

pub open spec fn time_params(r: Option<crate::query::TimeRange>) -> Seq<(Seq<char>, Seq<char>)> {
    match r {
        Some(t) => seq![("tbs"@, google_tbs(t))],
        None => seq![],
    }
}

/// The query parameters of a Google image search.
pub open spec fn google_images_params(p: crate::search::RequestParams) -> Seq<(Seq<char>, Seq<char>)> {
    seq![
        ("q"@, p.query@),
        ("tbm"@, "isch"@),
        ("hl"@, p.lang@),
        ("asearch"@, "isch"@),
        ("async"@, "_fmt:json,p:1,ijn:"@ + dec_str((if p.pageno >= 1 { p.pageno - 1 } else { 0 }) as nat)),
    ] + (if p.safesearch >= 1 { seq![("safe"@, "active"@)] } else { seq![] }) + time_params(p.time_range)
}

impl GoogleImages {
    /// The image search request in the JSON page format (pages counted from 0).
    pub fn request(&self, params: &crate::search::RequestParams) -> (r: EngineRequest)
        ensures
            r.url@ == "https://www.google.com/search"@,
            r.method == HttpMethod::Get,
            kv_views(r.params@) == google_images_params(*params),
            kv_views(r.headers@) == seq![
                ("User-Agent"@, "NSTN/3.60.474802233.release Dalvik/2.1.0 (Linux; U; Android 12; US) gzip"@),
            ],
    {
        let mut req = EngineRequest::get("https://www.google.com/search");
        push_kv(&mut req.params, "q", params.query.as_str());
        push_kv(&mut req.params, "tbm", "isch");
        push_kv(&mut req.params, "hl", params.lang.as_str());
        push_kv(&mut req.params, "asearch", "isch");
        let page_index: u64 = if params.pageno >= 1 {
            params.pageno as u64 - 1
        } else {
            0
        };
        let mut fmt = String::from_str("_fmt:json,p:1,ijn:");
        fmt.append(decimal_string(page_index).as_str());
        push_kv_owned(&mut req.params, "async", fmt);
        let ghost base = kv_views(req.params@);
        if params.safesearch >= 1 {
            push_kv(&mut req.params, "safe", "active");
        }
        let ghost safe = kv_views(req.params@);
        assert(safe =~= base + (if params.safesearch >= 1 { seq![("safe"@, "active"@)] } else { seq![] }));
        match params.time_range {
            Some(t) => push_kv(&mut req.params, "tbs", google_tbs_of(t)),
            None => {},
        }
        assert(kv_views(req.params@) =~= google_images_params(*params));
        push_kv(&mut req.headers, "User-Agent", "NSTN/3.60.474802233.release Dalvik/2.1.0 (Linux; U; Android 12; US) gzip");
        assert(kv_views(req.headers@) =~= seq![
            ("User-Agent"@, "NSTN/3.60.474802233.release Dalvik/2.1.0 (Linux; U; Android 12; US) gzip"@),
        ]);
        req
    }
}

impl GoogleNews {
    /// The news search request.
    pub fn request(&self, params: &crate::search::RequestParams) -> (r: EngineRequest)
        ensures
            r.url@ == "https://www.google.com/search"@,
            r.method == HttpMethod::Get,
            kv_views(r.params@) == seq![("q"@, params.query@), ("tbm"@, "nws"@), ("hl"@, params.lang@)]
                + time_params(params.time_range),
    {
        let mut req = EngineRequest::get("https://www.google.com/search");
        push_kv(&mut req.params, "q", params.query.as_str());
        push_kv(&mut req.params, "tbm", "nws");
        push_kv(&mut req.params, "hl", params.lang.as_str());
        let ghost base = kv_views(req.params@);
        match params.time_range {
            Some(t) => push_kv(&mut req.params, "tbs", google_tbs_of(t)),
            None => {},
        }
        assert(kv_views(req.params@) =~= base + time_params(params.time_range));
        req
    }
}

impl BingImages {
    /// The image search request, 35 images per page.
    pub fn request(&self, params: &crate::search::RequestParams) -> (r: EngineRequest)
        ensures
            r.url@ == "https://www.bing.com/images/search"@,
            r.method == HttpMethod::Get,
            kv_views(r.params@) == seq![("q"@, params.query@), ("form"@, "HDRSC2"@)] + (if params.pageno > 1 {
                seq![("first"@, dec_str(((params.pageno - 1) * 35 + 1) as nat))]
            } else {
                seq![]
            }),
    {
        let mut req = EngineRequest::get("https://www.bing.com/images/search");
        push_kv(&mut req.params, "q", params.query.as_str());
        push_kv(&mut req.params, "form", "HDRSC2");
        let ghost base = kv_views(req.params@);
        if params.pageno > 1 {
            push_kv_owned(&mut req.params, "first", decimal_string((params.pageno as u64 - 1) * 35 + 1));
        }
        assert(kv_views(req.params@) =~= base + (if params.pageno > 1 {
            seq![("first"@, dec_str(((params.pageno - 1) * 35 + 1) as nat))]
        } else {
            seq![]
        }));
        req
    }
}

impl DuckDuckGoInstant {
    /// The instant answer API request.
    pub fn request(&self, params: &crate::search::RequestParams) -> (r: EngineRequest)
        ensures
            r.url@ == "https://api.duckduckgo.com/"@,
            r.method == HttpMethod::Get,
            kv_views(r.params@) == seq![
                ("q"@, params.query@),
                ("format"@, "json"@),
                ("no_redirect"@, "1"@),
                ("no_html"@, "1"@),
            ],
    {
        let mut req = EngineRequest::get("https://api.duckduckgo.com/");
        push_kv(&mut req.params, "q", params.query.as_str());
        push_kv(&mut req.params, "format", "json");
        push_kv(&mut req.params, "no_redirect", "1");
        push_kv(&mut req.params, "no_html", "1");
        assert(kv_views(req.params@) =~= seq![
            ("q"@, params.query@),
            ("format"@, "json"@),
            ("no_redirect"@, "1"@),
            ("no_html"@, "1"@),
        ]);
        req
    }
}

} // verus!
