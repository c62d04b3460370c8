//! Search requests and the executor's decisions: what to do with a query,
//! how long each engine may take, how a failure is classified, and how the
//! outcomes of the engines are gathered into one container.

use vstd::prelude::*;
use vstd::string::*;
use crate::container::{
    ResultContainer, added_all, models, answers_added_all, suggestions_added_all, infoboxes_added_all,
};
use crate::query::{ParsedQuery, TimeRange, strs, opt_str};
use crate::registry::{EngineRegistry, entry_of, names_where, in_category};
use crate::results::{
    Answer, EngineError, InfoBox, Result, ResultModel, Suggestion, Timing,
};
use crate::text::{chars_of, is_whitespace, is_ws, str_eq};

verus! {

/// An engine together with the category it is queried for.
#[derive(Debug, Clone)]
pub struct EngineRef {
    pub name: String,
    pub category: String,
}

impl EngineRef {
    pub fn new(name: &str, category: &str) -> (r: EngineRef)
        ensures
            r.name@ == name@,
            r.category@ == category@,
    {
        EngineRef { name: String::from_str(name), category: String::from_str(category) }
    }
}

pub open spec fn ref_model(e: EngineRef) -> (Seq<char>, Seq<char>) {
    (e.name@, e.category@)
}

pub open spec fn refs(v: Seq<EngineRef>) -> Seq<(Seq<char>, Seq<char>)> {
    v.map_values(|e: EngineRef| ref_model(e))
}

/// A fully resolved search request.
#[derive(Debug, Clone)]
pub struct SearchQuery {
    pub query: String,
    pub engine_refs: Vec<EngineRef>,
    pub lang: String,
    /// 0 (off), 1 (moderate) or 2 (strict).
    pub safesearch: u8,
    /// 1-based page number.
    pub pageno: u32,
    pub time_range: Option<TimeRange>,
    /// Requested timeout in milliseconds.
    pub timeout_limit: Option<u64>,
    pub external_bang: Option<String>,
    pub redirect_to_first: bool,
}

/// Only whitespace.
pub open spec fn blank(s: Seq<char>) -> bool {
    forall|i: int| 0 <= i < s.len() ==> is_ws(s[i])
}

fn is_blank(s: &str) -> (r: bool)
    ensures
        r == blank(s@),
{
    let cs = chars_of(s);
    let mut i: usize = 0;
    while i < cs.len()
        invariant
            i <= cs@.len(),
            cs@ == s@,
            forall|j: int| 0 <= j < i ==> is_ws(cs@[j]),
        decreases cs@.len() - i,
    {
        if !is_whitespace(cs[i]) {
            return false;
        }
        i = i + 1;
    }
    true
}

/// The distinct categories of `rs`, in first-seen order.
pub open spec fn distinct_categories(rs: Seq<(Seq<char>, Seq<char>)>) -> Seq<Seq<char>>
    decreases rs.len(),
{
    if rs.len() == 0 {
        seq![]
    } else {
        crate::results::add_engine(distinct_categories(rs.drop_last()), rs.last().1)
    }
}

impl SearchQuery {
    /// A query for all languages, safesearch off, page 1, with no engines yet.
    pub fn simple(query: &str) -> (r: SearchQuery)
        ensures
            r.query@ == query@,
            r.engine_refs@.len() == 0,
            r.lang@ == "all"@,
            r.safesearch == 0,
            r.pageno == 1,
            r.time_range is None,
            r.timeout_limit is None,
            r.external_bang is None,
            !r.redirect_to_first,
    {
        SearchQuery {
            query: String::from_str(query),
            engine_refs: Vec::new(),
            lang: String::from_str("all"),
            safesearch: 0,
            pageno: 1,
            time_range: None,
            timeout_limit: None,
            external_bang: None,
            redirect_to_first: false,
        }
    }

    /// The request for a parsed query: its engine bangs (in the general
    /// category) or else the given engines; its first language or "all".
    pub fn from_parsed(parsed: ParsedQuery, default_engines: Vec<EngineRef>) -> (r: SearchQuery)
        ensures
            r.query@ == parsed.query@,
            refs(r.engine_refs@) == if parsed.engines@.len() > 0 {
                strs(parsed.engines@).map_values(|e: Seq<char>| (e, "general"@))
            } else {
                refs(default_engines@)
            },
            r.lang@ == if parsed.languages@.len() > 0 { parsed.languages@[0]@ } else { "all"@ },
            r.safesearch == match parsed.safesearch {
                Some(s) => s,
                None => 0u8,
            },
            r.pageno == parsed.pageno,
            r.time_range == parsed.time_range,
            r.timeout_limit == parsed.timeout,
            opt_str(r.external_bang) == opt_str(parsed.external_bang),
            r.redirect_to_first == parsed.redirect_to_first,
    {
        let engine_refs = if parsed.engines.len() > 0 {
            let mut v: Vec<EngineRef> = Vec::new();
            let mut i: usize = 0;
            while i < parsed.engines.len()
                invariant
                    i <= parsed.engines@.len(),
                    refs(v@) == strs(parsed.engines@).take(i as int).map_values(|e: Seq<char>| (e, "general"@)),
                decreases parsed.engines@.len() - i,
            {
                let ghost pre = refs(v@);
                v.push(EngineRef::new(parsed.engines[i].as_str(), "general"));
                assert(refs(v@) =~= pre.push((parsed.engines@[i as int]@, "general"@)));
                assert(strs(parsed.engines@).take(i + 1).map_values(|e: Seq<char>| (e, "general"@)) =~= strs(parsed.engines@).take(i as int).map_values(|e: Seq<char>| (e, "general"@)).push((parsed.engines@[i as int]@, "general"@)));
                i = i + 1;
            }
            assert(strs(parsed.engines@).take(parsed.engines@.len() as int) =~= strs(parsed.engines@));
            v
        } else {
            default_engines
        };
        let lang = if parsed.languages.len() > 0 {
            parsed.languages[0].clone()
        } else {
            String::from_str("all")
        };
        SearchQuery {
            query: parsed.query,
            engine_refs,
            lang,
            safesearch: match parsed.safesearch {
                Some(s) => s,
                None => 0,
            },
            pageno: parsed.pageno,
            time_range: parsed.time_range,
            timeout_limit: parsed.timeout,
            external_bang: parsed.external_bang,
            redirect_to_first: parsed.redirect_to_first,
        }
    }

    /// Appends an engine reference.
    pub fn add_engine(&mut self, name: &str, category: &str)
        ensures
            refs(final(self).engine_refs@) == refs(old(self).engine_refs@).push((name@, category@)),
            *final(self) == (SearchQuery { engine_refs: final(self).engine_refs, ..*old(self) }),
    {
        let ghost pre = refs(self.engine_refs@);
        self.engine_refs.push(EngineRef::new(name, category));
        assert(refs(self.engine_refs@) =~= pre.push((name@, category@)));
    }

    pub fn with_lang(self, lang: &str) -> (r: SearchQuery)
        ensures
            r.lang@ == lang@,
            r == (SearchQuery { lang: r.lang, ..self }),
    {
        let mut r = self;
        r.lang = String::from_str(lang);
        r
    }

    /// Sets the safesearch level, capped at 2.
    pub fn with_safesearch(self, level: u8) -> (r: SearchQuery)
        ensures
            r == (SearchQuery { safesearch: if level < 2 { level } else { 2 }, ..self }),
    {
        let mut r = self;
        r.safesearch = if level < 2 {
            level
        } else {
            2
        };
        r
    }

    /// Sets the page number, at least 1.
    pub fn with_page(self, page: u32) -> (r: SearchQuery)
        ensures
            r == (SearchQuery { pageno: if page > 1 { page } else { 1 }, ..self }),
    {
        let mut r = self;
        r.pageno = if page > 1 {
            page
        } else {
            1
        };
        r
    }

    pub fn with_time_range(self, range: TimeRange) -> (r: SearchQuery)
        ensures
            r == (SearchQuery { time_range: Some(range), ..self }),
    {
        let mut r = self;
        r.time_range = Some(range);
        r
    }

    /// Sets the timeout in milliseconds.
    pub fn with_timeout(self, ms: u64) -> (r: SearchQuery)
        ensures
            r == (SearchQuery { timeout_limit: Some(ms), ..self }),
    {
        let mut r = self;
        r.timeout_limit = Some(ms);
        r
    }

    /// The requested timeout capped at `max`, or `default` when none was asked.
    pub fn effective_timeout(&self, default: u64, max: u64) -> (r: u64)
        ensures
            r == match self.timeout_limit {
                Some(t) => if t < max { t } else { max },
                None => default,
            },
    {
        match self.timeout_limit {
            Some(t) => if t < max {
                t
            } else {
                max
            },
            None => default,
        }
    }

    /// The query holds nothing but whitespace.
    pub fn is_empty(&self) -> (r: bool)
        ensures
            r == blank(self.query@),
    {
        is_blank(self.query.as_str())
    }

    /// The categories of the engine references, each once, in first-seen order.
    pub fn categories(&self) -> (r: Vec<String>)
        ensures
            strs(r@) == distinct_categories(refs(self.engine_refs@)),
    {
        let mut out: Vec<String> = Vec::new();
        let mut i: usize = 0;
        let ghost rs = refs(self.engine_refs@);
        while i < self.engine_refs.len()
            invariant
                i <= self.engine_refs@.len(),
                rs == refs(self.engine_refs@),
                strs(out@) == distinct_categories(rs.take(i as int)),
            decreases self.engine_refs@.len() - i,
        {
            assert(rs.take(i + 1).drop_last() =~= rs.take(i as int));
            crate::results::insert_distinct(&mut out, &self.engine_refs[i].category);
            i = i + 1;
        }
        assert(rs.take(rs.len() as int) =~= rs);
        out
    }
}

/// What an engine is asked to search for.
#[derive(Debug, Clone)]
pub struct RequestParams {
    pub query: String,
    pub pageno: u32,
    pub lang: String,
    pub safesearch: u8,
    pub time_range: Option<TimeRange>,
    pub category: String,
}

impl RequestParams {
    /// Page 1, English, safesearch off, general category.
    pub fn new(query: &str) -> (r: RequestParams)
        ensures
            r.query@ == query@,
            r.pageno == 1,
            r.lang@ == "en"@,
            r.safesearch == 0,
            r.time_range is None,
            r.category@ == "general"@,
    {
        RequestParams {
            query: String::from_str(query),
            pageno: 1,
            lang: String::from_str("en"),
            safesearch: 0,
            time_range: None,
            category: String::from_str("general"),
        }
    }

    /// The parameters for one engine reference of a query.
    pub fn for_engine(query: &SearchQuery, engine_ref: &EngineRef) -> (r: RequestParams)
        ensures
            r.query@ == query.query@,
            r.pageno == query.pageno,
            r.lang@ == query.lang@,
            r.safesearch == query.safesearch,
            r.time_range == query.time_range,
            r.category@ == engine_ref.category@,
    {
        RequestParams {
            query: query.query.clone(),
            pageno: query.pageno,
            lang: query.lang.clone(),
            safesearch: query.safesearch,
            time_range: query.time_range,
            category: engine_ref.category.clone(),
        }
    }
}


/// What `urlencoding::encode` gives for a string.
pub uninterp spec fn url_encoded(s: Seq<char>) -> Seq<char>;

/// ASCII letters, digits and `-`, `_`, `.`, `~`: the characters left as they are.
pub open spec fn url_safe(c: char) -> bool {
    ('a' <= c && c <= 'z') || ('A' <= c && c <= 'Z') || ('0' <= c && c <= '9') || c == '-'
        || c == '_' || c == '.' || c == '~'
}

/// Relies on `urlencoding::encode`: percent-encodes each UTF-8 byte except
/// ASCII letters, digits and `-_.~`, so a string of those alone is unchanged.
#[verifier::external_body]
fn url_encode(s: &str) -> (r: String)
    ensures
        r@ == url_encoded(s@),
        (forall|i: int| 0 <= i < s@.len() ==> url_safe(#[trigger] s@[i])) ==> r@ == s@,
{
    urlencoding::encode(s).into_owned()
}

/// The search URL prefix of each external bang.
pub open spec fn bang_base(b: Seq<char>) -> Option<Seq<char>> {
    if b == "g"@ {
        Some("https://www.google.com/search?q="@)
    } else if b == "yt"@ {
        Some("https://www.youtube.com/results?search_query="@)
    } else if b == "w"@ || b == "wp"@ {
        Some("https://en.wikipedia.org/wiki/Special:Search?search="@)
    } else if b == "gh"@ {
        Some("https://github.com/search?q="@)
    } else if b == "so"@ {
        Some("https://stackoverflow.com/search?q="@)
    } else if b == "ddg"@ {
        Some("https://duckduckgo.com/?q="@)
    } else if b == "amazon"@ {
        Some("https://www.amazon.com/s?k="@)
    } else if b == "imdb"@ {
        Some("https://www.imdb.com/find?q="@)
    } else {
        None
    }
}

pub open spec fn external_url(b: Seq<char>, q: Seq<char>) -> Option<Seq<char>> {
    match bang_base(b) {
        Some(base) => Some(base + url_encoded(q)),
        None => None,
    }
}

/// The redirect for an external bang, given the already encoded query.
pub fn bang_redirect(bang: &str, encoded: &str) -> (r: Option<String>)
    ensures
        opt_str(r) == match bang_base(bang@) {
            Some(base) => Some(base + encoded@),
            None => None,
        },
{
    let base = if str_eq(bang, "g") {
        "https://www.google.com/search?q="
    } else if str_eq(bang, "yt") {
        "https://www.youtube.com/results?search_query="
    } else if str_eq(bang, "w") || str_eq(bang, "wp") {
        "https://en.wikipedia.org/wiki/Special:Search?search="
    } else if str_eq(bang, "gh") {
        "https://github.com/search?q="
    } else if str_eq(bang, "so") {
        "https://stackoverflow.com/search?q="
    } else if str_eq(bang, "ddg") {
        "https://duckduckgo.com/?q="
    } else if str_eq(bang, "amazon") {
        "https://www.amazon.com/s?k="
    } else if str_eq(bang, "imdb") {
        "https://www.imdb.com/find?q="
    } else {
        return None;
    };
    let mut url = String::from_str(base);
    url.append(encoded);
    Some(url)
}

/// The external site's search URL for a bang and a query.
pub fn get_external_bang_url(bang: &str, query: &str) -> (r: Option<String>)
    ensures
        opt_str(r) == external_url(bang@, query@),
{
    let encoded = url_encode(query);
    bang_redirect(bang, encoded.as_str())
}

/// What the executor does with a query.
#[derive(Debug, Clone)]
pub enum SearchPlan {
    /// Send the user to this external URL; contact no engine.
    Redirect(String),
    /// Nothing to search for: return the empty container.
    Nothing,
    /// Query the engines.
    Dispatch,
}

pub enum PlanModel {
    Redirect(Seq<char>),
    Nothing,
    Dispatch,
}

pub open spec fn plan_model(p: SearchPlan) -> PlanModel {
    match p {
        SearchPlan::Redirect(u) => PlanModel::Redirect(u@),
        SearchPlan::Nothing => PlanModel::Nothing,
        SearchPlan::Dispatch => PlanModel::Dispatch,
    }
}

/// An external bang never reaches the engines: it redirects when its site
/// is known, and otherwise there is nothing to do. Without one, a blank
/// query needs no work and any other is sent to the engines.
pub open spec fn plan_for(q: SearchQuery) -> PlanModel {
    match q.external_bang {
        Some(b) => match external_url(b@, q.query@) {
            Some(url) => PlanModel::Redirect(url),
            None => PlanModel::Nothing,
        },
        None => if blank(q.query@) {
            PlanModel::Nothing
        } else {
            PlanModel::Dispatch
        },
    }
}

pub fn plan_search(query: &SearchQuery) -> (r: SearchPlan)
    ensures
        plan_model(r) == plan_for(*query),
{
    match &query.external_bang {
        Some(b) => {
            match get_external_bang_url(b.as_str(), query.query.as_str()) {
                Some(url) => SearchPlan::Redirect(url),
                None => SearchPlan::Nothing,
            }
        },
        None => if query.is_empty() {
            SearchPlan::Nothing
        } else {
            SearchPlan::Dispatch
        },
    }
}

/// `t` occurs in `s`.
pub open spec fn occurs(s: Seq<char>, t: Seq<char>) -> bool {
    exists|i: int| 0 <= i && i + t.len() <= s.len() && #[trigger] s.subrange(i, i + t.len()) == t
}

/// `s` contains `lit`.
pub fn contains_lit(s: &str, lit: &str) -> (r: bool)
    ensures
        r == occurs(s@, lit@),
{
    let cs = chars_of(s);
    let n = cs.len();
    let m = lit.unicode_len();
    if m > n {
        assert(!occurs(s@, lit@));
        return false;
    }
    if m == 0 {
        assert(s@.subrange(0, 0 + lit@.len() as int) =~= lit@);
        return true;
    }
    let mut i: usize = 0;
    while i <= n - m
        invariant
            cs@ == s@,
            n == cs@.len(),
            m == lit@.len(),
            0 < m <= n,
            i <= n - m + 1,
            forall|k: int| 0 <= k < i ==> #[trigger] s@.subrange(k, k + m) != lit@,
        decreases n - i,
    {
        if crate::text::starts_with_lit(&cs, i, lit) {
            assert(s@.subrange(i as int, i + m) =~= cs@.skip(i as int).take(m as int));
            return true;
        }
        assert(s@.subrange(i as int, i + m) =~= cs@.skip(i as int).take(m as int));
        i = i + 1;
    }
    false
}

/// A transport failure, classified by its message.
pub open spec fn transport_error(msg: Seq<char>) -> EngineError {
    if occurs(msg, "timeout"@) {
        EngineError::Timeout
    } else if occurs(msg, "429"@) {
        EngineError::TooManyRequests
    } else if occurs(msg, "403"@) {
        EngineError::AccessDenied
    } else {
        EngineError::NetworkError
    }
}

/// A parse failure, classified by its message.
pub open spec fn parse_error(msg: Seq<char>) -> EngineError {
    if occurs(msg, "CAPTCHA"@) {
        EngineError::Captcha
    } else {
        EngineError::ParseError
    }
}

pub fn classify_transport_error(msg: &str) -> (r: EngineError)
    ensures
        r == transport_error(msg@),
{
    if contains_lit(msg, "timeout") {
        EngineError::Timeout
    } else if contains_lit(msg, "429") {
        EngineError::TooManyRequests
    } else if contains_lit(msg, "403") {
        EngineError::AccessDenied
    } else {
        EngineError::NetworkError
    }
}

pub fn classify_parse_error(msg: &str) -> (r: EngineError)
    ensures
        r == parse_error(msg@),
{
    if contains_lit(msg, "CAPTCHA") {
        EngineError::Captcha
    } else {
        EngineError::ParseError
    }
}

/// What an engine hands back for one search.
#[derive(Debug, Clone)]
pub struct EngineResults {
    pub results: Vec<Result>,
    pub answers: Vec<Answer>,
    pub suggestions: Vec<Suggestion>,
    pub infoboxes: Vec<InfoBox>,
    pub number_of_results: Option<u64>,
}

impl EngineResults {
    pub fn new() -> (r: EngineResults)
        ensures
            r.results@.len() == 0,
            r.answers@.len() == 0,
            r.suggestions@.len() == 0,
            r.infoboxes@.len() == 0,
            r.number_of_results is None,
    {
        EngineResults {
            results: Vec::new(),
            answers: Vec::new(),
            suggestions: Vec::new(),
            infoboxes: Vec::new(),
            number_of_results: None,
        }
    }

    pub fn with_results(results: Vec<Result>) -> (r: EngineResults)
        ensures
            r.results@ == results@,
            r.answers@.len() == 0,
            r.suggestions@.len() == 0,
            r.infoboxes@.len() == 0,
            r.number_of_results is None,
    {
        EngineResults {
            results,
            answers: Vec::new(),
            suggestions: Vec::new(),
            infoboxes: Vec::new(),
            number_of_results: None,
        }
    }

    pub fn add_result(&mut self, result: Result)
        ensures
            final(self).results@ == old(self).results@.push(result),
            final(self).answers == old(self).answers,
            final(self).suggestions == old(self).suggestions,
            final(self).infoboxes == old(self).infoboxes,
    {
        self.results.push(result);
    }

    pub fn add_answer(&mut self, answer: Answer)
        ensures
            final(self).answers@ == old(self).answers@.push(answer),
            final(self).results == old(self).results,
            final(self).suggestions == old(self).suggestions,
            final(self).infoboxes == old(self).infoboxes,
    {
        self.answers.push(answer);
    }

    pub fn add_suggestion(&mut self, suggestion: Suggestion)
        ensures
            final(self).suggestions@ == old(self).suggestions@.push(suggestion),
            final(self).results == old(self).results,
            final(self).answers == old(self).answers,
            final(self).infoboxes == old(self).infoboxes,
    {
        self.suggestions.push(suggestion);
    }

    /// No results, answers, suggestions or infoboxes.
    pub fn is_empty(&self) -> (r: bool)
        ensures
            r == (self.results@.len() == 0 && self.answers@.len() == 0
                && self.suggestions@.len() == 0 && self.infoboxes@.len() == 0),
    {
        self.results.len() == 0 && self.answers.len() == 0 && self.suggestions.len() == 0
            && self.infoboxes.len() == 0
    }
}

/// How one engine's search ended.
#[derive(Debug, Clone)]
pub enum EngineOutcome {
    /// The engine could not build its request.
    BuildFailed,
    /// The deadline passed first.
    TimedOut,
    /// The HTTP call failed, with this message.
    TransportFailed(String),
    /// The engine could not read the response, with this message.
    ParseFailed(String),
    /// The engine's results.
    Parsed(EngineResults),
}

/// One engine's report to the executor.
#[derive(Debug, Clone)]
pub struct EngineReport {
    pub name: String,
    /// The category the engine was queried for.
    pub category: String,
    pub elapsed_ms: u64,
    pub outcome: EngineOutcome,
}

pub open spec fn outcome_error(o: EngineOutcome) -> Option<EngineError> {
    match o {
        EngineOutcome::BuildFailed => Some(EngineError::Unknown),
        EngineOutcome::TimedOut => Some(EngineError::Timeout),
        EngineOutcome::TransportFailed(m) => Some(transport_error(m@)),
        EngineOutcome::ParseFailed(m) => Some(parse_error(m@)),
        EngineOutcome::Parsed(_) => None,
    }
}

/// The records an engine contributes, each set to the queried category.
pub open spec fn contributed(rep: EngineReport) -> Seq<ResultModel> {
    match rep.outcome {
        EngineOutcome::Parsed(er) => models(er.results@).map_values(
            |m: ResultModel| ResultModel { category: Some(rep.category@), ..m },
        ),
        _ => seq![],
    }
}

pub open spec fn harvest(reps: Seq<EngineReport>) -> Seq<ResultModel>
    decreases reps.len(),
{
    if reps.len() == 0 {
        seq![]
    } else {
        harvest(reps.drop_last()) + contributed(reps.last())
    }
}

/// How many of the reports are failures.
pub open spec fn failures(reps: Seq<EngineReport>) -> nat
    decreases reps.len(),
{
    if reps.len() == 0 {
        0
    } else {
        failures(reps.drop_last()) + if outcome_error(reps.last().outcome) is Some { 1nat } else { 0nat }
    }
}

proof fn lemma_added_all_concat(rs: Seq<ResultModel>, a: Seq<ResultModel>, b: Seq<ResultModel>)
    ensures
        added_all(rs, a + b) == added_all(added_all(rs, a), b),
    decreases b.len(),
{
    if b.len() == 0 {
        assert(a + b =~= a);
    } else {
        lemma_added_all_concat(rs, a, b.drop_last());
        assert((a + b).drop_last() =~= a + b.drop_last());
        assert((a + b).last() == b.last());
    }
}

/// Each unresponsive entry as its engine name and error.
pub open spec fn unresp_rows(s: Seq<crate::results::UnresponsiveEngine>) -> Seq<(Seq<char>, EngineError)> {
    s.map_values(|u: crate::results::UnresponsiveEngine| (u.name@, u.error))
}

/// Each timing as its engine name, milliseconds and result count.
pub open spec fn timing_rows(s: Seq<Timing>) -> Seq<(Seq<char>, u64, nat)> {
    s.map_values(|t: Timing| (t.engine@, t.time_ms, t.result_count as nat))
}

/// The unresponsive entry a report adds: its engine and error when it failed.
pub open spec fn failure_row(rep: EngineReport) -> Seq<(Seq<char>, EngineError)> {
    match outcome_error(rep.outcome) {
        Some(e) => seq![(rep.name@, e)],
        None => seq![],
    }
}

/// The timing a report adds.
pub open spec fn timing_row(rep: EngineReport) -> (Seq<char>, u64, nat) {
    (rep.name@, rep.elapsed_ms, match rep.outcome {
        EngineOutcome::Parsed(er) => er.results@.len(),
        _ => 0,
    })
}

pub open spec fn report_answers(rep: EngineReport) -> Seq<Answer> {
    match rep.outcome {
        EngineOutcome::Parsed(er) => er.answers@,
        _ => seq![],
    }
}

pub open spec fn report_suggestions(rep: EngineReport) -> Seq<Suggestion> {
    match rep.outcome {
        EngineOutcome::Parsed(er) => er.suggestions@,
        _ => seq![],
    }
}

pub open spec fn report_infoboxes(rep: EngineReport) -> Seq<InfoBox> {
    match rep.outcome {
        EngineOutcome::Parsed(er) => er.infoboxes@,
        _ => seq![],
    }
}

/// The failed engines of the reports, in order, with their errors.
pub open spec fn failed_engines(reps: Seq<EngineReport>) -> Seq<(Seq<char>, EngineError)>
    decreases reps.len(),
{
    if reps.len() == 0 {
        seq![]
    } else {
        failed_engines(reps.drop_last()) + failure_row(reps.last())
    }
}

pub open spec fn all_timings(reps: Seq<EngineReport>) -> Seq<(Seq<char>, u64, nat)>
    decreases reps.len(),
{
    if reps.len() == 0 {
        seq![]
    } else {
        all_timings(reps.drop_last()).push(timing_row(reps.last()))
    }
}

pub open spec fn all_answers(reps: Seq<EngineReport>) -> Seq<Answer>
    decreases reps.len(),
{
    if reps.len() == 0 {
        seq![]
    } else {
        all_answers(reps.drop_last()) + report_answers(reps.last())
    }
}

pub open spec fn all_suggestions(reps: Seq<EngineReport>) -> Seq<Suggestion>
    decreases reps.len(),
{
    if reps.len() == 0 {
        seq![]
    } else {
        all_suggestions(reps.drop_last()) + report_suggestions(reps.last())
    }
}

pub open spec fn all_infoboxes(reps: Seq<EngineReport>) -> Seq<InfoBox>
    decreases reps.len(),
{
    if reps.len() == 0 {
        seq![]
    } else {
        all_infoboxes(reps.drop_last()) + report_infoboxes(reps.last())
    }
}

proof fn lemma_answers_concat(s: Seq<Answer>, a: Seq<Answer>, b: Seq<Answer>)
    ensures
        answers_added_all(s, a + b) == answers_added_all(answers_added_all(s, a), b),
    decreases b.len(),
{
    if b.len() == 0 {
        assert(a + b =~= a);
    } else {
        lemma_answers_concat(s, a, b.drop_last());
        assert((a + b).drop_last() =~= a + b.drop_last());
        assert((a + b).last() == b.last());
    }
}

proof fn lemma_suggestions_concat(s: Seq<Suggestion>, a: Seq<Suggestion>, b: Seq<Suggestion>)
    ensures
        suggestions_added_all(s, a + b) == suggestions_added_all(suggestions_added_all(s, a), b),
    decreases b.len(),
{
    if b.len() == 0 {
        assert(a + b =~= a);
    } else {
        lemma_suggestions_concat(s, a, b.drop_last());
        assert((a + b).drop_last() =~= a + b.drop_last());
        assert((a + b).last() == b.last());
    }
}

proof fn lemma_infoboxes_concat(s: Seq<InfoBox>, a: Seq<InfoBox>, b: Seq<InfoBox>)
    ensures
        infoboxes_added_all(s, a + b) == infoboxes_added_all(infoboxes_added_all(s, a), b),
    decreases b.len(),
{
    if b.len() == 0 {
        assert(a + b =~= a);
    } else {
        lemma_infoboxes_concat(s, a, b.drop_last());
        assert((a + b).drop_last() =~= a + b.drop_last());
        assert((a + b).last() == b.last());
    }
}

/// Stores one engine's outcome: its results, answers, suggestions and
/// infoboxes when it succeeded, else an unresponsive entry; a timing either way.
pub fn record_outcome(container: &mut ResultContainer, report: EngineReport)
    requires
        old(container).wf(),
    ensures
        final(container).wf(),
        final(container).engine_weights == old(container).engine_weights,
        final(container).stored() == added_all(old(container).stored(), contributed(report)),
        final(container).unresponsive_engines@.len() == old(container).unresponsive_engines@.len()
            + if outcome_error(report.outcome) is Some { 1nat } else { 0nat },
        forall|i: int| 0 <= i < old(container).unresponsive_engines@.len() ==> #[trigger] final(container).unresponsive_engines@[i] == old(container).unresponsive_engines@[i],
        outcome_error(report.outcome) matches Some(e) ==> final(container).unresponsive_engines@.last().error == e
            && final(container).unresponsive_engines@.last().name@ == report.name@,
        final(container).timings@.len() == old(container).timings@.len() + 1,
        final(container).timings@.drop_last() == old(container).timings@,
        final(container).timings@.last().engine@ == report.name@,
        final(container).timings@.last().time_ms == report.elapsed_ms,
        final(container).timings@.last().result_count == match report.outcome {
            EngineOutcome::Parsed(er) => er.results@.len(),
            _ => 0,
        },
        final(container).answers@ == match report.outcome {
            EngineOutcome::Parsed(er) => answers_added_all(old(container).answers@, er.answers@),
            _ => old(container).answers@,
        },
        final(container).suggestions@ == match report.outcome {
            EngineOutcome::Parsed(er) => suggestions_added_all(old(container).suggestions@, er.suggestions@),
            _ => old(container).suggestions@,
        },
        final(container).infoboxes@ == match report.outcome {
            EngineOutcome::Parsed(er) => infoboxes_added_all(old(container).infoboxes@, er.infoboxes@),
            _ => old(container).infoboxes@,
        },
        unresp_rows(final(container).unresponsive_engines@) == unresp_rows(old(container).unresponsive_engines@) + failure_row(report),
        timing_rows(final(container).timings@) == timing_rows(old(container).timings@).push(timing_row(report)),
        final(container).answers@ == answers_added_all(old(container).answers@, report_answers(report)),
        final(container).suggestions@ == suggestions_added_all(old(container).suggestions@, report_suggestions(report)),
        final(container).infoboxes@ == infoboxes_added_all(old(container).infoboxes@, report_infoboxes(report)),
{
    let ghost rep = report;
    let EngineReport { name, category, elapsed_ms, outcome } = report;
    let timing_name = name.clone();
    let mut count: usize = 0;
    match outcome {
        EngineOutcome::Parsed(er) => {
            let EngineResults { results, answers, suggestions, infoboxes, number_of_results } = er;
            count = results.len();
            let ghost rs0 = container.stored();
            let ghost items = contributed(rep);
            let mut rest = results;
            let ghost all = rest@;
            let ghost n = all.len();
            while rest.len() > 0
                invariant
                    container.wf(),
                    container.engine_weights == old(container).engine_weights,
                    container.unresponsive_engines == old(container).unresponsive_engines,
                    container.timings == old(container).timings,
                    container.answers == old(container).answers,
                    container.suggestions == old(container).suggestions,
                    container.infoboxes == old(container).infoboxes,
                    n == all.len(),
                    rest@.len() <= n,
                    rest@ == all.skip(n - rest@.len()),
                    category@ == rep.category@,
                    items.len() == n,
                    forall|j: int| 0 <= j < n ==> #[trigger] items[j] == (ResultModel { category: Some(category@), ..all[j].model() }),
                    rs0 == old(container).stored(),
                    container.stored() == added_all(rs0, items.take(n - rest@.len())),
                decreases rest@.len(),
            {
                let ghost c = (n - rest@.len()) as int;
                let mut r = rest.remove(0);
                assert(r == all[c]);
                r.category = Some(category.clone());
                assert(r.model() == items[c]);
                assert(items.take(c + 1).drop_last() =~= items.take(c));
                assert(items.take(c + 1).last() == items[c]);
                container.add_result(r);
                assert(rest@ =~= all.skip(c + 1));
            }
            assert(items.take(n as int) =~= items);
            let ghost er_answers = answers@;
            let ghost er_suggestions = suggestions@;
            let ghost er_boxes = infoboxes@;
            let mut rest_answers = answers;
            assert(er_answers.take(0) =~= Seq::<Answer>::empty());
            while rest_answers.len() > 0
                invariant
                    container.wf(),
                    container.stored() == added_all(old(container).stored(), contributed(rep)),
                    container.engine_weights == old(container).engine_weights,
                    container.unresponsive_engines == old(container).unresponsive_engines,
                    container.timings == old(container).timings,
                    container.suggestions == old(container).suggestions,
                    container.infoboxes == old(container).infoboxes,
                    rest_answers@.len() <= er_answers.len(),
                    rest_answers@ == er_answers.skip(er_answers.len() - rest_answers@.len()),
                    container.answers@ == answers_added_all(old(container).answers@, er_answers.take(er_answers.len() - rest_answers@.len())),
                decreases rest_answers@.len(),
            {
                let ghost c = er_answers.len() - rest_answers@.len();
                let ghost before = rest_answers@;
                let a = rest_answers.remove(0);
                assert(a == er_answers[c]) by {
                    assert(before[0] == er_answers.skip(c)[0]);
                }
                assert(er_answers.take(c + 1).drop_last() =~= er_answers.take(c));
                container.add_answer(a);
                assert(rest_answers@ =~= er_answers.skip(c + 1));
            }
            assert(er_answers.take(er_answers.len() as int) =~= er_answers);
            let mut rest_suggestions = suggestions;
            assert(er_suggestions.take(0) =~= Seq::<Suggestion>::empty());
            while rest_suggestions.len() > 0
                invariant
                    container.wf(),
                    container.stored() == added_all(old(container).stored(), contributed(rep)),
                    container.engine_weights == old(container).engine_weights,
                    container.unresponsive_engines == old(container).unresponsive_engines,
                    container.timings == old(container).timings,
                    container.answers@ == answers_added_all(old(container).answers@, er_answers),
                    container.infoboxes == old(container).infoboxes,
                    rest_suggestions@.len() <= er_suggestions.len(),
                    rest_suggestions@ == er_suggestions.skip(er_suggestions.len() - rest_suggestions@.len()),
                    container.suggestions@ == suggestions_added_all(old(container).suggestions@, er_suggestions.take(er_suggestions.len() - rest_suggestions@.len())),
                decreases rest_suggestions@.len(),
            {
                let ghost c = er_suggestions.len() - rest_suggestions@.len();
                let ghost before = rest_suggestions@;
                let sg = rest_suggestions.remove(0);
                assert(sg == er_suggestions[c]) by {
                    assert(before[0] == er_suggestions.skip(c)[0]);
                }
                assert(er_suggestions.take(c + 1).drop_last() =~= er_suggestions.take(c));
                container.add_suggestion(sg);
                assert(rest_suggestions@ =~= er_suggestions.skip(c + 1));
            }
            assert(er_suggestions.take(er_suggestions.len() as int) =~= er_suggestions);
            let mut rest_boxes = infoboxes;
            assert(er_boxes.take(0) =~= Seq::<InfoBox>::empty());
            while rest_boxes.len() > 0
                invariant
                    container.wf(),
                    container.stored() == added_all(old(container).stored(), contributed(rep)),
                    container.engine_weights == old(container).engine_weights,
                    container.unresponsive_engines == old(container).unresponsive_engines,
                    container.timings == old(container).timings,
                    container.answers@ == answers_added_all(old(container).answers@, er_answers),
                    container.suggestions@ == suggestions_added_all(old(container).suggestions@, er_suggestions),
                    rest_boxes@.len() <= er_boxes.len(),
                    rest_boxes@ == er_boxes.skip(er_boxes.len() - rest_boxes@.len()),
                    container.infoboxes@ == infoboxes_added_all(old(container).infoboxes@, er_boxes.take(er_boxes.len() - rest_boxes@.len())),
                decreases rest_boxes@.len(),
            {
                let ghost c = er_boxes.len() - rest_boxes@.len();
                let ghost before = rest_boxes@;
                let b = rest_boxes.remove(0);
                assert(b == er_boxes[c]) by {
                    assert(before[0] == er_boxes.skip(c)[0]);
                }
                assert(er_boxes.take(c + 1).drop_last() =~= er_boxes.take(c));
                container.add_infobox(b);
                assert(rest_boxes@ =~= er_boxes.skip(c + 1));
            }
            assert(er_boxes.take(er_boxes.len() as int) =~= er_boxes);
        },
        EngineOutcome::BuildFailed => {
            container.add_unresponsive(name, EngineError::Unknown);
        },
        EngineOutcome::TimedOut => {
            container.add_unresponsive(name, EngineError::Timeout);
        },
        EngineOutcome::TransportFailed(msg) => {
            let e = classify_transport_error(msg.as_str());
            container.add_unresponsive(name, e);
        },
        EngineOutcome::ParseFailed(msg) => {
            let e = classify_parse_error(msg.as_str());
            container.add_unresponsive(name, e);
        },
    }
    proof {
        if outcome_error(rep.outcome) is Some {
            assert(contributed(rep) =~= Seq::<ResultModel>::empty());
        }
    }
    container.add_timing(Timing { engine: timing_name, time_ms: elapsed_ms, result_count: count });
    proof {
        let u0 = old(container).unresponsive_engines@;
        let u1 = container.unresponsive_engines@;
        if outcome_error(rep.outcome) is Some {
            assert(u1 =~= u1.drop_last().push(u1.last()));
            assert forall|i: int| 0 <= i < u0.len() implies u1.drop_last()[i] == u0[i] by {
                assert(u1[i] == u0[i]);
            }
            assert(u1.drop_last() =~= u0);
            assert(unresp_rows(u1) =~= unresp_rows(u0) + failure_row(rep));
        } else {
            assert forall|i: int| 0 <= i < u0.len() implies u1[i] == u0[i] by {}
            assert(u1 =~= u0);
            assert(unresp_rows(u1) =~= unresp_rows(u0) + failure_row(rep));
        }
        let t0 = old(container).timings@;
        let t1 = container.timings@;
        assert(t1 =~= t0.push(t1.last()));
        assert(timing_rows(t1) =~= timing_rows(t0).push(timing_row(rep)));
    }
}

/// Gathers every engine's report into the container, in order. The results
/// of the engines that succeeded are all stored, and each engine that
/// failed adds exactly one unresponsive entry.
pub fn collect_outcomes(container: &mut ResultContainer, reports: Vec<EngineReport>)
    requires
        old(container).wf(),
    ensures
        final(container).wf(),
        final(container).engine_weights == old(container).engine_weights,
        final(container).stored() == added_all(old(container).stored(), harvest(reports@)),
        final(container).unresponsive_engines@.len() == old(container).unresponsive_engines@.len() + failures(reports@),
        final(container).timings@.len() == old(container).timings@.len() + reports@.len(),
        unresp_rows(final(container).unresponsive_engines@) == unresp_rows(old(container).unresponsive_engines@) + failed_engines(reports@),
        timing_rows(final(container).timings@) == timing_rows(old(container).timings@) + all_timings(reports@),
        final(container).answers@ == answers_added_all(old(container).answers@, all_answers(reports@)),
        final(container).suggestions@ == suggestions_added_all(old(container).suggestions@, all_suggestions(reports@)),
        final(container).infoboxes@ == infoboxes_added_all(old(container).infoboxes@, all_infoboxes(reports@)),
{
    let mut rest = reports;
    let ghost all = rest@;
    let ghost n = all.len();
    assert(all.take(0) =~= Seq::<EngineReport>::empty());
    assert(unresp_rows(container.unresponsive_engines@) + failed_engines(all.take(0)) =~= unresp_rows(container.unresponsive_engines@));
    assert(timing_rows(container.timings@) + all_timings(all.take(0)) =~= timing_rows(container.timings@));
    while rest.len() > 0
        invariant
            container.wf(),
            container.engine_weights == old(container).engine_weights,
            n == all.len(),
            rest@.len() <= n,
            rest@ == all.skip(n - rest@.len()),
            container.stored() == added_all(old(container).stored(), harvest(all.take(n - rest@.len()))),
            container.unresponsive_engines@.len() == old(container).unresponsive_engines@.len() + failures(all.take(n - rest@.len())),
            container.timings@.len() == old(container).timings@.len() + (n - rest@.len()),
            unresp_rows(container.unresponsive_engines@) == unresp_rows(old(container).unresponsive_engines@) + failed_engines(all.take(n - rest@.len())),
            timing_rows(container.timings@) == timing_rows(old(container).timings@) + all_timings(all.take(n - rest@.len())),
            container.answers@ == answers_added_all(old(container).answers@, all_answers(all.take(n - rest@.len()))),
            container.suggestions@ == suggestions_added_all(old(container).suggestions@, all_suggestions(all.take(n - rest@.len()))),
            container.infoboxes@ == infoboxes_added_all(old(container).infoboxes@, all_infoboxes(all.take(n - rest@.len()))),
        decreases rest@.len(),
    {
        let ghost c = (n - rest@.len()) as int;
        let rep = rest.remove(0);
        assert(rep == all[c]);
        assert(all.take(c + 1).drop_last() =~= all.take(c));
        assert(all.take(c + 1).last() == all[c]);
        proof {
            lemma_added_all_concat(old(container).stored(), harvest(all.take(c)), contributed(rep));
            lemma_answers_concat(old(container).answers@, all_answers(all.take(c)), report_answers(rep));
            lemma_suggestions_concat(old(container).suggestions@, all_suggestions(all.take(c)), report_suggestions(rep));
            lemma_infoboxes_concat(old(container).infoboxes@, all_infoboxes(all.take(c)), report_infoboxes(rep));
        }
        let ghost u_before = unresp_rows(container.unresponsive_engines@);
        let ghost t_before = timing_rows(container.timings@);
        record_outcome(container, rep);
        assert(unresp_rows(old(container).unresponsive_engines@) + failed_engines(all.take(c + 1)) =~= u_before + failure_row(rep));
        assert(timing_rows(old(container).timings@) + all_timings(all.take(c + 1)) =~= t_before.push(timing_row(rep)));
        assert(rest@ =~= all.skip(c + 1));
    }
    assert(all.take(n as int) =~= all);
}


/// The failed engines listed for a batch of reports (one entry per failed
/// report, in order) are as many as the failures.
pub proof fn failed_engines_counted(reps: Seq<EngineReport>)
    ensures
        failed_engines(reps).len() == failures(reps),
    decreases reps.len(),
{
    if reps.len() > 0 {
        failed_engines_counted(reps.drop_last());
    }
}

/// With an external bang the plan never queries the engines: it is a
/// redirect to the site's search when the bang's site is known, and empty
/// otherwise.
pub proof fn external_bang_short_circuits(q: SearchQuery)
    requires
        q.external_bang is Some,
    ensures
        plan_for(q) != PlanModel::Dispatch,
        bang_base(q.external_bang.unwrap()@) is Some ==> plan_for(q) == PlanModel::Redirect(
            external_url(q.external_bang.unwrap()@, q.query@).unwrap(),
        ),
        bang_base(q.external_bang.unwrap()@) is None ==> plan_for(q) == PlanModel::Nothing,
{
}

/// The executor's settings: the registry and the default and maximum timeouts.
pub struct Search {
    pub registry: EngineRegistry,
    /// Milliseconds.
    pub default_timeout: u64,
    /// Milliseconds.
    pub max_timeout: u64,
}

/// The timeout of one engine: the query's limit, else the registry's, capped at `max`.
pub open spec fn engine_timeout_for(q: SearchQuery, reg: EngineRegistry, name: Seq<char>, default: u64, max: u64) -> u64 {
    let t = match q.timeout_limit {
        Some(t) => t,
        None => match entry_of(reg.entries@, name) {
            Some(i) => match reg.entries@[i].1.timeout {
                Some(t) => t,
                None => reg.entries@[i].0.timeout,
            },
            None => default,
        },
    };
    if t < max {
        t
    } else {
        max
    }
}

pub open spec fn weight_in(reg: EngineRegistry, name: Seq<char>) -> u32 {
    match entry_of(reg.entries@, name) {
        Some(i) => reg.entries@[i].1.weight,
        None => 1000,
    }
}

/// The references whose engine is registered, in order.
pub open spec fn known_refs(reg: EngineRegistry, rs: Seq<(Seq<char>, Seq<char>)>) -> Seq<(Seq<char>, Seq<char>)>
    decreases rs.len(),
{
    if rs.len() == 0 {
        seq![]
    } else if entry_of(reg.entries@, rs.last().0) is Some {
        known_refs(reg, rs.drop_last()).push(rs.last())
    } else {
        known_refs(reg, rs.drop_last())
    }
}

impl Search {
    /// Default timeout 5 s, maximum 30 s.
    pub fn new(registry: EngineRegistry) -> (r: Search)
        ensures
            r.registry == registry,
            r.default_timeout == 5000,
            r.max_timeout == 30000,
    {
        Search { registry, default_timeout: 5000, max_timeout: 30000 }
    }

    pub fn with_timeout(self, ms: u64) -> (r: Search)
        ensures
            r == (Search { default_timeout: ms, ..self }),
    {
        let mut r = self;
        r.default_timeout = ms;
        r
    }

    pub fn with_max_timeout(self, ms: u64) -> (r: Search)
        ensures
            r == (Search { max_timeout: ms, ..self }),
    {
        let mut r = self;
        r.max_timeout = ms;
        r
    }

    /// How long engine `name` may take for `query`, in milliseconds.
    pub fn engine_timeout(&self, query: &SearchQuery, name: &str) -> (r: u64)
        requires
            self.registry.wf(),
        ensures
            r == engine_timeout_for(*query, self.registry, name@, self.default_timeout, self.max_timeout),
    {
        let t = match query.timeout_limit {
            Some(t) => t,
            None => self.registry.get_timeout(name, self.default_timeout),
        };
        if t < self.max_timeout {
            t
        } else {
            self.max_timeout
        }
    }

    /// The scoring weight of each engine the query names.
    pub fn weights(&self, query: &SearchQuery) -> (r: Vec<(String, u32)>)
        requires
            self.registry.wf(),
        ensures
            r@.len() == query.engine_refs@.len(),
            forall|i: int| 0 <= i < r@.len() ==> (#[trigger] r@[i]).0@ == query.engine_refs@[i].name@
                && r@[i].1 == weight_in(self.registry, query.engine_refs@[i].name@),
    {
        let mut r: Vec<(String, u32)> = Vec::new();
        let mut i: usize = 0;
        while i < query.engine_refs.len()
            invariant
                self.registry.wf(),
                i <= query.engine_refs@.len(),
                r@.len() == i,
                forall|j: int| 0 <= j < i ==> (#[trigger] r@[j]).0@ == query.engine_refs@[j].name@
                    && r@[j].1 == weight_in(self.registry, query.engine_refs@[j].name@),
            decreases query.engine_refs@.len() - i,
        {
            let name = &query.engine_refs[i].name;
            let w = self.registry.get_weight(name.as_str());
            r.push((name.clone(), w));
            i = i + 1;
        }
        r
    }

    /// The engine references of the query whose engine is registered
    /// (unknown names are skipped), in order.
    pub fn dispatch_list(&self, query: &SearchQuery) -> (r: Vec<EngineRef>)
        requires
            self.registry.wf(),
        ensures
            refs(r@) == known_refs(self.registry, refs(query.engine_refs@)),
    {
        let ghost all = refs(query.engine_refs@);
        let mut r: Vec<EngineRef> = Vec::new();
        let mut i: usize = 0;
        while i < query.engine_refs.len()
            invariant
                self.registry.wf(),
                i <= query.engine_refs@.len(),
                all == refs(query.engine_refs@),
                refs(r@) == known_refs(self.registry, all.take(i as int)),
            decreases query.engine_refs@.len() - i,
        {
            let e = &query.engine_refs[i];
            assert(all.take(i + 1).drop_last() =~= all.take(i as int));
            assert(all.take(i + 1).last() == ref_model(*e));
            let ghost pre = refs(r@);
            if self.registry.contains(e.name.as_str()) {
                r.push(EngineRef { name: e.name.clone(), category: e.category.clone() });
                assert(refs(r@) =~= pre.push(ref_model(*e)));
            }
            i = i + 1;
        }
        assert(all.take(all.len() as int) =~= all);
        r
    }

    /// The request that searches one category: all its engines, all
    /// languages, safesearch off, the given page.
    pub fn category_query(&self, query: &str, category: &str, page: u32) -> (r: SearchQuery)
        ensures
            r.query@ == query@,
            refs(r.engine_refs@) == names_where(self.registry.entries@, in_category(category@)).map_values(
                |n: Seq<char>| (n, category@),
            ),
            r.lang@ == "all"@,
            r.safesearch == 0,
            r.pageno == page,
            r.time_range is None,
            r.timeout_limit is None,
            r.external_bang is None,
            !r.redirect_to_first,
    {
        let names = self.registry.get_by_category(category);
        let mut q = SearchQuery::simple(query);
        q.pageno = page;
        let mut i: usize = 0;
        let ghost ns = strs(names@);
        while i < names.len()
            invariant
                i <= names@.len(),
                ns == strs(names@),
                q.query@ == query@,
                q.lang@ == "all"@,
                q.safesearch == 0,
                q.pageno == page,
                q.time_range is None,
                q.timeout_limit is None,
                q.external_bang is None,
                !q.redirect_to_first,
                refs(q.engine_refs@) == ns.take(i as int).map_values(|n: Seq<char>| (n, category@)),
            decreases names@.len() - i,
        {
            assert(ns.take(i + 1).map_values(|n: Seq<char>| (n, category@)) =~= ns.take(i as int).map_values(|n: Seq<char>| (n, category@)).push((ns[i as int], category@)));
            q.add_engine(names[i].as_str(), category);
            i = i + 1;
        }
        assert(ns.take(ns.len() as int) =~= ns);
        q
    }
}

/// Query-string parameters of a search request.
#[derive(Debug, Clone)]
pub struct SearchParams {
    pub q: Option<String>,
    /// Comma-separated categories.
    pub categories: Option<String>,
    /// Comma-separated engine names.
    pub engines: Option<String>,
    pub language: Option<String>,
    pub time_range: Option<String>,
    pub safesearch: Option<u8>,
    pub pageno: Option<u32>,
    /// `html`, `json` or `csv`.
    pub format: Option<String>,
}

/// Query-string parameters of an autocomplete request.
#[derive(Debug, Clone)]
pub struct AutocompleteParams {
    pub q: Option<String>,
}

/// The references for each category: every engine in it, in registry order.
pub open spec fn category_refs(reg: EngineRegistry, cats: Seq<Seq<char>>) -> Seq<(Seq<char>, Seq<char>)>
    decreases cats.len(),
{
    if cats.len() == 0 {
        seq![]
    } else {
        let c = cats.last();
        category_refs(reg, cats.drop_last()) + names_where(reg.entries@, in_category(c)).map_values(
            |n: Seq<char>| (n, c),
        )
    }
}

pub open spec fn trimmed_pieces(s: Seq<char>) -> Seq<Seq<char>> {
    crate::locales::split_on(s, ',').map_values(|x: Seq<char>| crate::plugins::trim(x))
}

/// The engines a request names (each in the general category), or else
/// every engine of each requested category (general when none is given).
pub open spec fn requested_refs(reg: EngineRegistry, engines: Option<Seq<char>>, categories: Option<Seq<char>>) -> Seq<(Seq<char>, Seq<char>)> {
    match engines {
        Some(e) => trimmed_pieces(e).map_values(|n: Seq<char>| (n, "general"@)),
        None => category_refs(
            reg,
            trimmed_pieces(match categories {
                Some(c) => c,
                None => "general"@,
            }),
        ),
    }
}

fn trimmed_split(s: &str) -> (r: Vec<Vec<char>>)
    ensures
        crate::text::views(r@) == trimmed_pieces(s@),
{
    let cs = chars_of(s);
    let parts = crate::locales::split_chars(&cs, ',');
    let ghost ps = crate::text::views(parts@);
    let mut out: Vec<Vec<char>> = Vec::new();
    let mut i: usize = 0;
    while i < parts.len()
        invariant
            i <= parts@.len(),
            ps == crate::text::views(parts@),
            ps == crate::locales::split_on(s@, ','),
            crate::text::views(out@) == ps.take(i as int).map_values(|x: Seq<char>| crate::plugins::trim(x)),
        decreases parts@.len() - i,
    {
        let t = crate::plugins::trim_chars(&parts[i]);
        let ghost pre = crate::text::views(out@);
        out.push(t);
        assert(crate::text::views(out@) =~= pre.push(t@));
        assert(ps.take(i + 1).map_values(|x: Seq<char>| crate::plugins::trim(x)) =~= ps.take(i as int).map_values(|x: Seq<char>| crate::plugins::trim(x)).push(crate::plugins::trim(ps[i as int])));
        i = i + 1;
    }
    assert(ps.take(ps.len() as int) =~= ps);
    out
}

/// The engine references a search request asks for.
pub fn resolve_engine_refs(registry: &EngineRegistry, engines: Option<&str>, categories: Option<&str>) -> (r: Vec<EngineRef>)
    ensures
        refs(r@) == requested_refs(*registry, match engines { Some(e) => Some(e@), None => None }, match categories { Some(c) => Some(c@), None => None }),
{
    let mut out: Vec<EngineRef> = Vec::new();
    match engines {
        Some(e) => {
            let names = trimmed_split(e);
            let ghost ns = crate::text::views(names@);
            let mut i: usize = 0;
            while i < names.len()
                invariant
                    i <= names@.len(),
                    ns == crate::text::views(names@),
                    refs(out@) == ns.take(i as int).map_values(|n: Seq<char>| (n, "general"@)),
                decreases names@.len() - i,
            {
                let ghost pre = refs(out@);
                let name = crate::text::string_of(&names[i]);
                out.push(EngineRef::new(name.as_str(), "general"));
                assert(refs(out@) =~= pre.push((ns[i as int], "general"@)));
                assert(ns.take(i + 1).map_values(|n: Seq<char>| (n, "general"@)) =~= ns.take(i as int).map_values(|n: Seq<char>| (n, "general"@)).push((ns[i as int], "general"@)));
                i = i + 1;
            }
            assert(ns.take(ns.len() as int) =~= ns);
            out
        },
        None => {
            let cats = match categories {
                Some(c) => trimmed_split(c),
                None => trimmed_split("general"),
            };
            let ghost cs = crate::text::views(cats@);
            let mut i: usize = 0;
            assert(cs.take(0) =~= Seq::<Seq<char>>::empty());
            while i < cats.len()
                invariant
                    i <= cats@.len(),
                    cs == crate::text::views(cats@),
                    refs(out@) == category_refs(*registry, cs.take(i as int)),
                decreases cats@.len() - i,
            {
                let cat = crate::text::string_of(&cats[i]);
                let names = registry.get_by_category(cat.as_str());
                let ghost ns = strs(names@);
                let ghost before = refs(out@);
                let mut j: usize = 0;
                while j < names.len()
                    invariant
                        j <= names@.len(),
                        ns == strs(names@),
                        refs(out@) == before + ns.take(j as int).map_values(|n: Seq<char>| (n, cat@)),
                    decreases names@.len() - j,
                {
                    let ghost pre = refs(out@);
                    out.push(EngineRef::new(names[j].as_str(), cat.as_str()));
                    assert(refs(out@) =~= pre.push((ns[j as int], cat@)));
                    assert(ns.take(j + 1).map_values(|n: Seq<char>| (n, cat@)) =~= ns.take(j as int).map_values(|n: Seq<char>| (n, cat@)).push((ns[j as int], cat@)));
                    j = j + 1;
                }
                assert(ns.take(ns.len() as int) =~= ns);
                assert(cs.take(i + 1).drop_last() =~= cs.take(i as int));
                assert(cs.take(i + 1).last() == cat@);
                i = i + 1;
            }
            assert(cs.take(cs.len() as int) =~= cs);
            out
        },
    }
}

} // verus!
