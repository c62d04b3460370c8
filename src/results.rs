//! Result records produced by engines and stored by the container.

use vstd::prelude::*;
use vstd::string::*;
use crate::query::{opt_str, strs};

verus! {

/// A copy of an optional string.
pub fn dup_opt(o: &Option<String>) -> (r: Option<String>)
    ensures
        opt_str(r) == opt_str(*o),
{
    match o {
        Some(s) => Some(s.clone()),
        None => None,
    }
}

/// A copy of a list of strings.
pub fn dup_strs(v: &Vec<String>) -> (r: Vec<String>)
    ensures
        strs(r@) == strs(v@),
{
    let mut r: Vec<String> = Vec::new();
    let mut i: usize = 0;
    while i < v.len()
        invariant
            i <= v@.len(),
            strs(r@) == strs(v@).take(i as int),
        decreases v@.len() - i,
    {
        let ghost pre = strs(r@);
        r.push(v[i].clone());
        assert(strs(r@) =~= pre.push(v@[i as int]@));
        assert(strs(v@).take(i + 1) =~= strs(v@).take(i as int).push(v@[i as int]@));
        i = i + 1;
    }
    assert(strs(v@).take(v@.len() as int) =~= strs(v@));
    r
}

/// Extra fields a result may carry.
#[derive(Debug, Clone)]
pub struct ResultMetadata {
    pub thumbnail: Option<String>,
    pub img_src: Option<String>,
    pub template: Option<String>,
    pub author: Option<String>,
    pub published_date: Option<String>,
    pub file_type: Option<String>,
    pub file_size: Option<String>,
    pub duration: Option<String>,
    pub views: Option<u64>,
    pub iframe_src: Option<String>,
    pub audio_src: Option<String>,
    pub is_official: bool,
}

pub struct MetadataModel {
    pub thumbnail: Option<Seq<char>>,
    pub img_src: Option<Seq<char>>,
    pub template: Option<Seq<char>>,
    pub author: Option<Seq<char>>,
    pub published_date: Option<Seq<char>>,
    pub file_type: Option<Seq<char>>,
    pub file_size: Option<Seq<char>>,
    pub duration: Option<Seq<char>>,
    pub views: Option<u64>,
    pub iframe_src: Option<Seq<char>>,
    pub audio_src: Option<Seq<char>>,
    pub is_official: bool,
}

pub open spec fn empty_metadata() -> MetadataModel {
    MetadataModel {
        thumbnail: None,
        img_src: None,
        template: None,
        author: None,
        published_date: None,
        file_type: None,
        file_size: None,
        duration: None,
        views: None,
        iframe_src: None,
        audio_src: None,
        is_official: false,
    }
}

impl ResultMetadata {
    pub open spec fn model(&self) -> MetadataModel {
        MetadataModel {
            thumbnail: opt_str(self.thumbnail),
            img_src: opt_str(self.img_src),
            template: opt_str(self.template),
            author: opt_str(self.author),
            published_date: opt_str(self.published_date),
            file_type: opt_str(self.file_type),
            file_size: opt_str(self.file_size),
            duration: opt_str(self.duration),
            views: self.views,
            iframe_src: opt_str(self.iframe_src),
            audio_src: opt_str(self.audio_src),
            is_official: self.is_official,
        }
    }

    pub fn duplicate(&self) -> (r: ResultMetadata)
        ensures
            r.model() == self.model(),
    {
        ResultMetadata {
            thumbnail: dup_opt(&self.thumbnail),
            img_src: dup_opt(&self.img_src),
            template: dup_opt(&self.template),
            author: dup_opt(&self.author),
            published_date: dup_opt(&self.published_date),
            file_type: dup_opt(&self.file_type),
            file_size: dup_opt(&self.file_size),
            duration: dup_opt(&self.duration),
            views: self.views,
            iframe_src: dup_opt(&self.iframe_src),
            audio_src: dup_opt(&self.audio_src),
            is_official: self.is_official,
        }
    }
}

impl Default for ResultMetadata {
    fn default() -> (r: ResultMetadata)
        ensures
            r.model() == empty_metadata(),
    {
        ResultMetadata {
            thumbnail: None,
            img_src: None,
            template: None,
            author: None,
            published_date: None,
            file_type: None,
            file_size: None,
            duration: None,
            views: None,
            iframe_src: None,
            audio_src: None,
            is_official: false,
        }
    }
}

/// Kind of result.
#[derive(Debug, Clone, Copy, PartialEq, Eq, Structural)]
pub enum ResultType {
    Default,
    Image,
    Video,
    Maps,
    News,
    Paper,
    File,
    Code,
    Answer,
    InfoBox,
}

impl Default for ResultType {
    fn default() -> (r: ResultType)
        ensures
            r == ResultType::Default,
    {
        ResultType::Default
    }
}

/// A single search hit.
#[derive(Debug, Clone)]
pub struct Result {
    pub url: String,
    pub title: String,
    pub content: Option<String>,
    /// Engine that produced this record.
    pub engine: String,
    /// Every engine that returned this result, without repetition.
    pub engines: Vec<String>,
    /// 1-based ranks at which the engines returned it.
    pub positions: Vec<u32>,
    /// Relevance score in millionths (1.0 is 1_000_000).
    pub score: u64,
    pub category: Option<String>,
    pub metadata: ResultMetadata,
    pub result_type: ResultType,
}

pub struct ResultModel {
    pub url: Seq<char>,
    pub title: Seq<char>,
    pub content: Option<Seq<char>>,
    pub engine: Seq<char>,
    pub engines: Seq<Seq<char>>,
    pub positions: Seq<u32>,
    pub score: u64,
    pub category: Option<Seq<char>>,
    pub metadata: MetadataModel,
    pub result_type: ResultType,
}

/// `es` with `e` added unless already present.
pub open spec fn add_engine(es: Seq<Seq<char>>, e: Seq<char>) -> Seq<Seq<char>> {
    if es.contains(e) {
        es
    } else {
        es.push(e)
    }
}

/// `a` followed by the elements of `b` that are new, in order.
pub open spec fn union_engines(a: Seq<Seq<char>>, b: Seq<Seq<char>>) -> Seq<Seq<char>>
    decreases b.len(),
{
    if b.len() == 0 {
        a
    } else {
        add_engine(union_engines(a, b.drop_last()), b.last())
    }
}

/// The record `a` after absorbing `b`: engines united, positions appended,
/// content adopted only when `a` has none; every other field stays `a`'s.
pub open spec fn merge_model(a: ResultModel, b: ResultModel) -> ResultModel {
    ResultModel {
        engines: union_engines(a.engines, b.engines),
        positions: a.positions + b.positions,
        content: if a.content is None { b.content } else { a.content },
        ..a
    }
}

/// Appends `e` unless an equal string is already present.
pub fn insert_distinct(v: &mut Vec<String>, e: &String)
    ensures
        strs(final(v)@) == add_engine(strs(old(v)@), e@),
{
    let mut i: usize = 0;
    while i < v.len()
        invariant
            i <= v@.len(),
            forall|j: int| 0 <= j < i ==> v@[j]@ != e@,
        decreases v@.len() - i,
    {
        if v[i] == *e {
            assert(strs(v@)[i as int] == e@);
            return;
        }
        i = i + 1;
    }
    assert(!strs(v@).contains(e@)) by {
        if strs(v@).contains(e@) {
            let j = choose|j: int| 0 <= j < strs(v@).len() && strs(v@)[j] == e@;
            assert(v@[j]@ == e@);
        }
    }
    let ghost pre = strs(v@);
    v.push(e.clone());
    assert(strs(v@) =~= pre.push(e@));
}

impl Result {
    pub open spec fn model(&self) -> ResultModel {
        ResultModel {
            url: self.url@,
            title: self.title@,
            content: opt_str(self.content),
            engine: self.engine@,
            engines: strs(self.engines@),
            positions: self.positions@,
            score: self.score,
            category: opt_str(self.category),
            metadata: self.metadata.model(),
            result_type: self.result_type,
        }
    }

    /// A result from one engine, with no position yet.
    pub fn new(url: String, title: String, engine: String) -> (r: Result)
        ensures
            r.model() == (ResultModel {
                url: url@,
                title: title@,
                content: None,
                engine: engine@,
                engines: seq![engine@],
                positions: seq![],
                score: 0,
                category: None,
                metadata: empty_metadata(),
                result_type: ResultType::Default,
            }),
    {
        let mut engines: Vec<String> = Vec::new();
        engines.push(engine.clone());
        assert(strs(engines@) =~= seq![engine@]);
        Result {
            url,
            title,
            content: None,
            engine,
            engines,
            positions: Vec::new(),
            score: 0,
            category: None,
            metadata: ResultMetadata::default(),
            result_type: ResultType::Default,
        }
    }

    pub fn with_content(self, content: String) -> (r: Result)
        ensures
            r.model() == (ResultModel { content: Some(content@), ..self.model() }),
    {
        let mut r = self;
        r.content = Some(content);
        r
    }

    pub fn with_position(self, position: u32) -> (r: Result)
        ensures
            r.model() == (ResultModel { positions: self.positions@.push(position), ..self.model() }),
    {
        let mut r = self;
        r.positions.push(position);
        r
    }

    /// Absorbs `other` into this record.
    pub fn merge(&mut self, other: &Result)
        ensures
            final(self).model() == merge_model(old(self).model(), other.model()),
    {
        let mut i: usize = 0;
        while i < other.engines.len()
            invariant
                i <= other.engines@.len(),
                strs(self.engines@) == union_engines(
                    strs(old(self).engines@),
                    strs(other.engines@).take(i as int),
                ),
                self.model() == (ResultModel { engines: strs(self.engines@), ..old(self).model() }),
            decreases other.engines@.len() - i,
        {
            assert(strs(other.engines@).take(i + 1).drop_last() =~= strs(other.engines@).take(i as int));
            insert_distinct(&mut self.engines, &other.engines[i]);
            i = i + 1;
        }
        assert(strs(other.engines@).take(other.engines@.len() as int) =~= strs(other.engines@));
        let mut j: usize = 0;
        let ghost before = self.positions@;
        while j < other.positions.len()
            invariant
                j <= other.positions@.len(),
                self.positions@ == before + other.positions@.take(j as int),
                self.model() == (ResultModel {
                    engines: union_engines(strs(old(self).engines@), strs(other.engines@)),
                    positions: self.positions@,
                    ..old(self).model()
                }),
                before == old(self).positions@,
            decreases other.positions@.len() - j,
        {
            self.positions.push(other.positions[j]);
            assert(other.positions@.take(j + 1) =~= other.positions@.take(j as int).push(other.positions@[j as int]));
            j = j + 1;
        }
        assert(other.positions@.take(other.positions@.len() as int) =~= other.positions@);
        if self.content.is_none() {
            self.content = dup_opt(&other.content);
        }
    }

    /// The host of the result's URL, when it is a URL with a host.
    pub fn hostname(&self) -> (r: Option<String>)
        ensures
            opt_str(r) == crate::plugins::url_host_of(self.url@),
    {
        crate::plugins::url_host(self.url.as_str())
    }

    /// A copy of this record.
    pub fn duplicate(&self) -> (r: Result)
        ensures
            r.model() == self.model(),
    {
        let mut positions: Vec<u32> = Vec::new();
        let mut j: usize = 0;
        while j < self.positions.len()
            invariant
                j <= self.positions@.len(),
                positions@ == self.positions@.take(j as int),
            decreases self.positions@.len() - j,
        {
            positions.push(self.positions[j]);
            assert(self.positions@.take(j + 1) =~= self.positions@.take(j as int).push(self.positions@[j as int]));
            j = j + 1;
        }
        assert(self.positions@.take(self.positions@.len() as int) =~= self.positions@);
        Result {
            url: self.url.clone(),
            title: self.title.clone(),
            content: dup_opt(&self.content),
            engine: self.engine.clone(),
            engines: dup_strs(&self.engines),
            positions,
            score: self.score,
            category: dup_opt(&self.category),
            metadata: self.metadata.duplicate(),
            result_type: self.result_type,
        }
    }
}

/// A direct answer (calculator, definition, ...).
#[derive(Debug, Clone)]
pub struct Answer {
    pub answer: String,
    pub engine: String,
    pub url: Option<String>,
}

impl Answer {
    pub fn new(answer: String, engine: String) -> (r: Answer)
        ensures
            r.answer@ == answer@,
            r.engine@ == engine@,
            r.url is None,
    {
        Answer { answer, engine, url: None }
    }
}

/// A related search proposed by an engine.
#[derive(Debug, Clone)]
pub struct Suggestion {
    pub text: String,
    pub engine: String,
}

/// A spelling correction proposed by an engine.
#[derive(Debug, Clone)]
pub struct Correction {
    pub text: String,
    pub engine: String,
}

/// A structured side panel.
#[derive(Debug, Clone)]
pub struct InfoBox {
    pub id: String,
    pub title: String,
    pub content: Option<String>,
    pub img_src: Option<String>,
    pub url: Option<String>,
    pub engine: String,
    pub attributes: Vec<(String, String)>,
    pub urls: Vec<(String, String)>,
}

/// How long an engine took and how many results it gave.
#[derive(Debug, Clone)]
pub struct Timing {
    pub engine: String,
    pub time_ms: u64,
    pub result_count: usize,
}

/// Why an engine contributed nothing.
#[derive(Debug, Clone, Copy, PartialEq, Eq, Structural)]
pub enum EngineError {
    Timeout,
    NetworkError,
    HttpError(u16),
    ParseError,
    AccessDenied,
    Captcha,
    TooManyRequests,
    ServerError,
    Suspended,
    Unknown,
}

impl EngineError {
    pub open spec fn message(self) -> Seq<char> {
        match self {
            EngineError::Timeout => "Request timed out"@,
            EngineError::NetworkError => "Network error"@,
            EngineError::HttpError(code) => "HTTP error: "@ + crate::engines::dec_str(code as nat),
            EngineError::ParseError => "Failed to parse response"@,
            EngineError::AccessDenied => "Access denied"@,
            EngineError::Captcha => "CAPTCHA required"@,
            EngineError::TooManyRequests => "Too many requests"@,
            EngineError::ServerError => "Server error"@,
            EngineError::Suspended => "Engine suspended"@,
            EngineError::Unknown => "Unknown error"@,
        }
    }

    /// The human-readable description of the error.
    pub fn to_string(&self) -> (r: String)
        ensures
            r@ == self.message(),
    {
        match self {
            EngineError::Timeout => String::from_str("Request timed out"),
            EngineError::NetworkError => String::from_str("Network error"),
            EngineError::HttpError(code) => {
                let mut m = String::from_str("HTTP error: ");
                let digits = crate::engines::decimal_string(*code as u64);
                m.append(digits.as_str());
                m
            },
            EngineError::ParseError => String::from_str("Failed to parse response"),
            EngineError::AccessDenied => String::from_str("Access denied"),
            EngineError::Captcha => String::from_str("CAPTCHA required"),
            EngineError::TooManyRequests => String::from_str("Too many requests"),
            EngineError::ServerError => String::from_str("Server error"),
            EngineError::Suspended => String::from_str("Engine suspended"),
            EngineError::Unknown => String::from_str("Unknown error"),
        }
    }
}

/// An engine that failed, with the reason.
#[derive(Debug, Clone)]
pub struct UnresponsiveEngine {
    pub name: String,
    pub error: EngineError,
}

} // verus!
