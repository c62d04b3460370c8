//! Built-in plugins: tracker parameter removal, hash digests, and the
//! calculator's trigger.

use vstd::prelude::*;
use vstd::string::*;
use crate::container::{lowercase, lowercase_of};
use crate::query::opt_str;
use crate::results::{Answer, Result, ResultModel};
use crate::search::SearchQuery;
use crate::text::{chars_of, has_prefix, is_whitespace, is_ws, str_eq, string_of, sub_chars, starts_with_lit};

verus! {

/// A plugin's description for the preferences page.
#[derive(Debug, Clone)]
pub struct PluginInfo {
    pub id: String,
    pub name: String,
    pub description: String,
    pub default_on: bool,
}

fn plugin_info(id: &str, name: &str, description: &str) -> (r: PluginInfo)
    ensures
        r.id@ == id@,
        r.name@ == name@,
        r.description@ == description@,
        r.default_on,
{
    PluginInfo {
        id: String::from_str(id),
        name: String::from_str(name),
        description: String::from_str(description),
        default_on: true,
    }
}

/// What a pre-search hook decides.
#[derive(Debug, Clone)]
pub enum PreSearchResult {
    /// Go on with the search.
    Continue,
    /// Skip the search; this answer is the response.
    Answer(Answer),
    /// Skip the search; return an empty container.
    Skip,
    /// Go on with this query text instead.
    ModifyQuery(String),
}

/// Index of the first verdict that is not `Continue`.
pub open spec fn first_decision(vs: Seq<PreSearchResult>) -> Option<int>
    decreases vs.len(),
{
    if vs.len() == 0 {
        None
    } else {
        match first_decision(vs.drop_last()) {
            Some(i) => Some(i),
            None => if vs.last() is Continue {
                None
            } else {
                Some(vs.len() - 1)
            },
        }
    }
}

/// The pipeline's verdict from the plugins' verdicts in registration order:
/// the first one other than `Continue`, or `Continue` when there is none.
pub fn decide_pre_search(verdicts: Vec<PreSearchResult>) -> (r: PreSearchResult)
    ensures
        match first_decision(verdicts@) {
            Some(i) => r == verdicts@[i],
            None => r is Continue,
        },
{
    let mut i: usize = 0;
    while i < verdicts.len()
        invariant
            i <= verdicts@.len(),
            first_decision(verdicts@.take(i as int)) is None,
        decreases verdicts@.len() - i,
    {
        assert(verdicts@.take(i + 1).drop_last() =~= verdicts@.take(i as int));
        if !matches!(verdicts[i], PreSearchResult::Continue) {
            proof {
                lemma_first_decision_prefix(verdicts@, i as int + 1);
            }
            let mut v = verdicts;
            return v.remove(i);
        }
        i = i + 1;
    }
    assert(verdicts@.take(verdicts@.len() as int) =~= verdicts@);
    PreSearchResult::Continue
}

proof fn lemma_first_decision_prefix(vs: Seq<PreSearchResult>, n: int)
    requires
        0 < n <= vs.len(),
        first_decision(vs.take(n)) is Some,
    ensures
        first_decision(vs) == first_decision(vs.take(n)),
    decreases vs.len(),
{
    if n < vs.len() {
        assert(vs.drop_last().take(n) =~= vs.take(n));
        lemma_first_decision_prefix(vs.drop_last(), n);
    } else {
        assert(vs.take(n) =~= vs);
    }
}

/// Whether `url::Url::parse` accepts a string.
pub uninterp spec fn url_parses(s: Seq<char>) -> bool;

/// The decoded query pairs that `url::Url::query_pairs` gives for a URL string.
pub uninterp spec fn url_pairs(s: Seq<char>) -> Seq<(Seq<char>, Seq<char>)>;

/// The URL string after `url::Url::set_query(None)` removed its query.
pub uninterp spec fn url_without_query(s: Seq<char>) -> Seq<char>;

pub open spec fn pair_views(v: Seq<(String, String)>) -> Seq<(Seq<char>, Seq<char>)> {
    v.map_values(|p: (String, String)| (p.0@, p.1@))
}

/// Relies on `url::Url::parse` and `url::Url::query_pairs`: `None` when the
/// string is not a URL, else its decoded query pairs in order.
#[verifier::external_body]
fn parse_query_pairs(s: &str) -> (r: Option<Vec<(String, String)>>)
    ensures
        r is Some == url_parses(s@),
        r matches Some(v) ==> pair_views(v@) == url_pairs(s@),
{
    match url::Url::parse(s) {
        Ok(u) => Some(u.query_pairs().map(|(k, v)| (k.into_owned(), v.into_owned())).collect()),
        Err(_) => None,
    }
}

/// The URL string after `url::Url::query_pairs_mut` replaced its query with the given pairs.
pub uninterp spec fn url_with_pairs(s: Seq<char>, ps: Seq<(Seq<char>, Seq<char>)>) -> Seq<char>;

/// Relies on `url::Url::parse`, `url::Url::set_query(None)` and the URL's
/// string form: the query is removed, so `Url::query_pairs` (which reads a
/// missing query as empty) finds no pair, and the string parses again.
#[verifier::external_body]
fn drop_query(s: &str) -> (r: String)
    requires
        url_parses(s@),
    ensures
        r@ == url_without_query(s@),
        url_parses(r@),
        url_pairs(r@) == Seq::<(Seq<char>, Seq<char>)>::empty(),
{
    let mut u = url::Url::parse(s).unwrap();
    u.set_query(None);
    u.as_str().to_string()
}

/// Relies on `url::Url::parse`, `url::Url::query_pairs_mut` (`clear` then
/// `extend_pairs`) and the URL's string form: the query becomes the pairs in
/// `application/x-www-form-urlencoded` form, where `form_urlencoded` escapes
/// `&`, `=`, `+`, `%` and every other unsafe byte, so `Url::query_pairs`
/// decodes the same pairs back, and the string parses again.
#[verifier::external_body]
fn replace_query_pairs(s: &str, pairs: &Vec<(String, String)>) -> (r: String)
    requires
        url_parses(s@),
    ensures
        r@ == url_with_pairs(s@, pair_views(pairs@)),
        url_parses(r@),
        url_pairs(r@) == pair_views(pairs@),
{
    let mut u = url::Url::parse(s).unwrap();
    u.query_pairs_mut().clear().extend_pairs(pairs.iter());
    u.as_str().to_string()
}

/// The host that `url::Url::host_str` gives for a URL string, if it parses and has one.
pub uninterp spec fn url_host_of(s: Seq<char>) -> Option<Seq<char>>;

/// Relies on `url::Url::parse` and `url::Url::host_str`: `None` when the
/// string is not a URL or the URL has no host.
#[verifier::external_body]
pub(crate) fn url_host(s: &str) -> (r: Option<String>)
    ensures
        opt_str(r) == url_host_of(s@),
        r is Some ==> url_parses(s@),
{
    url::Url::parse(s).ok().and_then(|u| u.host_str().map(|h| h.to_string()))
}

/// No line feed (what `.` in a pattern does not match).
pub open spec fn single_line(n: Seq<char>) -> bool {
    forall|i: int| 0 <= i < n.len() ==> n[i] != '\n'
}

/// A query parameter name that tracks the visitor: one of a fixed list, or
/// a single-line name starting with `utm_` or `_ga`.
pub open spec fn is_tracking(n: Seq<char>) -> bool {
    ||| (n == "utm_source"@
        || n == "utm_medium"@
        || n == "utm_campaign"@
        || n == "utm_term"@
        || n == "utm_content"@
        || n == "gclid"@
        || n == "gclsrc"@
        || n == "fbclid"@
        || n == "fb_action_ids"@
        || n == "fb_action_types"@
        || n == "fb_source"@
        || n == "fb_ref"@
        || n == "msclkid"@
        || n == "twclid"@
        || n == "mc_eid"@
        || n == "mc_cid"@
        || n == "_hsenc"@
        || n == "_hsmi"@
        || n == "__hstc"@
        || n == "__hsfp"@
        || n == "hsCtaTracking"@
        || n == "s_kwcid"@
        || n == "ref"@
        || n == "ref_"@
        || n == "source"@
        || n == "click_id"@
        || n == "campaign_id"@
        || n == "ad_id"@)
    ||| (has_prefix(n, "utm_"@) && single_line(n))
    ||| (has_prefix(n, "_ga"@) && single_line(n))
}

/// Keeps the pairs whose name is not a tracker, in order.
pub open spec fn kept_pairs(ps: Seq<(Seq<char>, Seq<char>)>) -> Seq<(Seq<char>, Seq<char>)>
    decreases ps.len(),
{
    if ps.len() == 0 {
        seq![]
    } else if is_tracking(ps.last().0) {
        kept_pairs(ps.drop_last())
    } else {
        kept_pairs(ps.drop_last()).push(ps.last())
    }
}

/// A URL without its tracking parameters: the remaining pairs are written
/// back form-encoded in their order, and the query is dropped when none is
/// left. A string that is not a URL is kept.
pub open spec fn cleaned_url(u: Seq<char>) -> Seq<char> {
    if url_parses(u) {
        if kept_pairs(url_pairs(u)).len() == 0 {
            url_without_query(u)
        } else {
            url_with_pairs(u, kept_pairs(url_pairs(u)))
        }
    } else {
        u
    }
}

fn no_line_feed(name: &str) -> (r: bool)
    ensures
        r == single_line(name@),
{
    let cs = chars_of(name);
    let mut i: usize = 0;
    while i < cs.len()
        invariant
            i <= cs@.len(),
            cs@ == name@,
            forall|j: int| 0 <= j < i ==> cs@[j] != '\n',
        decreases cs@.len() - i,
    {
        if cs[i] == '\n' {
            return false;
        }
        i = i + 1;
    }
    true
}

/// A tracker removal plugin (runs on every result).
pub struct TrackerRemoverPlugin;

impl TrackerRemoverPlugin {
    pub fn new() -> (r: TrackerRemoverPlugin) {
        TrackerRemoverPlugin
    }

    pub fn info(&self) -> (r: PluginInfo)
        ensures
            r.id@ == "tracker_url_remover"@,
            r.default_on,
    {
        plugin_info("tracker_url_remover", "Tracker URL Remover", "Remove tracking parameters from result URLs")
    }

    /// The parameter name is a tracker.
    pub fn is_tracking_param(&self, name: &str) -> (r: bool)
        ensures
            r == is_tracking(name@),
    {
        if str_eq(name, "utm_source")
        || str_eq(name, "utm_medium")
        || str_eq(name, "utm_campaign")
        || str_eq(name, "utm_term")
        || str_eq(name, "utm_content")
        || str_eq(name, "gclid")
        || str_eq(name, "gclsrc")
        || str_eq(name, "fbclid")
        || str_eq(name, "fb_action_ids")
        || str_eq(name, "fb_action_types")
        || str_eq(name, "fb_source")
        || str_eq(name, "fb_ref")
        || str_eq(name, "msclkid")
        || str_eq(name, "twclid")
        || str_eq(name, "mc_eid")
        || str_eq(name, "mc_cid")
        || str_eq(name, "_hsenc")
        || str_eq(name, "_hsmi")
        || str_eq(name, "__hstc")
        || str_eq(name, "__hsfp")
        || str_eq(name, "hsCtaTracking")
        || str_eq(name, "s_kwcid")
        || str_eq(name, "ref")
        || str_eq(name, "ref_")
        || str_eq(name, "source")
        || str_eq(name, "click_id")
        || str_eq(name, "campaign_id")
        || str_eq(name, "ad_id") {
            return true;
        }
        let cs = chars_of(name);
        assert(cs@.skip(0) =~= cs@);
        (starts_with_lit(&cs, 0, "utm_") || starts_with_lit(&cs, 0, "_ga")) && no_line_feed(name)
    }

    /// The decoded pairs that are not trackers, in order.
    pub fn strip_tracking_pairs(&self, pairs: &Vec<(String, String)>) -> (r: Vec<(String, String)>)
        ensures
            pair_views(r@) == kept_pairs(pair_views(pairs@)),
    {
        let ghost ps = pair_views(pairs@);
        let mut out: Vec<(String, String)> = Vec::new();
        let mut i: usize = 0;
        while i < pairs.len()
            invariant
                i <= pairs@.len(),
                ps == pair_views(pairs@),
                pair_views(out@) == kept_pairs(ps.take(i as int)),
            decreases pairs@.len() - i,
        {
            assert(ps.take(i + 1).drop_last() =~= ps.take(i as int));
            assert(ps.take(i + 1).last() == ps[i as int]);
            let k = &pairs[i].0;
            let v = &pairs[i].1;
            if !self.is_tracking_param(k.as_str()) {
                let ghost pre = pair_views(out@);
                out.push((k.clone(), v.clone()));
                assert(pair_views(out@) =~= pre.push((k@, v@)));
            }
            i = i + 1;
        }
        assert(ps.take(ps.len() as int) =~= ps);
        out
    }

    /// The URL with its tracking parameters removed. A URL comes back as a
    /// URL whose decoded query pairs are its own minus the trackers, in order.
    pub fn clean_url(&self, url: &str) -> (r: String)
        ensures
            r@ == cleaned_url(url@),
            url_parses(url@) ==> url_parses(r@) && url_pairs(r@) == kept_pairs(url_pairs(url@)),
    {
        match parse_query_pairs(url) {
            Some(pairs) => {
                let kept = self.strip_tracking_pairs(&pairs);
                if kept.len() == 0 {
                    drop_query(url)
                } else {
                    replace_query_pairs(url, &kept)
                }
            },
            None => String::from_str(url),
        }
    }

    /// Rewrites the result's URL without trackers; never drops the result.
    pub fn on_result(&self, query: &SearchQuery, result: &mut Result) -> (r: bool)
        ensures
            r,
            final(result).model() == (ResultModel { url: cleaned_url(old(result).url@), ..old(result).model() }),
    {
        let cleaned = self.clean_url(result.url.as_str());
        result.url = cleaned;
        true
    }
}

/// Appends the characters of `w` to `out`.
pub fn append_chars(out: &mut Vec<char>, w: &Vec<char>)
    ensures
        final(out)@ == old(out)@ + w@,
{
    let mut j: usize = 0;
    while j < w.len()
        invariant
            j <= w@.len(),
            out@ == old(out)@ + w@.take(j as int),
        decreases w@.len() - j,
    {
        out.push(w[j]);
        assert(w@.take(j + 1) =~= w@.take(j as int).push(w@[j as int]));
        j = j + 1;
    }
    assert(w@.take(w@.len() as int) =~= w@);
}


/// Leading whitespace dropped.
pub open spec fn trim_start(s: Seq<char>) -> Seq<char>
    decreases s.len(),
{
    if s.len() > 0 && is_ws(s[0]) {
        trim_start(s.drop_first())
    } else {
        s
    }
}

/// Trailing whitespace dropped.
pub open spec fn trim_end(s: Seq<char>) -> Seq<char>
    decreases s.len(),
{
    if s.len() > 0 && is_ws(s.last()) {
        trim_end(s.drop_last())
    } else {
        s
    }
}

pub open spec fn trim(s: Seq<char>) -> Seq<char> {
    trim_end(trim_start(s))
}

/// `s` without leading and trailing whitespace.
pub fn trim_chars(s: &Vec<char>) -> (r: Vec<char>)
    ensures
        r@ == trim(s@),
{
    let n = s.len();
    let mut lo: usize = 0;
    assert(s@.skip(0) =~= s@);
    while lo < n && is_whitespace(s[lo])
        invariant
            lo <= n == s@.len(),
            trim_start(s@) == trim_start(s@.skip(lo as int)),
        decreases n - lo,
    {
        assert(s@.skip(lo as int).drop_first() =~= s@.skip(lo + 1));
        lo = lo + 1;
    }
    let ghost st = s@.skip(lo as int);
    assert(trim_start(st) == st);
    let mut hi: usize = n;
    assert(s@.subrange(lo as int, n as int) =~= st);
    while hi > lo && is_whitespace(s[hi - 1])
        invariant
            lo <= hi <= n == s@.len(),
            trim_end(st) == trim_end(s@.subrange(lo as int, hi as int)),
        decreases hi,
    {
        assert(s@.subrange(lo as int, hi as int).drop_last() =~= s@.subrange(lo as int, hi - 1));
        hi = hi - 1;
    }
    sub_chars(s, lo, hi)
}

/// Index of the first whitespace character of `s`, from `i`.
pub open spec fn first_ws_from(s: Seq<char>, i: int) -> Option<int>
    decreases s.len() - i,
{
    if i < 0 || i >= s.len() {
        None
    } else if is_ws(s[i]) {
        Some(i)
    } else {
        first_ws_from(s, i + 1)
    }
}

/// What `md5::compute` gives for the UTF-8 bytes of a string, as lowercase hex.
pub uninterp spec fn md5_hex(s: Seq<char>) -> Seq<char>;

/// What SHA-256 (`sha2::Sha256`) gives for the UTF-8 bytes of a string, as lowercase hex.
pub uninterp spec fn sha256_hex(s: Seq<char>) -> Seq<char>;

/// What SHA-512 (`sha2::Sha512`) gives for the UTF-8 bytes of a string, as lowercase hex.
pub uninterp spec fn sha512_hex(s: Seq<char>) -> Seq<char>;

/// Relies on `md5::compute` and its `LowerHex` form.
#[verifier::external_body]
fn md5_digest(s: &str) -> (r: String)
    ensures
        r@ == md5_hex(s@),
{
    format!("{:x}", md5::compute(s.as_bytes()))
}

/// Relies on `sha2::Sha256::digest` and the `LowerHex` form of its output.
#[verifier::external_body]
fn sha256_digest(s: &str) -> (r: String)
    ensures
        r@ == sha256_hex(s@),
{
    format!("{:x}", <sha2::Sha256 as sha2::Digest>::digest(s.as_bytes()))
}

/// Relies on `sha2::Sha512::digest` and the `LowerHex` form of its output.
#[verifier::external_body]
fn sha512_digest(s: &str) -> (r: String)
    ensures
        r@ == sha512_hex(s@),
{
    format!("{:x}", <sha2::Sha512 as sha2::Digest>::digest(s.as_bytes()))
}

/// The label of each supported (lowercase) algorithm name.
pub open spec fn hash_label(a: Seq<char>) -> Option<Seq<char>> {
    if a == "md5"@ {
        Some("MD5"@)
    } else if a == "sha256"@ {
        Some("SHA256"@)
    } else if a == "sha-256"@ {
        Some("SHA-256"@)
    } else if a == "sha512"@ {
        Some("SHA512"@)
    } else if a == "sha-512"@ {
        Some("SHA-512"@)
    } else {
        None
    }
}

/// The digest of `input` under the (lowercase) algorithm name `a`.
pub open spec fn digest_of(a: Seq<char>, input: Seq<char>) -> Option<Seq<char>> {
    if a == "md5"@ {
        Some(md5_hex(input))
    } else if a == "sha256"@ || a == "sha-256"@ {
        Some(sha256_hex(input))
    } else if a == "sha512"@ || a == "sha-512"@ {
        Some(sha512_hex(input))
    } else {
        None
    }
}

pub open spec fn hash_text(label: Seq<char>, input: Seq<char>, digest: Seq<char>) -> Seq<char> {
    label + " hash of \""@ + input + "\": "@ + digest
}

/// The answer a hash query gets: `None` unless the trimmed query is an
/// algorithm name, whitespace, and a non-empty input.
pub open spec fn hash_reply(q: Seq<char>) -> Option<Seq<char>> {
    let t = trim(q);
    match first_ws_from(t, 0) {
        Some(k) => {
            let a = lowercase_of(t.take(k));
            let input = trim(t.skip(k + 1));
            if input.len() > 0 && hash_label(a) is Some {
                Some(hash_text(hash_label(a).unwrap(), input, digest_of(a, input).unwrap()))
            } else {
                None
            }
        },
        None => None,
    }
}

/// The answer of the hash plugin, from its parts.
pub fn digest_answer(label: &str, input: &str, digest: &str) -> (r: Answer)
    ensures
        r.answer@ == hash_text(label@, input@, digest@),
        r.engine@ == "hash_plugin"@,
        r.url is None,
{
    let mut text = String::from_str(label);
    text.append(" hash of \"");
    text.append(input);
    text.append("\": ");
    text.append(digest);
    Answer::new(text, String::from_str("hash_plugin"))
}

/// Generates MD5, SHA-256 and SHA-512 digests.
pub struct HashPlugin;

impl HashPlugin {
    pub fn new() -> (r: HashPlugin) {
        HashPlugin
    }

    pub fn info(&self) -> (r: PluginInfo)
        ensures
            r.id@ == "hash_plugin"@,
            r.default_on,
    {
        plugin_info("hash_plugin", "Hash Generator", "Generate MD5, SHA-256, SHA-512 hashes")
    }

    /// The hex digest of `input` under an algorithm name (any case).
    pub fn compute_hash(&self, algorithm: &str, input: &str) -> (r: Option<String>)
        ensures
            opt_str(r) == digest_of(lowercase_of(algorithm@), input@),
    {
        let a = lowercase(algorithm);
        let al = a.as_str();
        if str_eq(al, "md5") {
            Some(md5_digest(input))
        } else if str_eq(al, "sha256") || str_eq(al, "sha-256") {
            Some(sha256_digest(input))
        } else if str_eq(al, "sha512") || str_eq(al, "sha-512") {
            Some(sha512_digest(input))
        } else {
            None
        }
    }

    /// Answers `<algorithm> <input>` with the input's digest.
    pub fn process(&self, query: &str) -> (r: Option<Answer>)
        ensures
            match hash_reply(query@) {
                Some(text) => r matches Some(a) && a.answer@ == text && a.engine@ == "hash_plugin"@,
                None => r is None,
            },
    {
        let qc = chars_of(query);
        let t = trim_chars(&qc);
        let mut k: usize = 0;
        while k < t.len() && !is_whitespace(t[k])
            invariant
                k <= t@.len(),
                first_ws_from(t@, 0) == first_ws_from(t@, k as int),
            decreases t@.len() - k,
        {
            k = k + 1;
        }
        if k == t.len() {
            return None;
        }
        let alg = string_of(&sub_chars(&t, 0, k));
        assert(t@.subrange(0, k as int) =~= t@.take(k as int));
        let rest = sub_chars(&t, k + 1, t.len());
        assert(t@.subrange(k + 1, t@.len() as int) =~= t@.skip(k + 1));
        let input_chars = trim_chars(&rest);
        if input_chars.len() == 0 {
            return None;
        }
        let input = string_of(&input_chars);
        let a = lowercase(alg.as_str());
        let al = a.as_str();
        let label = if str_eq(al, "md5") {
            "MD5"
        } else if str_eq(al, "sha256") {
            "SHA256"
        } else if str_eq(al, "sha-256") {
            "SHA-256"
        } else if str_eq(al, "sha512") {
            "SHA512"
        } else if str_eq(al, "sha-512") {
            "SHA-512"
        } else {
            return None;
        };
        match self.compute_hash(alg.as_str(), input.as_str()) {
            Some(d) => Some(digest_answer(label, input.as_str(), d.as_str())),
            None => None,
        }
    }
}

/// The characters `char::is_numeric` accepts.
pub uninterp spec fn numeric_char(c: char) -> bool;

/// Relies on `char::is_numeric` (Unicode numeric categories, ASCII digits among them).
#[verifier::external_body]
fn is_numeric(c: char) -> (r: bool)
    ensures
        r == numeric_char(c),
        '0' <= c <= '9' ==> r,
{
    c.is_numeric()
}

pub open spec fn is_op(c: char) -> bool {
    c == '+' || c == '-' || c == '*' || c == '/' || c == '^'
}

pub open spec fn calc_char(c: char) -> bool {
    numeric_char(c) || is_op(c) || c == '(' || c == ')' || c == '.' || c == ' '
}

/// The calculator takes queries starting with `=`, `calc ` or `calculate `,
/// and arithmetic made of digits, operators, parentheses, dots and spaces
/// with at least one operator.
pub open spec fn calc_trigger(q: Seq<char>) -> bool {
    let t = trim(q);
    ||| has_prefix(t, "="@)
    ||| has_prefix(t, "calc "@)
    ||| has_prefix(t, "calculate "@)
    ||| ((forall|i: int| 0 <= i < t.len() ==> calc_char(#[trigger] t[i])) && exists|i: int|
        0 <= i < t.len() && is_op(#[trigger] t[i]))
}

/// Index of the last `c` in `s`.
pub open spec fn last_index(s: Seq<char>, c: char) -> Option<int>
    decreases s.len(),
{
    if s.len() == 0 {
        None
    } else if s.last() == c {
        Some(s.len() - 1)
    } else {
        last_index(s.drop_last(), c)
    }
}

/// Whether a `-` is a binary operator: its last occurrence is neither first
/// nor right after another operator or `(`; any other character is an operator.
pub open spec fn operator_at(s: Seq<char>, c: char) -> bool {
    if c != '-' {
        true
    } else {
        match last_index(s, '-') {
            Some(p) => p > 0 && !(is_op(s[p - 1]) || s[p - 1] == '('),
            None => false,
        }
    }
}

pub fn pos_is_operator(expr: &str, c: char) -> (r: bool)
    ensures
        r == operator_at(expr@, c),
{
    if c != '-' {
        return true;
    }
    let cs = chars_of(expr);
    let mut i: usize = cs.len();
    assert(cs@.take(i as int) =~= cs@);
    while i > 0 && cs[i - 1] != '-'
        invariant
            i <= cs@.len(),
            cs@ == expr@,
            last_index(expr@, '-') == last_index(cs@.take(i as int), '-'),
        decreases i,
    {
        assert(cs@.take(i as int).drop_last() =~= cs@.take(i - 1));
        i = i - 1;
    }
    if i == 0 {
        return false;
    }
    let p = i - 1;
    if p == 0 {
        return false;
    }
    let prev = cs[p - 1];
    !(prev == '+' || prev == '-' || prev == '*' || prev == '/' || prev == '^' || prev == '(')
}

/// Evaluates arithmetic queries (the evaluation itself is floating point).
pub struct CalculatorPlugin;

impl CalculatorPlugin {
    pub fn new() -> (r: CalculatorPlugin) {
        CalculatorPlugin
    }

    pub fn info(&self) -> (r: PluginInfo)
        ensures
            r.id@ == "calculator"@,
            r.default_on,
    {
        plugin_info("calculator", "Calculator", "Evaluate mathematical expressions")
    }

    /// The query is one the calculator takes.
    pub fn matches_query(&self, query: &str) -> (r: bool)
        ensures
            r == calc_trigger(query@),
    {
        let qc = chars_of(query);
        let t = trim_chars(&qc);
        assert(t@.skip(0) =~= t@);
        if starts_with_lit(&t, 0, "=") || starts_with_lit(&t, 0, "calc ") || starts_with_lit(&t, 0, "calculate ") {
            return true;
        }
        let mut all = true;
        let mut any_op = false;
        let mut i: usize = 0;
        while i < t.len()
            invariant
                i <= t@.len(),
                all == (forall|j: int| 0 <= j < i ==> calc_char(#[trigger] t@[j])),
                any_op == (exists|j: int| 0 <= j < i && is_op(#[trigger] t@[j])),
            decreases t@.len() - i,
        {
            let c = t[i];
            let op = c == '+' || c == '-' || c == '*' || c == '/' || c == '^';
            let ok = is_numeric(c) || op || c == '(' || c == ')' || c == '.' || c == ' ';
            proof {
                if !ok {
                    assert(!calc_char(t@[i as int]));
                }
                if op {
                    assert(is_op(t@[i as int]));
                }
                if all && ok {
                    assert forall|j: int| 0 <= j < i + 1 implies calc_char(#[trigger] t@[j]) by {
                        if j == i {
                            assert(calc_char(t@[i as int]));
                        }
                    }
                }
                if !op && !any_op {
                    assert(!exists|j: int| 0 <= j < i + 1 && is_op(#[trigger] t@[j])) by {
                        if exists|j: int| 0 <= j < i + 1 && is_op(#[trigger] t@[j]) {
                            let j = choose|j: int| 0 <= j < i + 1 && is_op(#[trigger] t@[j]);
                            assert(j != i);
                        }
                    }
                }
            }
            all = all && ok;
            any_op = any_op || op;
            i = i + 1;
        }
        all && any_op
    }
}

} // verus!
