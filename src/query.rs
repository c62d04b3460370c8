//! Query syntax: language tags, timeouts, safesearch toggles, time ranges,
//! redirect markers, category bangs, engine bangs and external bangs.

use vstd::prelude::*;
use vstd::string::*;
use crate::text::{chars_of, string_of, split_words, join_with_spaces, words, join_words, views, is_ws, is_word, lemma_words_of_join, lemma_words_are_words, normalize_ws};

verus! {

/// Time range filter for search results.
#[derive(Debug, Clone, Copy, PartialEq, Eq, Structural)]
pub enum TimeRange {
    Day,
    Week,
    Month,
    Year,
}

impl TimeRange {
    pub open spec fn spec_str(self) -> Seq<char> {
        match self {
            TimeRange::Day => "day"@,
            TimeRange::Week => "week"@,
            TimeRange::Month => "month"@,
            TimeRange::Year => "year"@,
        }
    }

    /// The lowercase name used in engine API calls.
    pub fn as_str(&self) -> (r: &'static str)
        ensures
            r@ == self.spec_str(),
    {
        match self {
            TimeRange::Day => "day",
            TimeRange::Week => "week",
            TimeRange::Month => "month",
            TimeRange::Year => "year",
        }
    }
}

pub open spec fn is_lower(c: char) -> bool {
    'a' <= c && c <= 'z'
}

pub open spec fn is_upper(c: char) -> bool {
    'A' <= c && c <= 'Z'
}

pub open spec fn is_digit(c: char) -> bool {
    '0' <= c && c <= '9'
}

pub open spec fn is_word_char(c: char) -> bool {
    is_lower(c) || is_upper(c) || is_digit(c) || c == '_'
}

/// `a` equals the lowercase literal `lit` up to ASCII case.
pub open spec fn ci_eq(a: Seq<char>, lit: Seq<char>) -> bool {
    a.len() == lit.len() && forall|i: int|
        0 <= i < a.len() ==> (a[i] == lit[i] || (is_upper(a[i]) && a[i] as u32 + 32 == lit[i] as u32))
}

/// `:xx` or `:xx-YY`.
pub open spec fn is_lang_tag(t: Seq<char>) -> bool {
    (t.len() == 3 || (t.len() == 6 && t[3] == '-' && is_upper(t[4]) && is_upper(t[5])))
        && t[0] == ':' && is_lower(t[1]) && is_lower(t[2])
}

/// The decimal value of a run of digits.
pub open spec fn dec_value(s: Seq<char>) -> nat
    decreases s.len(),
{
    if s.len() == 0 {
        0
    } else {
        dec_value(s.drop_last()) * 10 + ((s.last() as u32) - ('0' as u32)) as nat
    }
}

pub open spec fn all_digits(s: Seq<char>) -> bool {
    forall|i: int| 0 <= i < s.len() ==> is_digit(s[i])
}

pub open spec fn sat(x: nat) -> u64 {
    if x > u64::MAX {
        u64::MAX
    } else {
        x as u64
    }
}

/// The first three digits of a fraction, as thousandths.
pub open spec fn milli_fraction(f: Seq<char>) -> nat {
    let d = |k: int| if k < f.len() { ((f[k] as u32) - ('0' as u32)) as nat } else { 0nat };
    d(0) * 100 + d(1) * 10 + d(2)
}

/// `N` or `N.F` with `N` and `F` non-empty runs of digits.
pub open spec fn is_number(n: Seq<char>) -> bool {
    ||| (n.len() > 0 && all_digits(n))
    ||| exists|k: int|
        0 < k < n.len() - 1 && n[k] == '.' && all_digits(n.take(k)) && all_digits(n.skip(k + 1))
}

/// Milliseconds of a number of seconds `N` or `N.F` (sub-millisecond digits dropped).
pub open spec fn seconds_to_ms(n: Seq<char>) -> u64 {
    if all_digits(n) {
        sat(dec_value(n) * 1000)
    } else {
        let k = choose|k: int|
            0 < k < n.len() - 1 && n[k] == '.' && all_digits(n.take(k)) && all_digits(n.skip(k + 1));
        sat(dec_value(n.take(k)) * 1000 + milli_fraction(n.skip(k + 1)))
    }
}

/// Milliseconds of a number of milliseconds `N` or `N.F` (fraction dropped).
pub open spec fn millis_to_ms(n: Seq<char>) -> u64 {
    if all_digits(n) {
        sat(dec_value(n))
    } else {
        let k = choose|k: int|
            0 < k < n.len() - 1 && n[k] == '.' && all_digits(n.take(k)) && all_digits(n.skip(k + 1));
        sat(dec_value(n.take(k)))
    }
}

pub open spec fn ends_ms(t: Seq<char>) -> bool {
    t.len() >= 2 && t[t.len() - 2] == 'm' && t[t.len() - 1] == 's'
}

/// `<N` or `<Nms`, and the timeout it asks for in milliseconds.
pub open spec fn timeout_tag(t: Seq<char>) -> Option<u64> {
    if t.len() >= 2 && t[0] == '<' {
        let body = t.skip(1);
        if ends_ms(body) && is_number(body.take(body.len() - 2)) {
            Some(millis_to_ms(body.take(body.len() - 2)))
        } else if is_number(body) {
            Some(seconds_to_ms(body))
        } else {
            None
        }
    } else {
        None
    }
}

pub open spec fn time_range_tag(t: Seq<char>) -> Option<TimeRange> {
    if t == "!day"@ {
        Some(TimeRange::Day)
    } else if t == "!week"@ {
        Some(TimeRange::Week)
    } else if t == "!month"@ {
        Some(TimeRange::Month)
    } else if t == "!year"@ {
        Some(TimeRange::Year)
    } else {
        None
    }
}

pub open spec fn category_tag(t: Seq<char>) -> Option<Seq<char>> {
    if t == "!images"@ {
        Some("images"@)
    } else if t == "!videos"@ {
        Some("videos"@)
    } else if t == "!news"@ {
        Some("news"@)
    } else if t == "!music"@ {
        Some("music"@)
    } else if t == "!files"@ {
        Some("files"@)
    } else if t == "!it"@ {
        Some("it"@)
    } else if t == "!science"@ {
        Some("science"@)
    } else if t == "!social"@ {
        Some("social"@)
    } else if t == "!maps"@ {
        Some("maps"@)
    } else {
        None
    }
}

/// The bang names that redirect to an external site.
pub open spec fn external_name(n: Seq<char>) -> Option<Seq<char>> {
    if ci_eq(n, "g"@) {
        Some("g"@)
    } else if ci_eq(n, "yt"@) {
        Some("yt"@)
    } else if ci_eq(n, "w"@) {
        Some("w"@)
    } else if ci_eq(n, "wa"@) {
        Some("wa"@)
    } else if ci_eq(n, "amazon"@) {
        Some("amazon"@)
    } else if ci_eq(n, "imdb"@) {
        Some("imdb"@)
    } else {
        None
    }
}

/// The engine that a bang name selects.
pub open spec fn engine_name(n: Seq<char>) -> Option<Seq<char>> {
    if ci_eq(n, "g"@) || ci_eq(n, "google"@) {
        Some("google"@)
    } else if ci_eq(n, "ddg"@) || ci_eq(n, "duckduckgo"@) {
        Some("duckduckgo"@)
    } else if ci_eq(n, "bi"@) || ci_eq(n, "bing"@) {
        Some("bing"@)
    } else if ci_eq(n, "br"@) || ci_eq(n, "brave"@) {
        Some("brave"@)
    } else if ci_eq(n, "wp"@) || ci_eq(n, "wikipedia"@) {
        Some("wikipedia"@)
    } else if ci_eq(n, "yt"@) || ci_eq(n, "youtube"@) {
        Some("youtube"@)
    } else if ci_eq(n, "gh"@) || ci_eq(n, "github"@) {
        Some("github"@)
    } else if ci_eq(n, "so"@) || ci_eq(n, "stackoverflow"@) {
        Some("stackoverflow"@)
    } else if ci_eq(n, "arx"@) || ci_eq(n, "arxiv"@) {
        Some("arxiv"@)
    } else {
        None
    }
}

/// `!name` with a non-empty name of ASCII letters, digits and underscores.
pub open spec fn is_bang(t: Seq<char>) -> bool {
    t.len() >= 2 && t[0] == '!' && forall|i: int| 1 <= i < t.len() ==> is_word_char(t[i])
}

/// What one whitespace-separated token of a query means.
pub enum TokenClass {
    Word,
    Language(Seq<char>),
    Timeout(u64),
    SafeOn,
    SafeOff,
    Range(TimeRange),
    Category(Seq<char>),
    External(Seq<char>),
    Engine(Seq<char>),
}

/// Recognition order: language, timeout, safesearch, time range, category,
/// external bang (it overrides an engine with the same shortcut), engine bang.
pub open spec fn classify(t: Seq<char>) -> TokenClass {
    if is_lang_tag(t) {
        TokenClass::Language(t.skip(1))
    } else if timeout_tag(t).is_some() {
        TokenClass::Timeout(timeout_tag(t).unwrap())
    } else if t == "!safesearch"@ {
        TokenClass::SafeOn
    } else if t == "!nosafesearch"@ {
        TokenClass::SafeOff
    } else if time_range_tag(t).is_some() {
        TokenClass::Range(time_range_tag(t).unwrap())
    } else if category_tag(t).is_some() {
        TokenClass::Category(category_tag(t).unwrap())
    } else if is_bang(t) && external_name(t.skip(1)).is_some() {
        TokenClass::External(external_name(t.skip(1)).unwrap())
    } else if is_bang(t) && engine_name(t.skip(1)).is_some() {
        TokenClass::Engine(engine_name(t.skip(1)).unwrap())
    } else {
        TokenClass::Word
    }
}

/// A token that the parser consumes (every class but a plain word).
pub open spec fn is_modifier(t: Seq<char>) -> bool {
    !(classify(t) is Word)
}

/// What a query's tokens say, gathered left to right.
pub struct QueryModel {
    pub words: Seq<Seq<char>>,
    pub languages: Seq<Seq<char>>,
    pub categories: Seq<Seq<char>>,
    pub engines: Seq<Seq<char>>,
    pub external_bang: Option<Seq<char>>,
    pub timeout: Option<u64>,
    pub safe_on: bool,
    pub safe_off: bool,
    pub time_range: Option<TimeRange>,
}

pub open spec fn empty_model() -> QueryModel {
    QueryModel {
        words: seq![],
        languages: seq![],
        categories: seq![],
        engines: seq![],
        external_bang: None,
        timeout: None,
        safe_on: false,
        safe_off: false,
        time_range: None,
    }
}

/// The first timeout and the first time range win; the last external bang wins.
pub open spec fn step(m: QueryModel, t: Seq<char>) -> QueryModel {
    match classify(t) {
        TokenClass::Word => QueryModel { words: m.words.push(t), ..m },
        TokenClass::Language(l) => QueryModel { languages: m.languages.push(l), ..m },
        TokenClass::Timeout(ms) => QueryModel {
            timeout: if m.timeout.is_some() { m.timeout } else { Some(ms) },
            ..m
        },
        TokenClass::SafeOn => QueryModel { safe_on: true, ..m },
        TokenClass::SafeOff => QueryModel { safe_off: true, ..m },
        TokenClass::Range(r) => QueryModel {
            time_range: if m.time_range.is_some() { m.time_range } else { Some(r) },
            ..m
        },
        TokenClass::Category(c) => QueryModel { categories: m.categories.push(c), ..m },
        TokenClass::External(b) => QueryModel { external_bang: Some(b), ..m },
        TokenClass::Engine(e) => QueryModel { engines: m.engines.push(e), ..m },
    }
}

pub open spec fn gather(ts: Seq<Seq<char>>) -> QueryModel
    decreases ts.len(),
{
    if ts.len() == 0 {
        empty_model()
    } else {
        step(gather(ts.drop_last()), ts.last())
    }
}

pub open spec fn starts_bang_bang(t: Seq<char>) -> bool {
    t.len() >= 2 && t[0] == '!' && t[1] == '!'
}

/// A query whose first token is a bare `!` or starts with `!!` asks to go to the first result.
pub open spec fn redirect_marker(ts: Seq<Seq<char>>) -> bool {
    ts.len() > 0 && (ts[0] == "!"@ || starts_bang_bang(ts[0]))
}

/// The tokens left once a redirect marker is taken off (what follows `!!` stays).
pub open spec fn body_tokens(ts: Seq<Seq<char>>) -> Seq<Seq<char>> {
    if !redirect_marker(ts) {
        ts
    } else if ts[0] == "!"@ || ts[0].len() == 2 {
        ts.drop_first()
    } else {
        seq![ts[0].skip(2)] + ts.drop_first()
    }
}

pub open spec fn query_model(raw: Seq<char>) -> QueryModel {
    gather(body_tokens(words(raw)))
}

pub open spec fn safesearch_of(m: QueryModel) -> Option<u8> {
    if m.safe_off {
        Some(0u8)
    } else if m.safe_on {
        Some(2u8)
    } else {
        None
    }
}

pub open spec fn strs(v: Seq<String>) -> Seq<Seq<char>> {
    v.map_values(|s: String| s@)
}

pub open spec fn opt_str(o: Option<String>) -> Option<Seq<char>> {
    match o {
        Some(s) => Some(s@),
        None => None,
    }
}


/// `t` equals the literal `lit`.
pub fn eq_lit(t: &Vec<char>, lit: &str) -> (r: bool)
    ensures
        r == (t@ == lit@),
{
    let n = lit.unicode_len();
    if t.len() != n {
        return false;
    }
    let mut i: usize = 0;
    while i < n
        invariant
            n == lit@.len(),
            t@.len() == n,
            i <= n,
            forall|j: int| 0 <= j < i ==> t@[j] == lit@[j],
        decreases n - i,
    {
        if t[i] != lit.get_char(i) {
            return false;
        }
        i = i + 1;
    }
    assert(t@ =~= lit@);
    true
}

/// `t.skip(from)` equals the lowercase literal `lit` up to ASCII case.
fn ci_eq_lit(t: &Vec<char>, from: usize, lit: &str) -> (r: bool)
    requires
        from <= t@.len(),
    ensures
        r == ci_eq(t@.skip(from as int), lit@),
{
    let n = lit.unicode_len();
    let tl = t.len();
    if tl - from != n {
        return false;
    }
    let mut i: usize = 0;
    while i < n
        invariant
            n == lit@.len(),
            from + n == t@.len(),
            tl == t@.len(),
            i <= n,
            forall|j: int|
                0 <= j < i ==> (t@.skip(from as int)[j] == lit@[j] || (is_upper(
                    t@.skip(from as int)[j],
                ) && t@.skip(from as int)[j] as u32 + 32 == lit@[j] as u32)),
        decreases n - i,
    {
        let a = t[from + i];
        let l = lit.get_char(i);
        if !(a == l || ('A' <= a && a <= 'Z' && (a as u32) + 32 == l as u32)) {
            assert(t@.skip(from as int)[i as int] == a);
            return false;
        }
        i = i + 1;
    }
    true
}

/// `t[from..]` as a new vector.
pub fn skip_vec(t: &Vec<char>, from: usize) -> (r: Vec<char>)
    requires
        from <= t@.len(),
    ensures
        r@ == t@.skip(from as int),
{
    let mut r: Vec<char> = Vec::new();
    let mut i: usize = from;
    while i < t.len()
        invariant
            from <= i <= t@.len(),
            r@ == t@.subrange(from as int, i as int),
        decreases t@.len() - i,
    {
        r.push(t[i]);
        assert(t@.subrange(from as int, i + 1) =~= t@.subrange(from as int, i as int).push(t@[i as int]));
        i = i + 1;
    }
    assert(t@.subrange(from as int, t@.len() as int) =~= t@.skip(from as int));
    r
}

fn is_lower_c(c: char) -> (r: bool)
    ensures
        r == is_lower(c),
{
    'a' <= c && c <= 'z'
}

fn is_upper_c(c: char) -> (r: bool)
    ensures
        r == is_upper(c),
{
    'A' <= c && c <= 'Z'
}

fn is_digit_c(c: char) -> (r: bool)
    ensures
        r == is_digit(c),
{
    '0' <= c && c <= '9'
}

fn lang_tag(t: &Vec<char>) -> (r: bool)
    ensures
        r == is_lang_tag(t@),
{
    (t.len() == 3 || (t.len() == 6 && t[3] == '-' && is_upper_c(t[4]) && is_upper_c(t[5])))
        && t[0] == ':' && is_lower_c(t[1]) && is_lower_c(t[2])
}

fn all_digits_in(t: &Vec<char>, lo: usize, hi: usize) -> (r: bool)
    requires
        lo <= hi <= t@.len(),
    ensures
        r == all_digits(t@.subrange(lo as int, hi as int)),
{
    let mut i: usize = lo;
    while i < hi
        invariant
            lo <= i <= hi <= t@.len(),
            forall|j: int| lo <= j < i ==> is_digit(t@[j]),
        decreases hi - i,
    {
        if !is_digit_c(t[i]) {
            assert(!is_digit(t@.subrange(lo as int, hi as int)[i - lo]));
            return false;
        }
        i = i + 1;
    }
    assert forall|j: int| 0 <= j < hi - lo implies is_digit(t@.subrange(lo as int, hi as int)[j]) by {
        assert(t@.subrange(lo as int, hi as int)[j] == t@[lo + j]);
    }
    true
}

/// The saturated decimal value of the digits `t[lo..hi]`.
fn decimal(t: &Vec<char>, lo: usize, hi: usize) -> (r: u64)
    requires
        lo <= hi <= t@.len(),
        all_digits(t@.subrange(lo as int, hi as int)),
    ensures
        r == sat(dec_value(t@.subrange(lo as int, hi as int))),
{
    let mut v: u64 = 0;
    let mut i: usize = lo;
    while i < hi
        invariant
            lo <= i <= hi <= t@.len(),
            all_digits(t@.subrange(lo as int, hi as int)),
            v == sat(dec_value(t@.subrange(lo as int, i as int))),
        decreases hi - i,
    {
        let ghost pre = t@.subrange(lo as int, i as int);
        let ghost next = t@.subrange(lo as int, i + 1);
        assert(next.drop_last() =~= pre);
        assert(t@.subrange(lo as int, hi as int)[i - lo] == t@[i as int]);
        let d: u64 = (t[i] as u32 - '0' as u32) as u64;
        let w: u128 = v as u128 * 10 + d as u128;
        proof {
            let dv = dec_value(pre);
            assert(dec_value(next) == dv * 10 + d);
            if dv > u64::MAX {
                assert(dv * 10 + d > u64::MAX) by (nonlinear_arith)
                    requires
                        dv > u64::MAX,
                        d >= 0,
                ;
                assert(w > u64::MAX) by (nonlinear_arith)
                    requires
                        v == u64::MAX,
                        w == v * 10 + d,
                ;
            }
        }
        if w > u64::MAX as u128 {
            v = u64::MAX;
        } else {
            v = w as u64;
        }
        i = i + 1;
    }
    v
}

/// Where a number `N` or `N.F` in `t[lo..hi]` splits: `hi` for `N`, the dot for `N.F`.
fn number_split(t: &Vec<char>, lo: usize, hi: usize) -> (r: Option<usize>)
    requires
        lo <= hi <= t@.len(),
    ensures
        r.is_some() == is_number(t@.subrange(lo as int, hi as int)),
        r matches Some(k) ==> lo < k <= hi && all_digits(t@.subrange(lo as int, k as int)) && (k
            == hi ==> all_digits(t@.subrange(lo as int, hi as int))) && (k < hi ==> (t@[k as int]
            == '.' && k + 1 < hi && all_digits(t@.subrange(k + 1, hi as int)) && !all_digits(
            t@.subrange(lo as int, hi as int)))),
{
    let ghost n = t@.subrange(lo as int, hi as int);
    let mut k: usize = lo;
    while k < hi && t[k] != '.'
        invariant
            lo <= k <= hi <= t@.len(),
            forall|j: int| lo <= j < k ==> t@[j] != '.',
        decreases hi - k,
    {
        k = k + 1;
    }
    if k == hi {
        let d = all_digits_in(t, lo, hi);
        if d && hi > lo {
            return Some(hi);
        }
        proof {
            if is_number(n) {
                if !(n.len() > 0 && all_digits(n)) {
                    let k2 = choose|k2: int|
                        0 < k2 < n.len() - 1 && n[k2] == '.' && all_digits(n.take(k2))
                            && all_digits(n.skip(k2 + 1));
                    assert(t@[lo + k2] == '.');
                }
            }
        }
        return None;
    }
    let a = all_digits_in(t, lo, k);
    let b = all_digits_in(t, k + 1, hi);
    proof {
        let kk = k - lo;
        assert(n[kk] == '.');
        assert(!all_digits(n));
        assert(n.take(kk) =~= t@.subrange(lo as int, k as int));
        assert(n.skip(kk + 1) =~= t@.subrange(k + 1, hi as int));
        if is_number(n) {
            let k2 = choose|k2: int|
                0 < k2 < n.len() - 1 && n[k2] == '.' && all_digits(n.take(k2))
                    && all_digits(n.skip(k2 + 1));
            if k2 < kk {
                assert(t@[lo + k2] == '.');
            } else if k2 > kk {
                assert(n.take(k2)[kk] == '.');
            }
        }
    }
    if a && b && k > lo && k + 1 < hi {
        Some(k)
    } else {
        None
    }
}


proof fn lemma_number_choice(n: Seq<char>, k: int)
    requires
        0 < k < n.len() - 1,
        n[k] == '.',
        all_digits(n.take(k)),
        all_digits(n.skip(k + 1)),
    ensures
        (choose|k2: int|
            0 < k2 < n.len() - 1 && n[k2] == '.' && all_digits(n.take(k2)) && all_digits(
                n.skip(k2 + 1),
            )) == k,
{
    let k2 = choose|k2: int|
        0 < k2 < n.len() - 1 && n[k2] == '.' && all_digits(n.take(k2)) && all_digits(n.skip(k2 + 1));
    if k2 < k {
        assert(n.take(k)[k2] == '.');
    } else if k2 > k {
        assert(n.skip(k + 1)[k2 - k - 1] == '.');
    }
}

/// The timeout that the token `t` asks for, if it is a timeout tag.
#[verifier::rlimit(60)]
fn timeout_of(t: &Vec<char>) -> (r: Option<u64>)
    ensures
        r == timeout_tag(t@),
{
    let len = t.len();
    if len < 2 || t[0] != '<' {
        return None;
    }
    let ghost body = t@.skip(1);
    if len >= 3 && t[len - 2] == 'm' && t[len - 1] == 's' {
        assert(ends_ms(body));
        assert(body.take(body.len() - 2) =~= t@.subrange(1, len - 2));
        match number_split(t, 1, len - 2) {
            Some(k) => {
                let v = decimal(t, 1, k);
                proof {
                    let n = t@.subrange(1, len - 2);
                    if k < len - 2 {
                        assert(n.take(k - 1) =~= t@.subrange(1, k as int));
                        assert(n.skip(k as int) =~= t@.subrange(k + 1, len - 2));
                        lemma_number_choice(n, k - 1);
                    }
                }
                return Some(v);
            },
            None => {},
        }
    }
    assert(body =~= t@.subrange(1, len as int));
    thousandths(t, 1, len)
}

/// The value of the number `N` or `N.F` in `t[lo..hi]`, in thousandths.
pub(crate) fn thousandths(t: &Vec<char>, lo: usize, hi: usize) -> (r: Option<u64>)
    requires
        lo <= hi <= t@.len(),
    ensures
        r is Some == is_number(t@.subrange(lo as int, hi as int)),
        r matches Some(v) ==> v == seconds_to_ms(t@.subrange(lo as int, hi as int)),
{
    let len = hi;
    match number_split(t, lo, len) {
        Some(k) => {
            let whole = decimal(t, lo, k);
            let mut frac: u64 = 0;
            if k < len {
                let mut j: usize = 0;
                while j < 3
                    invariant
                        k < len <= t@.len(),
                        j <= 3,
                        all_digits(t@.subrange(k + 1, len as int)),
                        frac == ({
                            let f = t@.subrange(k + 1, len as int);
                            let d = |x: int| if x < f.len() { ((f[x] as u32) - ('0' as u32)) as nat } else { 0nat };
                            if j == 0 { 0 } else if j == 1 { d(0) } else if j == 2 { d(0) * 10 + d(1) } else { d(0) * 100 + d(1) * 10 + d(2) }
                        }),
                    decreases 3 - j,
                {
                    let mut d: u64 = 0;
                    if j < len - k - 1 {
                        assert(t@.subrange(k + 1, len as int)[j as int] == t@[k + 1 + j]);
                        d = (t[k + 1 + j] as u32 - '0' as u32) as u64;
                    }
                    frac = frac * 10 + d;
                    j = j + 1;
                }
            }
            let w: u128 = whole as u128 * 1000 + frac as u128;
            proof {
                let n = t@.subrange(lo as int, len as int);
                if k < len {
                    assert(n.take(k - lo) =~= t@.subrange(lo as int, k as int));
                    assert(n.skip(k - lo + 1) =~= t@.subrange(k + 1, len as int));
                    lemma_number_choice(n, k - lo);
                }
                let dv = dec_value(t@.subrange(lo as int, k as int));
                if dv > u64::MAX {
                    assert(dv * 1000 + frac > u64::MAX) by (nonlinear_arith)
                        requires
                            dv > u64::MAX,
                            frac >= 0,
                    ;
                    assert(w > u64::MAX) by (nonlinear_arith)
                        requires
                            whole == u64::MAX,
                            w == whole * 1000 + frac,
                    ;
                }
            }
            if w > u64::MAX as u128 {
                Some(u64::MAX)
            } else {
                Some(w as u64)
            }
        },
        None => None,
    }
}

fn time_range_of(t: &Vec<char>) -> (r: Option<TimeRange>)
    ensures
        r == time_range_tag(t@),
{
    if eq_lit(t, "!day") {
        Some(TimeRange::Day)
    } else if eq_lit(t, "!week") {
        Some(TimeRange::Week)
    } else if eq_lit(t, "!month") {
        Some(TimeRange::Month)
    } else if eq_lit(t, "!year") {
        Some(TimeRange::Year)
    } else {
        None
    }
}

fn category_of(t: &Vec<char>) -> (r: Option<&'static str>)
    ensures
        category_tag(t@) == (match r {
            Some(c) => Some(c@),
            None => None,
        }),
{
    if eq_lit(t, "!images") {
        Some("images")
    } else if eq_lit(t, "!videos") {
        Some("videos")
    } else if eq_lit(t, "!news") {
        Some("news")
    } else if eq_lit(t, "!music") {
        Some("music")
    } else if eq_lit(t, "!files") {
        Some("files")
    } else if eq_lit(t, "!it") {
        Some("it")
    } else if eq_lit(t, "!science") {
        Some("science")
    } else if eq_lit(t, "!social") {
        Some("social")
    } else if eq_lit(t, "!maps") {
        Some("maps")
    } else {
        None
    }
}

fn external_of(t: &Vec<char>) -> (r: Option<&'static str>)
    requires
        t@.len() >= 1,
    ensures
        external_name(t@.skip(1)) == (match r {
            Some(c) => Some(c@),
            None => None,
        }),
{
    if ci_eq_lit(t, 1, "g") {
        Some("g")
    } else if ci_eq_lit(t, 1, "yt") {
        Some("yt")
    } else if ci_eq_lit(t, 1, "w") {
        Some("w")
    } else if ci_eq_lit(t, 1, "wa") {
        Some("wa")
    } else if ci_eq_lit(t, 1, "amazon") {
        Some("amazon")
    } else if ci_eq_lit(t, 1, "imdb") {
        Some("imdb")
    } else {
        None
    }
}

fn engine_of(t: &Vec<char>) -> (r: Option<&'static str>)
    requires
        t@.len() >= 1,
    ensures
        engine_name(t@.skip(1)) == (match r {
            Some(c) => Some(c@),
            None => None,
        }),
{
    if ci_eq_lit(t, 1, "g") || ci_eq_lit(t, 1, "google") {
        Some("google")
    } else if ci_eq_lit(t, 1, "ddg") || ci_eq_lit(t, 1, "duckduckgo") {
        Some("duckduckgo")
    } else if ci_eq_lit(t, 1, "bi") || ci_eq_lit(t, 1, "bing") {
        Some("bing")
    } else if ci_eq_lit(t, 1, "br") || ci_eq_lit(t, 1, "brave") {
        Some("brave")
    } else if ci_eq_lit(t, 1, "wp") || ci_eq_lit(t, 1, "wikipedia") {
        Some("wikipedia")
    } else if ci_eq_lit(t, 1, "yt") || ci_eq_lit(t, 1, "youtube") {
        Some("youtube")
    } else if ci_eq_lit(t, 1, "gh") || ci_eq_lit(t, 1, "github") {
        Some("github")
    } else if ci_eq_lit(t, 1, "so") || ci_eq_lit(t, 1, "stackoverflow") {
        Some("stackoverflow")
    } else if ci_eq_lit(t, 1, "arx") || ci_eq_lit(t, 1, "arxiv") {
        Some("arxiv")
    } else {
        None
    }
}

fn bang_syntax(t: &Vec<char>) -> (r: bool)
    ensures
        r == is_bang(t@),
{
    if t.len() < 2 || t[0] != '!' {
        return false;
    }
    let mut i: usize = 1;
    while i < t.len()
        invariant
            1 <= i <= t@.len(),
            forall|j: int| 1 <= j < i ==> is_word_char(t@[j]),
        decreases t@.len() - i,
    {
        let c = t[i];
        if !(is_lower_c(c) || is_upper_c(c) || is_digit_c(c) || c == '_') {
            return false;
        }
        i = i + 1;
    }
    true
}

enum QueryToken {
    Word,
    Language(Vec<char>),
    Timeout(u64),
    SafeOn,
    SafeOff,
    Range(TimeRange),
    Category(&'static str),
    External(&'static str),
    Engine(&'static str),
}

spec fn token_view(q: QueryToken) -> TokenClass {
    match q {
        QueryToken::Word => TokenClass::Word,
        QueryToken::Language(l) => TokenClass::Language(l@),
        QueryToken::Timeout(ms) => TokenClass::Timeout(ms),
        QueryToken::SafeOn => TokenClass::SafeOn,
        QueryToken::SafeOff => TokenClass::SafeOff,
        QueryToken::Range(r) => TokenClass::Range(r),
        QueryToken::Category(c) => TokenClass::Category(c@),
        QueryToken::External(b) => TokenClass::External(b@),
        QueryToken::Engine(e) => TokenClass::Engine(e@),
    }
}

fn classify_token(t: &Vec<char>) -> (r: QueryToken)
    ensures
        token_view(r) == classify(t@),
{
    if lang_tag(t) {
        return QueryToken::Language(skip_vec(t, 1));
    }
    match timeout_of(t) {
        Some(ms) => {
            return QueryToken::Timeout(ms);
        },
        None => {},
    }
    if eq_lit(t, "!safesearch") {
        return QueryToken::SafeOn;
    }
    if eq_lit(t, "!nosafesearch") {
        return QueryToken::SafeOff;
    }
    match time_range_of(t) {
        Some(r) => {
            return QueryToken::Range(r);
        },
        None => {},
    }
    match category_of(t) {
        Some(c) => {
            return QueryToken::Category(c);
        },
        None => {},
    }
    if bang_syntax(t) {
        match external_of(t) {
            Some(b) => {
                return QueryToken::External(b);
            },
            None => {},
        }
        match engine_of(t) {
            Some(e) => {
                return QueryToken::Engine(e);
            },
            None => {},
        }
    }
    QueryToken::Word
}

/// Parsed search query with its modifiers taken out.
#[derive(Debug, Clone)]
pub struct ParsedQuery {
    /// The query with every modifier removed and whitespace collapsed.
    pub query: String,
    /// The query as typed.
    pub raw_query: String,
    pub languages: Vec<String>,
    pub categories: Vec<String>,
    pub engines: Vec<String>,
    /// Set when the query asks to leave for an external site's search.
    pub external_bang: Option<String>,
    /// Requested timeout, in milliseconds.
    pub timeout: Option<u64>,
    pub safesearch: Option<u8>,
    pub time_range: Option<TimeRange>,
    pub pageno: u32,
    pub redirect_to_first: bool,
}

/// Everything `parse` promises about its result.
pub open spec fn parsed_from(r: ParsedQuery, raw: Seq<char>) -> bool {
    let m = query_model(raw);
    &&& r.query@ == join_words(m.words)
    &&& r.raw_query@ == raw
    &&& strs(r.languages@) == m.languages
    &&& strs(r.categories@) == m.categories
    &&& strs(r.engines@) == m.engines
    &&& opt_str(r.external_bang) == m.external_bang
    &&& r.timeout == m.timeout
    &&& r.safesearch == safesearch_of(m)
    &&& r.time_range == m.time_range
    &&& r.pageno == 1
    &&& r.redirect_to_first == redirect_marker(words(raw))
}

fn push_str(v: &mut Vec<String>, s: &str)
    ensures
        strs(final(v)@) == strs(old(v)@).push(s@),
{
    let ghost pre = strs(v@);
    v.push(String::from_str(s));
    assert(strs(v@) =~= pre.push(s@));
}

impl ParsedQuery {
    /// The cleaned query holds nothing but whitespace.
    pub fn is_empty(&self) -> (r: bool)
        ensures
            r == forall|i: int| 0 <= i < self.query@.len() ==> is_ws(self.query@[i]),
    {
        let cs = chars_of(self.query.as_str());
        let mut i: usize = 0;
        while i < cs.len()
            invariant
                i <= cs@.len(),
                cs@ == self.query@,
                forall|j: int| 0 <= j < i ==> is_ws(cs@[j]),
            decreases cs@.len() - i,
        {
            if !crate::text::is_whitespace(cs[i]) {
                return false;
            }
            i = i + 1;
        }
        true
    }

    /// The requested categories, or `default` when none was requested.
    pub fn effective_categories(&self, default: &[String]) -> (r: Vec<String>)
        ensures
            strs(r@) == if self.categories@.len() == 0 { strs(default@) } else { strs(self.categories@) },
    {
        if self.categories.len() == 0 {
            let mut v: Vec<String> = Vec::new();
            let mut i: usize = 0;
            while i < default.len()
                invariant
                    i <= default@.len(),
                    strs(v@) == strs(default@).take(i as int),
                decreases default@.len() - i,
            {
                let ghost pre = strs(v@);
                v.push(default[i].clone());
                assert(strs(v@) =~= pre.push(default@[i as int]@));
                assert(strs(default@).take(i + 1) =~= strs(default@).take(i as int).push(default@[i as int]@));
                i = i + 1;
            }
            assert(strs(default@).take(default@.len() as int) =~= strs(default@));
            v
        } else {
            crate::results::dup_strs(&self.categories)
        }
    }

    /// Parses a raw query: each whitespace-separated token is a modifier or a word.
    pub fn parse(raw: &str) -> (r: ParsedQuery)
        ensures
            parsed_from(r, raw@),
    {
        let cs = chars_of(raw);
        let mut toks = split_words(&cs);
        let mut redirect = false;
        let ghost ws = words(raw@);
        if toks.len() > 0 {
            let bare = eq_lit(&toks[0], "!");
            let double = toks[0].len() >= 2 && toks[0][0] == '!' && toks[0][1] == '!';
            if bare || double {
                redirect = true;
                let first = toks.remove(0);
                if !bare && first.len() > 2 {
                    let rest = skip_vec(&first, 2);
                    toks.insert(0, rest);
                }
            }
        }
        assert(views(toks@) =~= body_tokens(ws));
        let mut kept: Vec<Vec<char>> = Vec::new();
        let mut languages: Vec<String> = Vec::new();
        let mut categories: Vec<String> = Vec::new();
        let mut engines: Vec<String> = Vec::new();
        let mut external_bang: Option<String> = None;
        let mut timeout: Option<u64> = None;
        let mut safe_on = false;
        let mut safe_off = false;
        let mut time_range: Option<TimeRange> = None;
        let mut i: usize = 0;
        while i < toks.len()
            invariant
                i <= toks@.len(),
                views(toks@) == body_tokens(ws),
                ({
                    let m = gather(views(toks@).take(i as int));
                    &&& views(kept@) == m.words
                    &&& strs(languages@) == m.languages
                    &&& strs(categories@) == m.categories
                    &&& strs(engines@) == m.engines
                    &&& opt_str(external_bang) == m.external_bang
                    &&& timeout == m.timeout
                    &&& safe_on == m.safe_on
                    &&& safe_off == m.safe_off
                    &&& time_range == m.time_range
                }),
            decreases toks@.len() - i,
        {
            let ghost ts = views(toks@);
            assert(ts.take(i + 1).drop_last() =~= ts.take(i as int));
            let t = &toks[i];
            match classify_token(t) {
                QueryToken::Word => {
                    let ghost pre = views(kept@);
                    kept.push(t.clone());
                    assert(views(kept@) =~= pre.push(t@));
                },
                QueryToken::Language(l) => {
                    let ghost pre = strs(languages@);
                    languages.push(string_of(&l));
                    assert(strs(languages@) =~= pre.push(l@));
                },
                QueryToken::Timeout(ms) => {
                    if timeout.is_none() {
                        timeout = Some(ms);
                    }
                },
                QueryToken::SafeOn => {
                    safe_on = true;
                },
                QueryToken::SafeOff => {
                    safe_off = true;
                },
                QueryToken::Range(r) => {
                    if time_range.is_none() {
                        time_range = Some(r);
                    }
                },
                QueryToken::Category(c) => {
                    push_str(&mut categories, c);
                },
                QueryToken::External(b) => {
                    external_bang = Some(String::from_str(b));
                },
                QueryToken::Engine(e) => {
                    push_str(&mut engines, e);
                },
            }
            i = i + 1;
        }
        assert(views(toks@).take(toks@.len() as int) =~= views(toks@));
        let joined = join_with_spaces(&kept);
        let safesearch = if safe_off {
            Some(0u8)
        } else if safe_on {
            Some(2u8)
        } else {
            None
        };
        ParsedQuery {
            query: string_of(&joined),
            raw_query: String::from_str(raw),
            languages,
            categories,
            engines,
            external_bang,
            timeout,
            safesearch,
            time_range,
            pageno: 1,
            redirect_to_first: redirect,
        }
    }
}


proof fn lemma_gather_plain(ts: Seq<Seq<char>>)
    requires
        forall|k: int| 0 <= k < ts.len() ==> !is_modifier(#[trigger] ts[k]),
    ensures
        gather(ts).words == ts,
    decreases ts.len(),
{
    if ts.len() > 0 {
        let pre = ts.drop_last();
        assert forall|k: int| 0 <= k < pre.len() implies !is_modifier(#[trigger] pre[k]) by {
            assert(pre[k] == ts[k]);
        }
        lemma_gather_plain(pre);
        assert(!is_modifier(ts[ts.len() - 1]));
        assert(pre.push(ts.last()) =~= ts);
    }
}

proof fn lemma_gather_kept(ts: Seq<Seq<char>>)
    requires
        forall|k: int| 0 <= k < ts.len() ==> is_word(#[trigger] ts[k]),
    ensures
        forall|k: int|
            0 <= k < gather(ts).words.len() ==> is_word(#[trigger] gather(ts).words[k])
                && !is_modifier(gather(ts).words[k]),
    decreases ts.len(),
{
    if ts.len() > 0 {
        let pre = ts.drop_last();
        assert forall|k: int| 0 <= k < pre.len() implies is_word(#[trigger] pre[k]) by {
            assert(pre[k] == ts[k]);
        }
        lemma_gather_kept(pre);
        let m = gather(pre);
        let t = ts.last();
        assert(is_word(ts[ts.len() - 1]));
        if classify(t) is Word {
            assert forall|k: int| 0 <= k < m.words.push(t).len() implies is_word(
                #[trigger] m.words.push(t)[k],
            ) && !is_modifier(m.words.push(t)[k]) by {
                if k < m.words.len() {
                    assert(m.words.push(t)[k] == m.words[k]);
                }
            }
        }
    }
}

/// A query that holds no modifier (and no redirect marker) comes back as
/// its words joined by single spaces.
pub proof fn clean_query_without_modifiers(raw: Seq<char>)
    requires
        !redirect_marker(words(raw)),
        forall|k: int| 0 <= k < words(raw).len() ==> !is_modifier(#[trigger] words(raw)[k]),
    ensures
        join_words(query_model(raw).words) == normalize_ws(raw),
{
    lemma_gather_plain(words(raw));
}

/// No token of the cleaned query is a modifier.
pub proof fn clean_query_has_no_modifier(raw: Seq<char>)
    ensures
        forall|k: int|
            0 <= k < words(join_words(query_model(raw).words)).len() ==> !is_modifier(
                #[trigger] words(join_words(query_model(raw).words))[k],
            ),
{
    let ws = words(raw);
    lemma_words_are_words(raw);
    let body = body_tokens(ws);
    assert forall|k: int| 0 <= k < body.len() implies is_word(#[trigger] body[k]) by {
        if redirect_marker(ws) && !(ws[0] == "!"@ || ws[0].len() == 2) {
            if k == 0 {
                let t = ws[0];
                assert(is_word(ws[0]));
                assert(body[0] == t.skip(2));
                assert forall|i: int| 0 <= i < t.skip(2).len() implies !is_ws(t.skip(2)[i]) by {
                    assert(t.skip(2)[i] == t[i + 2]);
                }
            } else {
                assert(body[k] == ws[k]);
            }
        } else if redirect_marker(ws) {
            assert(body[k] == ws[k + 1]);
        }
    }
    lemma_gather_kept(body);
    lemma_words_of_join(query_model(raw).words);
}

} // verus!
