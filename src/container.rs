//! The per-search store: deduplicates results by a normalized URL, merges
//! records that collide, scores them and hands them out in ranked order.

use vstd::prelude::*;
use vstd::string::*;
use crate::query::{opt_str, strs};
use crate::results::{
    Answer, Correction, EngineError, InfoBox, Result, ResultModel, Suggestion, Timing,
    UnresponsiveEngine, merge_model, add_engine,
};
use crate::text::{chars_of, string_of, has_prefix, starts_with_lit, sub_chars};

verus! {

/// What `str::to_lowercase` gives for a string.
pub uninterp spec fn lowercase_of(s: Seq<char>) -> Seq<char>;

/// Every character is ASCII.
pub open spec fn ascii_only(s: Seq<char>) -> bool {
    forall|i: int| 0 <= i < s.len() ==> (s[i] as u32) < 128
}

/// `r` is `s` with the ASCII capitals `A`-`Z` turned into `a`-`z`.
pub open spec fn ascii_lowered(s: Seq<char>, r: Seq<char>) -> bool {
    r.len() == s.len() && forall|i: int|
        0 <= i < s.len() ==> if 'A' <= s[i] && s[i] <= 'Z' {
            r[i] as u32 == s[i] as u32 + 32
        } else {
            r[i] == s[i]
        }
}

/// Relies on `str::to_lowercase`: the result depends on the characters
/// alone, and (as its documentation says of ASCII) an ASCII string only has
/// its capitals `A`-`Z` lowered.
#[verifier::external_body]
pub(crate) fn lowercase(s: &str) -> (r: String)
    ensures
        r@ == lowercase_of(s@),
        ascii_only(s@) ==> ascii_lowered(s@, r@),
{
    s.to_lowercase()
}

/// The deduplication key of a URL: lowercased, without an `http://` or
/// `https://` scheme, without a leading `www.`, without one trailing `/`.
pub open spec fn dedup_key(url: Seq<char>) -> Seq<char> {
    let l = lowercase_of(url);
    let a = if has_prefix(l, "https://"@) {
        l.skip("https://"@.len() as int)
    } else if has_prefix(l, "http://"@) {
        l.skip("http://"@.len() as int)
    } else {
        l
    };
    let b = if has_prefix(a, "www."@) {
        a.skip("www."@.len() as int)
    } else {
        a
    };
    if b.len() > 0 && b.last() == '/' {
        b.drop_last()
    } else {
        b
    }
}

/// Computes the deduplication key of a URL.
pub fn url_key(url: &str) -> (r: String)
    ensures
        r@ == dedup_key(url@),
{
    let lower = lowercase(url);
    let l = chars_of(lower.as_str());
    let ll = l.len();
    let mut from: usize = 0;
    assert(l@.skip(0) =~= l@);
    if starts_with_lit(&l, 0, "https://") {
        from = "https://".unicode_len();
    } else if starts_with_lit(&l, 0, "http://") {
        from = "http://".unicode_len();
    }
    if starts_with_lit(&l, from, "www.") {
        let w = "www.".unicode_len();
        assert(l@.skip(from as int).len() == l@.len() - from);
        assert(l@.skip(from as int).skip(w as int) =~= l@.skip(from + w));
        from = from + w;
    }
    let mut to: usize = l.len();
    if to > from && l[to - 1] == '/' {
        to = to - 1;
    }
    let k = sub_chars(&l, from, to);
    assert(k@ =~= dedup_key(url@));
    string_of(&k)
}

/// Engine weights in thousandths (1000 is a weight of 1.0).
pub open spec fn weight_of(ws: Seq<(String, u32)>, e: Seq<char>) -> nat
    decreases ws.len(),
{
    if ws.len() == 0 {
        1000
    } else if ws[0].0@ == e {
        ws[0].1 as nat
    } else {
        weight_of(ws.drop_first(), e)
    }
}

pub open spec fn sat64(x: int) -> u64 {
    if x > u64::MAX {
        u64::MAX
    } else {
        x as u64
    }
}

/// Product of the engines' weights, in thousandths, saturating.
pub open spec fn weight_product(ws: Seq<(String, u32)>, engines: Seq<Seq<char>>) -> u64
    decreases engines.len(),
{
    if engines.len() == 0 {
        1000
    } else {
        sat64(weight_product(ws, engines.drop_last()) * weight_of(ws, engines.last()) / 1000)
    }
}

/// The weight product times the number of engines (the multi-engine boost).
pub open spec fn boosted_weight(ws: Seq<(String, u32)>, engines: Seq<Seq<char>>) -> u64 {
    sat64(weight_product(ws, engines) * engines.len())
}

/// One position's share of the score, in millionths: weight / position.
pub open spec fn rank_share(b: u64, p: u32) -> nat {
    (b as nat * 1000) / (if p == 0 { 1nat } else { p as nat })
}

/// Sum of the shares of every position, saturating.
pub open spec fn position_score(b: u64, positions: Seq<u32>) -> u64
    decreases positions.len(),
{
    if positions.len() == 0 {
        0
    } else {
        sat64(position_score(b, positions.drop_last()) as int + rank_share(b, positions.last()) as int)
    }
}

pub open spec fn result_score(ws: Seq<(String, u32)>, r: ResultModel) -> u64 {
    position_score(boosted_weight(ws, r.engines), r.positions)
}

pub open spec fn scored(ws: Seq<(String, u32)>, r: ResultModel) -> ResultModel {
    ResultModel { score: result_score(ws, r), ..r }
}

fn weight_lookup(ws: &Vec<(String, u32)>, e: &String) -> (r: u32)
    ensures
        r as nat == weight_of(ws@, e@),
{
    let mut i: usize = 0;
    assert(ws@.skip(0) =~= ws@);
    while i < ws.len()
        invariant
            i <= ws@.len(),
            weight_of(ws@, e@) == weight_of(ws@.skip(i as int), e@),
        decreases ws@.len() - i,
    {
        assert(ws@.skip(i as int).drop_first() =~= ws@.skip(i + 1));
        if ws[i].0 == *e {
            return ws[i].1;
        }
        i = i + 1;
    }
    1000
}

impl Result {
    /// Sets `score` from the positions and the engines' weights.
    pub fn calculate_score(&mut self, engine_weights: &Vec<(String, u32)>)
        ensures
            final(self).model() == scored(engine_weights@, old(self).model()),
    {
        let ghost ws = engine_weights@;
        let ghost es = strs(self.engines@);
        let mut acc: u64 = 1000;
        let mut i: usize = 0;
        while i < self.engines.len()
            invariant
                i <= self.engines@.len(),
                es == strs(self.engines@),
                ws == engine_weights@,
                acc == weight_product(ws, es.take(i as int)),
            decreases self.engines@.len() - i,
        {
            assert(es.take(i + 1).drop_last() =~= es.take(i as int));
            let w = weight_lookup(engine_weights, &self.engines[i]);
            assert(es.take(i + 1).last() == es[i as int]);
            assert(es[i as int] == self.engines@[i as int]@);
            proof {
                let t = es.take(i + 1);
                assert(weight_product(ws, t) == sat64(
                    weight_product(ws, t.drop_last()) * weight_of(ws, t.last()) / 1000,
                ));
            }
            assert(acc as int * w as int <= u64::MAX as int * u32::MAX as int) by (nonlinear_arith)
                requires
                    acc <= u64::MAX,
                    w <= u32::MAX,
            ;
            let prod: u128 = acc as u128 * w as u128;
            let p: u128 = prod / 1000;
            assert(p == acc as int * w as int / 1000);
            acc = if p > u64::MAX as u128 {
                u64::MAX
            } else {
                p as u64
            };
            i = i + 1;
        }
        assert(es.take(es.len() as int) =~= es);
        let n = self.engines.len();
        assert(acc as int * n as int <= u64::MAX as int * u64::MAX as int) by (nonlinear_arith)
            requires
                acc <= u64::MAX,
                n <= u64::MAX,
        ;
        let bw: u128 = acc as u128 * n as u128;
        let b: u64 = if bw > u64::MAX as u128 {
            u64::MAX
        } else {
            bw as u64
        };
        let mut total: u64 = 0;
        let mut j: usize = 0;
        while j < self.positions.len()
            invariant
                j <= self.positions@.len(),
                b == boosted_weight(ws, es),
                ws == engine_weights@,
                es == strs(self.engines@),
                total == position_score(b, self.positions@.take(j as int)),
            decreases self.positions@.len() - j,
        {
            assert(self.positions@.take(j + 1).drop_last() =~= self.positions@.take(j as int));
            let p = self.positions[j];
            let d: u128 = if p == 0 {
                1
            } else {
                p as u128
            };
            let share: u128 = (b as u128 * 1000) / d;
            let s: u128 = total as u128 + share;
            total = if s > u64::MAX as u128 {
                u64::MAX
            } else {
                s as u64
            };
            j = j + 1;
        }
        assert(self.positions@.take(self.positions@.len() as int) =~= self.positions@);
        self.score = total;
    }
}

/// Index of the first record with key `k`.
pub open spec fn find_key(rs: Seq<ResultModel>, k: Seq<char>) -> Option<int>
    decreases rs.len(),
{
    if rs.len() == 0 {
        None
    } else if dedup_key(rs.last().url) == k && find_key(rs.drop_last(), k) is None {
        Some(rs.len() - 1)
    } else {
        find_key(rs.drop_last(), k)
    }
}

/// The stored records after adding `r`: merged into the record with the same
/// key, or appended when none has it.
pub open spec fn added(rs: Seq<ResultModel>, r: ResultModel) -> Seq<ResultModel> {
    match find_key(rs, dedup_key(r.url)) {
        Some(i) => rs.update(i, merge_model(rs[i], r)),
        None => rs.push(r),
    }
}

/// The stored records after adding each of `items` in order.
pub open spec fn added_all(rs: Seq<ResultModel>, items: Seq<ResultModel>) -> Seq<ResultModel>
    decreases items.len(),
{
    if items.len() == 0 {
        rs
    } else {
        added(added_all(rs, items.drop_last()), items.last())
    }
}

/// Stable insertion into a list ordered by descending score: `x` goes after
/// every element whose score is at least its own.
pub open spec fn insert_desc(s: Seq<ResultModel>, x: ResultModel) -> Seq<ResultModel>
    decreases s.len(),
{
    if s.len() == 0 {
        seq![x]
    } else if s[0].score >= x.score {
        seq![s[0]] + insert_desc(s.drop_first(), x)
    } else {
        seq![x] + s
    }
}

/// Stable sort by descending score: ties keep their order.
pub open spec fn sort_desc(s: Seq<ResultModel>) -> Seq<ResultModel>
    decreases s.len(),
{
    if s.len() == 0 {
        seq![]
    } else {
        insert_desc(sort_desc(s.drop_last()), s.last())
    }
}

/// The records, scored with the weights, best first, ties in insertion order.
pub open spec fn ordered(ws: Seq<(String, u32)>, rs: Seq<ResultModel>) -> Seq<ResultModel> {
    sort_desc(rs.map_values(|r: ResultModel| scored(ws, r)))
}

pub open spec fn models(v: Seq<Result>) -> Seq<ResultModel> {
    v.map_values(|r: Result| r.model())
}

proof fn lemma_insert_at(s: Seq<ResultModel>, x: ResultModel, k: int)
    requires
        0 <= k <= s.len(),
        forall|j: int| 0 <= j < k ==> s[j].score >= x.score,
        k < s.len() ==> s[k].score < x.score,
    ensures
        insert_desc(s, x) == s.take(k) + seq![x] + s.skip(k),
    decreases s.len(),
{
    if s.len() == 0 {
        assert(s.take(k) + seq![x] + s.skip(k) =~= seq![x]);
    } else if k == 0 {
        assert(s.take(0) + seq![x] + s.skip(0) =~= seq![x] + s);
    } else {
        let t = s.drop_first();
        assert forall|j: int| 0 <= j < k - 1 implies t[j].score >= x.score by {
            assert(t[j] == s[j + 1]);
        }
        if k - 1 < t.len() {
            assert(t[k - 1] == s[k]);
        }
        lemma_insert_at(t, x, k - 1);
        assert(seq![s[0]] + (t.take(k - 1) + seq![x] + t.skip(k - 1)) =~= s.take(k) + seq![x] + s.skip(k));
    }
}

/// The search's result store.
pub struct ResultContainer {
    /// Deduplication key of each stored record, in the same order.
    pub keys: Vec<String>,
    /// Stored records in insertion order.
    pub results: Vec<Result>,
    pub answers: Vec<Answer>,
    pub suggestions: Vec<Suggestion>,
    pub corrections: Vec<Correction>,
    pub infoboxes: Vec<InfoBox>,
    pub unresponsive_engines: Vec<UnresponsiveEngine>,
    pub timings: Vec<Timing>,
    pub redirect_url: Option<String>,
    /// Engine weights in thousandths.
    pub engine_weights: Vec<(String, u32)>,
}

impl ResultContainer {
    pub open spec fn wf(&self) -> bool {
        &&& self.keys@.len() == self.results@.len()
        &&& forall|i: int| 0 <= i < self.keys@.len() ==> #[trigger] self.keys@[i]@ == dedup_key(self.results@[i].url@)
        &&& forall|i: int, j: int| 0 <= i < j < self.keys@.len() ==> self.keys@[i]@ != self.keys@[j]@
    }

    pub open spec fn stored(&self) -> Seq<ResultModel> {
        models(self.results@)
    }

    pub fn new() -> (r: ResultContainer)
        ensures
            r.wf(),
            r.stored() == Seq::<ResultModel>::empty(),
            r.answers@.len() == 0,
            r.suggestions@.len() == 0,
            r.corrections@.len() == 0,
            r.infoboxes@.len() == 0,
            r.unresponsive_engines@.len() == 0,
            r.timings@.len() == 0,
            r.redirect_url is None,
            r.engine_weights@.len() == 0,
    {
        let r = ResultContainer {
            keys: Vec::new(),
            results: Vec::new(),
            answers: Vec::new(),
            suggestions: Vec::new(),
            corrections: Vec::new(),
            infoboxes: Vec::new(),
            unresponsive_engines: Vec::new(),
            timings: Vec::new(),
            redirect_url: None,
            engine_weights: Vec::new(),
        };
        assert(r.stored() =~= Seq::<ResultModel>::empty());
        r
    }

    /// An empty container that scores with the given weights (thousandths).
    pub fn with_weights(weights: Vec<(String, u32)>) -> (r: ResultContainer)
        ensures
            r.wf(),
            r.stored() == Seq::<ResultModel>::empty(),
            r.engine_weights@ == weights@,
            r.answers@.len() == 0,
            r.suggestions@.len() == 0,
            r.corrections@.len() == 0,
            r.infoboxes@.len() == 0,
            r.unresponsive_engines@.len() == 0,
            r.timings@.len() == 0,
            r.redirect_url is None,
    {
        let mut r = ResultContainer::new();
        r.engine_weights = weights;
        r
    }

    /// Adds a result, merging it into the stored record with the same key.
    pub fn add_result(&mut self, result: Result)
        requires
            old(self).wf(),
        ensures
            final(self).answers == old(self).answers,
            final(self).suggestions == old(self).suggestions,
            final(self).infoboxes == old(self).infoboxes,
                final(self).unresponsive_engines == old(self).unresponsive_engines,
                final(self).timings == old(self).timings,
            final(self).wf(),
            final(self).stored() == added(old(self).stored(), result.model()),
            final(self).engine_weights == old(self).engine_weights,
    {
        let key = url_key(result.url.as_str());
        let ghost k = key@;
        let ghost rs = self.stored();
        let mut i: usize = 0;
        while i < self.keys.len()
            invariant
                self.answers == old(self).answers,
                self.suggestions == old(self).suggestions,
                self.infoboxes == old(self).infoboxes,
                self.wf(),
                rs == self.stored(),
                rs == old(self).stored(),
                self.unresponsive_engines == old(self).unresponsive_engines,
                self.timings == old(self).timings,
                k == key@,
                k == dedup_key(result.url@),
                self.engine_weights == old(self).engine_weights,
                i <= self.keys@.len(),
                forall|j: int| 0 <= j < i ==> dedup_key(rs[j].url) != k,
            decreases self.keys@.len() - i,
        {
            assert(rs[i as int] == self.results@[i as int].model());
            assert(self.keys@[i as int]@ == dedup_key(rs[i as int].url));
            if self.keys[i] == key {
                assert(self.keys@[i as int]@ == k);
                proof {
                    lemma_find_key_unique(rs, k, i as int);
                }
                let ghost old_results = self.results@;
                let mut existing = self.results.remove(i);
                existing.merge(&result);
                self.results.insert(i, existing);
                assert(self.results@ =~= old_results.update(i as int, existing));
                proof {
                    assert(self.stored() =~= rs.update(i as int, merge_model(rs[i as int], result.model())));
                    assert(dedup_key(result.model().url) == k);
                    assert(added(rs, result.model()) == rs.update(i as int, merge_model(rs[i as int], result.model())));
                }
                return;
            }
            i = i + 1;
        }
        proof {
            lemma_find_key_absent(rs, k);
            assert forall|j: int| 0 <= j < self.keys@.len() implies self.keys@[j]@ != k by {
                assert(rs[j] == self.results@[j].model());
            }
        }
        self.keys.push(key);
        self.results.push(result);
        assert(self.stored() =~= rs.push(result.model()));
    }

    /// Adds every result in order.
    pub fn extend_results(&mut self, results: Vec<Result>)
        requires
            old(self).wf(),
        ensures
            final(self).wf(),
            final(self).engine_weights == old(self).engine_weights,
            final(self).stored() == added_all(old(self).stored(), models(results@)),
    {
        let mut rest = results;
        let ghost all = models(rest@);
        let ghost n = rest@.len();
        let ghost start = self.stored();
        while rest.len() > 0
            invariant
                self.wf(),
                self.engine_weights == old(self).engine_weights,
                n == all.len(),
                start == old(self).stored(),
                rest@.len() <= n,
                models(rest@) == all.skip(n - rest@.len()),
                self.stored() == added_all(start, all.take(n - rest@.len())),
            decreases rest@.len(),
        {
            let ghost c = (n - rest@.len()) as int;
            let ghost before = rest@;
            let r = rest.remove(0);
            assert(all[c] == r.model()) by {
                assert(models(before)[0] == all.skip(c)[0]);
            }
            assert(all.take(c + 1).drop_last() =~= all.take(c));
            assert(all.take(c + 1).last() == all[c]);
            let ghost prev = self.stored();
            self.add_result(r);
            assert(self.stored() == added(prev, all[c]));
            assert(models(rest@) =~= all.skip(c + 1)) by {
                assert(models(before).drop_first() =~= models(rest@));
            }
        }
        assert(all.take(n as int) =~= all);
    }

    /// Every stored record with its score, best first; equal scores keep
    /// insertion order.
    pub fn get_ordered_results(&self) -> (r: Vec<Result>)
        requires
            self.wf(),
        ensures
            models(r@) == ordered(self.engine_weights@, self.stored()),
    {
        let ghost ws = self.engine_weights@;
        let ghost sc = self.stored().map_values(|m: ResultModel| scored(ws, m));
        let mut out: Vec<Result> = Vec::new();
        let mut i: usize = 0;
        while i < self.results.len()
            invariant
                i <= self.results@.len(),
                ws == self.engine_weights@,
                sc == self.stored().map_values(|m: ResultModel| scored(ws, m)),
                models(out@) == sort_desc(sc.take(i as int)),
            decreases self.results@.len() - i,
        {
            let mut x = self.results[i].duplicate();
            x.calculate_score(&self.engine_weights);
            assert(x.model() == sc[i as int]);
            let ghost s0 = models(out@);
            let mut k: usize = 0;
            while k < out.len() && out[k].score >= x.score
                invariant
                    k <= out@.len(),
                    s0 == models(out@),
                    forall|j: int| 0 <= j < k ==> s0[j].score >= x.score,
                decreases out@.len() - k,
            {
                k = k + 1;
            }
            proof {
                lemma_insert_at(s0, x.model(), k as int);
                assert(sc.take(i + 1).drop_last() =~= sc.take(i as int));
            }
            let ghost xm = x.model();
            out.insert(k, x);
            assert(models(out@) =~= s0.take(k as int) + seq![xm] + s0.skip(k as int));
            i = i + 1;
        }
        assert(sc.take(self.results@.len() as int) =~= sc);
        out
    }

    /// Page `page` (1-based; 0 counts as 1) of `per_page` ranked results.
    pub fn get_results_page(&self, page: usize, per_page: usize) -> (r: Vec<Result>)
        requires
            self.wf(),
        ensures
            ({
                let all = ordered(self.engine_weights@, self.stored());
                let start = (if page == 0 { 0 } else { page - 1 }) * per_page;
                let lo = if start < all.len() { start } else { all.len() as int };
                let hi = if start + per_page < all.len() { start + per_page } else { all.len() as int };
                models(r@) == all.subrange(lo, hi)
            }),
    {
        let mut all = self.get_ordered_results();
        let before = if page == 0 {
            0
        } else {
            page - 1
        };
        assert(before as int * per_page as int <= u64::MAX as int * u64::MAX as int) by (nonlinear_arith)
            requires
                before <= u64::MAX,
                per_page <= u64::MAX,
        ;
        let start: u128 = before as u128 * per_page as u128;
        let n = all.len();
        let ghost a = models(all@);
        if start >= n as u128 {
            let empty: Vec<Result> = Vec::new();
            assert(models(empty@) =~= a.subrange(n as int, n as int));
            return empty;
        }
        let s = start as usize;
        let mut tail = all.split_off(s);
        if per_page < tail.len() {
            tail.truncate(per_page);
        }
        assert(models(tail@) =~= a.subrange(s as int, if s + per_page < n { s + per_page } else { n as int }));
        tail
    }

    /// Adds an answer unless one with the same text is stored.
    pub fn add_answer(&mut self, answer: Answer)
        ensures
            final(self).suggestions == old(self).suggestions,
            final(self).infoboxes == old(self).infoboxes,
                final(self).unresponsive_engines == old(self).unresponsive_engines,
                final(self).timings == old(self).timings,
            final(self).keys == old(self).keys,
            final(self).results == old(self).results,
            final(self).engine_weights == old(self).engine_weights,
            final(self).answers@ == answer_added(old(self).answers@, answer),
    {
        let mut i: usize = 0;
        while i < self.answers.len()
            invariant
                self.suggestions == old(self).suggestions,
                self.infoboxes == old(self).infoboxes,
                i <= self.answers@.len(),
                self.answers == old(self).answers,
                self.unresponsive_engines == old(self).unresponsive_engines,
                self.timings == old(self).timings,
                self.keys == old(self).keys,
                self.results == old(self).results,
                self.engine_weights == old(self).engine_weights,
                forall|j: int| 0 <= j < i ==> self.answers@[j].answer@ != answer.answer@,
            decreases self.answers@.len() - i,
        {
            if self.answers[i].answer == answer.answer {
                return;
            }
            i = i + 1;
        }
        self.answers.push(answer);
    }

    /// Adds a suggestion unless the same text from the same engine is stored.
    pub fn add_suggestion(&mut self, suggestion: Suggestion)
        ensures
            final(self).answers == old(self).answers,
            final(self).infoboxes == old(self).infoboxes,
                final(self).unresponsive_engines == old(self).unresponsive_engines,
                final(self).timings == old(self).timings,
            final(self).keys == old(self).keys,
            final(self).results == old(self).results,
            final(self).engine_weights == old(self).engine_weights,
            final(self).suggestions@ == suggestion_added(old(self).suggestions@, suggestion),
    {
        let mut i: usize = 0;
        while i < self.suggestions.len()
            invariant
                self.answers == old(self).answers,
                self.infoboxes == old(self).infoboxes,
                i <= self.suggestions@.len(),
                self.suggestions == old(self).suggestions,
                self.unresponsive_engines == old(self).unresponsive_engines,
                self.timings == old(self).timings,
                self.keys == old(self).keys,
                self.results == old(self).results,
                self.engine_weights == old(self).engine_weights,
                forall|j: int| 0 <= j < i ==> !(self.suggestions@[j].text@ == suggestion.text@ && self.suggestions@[j].engine@ == suggestion.engine@),
            decreases self.suggestions@.len() - i,
        {
            if self.suggestions[i].text == suggestion.text && self.suggestions[i].engine == suggestion.engine {
                return;
            }
            i = i + 1;
        }
        self.suggestions.push(suggestion);
    }

    /// Adds a correction unless the same text from the same engine is stored.
    pub fn add_correction(&mut self, correction: Correction)
        ensures
            final(self).answers == old(self).answers,
            final(self).suggestions == old(self).suggestions,
            final(self).infoboxes == old(self).infoboxes,
                final(self).unresponsive_engines == old(self).unresponsive_engines,
                final(self).timings == old(self).timings,
            final(self).keys == old(self).keys,
            final(self).results == old(self).results,
            final(self).engine_weights == old(self).engine_weights,
            final(self).corrections@ == if (exists|j: int| 0 <= j < old(self).corrections@.len() && #[trigger] old(self).corrections@[j].text@ == correction.text@ && old(self).corrections@[j].engine@ == correction.engine@) {
                old(self).corrections@
            } else {
                old(self).corrections@.push(correction)
            },
    {
        let mut i: usize = 0;
        while i < self.corrections.len()
            invariant
                self.answers == old(self).answers,
                self.suggestions == old(self).suggestions,
                self.infoboxes == old(self).infoboxes,
                i <= self.corrections@.len(),
                self.corrections == old(self).corrections,
                self.unresponsive_engines == old(self).unresponsive_engines,
                self.timings == old(self).timings,
                self.keys == old(self).keys,
                self.results == old(self).results,
                self.engine_weights == old(self).engine_weights,
                forall|j: int| 0 <= j < i ==> !(self.corrections@[j].text@ == correction.text@ && self.corrections@[j].engine@ == correction.engine@),
            decreases self.corrections@.len() - i,
        {
            if self.corrections[i].text == correction.text && self.corrections[i].engine == correction.engine {
                return;
            }
            i = i + 1;
        }
        self.corrections.push(correction);
    }

    /// Adds an infobox; one with the same id is replaced only by one with longer content.
    pub fn add_infobox(&mut self, infobox: InfoBox)
        ensures
            final(self).answers == old(self).answers,
            final(self).suggestions == old(self).suggestions,
                final(self).unresponsive_engines == old(self).unresponsive_engines,
                final(self).timings == old(self).timings,
            final(self).keys == old(self).keys,
            final(self).results == old(self).results,
            final(self).engine_weights == old(self).engine_weights,
            final(self).infoboxes@ == infobox_added(old(self).infoboxes@, infobox),
    {
        let mut i: usize = 0;
        let ghost bs = self.infoboxes@;
        assert(bs.skip(0) =~= bs);
        while i < self.infoboxes.len()
            invariant
                self.answers == old(self).answers,
                self.suggestions == old(self).suggestions,
                i <= self.infoboxes@.len(),
                self.infoboxes@ == bs,
                bs == old(self).infoboxes@,
                self.unresponsive_engines == old(self).unresponsive_engines,
                self.timings == old(self).timings,
                self.keys == old(self).keys,
                self.results == old(self).results,
                self.engine_weights == old(self).engine_weights,
                infobox_slot(bs, infobox.id@) == infobox_slot_from(bs, infobox.id@, i as int),
            decreases self.infoboxes@.len() - i,
        {
            if self.infoboxes[i].id == infobox.id {
                let new_len = opt_len(&infobox.content);
                let old_len = opt_len(&self.infoboxes[i].content);
                if new_len > old_len {
                    self.infoboxes.set(i, infobox);
                }
                return;
            }
            i = i + 1;
        }
        self.infoboxes.push(infobox);
    }

    /// Records an engine that failed.
    pub fn add_unresponsive(&mut self, name: String, error: EngineError)
        ensures
            final(self).answers == old(self).answers,
            final(self).suggestions == old(self).suggestions,
            final(self).infoboxes == old(self).infoboxes,
                final(self).timings == old(self).timings,
            final(self).keys == old(self).keys,
            final(self).results == old(self).results,
            final(self).engine_weights == old(self).engine_weights,
            final(self).unresponsive_engines@.len() == old(self).unresponsive_engines@.len() + 1,
            final(self).unresponsive_engines@.drop_last() == old(self).unresponsive_engines@,
            final(self).unresponsive_engines@.last().name@ == name@,
            final(self).unresponsive_engines@.last().error == error,
    {
        self.unresponsive_engines.push(UnresponsiveEngine { name, error });
        assert(self.unresponsive_engines@.drop_last() =~= old(self).unresponsive_engines@);
    }

    /// Records an engine's timing.
    pub fn add_timing(&mut self, timing: Timing)
        ensures
            final(self).answers == old(self).answers,
            final(self).suggestions == old(self).suggestions,
            final(self).infoboxes == old(self).infoboxes,
                final(self).unresponsive_engines == old(self).unresponsive_engines,
            final(self).keys == old(self).keys,
            final(self).results == old(self).results,
            final(self).engine_weights == old(self).engine_weights,
            final(self).timings@ == old(self).timings@.push(timing),
    {
        self.timings.push(timing);
    }

    /// Sets the redirect URL (last writer wins).
    pub fn set_redirect(&mut self, url: String)
        ensures
                final(self).unresponsive_engines == old(self).unresponsive_engines,
                final(self).timings == old(self).timings,
            final(self).keys == old(self).keys,
            final(self).results == old(self).results,
            final(self).engine_weights == old(self).engine_weights,
            opt_str(final(self).redirect_url) == Some(url@),
    {
        self.redirect_url = Some(url);
    }

    pub fn get_redirect(&self) -> (r: Option<String>)
        ensures
            opt_str(r) == opt_str(self.redirect_url),
    {
        crate::results::dup_opt(&self.redirect_url)
    }

    pub fn get_answers(&self) -> (r: &Vec<Answer>)
        ensures
            r@ == self.answers@,
    {
        &self.answers
    }

    pub fn get_suggestions(&self) -> (r: &Vec<Suggestion>)
        ensures
            r@ == self.suggestions@,
    {
        &self.suggestions
    }

    pub fn get_corrections(&self) -> (r: &Vec<Correction>)
        ensures
            r@ == self.corrections@,
    {
        &self.corrections
    }

    pub fn get_infoboxes(&self) -> (r: &Vec<InfoBox>)
        ensures
            r@ == self.infoboxes@,
    {
        &self.infoboxes
    }

    pub fn get_unresponsive(&self) -> (r: &Vec<UnresponsiveEngine>)
        ensures
            r@ == self.unresponsive_engines@,
    {
        &self.unresponsive_engines
    }

    pub fn get_timings(&self) -> (r: &Vec<Timing>)
        ensures
            r@ == self.timings@,
    {
        &self.timings
    }

    /// Number of distinct stored results.
    pub fn result_count(&self) -> (r: usize)
        ensures
            r == self.results@.len(),
    {
        self.results.len()
    }

    /// Number of distinct engines among the stored results.
    pub fn engine_count(&self) -> (r: usize)
        ensures
            r == all_engines(self.stored()).len(),
    {
        let mut seen: Vec<String> = Vec::new();
        let mut i: usize = 0;
        let ghost rs = self.stored();
        assert(strs(seen@) =~= all_engines(rs.take(0)));
        while i < self.results.len()
            invariant
                i <= self.results@.len(),
                rs == self.stored(),
                strs(seen@) == all_engines(rs.take(i as int)),
            decreases self.results@.len() - i,
        {
            let es = &self.results[i].engines;
            let mut j: usize = 0;
            assert(rs.take(i + 1).drop_last() =~= rs.take(i as int));
            assert(rs[i as int].engines == strs(es@));
            assert(strs(es@).take(0) =~= Seq::<Seq<char>>::empty());
            while j < es.len()
                invariant
                    j <= es@.len(),
                    strs(seen@) == crate::results::union_engines(all_engines(rs.take(i as int)), strs(es@).take(j as int)),
                decreases es@.len() - j,
            {
                assert(strs(es@).take(j + 1).drop_last() =~= strs(es@).take(j as int));
                crate::results::insert_distinct(&mut seen, &es[j]);
                j = j + 1;
            }
            assert(strs(es@).take(es@.len() as int) =~= strs(es@));
            i = i + 1;
        }
        assert(rs.take(rs.len() as int) =~= rs);
        proof {
            lemma_all_engines_distinct(rs);
            strs(seen@).unique_seq_to_set();
        }
        seen.len()
    }
}

/// Every engine named by any record, in first-seen order, without repetition.
pub open spec fn all_engines(rs: Seq<ResultModel>) -> Seq<Seq<char>>
    decreases rs.len(),
{
    if rs.len() == 0 {
        seq![]
    } else {
        crate::results::union_engines(all_engines(rs.drop_last()), rs.last().engines)
    }
}

proof fn lemma_all_engines_distinct(rs: Seq<ResultModel>)
    ensures
        all_engines(rs).no_duplicates(),
    decreases rs.len(),
{
    if rs.len() > 0 {
        lemma_all_engines_distinct(rs.drop_last());
        lemma_union_distinct(all_engines(rs.drop_last()), rs.last().engines);
    }
}

proof fn lemma_union_distinct(a: Seq<Seq<char>>, b: Seq<Seq<char>>)
    requires
        a.no_duplicates(),
    ensures
        crate::results::union_engines(a, b).no_duplicates(),
    decreases b.len(),
{
    if b.len() > 0 {
        lemma_union_distinct(a, b.drop_last());
        let u = crate::results::union_engines(a, b.drop_last());
        let e = b.last();
        if !u.contains(e) {
            assert forall|i: int, j: int| 0 <= i < j < u.push(e).len() implies u.push(e)[i] != u.push(e)[j] by {
                if j == u.len() {
                    assert(u.push(e)[i] == u[i]);
                }
            }
        }
    }
}

/// Answers after adding `a`: unchanged when one with the same text is stored.
pub open spec fn answer_added(s: Seq<Answer>, a: Answer) -> Seq<Answer> {
    if exists|j: int| 0 <= j < s.len() && #[trigger] s[j].answer@ == a.answer@ {
        s
    } else {
        s.push(a)
    }
}

/// Answers after adding each of `items` in order.
pub open spec fn answers_added_all(s: Seq<Answer>, items: Seq<Answer>) -> Seq<Answer>
    decreases items.len(),
{
    if items.len() == 0 {
        s
    } else {
        answer_added(answers_added_all(s, items.drop_last()), items.last())
    }
}

/// Suggestions after adding each of `items` in order.
pub open spec fn suggestions_added_all(s: Seq<Suggestion>, items: Seq<Suggestion>) -> Seq<Suggestion>
    decreases items.len(),
{
    if items.len() == 0 {
        s
    } else {
        suggestion_added(suggestions_added_all(s, items.drop_last()), items.last())
    }
}

/// Infoboxes after adding each of `items` in order.
pub open spec fn infoboxes_added_all(s: Seq<InfoBox>, items: Seq<InfoBox>) -> Seq<InfoBox>
    decreases items.len(),
{
    if items.len() == 0 {
        s
    } else {
        infobox_added(infoboxes_added_all(s, items.drop_last()), items.last())
    }
}

/// Suggestions after adding `x`: unchanged when the same text from the same engine is stored.
pub open spec fn suggestion_added(s: Seq<Suggestion>, x: Suggestion) -> Seq<Suggestion> {
    if exists|j: int| 0 <= j < s.len() && #[trigger] s[j].text@ == x.text@ && s[j].engine@ == x.engine@ {
        s
    } else {
        s.push(x)
    }
}

/// Infoboxes after adding `b`: one with the same id is replaced only by longer content.
pub open spec fn infobox_added(bs: Seq<InfoBox>, b: InfoBox) -> Seq<InfoBox> {
    match infobox_slot(bs, b.id@) {
        Some(i) => if content_len(b.content) > content_len(bs[i].content) {
            bs.update(i, b)
        } else {
            bs
        },
        None => bs.push(b),
    }
}

pub open spec fn content_len(c: Option<String>) -> nat {
    match c {
        Some(s) => s@.len(),
        None => 0,
    }
}

fn opt_len(c: &Option<String>) -> (r: usize)
    ensures
        r == content_len(*c),
{
    match c {
        Some(s) => s.as_str().unicode_len(),
        None => 0,
    }
}

/// Index of the first infobox with id `id`, searching from `i`.
pub open spec fn infobox_slot_from(bs: Seq<InfoBox>, id: Seq<char>, i: int) -> Option<int>
    decreases bs.len() - i,
{
    if i < 0 || i >= bs.len() {
        None
    } else if bs[i].id@ == id {
        Some(i)
    } else {
        infobox_slot_from(bs, id, i + 1)
    }
}

pub open spec fn infobox_slot(bs: Seq<InfoBox>, id: Seq<char>) -> Option<int> {
    infobox_slot_from(bs, id, 0)
}

proof fn lemma_find_key_unique(rs: Seq<ResultModel>, k: Seq<char>, i: int)
    requires
        0 <= i < rs.len(),
        dedup_key(rs[i].url) == k,
        forall|j: int| 0 <= j < i ==> dedup_key(rs[j].url) != k,
    ensures
        find_key(rs, k) == Some(i),
    decreases rs.len(),
{
    if i < rs.len() - 1 {
        let t = rs.drop_last();
        lemma_find_key_unique(t, k, i);
    } else {
        lemma_find_key_absent(rs.drop_last(), k);
    }
}

proof fn lemma_find_key_absent(rs: Seq<ResultModel>, k: Seq<char>)
    requires
        forall|j: int| 0 <= j < rs.len() ==> dedup_key(rs[j].url) != k,
    ensures
        find_key(rs, k) is None,
    decreases rs.len(),
{
    if rs.len() > 0 {
        lemma_find_key_absent(rs.drop_last(), k);
    }
}


proof fn lemma_find_key_none(rs: Seq<ResultModel>, k: Seq<char>)
    requires
        find_key(rs, k) is None,
    ensures
        forall|j: int| 0 <= j < rs.len() ==> dedup_key(#[trigger] rs[j].url) != k,
    decreases rs.len(),
{
    if rs.len() > 0 {
        lemma_find_key_none(rs.drop_last(), k);
        assert forall|j: int| 0 <= j < rs.len() implies dedup_key(#[trigger] rs[j].url) != k by {
            if j < rs.len() - 1 {
                assert(rs[j] == rs.drop_last()[j]);
            }
        }
    }
}

/// Adding two results whose URLs share a key, when no stored record has
/// it, leaves one new record: it names the engines of both (in order,
/// without repetition) and holds the first's positions followed by the
/// second's.
pub proof fn same_key_results_merge(rs: Seq<ResultModel>, a: ResultModel, b: ResultModel)
    requires
        dedup_key(a.url) == dedup_key(b.url),
        find_key(rs, dedup_key(a.url)) is None,
    ensures
        added(added(rs, a), b).len() == rs.len() + 1,
        added(added(rs, a), b).take(rs.len() as int) == rs,
        added(added(rs, a), b)[rs.len() as int].engines == crate::results::union_engines(a.engines, b.engines),
        added(added(rs, a), b)[rs.len() as int].positions == a.positions + b.positions,
        a.engines == seq![a.engine] && b.engines == seq![b.engine] ==> added(added(rs, a), b)[rs.len() as int].engines.to_set() == set![a.engine, b.engine],
{
    let k = dedup_key(a.url);
    let r1 = rs.push(a);
    lemma_find_key_none(rs, k);
    assert forall|j: int| 0 <= j < rs.len() implies dedup_key(r1[j].url) != k by {
        assert(r1[j] == rs[j]);
    }
    lemma_find_key_unique(r1, k, rs.len() as int);
    let r2 = added(r1, b);
    assert(r2 == r1.update(rs.len() as int, merge_model(a, b)));
    assert(r2.take(rs.len() as int) =~= rs);
    if a.engines == seq![a.engine] && b.engines == seq![b.engine] {
        let u = crate::results::union_engines(a.engines, b.engines);
        assert(seq![b.engine].drop_last() =~= Seq::<Seq<char>>::empty());
        assert(b.engines.drop_last() =~= Seq::<Seq<char>>::empty());
        assert(b.engines.last() == b.engine);
        assert(crate::results::union_engines(a.engines, b.engines.drop_last()) == a.engines);
        assert(u == crate::results::add_engine(a.engines, b.engine));
        if a.engine == b.engine {
            assert(a.engines.contains(b.engine)) by {
                assert(a.engines[0] == b.engine);
            }
            assert(u.to_set() =~= set![a.engine, b.engine]) by {
                assert forall|x: Seq<char>| u.to_set().contains(x) <==> set![a.engine, b.engine].contains(x) by {
                    if u.to_set().contains(x) {
                        assert(u.contains(x));
                        let i = choose|i: int| 0 <= i < u.len() && u[i] == x;
                        assert(x == a.engine);
                    }
                    if x == a.engine {
                        assert(u[0] == x);
                    }
                }
            }
        } else {
            assert(!a.engines.contains(b.engine)) by {
                if a.engines.contains(b.engine) {
                    let i = choose|i: int| 0 <= i < a.engines.len() && a.engines[i] == b.engine;
                    assert(i == 0);
                }
            }
            assert(u == seq![a.engine, b.engine]);
            assert(u.to_set() =~= set![a.engine, b.engine]) by {
                assert forall|x: Seq<char>| u.to_set().contains(x) <==> set![a.engine, b.engine].contains(x) by {
                    if u.to_set().contains(x) {
                        let i = choose|i: int| 0 <= i < u.len() && u[i] == x;
                    }
                    if x == a.engine {
                        assert(u[0] == x);
                    }
                    if x == b.engine {
                        assert(u[1] == x);
                    }
                }
            }
        }
    }
}

proof fn lemma_insert_sorted(s: Seq<ResultModel>, x: ResultModel)
    requires
        forall|i: int, j: int| 0 <= i < j < s.len() ==> s[i].score >= s[j].score,
    ensures
        insert_desc(s, x).len() == s.len() + 1,
        forall|i: int, j: int| 0 <= i < j < insert_desc(s, x).len() ==> insert_desc(s, x)[i].score >= insert_desc(s, x)[j].score,
        forall|i: int| 0 <= i < insert_desc(s, x).len() ==> (insert_desc(s, x)[i] == x || s.contains(insert_desc(s, x)[i])),
    decreases s.len(),
{
    if s.len() > 0 && s[0].score >= x.score {
        let t = s.drop_first();
        lemma_insert_sorted(t, x);
        let r = insert_desc(s, x);
        assert(r == seq![s[0]] + insert_desc(t, x));
        assert forall|i: int| 0 <= i < r.len() implies (r[i] == x || s.contains(r[i])) by {
            if i == 0 {
                assert(s[0] == r[0]);
            } else {
                assert(r[i] == insert_desc(t, x)[i - 1]);
                if insert_desc(t, x)[i - 1] != x {
                    let k = choose|k: int| 0 <= k < t.len() && t[k] == r[i];
                    assert(s[k + 1] == r[i]);
                }
            }
        }
        assert forall|i: int, j: int| 0 <= i < j < r.len() implies r[i].score >= r[j].score by {
            if i == 0 {
                assert(r[j] == insert_desc(t, x)[j - 1]);
                if r[j] != x {
                    let k = choose|k: int| 0 <= k < t.len() && t[k] == r[j];
                    assert(s[k + 1] == r[j]);
                }
            } else {
                assert(r[i] == insert_desc(t, x)[i - 1]);
                assert(r[j] == insert_desc(t, x)[j - 1]);
            }
        }
    } else if s.len() > 0 {
        let r = insert_desc(s, x);
        assert(r == seq![x] + s);
        assert forall|i: int| 0 <= i < r.len() implies (r[i] == x || s.contains(r[i])) by {
            if i > 0 {
                assert(r[i] == s[i - 1]);
            }
        }
        assert forall|i: int, j: int| 0 <= i < j < r.len() implies r[i].score >= r[j].score by {
            if i == 0 {
                assert(r[j] == s[j - 1]);
                assert(s[0].score >= s[j - 1].score || j - 1 == 0);
            } else {
                assert(r[i] == s[i - 1]);
                assert(r[j] == s[j - 1]);
            }
        }
    }
}

proof fn lemma_sort_sorted(s: Seq<ResultModel>)
    ensures
        sort_desc(s).len() == s.len(),
        forall|i: int, j: int| 0 <= i < j < sort_desc(s).len() ==> sort_desc(s)[i].score >= sort_desc(s)[j].score,
    decreases s.len(),
{
    if s.len() > 0 {
        lemma_sort_sorted(s.drop_last());
        lemma_insert_sorted(sort_desc(s.drop_last()), s.last());
    }
}

/// The records whose score is `k`, in order.
pub open spec fn with_score(s: Seq<ResultModel>, k: u64) -> Seq<ResultModel>
    decreases s.len(),
{
    if s.len() == 0 {
        seq![]
    } else if s.last().score == k {
        with_score(s.drop_last(), k).push(s.last())
    } else {
        with_score(s.drop_last(), k)
    }
}

proof fn lemma_with_score_concat(a: Seq<ResultModel>, b: Seq<ResultModel>, k: u64)
    ensures
        with_score(a + b, k) == with_score(a, k) + with_score(b, k),
    decreases b.len(),
{
    if b.len() == 0 {
        assert(a + b =~= a);
        assert(with_score(a, k) + with_score(b, k) =~= with_score(a, k));
    } else {
        lemma_with_score_concat(a, b.drop_last(), k);
        assert((a + b).drop_last() =~= a + b.drop_last());
        assert((a + b).last() == b.last());
        if b.last().score == k {
            assert(with_score(a, k) + with_score(b.drop_last(), k).push(b.last()) =~= (with_score(a, k) + with_score(b.drop_last(), k)).push(b.last()));
        }
    }
}

proof fn lemma_with_score_single(x: ResultModel, k: u64)
    ensures
        with_score(seq![x], k) == if x.score == k { seq![x] } else { Seq::<ResultModel>::empty() },
{
    let xs = seq![x];
    assert(xs.drop_last() =~= Seq::<ResultModel>::empty());
    assert(with_score(xs.drop_last(), k) == Seq::<ResultModel>::empty());
    assert(xs.last() == x);
    assert(Seq::<ResultModel>::empty().push(x) =~= xs);
}

proof fn lemma_with_score_none(s: Seq<ResultModel>, k: u64)
    requires
        forall|i: int| 0 <= i < s.len() ==> s[i].score < k,
    ensures
        with_score(s, k) == Seq::<ResultModel>::empty(),
    decreases s.len(),
{
    if s.len() > 0 {
        lemma_with_score_none(s.drop_last(), k);
    }
}

proof fn lemma_insert_keeps_ties(t: Seq<ResultModel>, x: ResultModel, k: u64)
    requires
        forall|i: int, j: int| 0 <= i < j < t.len() ==> t[i].score >= t[j].score,
    ensures
        with_score(insert_desc(t, x), k) == with_score(t, k) + with_score(seq![x], k),
    decreases t.len(),
{
    let xs = seq![x];
    lemma_with_score_single(x, k);
    if t.len() == 0 {
        assert(t + xs =~= xs);
        assert(with_score(t, k) =~= Seq::<ResultModel>::empty());
        assert(with_score(t, k) + with_score(xs, k) =~= with_score(xs, k));
    } else if t[0].score >= x.score {
        let rest = t.drop_first();
        lemma_insert_keeps_ties(rest, x, k);
        let h = seq![t[0]];
        assert(t =~= h + rest);
        lemma_with_score_concat(h, insert_desc(rest, x), k);
        lemma_with_score_concat(h, rest, k);
        assert(with_score(h, k) + (with_score(rest, k) + with_score(xs, k)) =~= (with_score(h, k) + with_score(rest, k)) + with_score(xs, k));
    } else {
        lemma_with_score_concat(xs, t, k);
        if x.score == k {
            assert forall|i: int| 0 <= i < t.len() implies t[i].score < k by {
                if i > 0 {
                    assert(t[0].score >= t[i].score);
                }
            }
            lemma_with_score_none(t, k);
            assert(with_score(xs, k) + with_score(t, k) =~= with_score(t, k) + with_score(xs, k));
        } else {
            assert(with_score(xs, k) =~= Seq::<ResultModel>::empty());
            assert(with_score(xs, k) + with_score(t, k) =~= with_score(t, k) + with_score(xs, k));
        }
    }
}

proof fn lemma_sort_keeps_ties(s: Seq<ResultModel>, k: u64)
    ensures
        with_score(sort_desc(s), k) == with_score(s, k),
    decreases s.len(),
{
    if s.len() > 0 {
        lemma_sort_keeps_ties(s.drop_last(), k);
        lemma_sort_sorted(s.drop_last());
        lemma_insert_keeps_ties(sort_desc(s.drop_last()), s.last(), k);
        let xs = seq![s.last()];
        lemma_with_score_single(s.last(), k);
        if s.last().score == k {
            assert(with_score(s.drop_last(), k) + with_score(xs, k) =~= with_score(s.drop_last(), k).push(s.last()));
        } else {
            assert(with_score(s.drop_last(), k) + with_score(xs, k) =~= with_score(s.drop_last(), k));
        }
    }
}

/// Records with equal scores keep their insertion order in the ranking:
/// for every score, the ranked records with that score are exactly the
/// scored records with that score, in the order they were stored.
pub proof fn ties_keep_insertion_order(ws: Seq<(String, u32)>, rs: Seq<ResultModel>, k: u64)
    ensures
        with_score(ordered(ws, rs), k) == with_score(rs.map_values(|r: ResultModel| scored(ws, r)), k),
{
    lemma_sort_keeps_ties(rs.map_values(|r: ResultModel| scored(ws, r)), k);
}

/// The ranked list holds one entry per stored record, with scores that
/// never rise down the list; it depends on the weights and the stored
/// records alone, so two reads of an unchanged container agree.
pub proof fn ordered_results_are_ranked(ws: Seq<(String, u32)>, rs: Seq<ResultModel>)
    ensures
        ordered(ws, rs).len() == rs.len(),
        forall|i: int, j: int| 0 <= i < j < rs.len() ==> ordered(ws, rs)[i].score >= ordered(ws, rs)[j].score,
        forall|ws2: Seq<(String, u32)>, rs2: Seq<ResultModel>| ws2 == ws && rs2 == rs ==> ordered(ws2, rs2) == ordered(ws, rs),
{
    lemma_sort_sorted(rs.map_values(|r: ResultModel| scored(ws, r)));
}

proof fn lemma_share_monotone(b: u64, p: u32, q: u32)
    requires
        p <= q,
    ensures
        rank_share(b, q) <= rank_share(b, p),
{
    let dp: int = if p == 0 { 1 } else { p as int };
    let dq: int = if q == 0 { 1 } else { q as int };
    vstd::arithmetic::div_mod::lemma_div_is_ordered_by_denominator(b as int * 1000, dp, dq);
}

proof fn lemma_position_score_monotone(b: u64, ps: Seq<u32>, i: int, p: u32)
    requires
        0 <= i < ps.len(),
        ps[i] <= p,
    ensures
        position_score(b, ps.update(i, p)) <= position_score(b, ps),
    decreases ps.len(),
{
    let qs = ps.update(i, p);
    if i == ps.len() - 1 {
        assert(qs.drop_last() =~= ps.drop_last());
        lemma_share_monotone(b, ps[i], p);
    } else {
        assert(qs.drop_last() =~= ps.drop_last().update(i, p));
        lemma_position_score_monotone(b, ps.drop_last(), i, p);
    }
}

/// Moving one of a result's positions to a worse (larger) rank never
/// raises its score.
pub proof fn worse_rank_never_raises_score(ws: Seq<(String, u32)>, r: ResultModel, i: int, p: u32)
    requires
        0 <= i < r.positions.len(),
        r.positions[i] <= p,
    ensures
        result_score(ws, ResultModel { positions: r.positions.update(i, p), ..r }) <= result_score(ws, r),
{
    lemma_position_score_monotone(boosted_weight(ws, r.engines), r.positions, i, p);
}

/// A result from two engines of weight 1 at positions `first` and `second` scores
/// 2 * (1/first + 1/second), each share in millionths rounded down.
pub proof fn two_engine_score(ws: Seq<(String, u32)>, r: ResultModel, first: u32, second: u32)
    requires
        r.engines.len() == 2,
        r.engines[0] != r.engines[1],
        weight_of(ws, r.engines[0]) == 1000,
        weight_of(ws, r.engines[1]) == 1000,
        r.positions == seq![first, second],
        first >= 1,
        second >= 1,
    ensures
        result_score(ws, r) == 2_000_000int / (first as int) + 2_000_000int / (second as int),
{
    let es = r.engines;
    assert(es.drop_last().drop_last() =~= Seq::<Seq<char>>::empty());
    assert(es.drop_last().last() == es[0]);
    assert(es.last() == es[1]);
    assert(weight_product(ws, es.drop_last().drop_last()) == 1000);
    assert((1000int * 1000) / 1000 == 1000);
    assert(weight_product(ws, es.drop_last()) == 1000);
    assert(weight_product(ws, es) == 1000);
    assert(boosted_weight(ws, es) == 2000);
    let ps = r.positions;
    assert(ps.drop_last().drop_last() =~= Seq::<u32>::empty());
    assert(ps.drop_last() =~= seq![first]);
    vstd::arithmetic::div_mod::lemma_div_is_ordered_by_denominator(2_000_000, 1, first as int);
    vstd::arithmetic::div_mod::lemma_div_is_ordered_by_denominator(2_000_000, 1, second as int);
    assert(ps.drop_last().last() == first);
    assert(ps.last() == second);
    assert(position_score(2000, ps.drop_last().drop_last()) == 0);
    assert(rank_share(2000, first) == 2_000_000int / (first as int));
    assert(rank_share(2000, second) == 2_000_000int / (second as int));
    assert(position_score(2000, ps.drop_last()) == 2_000_000int / (first as int));
}

} // verus!
