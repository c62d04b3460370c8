//! Usage statistics: searches, per-engine searches, response times,
//! successes and errors.

use vstd::prelude::*;
use vstd::string::*;
use crate::text::str_eq;

verus! {

/// Value stored under `e` (first match from index `i`), 0 when absent.
pub open spec fn count_from(v: Seq<(String, u64)>, e: Seq<char>, i: int) -> u64
    decreases v.len() - i,
{
    if i < 0 || i >= v.len() {
        0
    } else if v[i].0@ == e {
        v[i].1
    } else {
        count_from(v, e, i + 1)
    }
}

pub open spec fn count_of(v: Seq<(String, u64)>, e: Seq<char>) -> u64 {
    count_from(v, e, 0)
}

pub open spec fn inc(x: u64) -> u64 {
    if x == u64::MAX {
        x
    } else {
        (x + 1) as u64
    }
}

proof fn lemma_count_absent(v: Seq<(String, u64)>, e: Seq<char>, i: int)
    requires
        0 <= i <= v.len(),
        forall|j: int| i <= j < v.len() ==> v[j].0@ != e,
    ensures
        count_from(v, e, i) == 0,
    decreases v.len() - i,
{
    if i < v.len() {
        lemma_count_absent(v, e, i + 1);
    }
}

proof fn lemma_count_push(v: Seq<(String, u64)>, p: (String, u64), e: Seq<char>, i: int)
    requires
        0 <= i <= v.len(),
        p.0@ == e ==> forall|j: int| i <= j < v.len() ==> v[j].0@ != e,
    ensures
        count_from(v.push(p), e, i) == if p.0@ == e { p.1 } else { count_from(v, e, i) },
    decreases v.len() - i,
{
    if i < v.len() {
        lemma_count_push(v, p, e, i + 1);
    } else if p.0@ != e {
        assert(count_from(v.push(p), e, i + 1) == 0);
    }
}

proof fn lemma_count_update(v: Seq<(String, u64)>, k: int, p: (String, u64), e: Seq<char>, i: int)
    requires
        0 <= i <= v.len(),
        0 <= k < v.len(),
        v[k].0@ == p.0@,
        forall|j: int| 0 <= j < k ==> v[j].0@ != p.0@,
    ensures
        count_from(v.update(k, p), e, i) == if p.0@ == e && i <= k { p.1 } else { count_from(v, e, i) },
    decreases v.len() - i,
{
    if i < v.len() {
        lemma_count_update(v, k, p, e, i + 1);
    }
}

/// Adds one to the counter of `e` (saturating), creating it at 1.
fn bump(v: &mut Vec<(String, u64)>, e: &str)
    requires
        keys_unique(old(v)@),
    ensures
        keys_unique(final(v)@),
        forall|x: Seq<char>| #[trigger] count_of(final(v)@, x) == if x == e@ { inc(count_of(old(v)@, x)) } else { count_of(old(v)@, x) },
{
    let mut i: usize = 0;
    while i < v.len()
        invariant
            i <= v@.len(),
            v@ == old(v)@,
            keys_unique(old(v)@),
            forall|j: int| 0 <= j < i ==> v@[j].0@ != e@,
            forall|x: Seq<char>| x == e@ ==> count_of(v@, x) == count_from(v@, x, i as int),
        decreases v@.len() - i,
    {
        if str_eq(v[i].0.as_str(), e) {
            let c = v[i].1;
            let n = if c == u64::MAX {
                c
            } else {
                c + 1
            };
            let ghost pre = v@;
            let k = v[i].0.clone();
            v.set(i, (k, n));
            proof {
                assert forall|x: Seq<char>| #[trigger] count_of(v@, x) == if x == e@ { inc(count_of(pre, x)) } else { count_of(pre, x) } by {
                    lemma_count_update(pre, i as int, (k, n), x, 0);
                }
                assert forall|a: int, b: int| 0 <= a < b < v@.len() implies v@[a].0@ != v@[b].0@ by {
                    assert(v@[a].0@ == pre[a].0@);
                    assert(v@[b].0@ == pre[b].0@);
                }
            }
            return;
        }
        i = i + 1;
    }
    let ghost pre = v@;
    let p = (String::from_str(e), 1u64);
    v.push(p);
    proof {
        lemma_count_absent(pre, e@, 0);
        assert forall|x: Seq<char>| #[trigger] count_of(v@, x) == if x == e@ { inc(count_of(pre, x)) } else { count_of(pre, x) } by {
            assert(v@ == pre.push(p));
            lemma_count_push(pre, p, x, 0);
        }
    }
}

fn lookup(v: &Vec<(String, u64)>, e: &str) -> (r: u64)
    ensures
        r == count_of(v@, e@),
{
    let mut i: usize = 0;
    while i < v.len()
        invariant
            i <= v@.len(),
            count_of(v@, e@) == count_from(v@, e@, i as int),
        decreases v@.len() - i,
    {
        if str_eq(v[i].0.as_str(), e) {
            return v[i].1;
        }
        i = i + 1;
    }
    0
}

pub open spec fn keys_unique(v: Seq<(String, u64)>) -> bool {
    forall|a: int, b: int| 0 <= a < b < v.len() ==> v[a].0@ != v[b].0@
}

pub open spec fn times_keys_unique(v: Seq<(String, Vec<u64>)>) -> bool {
    forall|a: int, b: int| 0 <= a < b < v.len() ==> v[a].0@ != v[b].0@
}

/// Index of the response-time list of `e`.
pub open spec fn times_index(v: Seq<(String, Vec<u64>)>, e: Seq<char>) -> Option<int> {
    if exists|i: int| 0 <= i < v.len() && #[trigger] v[i].0@ == e {
        Some(choose|i: int| 0 <= i < v.len() && #[trigger] v[i].0@ == e)
    } else {
        None
    }
}

/// The response times kept for `e`, oldest first.
pub open spec fn times_of(v: Seq<(String, Vec<u64>)>, e: Seq<char>) -> Seq<u64> {
    match times_index(v, e) {
        Some(i) => v[i].1@,
        None => seq![],
    }
}

pub open spec fn sum(s: Seq<u64>) -> nat
    decreases s.len(),
{
    if s.len() == 0 {
        0
    } else {
        sum(s.drop_last()) + s.last() as nat
    }
}

/// The times after recording `t`: the oldest is dropped once 100 are kept.
pub open spec fn recorded(s: Seq<u64>, t: u64) -> Seq<u64> {
    if s.len() >= 100 {
        s.drop_first().push(t)
    } else {
        s.push(t)
    }
}

proof fn lemma_times_index(v: Seq<(String, Vec<u64>)>, e: Seq<char>, i: int)
    requires
        times_keys_unique(v),
        0 <= i < v.len(),
        v[i].0@ == e,
    ensures
        times_index(v, e) == Some(i),
{
    let c = choose|c: int| 0 <= c < v.len() && #[trigger] v[c].0@ == e;
    if c < i {
        assert(v[c].0@ != v[i].0@);
    } else if c > i {
        assert(v[i].0@ != v[c].0@);
    }
}

/// Entries whose keys are kept, and whose lists change only under other
/// keys or at new positions with other keys, keep the lists of `e`.
proof fn lemma_times_other(pre: Seq<(String, Vec<u64>)>, post: Seq<(String, Vec<u64>)>, e: Seq<char>)
    requires
        times_keys_unique(pre),
        times_keys_unique(post),
        pre.len() <= post.len(),
        forall|j: int| 0 <= j < pre.len() ==> post[j].0@ == pre[j].0@,
        forall|j: int| 0 <= j < pre.len() && pre[j].0@ == e ==> post[j].1@ == pre[j].1@,
        forall|j: int| pre.len() <= j < post.len() ==> post[j].0@ != e,
    ensures
        times_of(post, e) == times_of(pre, e),
{
    if exists|j: int| 0 <= j < pre.len() && #[trigger] pre[j].0@ == e {
        let j = choose|j: int| 0 <= j < pre.len() && #[trigger] pre[j].0@ == e;
        lemma_times_index(pre, e, j);
        lemma_times_index(post, e, j);
    } else {
        assert(!exists|j: int| 0 <= j < post.len() && #[trigger] post[j].0@ == e) by {
            if exists|j: int| 0 <= j < post.len() && #[trigger] post[j].0@ == e {
                let j = choose|j: int| 0 <= j < post.len() && #[trigger] post[j].0@ == e;
                if j < pre.len() {
                    assert(pre[j].0@ == e);
                }
            }
        }
    }
}

/// Counters of the searches served and of each engine's behaviour.
pub struct Metrics {
    pub total_searches: u64,
    pub engine_searches: Vec<(String, u64)>,
    /// Up to the last 100 response times of each engine, in milliseconds.
    pub engine_response_times: Vec<(String, Vec<u64>)>,
    pub engine_errors: Vec<(String, u64)>,
    pub engine_successes: Vec<(String, u64)>,
}

impl Metrics {
    pub open spec fn wf(&self) -> bool {
        &&& keys_unique(self.engine_searches@)
        &&& keys_unique(self.engine_errors@)
        &&& keys_unique(self.engine_successes@)
        &&& times_keys_unique(self.engine_response_times@)
        &&& forall|i: int| 0 <= i < self.engine_response_times@.len() ==> (#[trigger] self.engine_response_times@[i]).1@.len() <= 100
    }

    pub fn new() -> (r: Metrics)
        ensures
            r.wf(),
            r.total_searches == 0,
            forall|e: Seq<char>| count_of(r.engine_searches@, e) == 0,
            forall|e: Seq<char>| count_of(r.engine_errors@, e) == 0,
            forall|e: Seq<char>| count_of(r.engine_successes@, e) == 0,
            forall|e: Seq<char>| times_of(r.engine_response_times@, e).len() == 0,
    {
        Metrics {
            total_searches: 0,
            engine_searches: Vec::new(),
            engine_response_times: Vec::new(),
            engine_errors: Vec::new(),
            engine_successes: Vec::new(),
        }
    }

    /// Counts one search (saturating).
    pub fn inc_search(&mut self)
        ensures
            final(self).total_searches == inc(old(self).total_searches),
            final(self).engine_searches == old(self).engine_searches,
            final(self).engine_response_times == old(self).engine_response_times,
            final(self).engine_errors == old(self).engine_errors,
            final(self).engine_successes == old(self).engine_successes,
    {
        if self.total_searches < u64::MAX {
            self.total_searches = self.total_searches + 1;
        }
    }

    pub fn record_engine_search(&mut self, engine: &str)
        requires
            old(self).wf(),
        ensures
            final(self).wf(),
            final(self).total_searches == old(self).total_searches,
            final(self).engine_response_times == old(self).engine_response_times,
            final(self).engine_errors == old(self).engine_errors,
            final(self).engine_successes == old(self).engine_successes,
            forall|x: Seq<char>| #[trigger] count_of(final(self).engine_searches@, x) == if x == engine@ { inc(count_of(old(self).engine_searches@, x)) } else { count_of(old(self).engine_searches@, x) },
    {
        bump(&mut self.engine_searches, engine);
    }

    pub fn record_error(&mut self, engine: &str)
        requires
            old(self).wf(),
        ensures
            final(self).wf(),
            final(self).total_searches == old(self).total_searches,
            final(self).engine_searches == old(self).engine_searches,
            final(self).engine_response_times == old(self).engine_response_times,
            final(self).engine_successes == old(self).engine_successes,
            forall|x: Seq<char>| #[trigger] count_of(final(self).engine_errors@, x) == if x == engine@ { inc(count_of(old(self).engine_errors@, x)) } else { count_of(old(self).engine_errors@, x) },
    {
        bump(&mut self.engine_errors, engine);
    }

    pub fn record_success(&mut self, engine: &str)
        requires
            old(self).wf(),
        ensures
            final(self).wf(),
            final(self).total_searches == old(self).total_searches,
            final(self).engine_searches == old(self).engine_searches,
            final(self).engine_response_times == old(self).engine_response_times,
            final(self).engine_errors == old(self).engine_errors,
            forall|x: Seq<char>| #[trigger] count_of(final(self).engine_successes@, x) == if x == engine@ { inc(count_of(old(self).engine_successes@, x)) } else { count_of(old(self).engine_successes@, x) },
    {
        bump(&mut self.engine_successes, engine);
    }

    /// Records a response time, keeping the last 100.
    pub fn record_response_time(&mut self, engine: &str, time_ms: u64)
        requires
            old(self).wf(),
        ensures
            final(self).wf(),
            times_of(final(self).engine_response_times@, engine@) == recorded(times_of(old(self).engine_response_times@, engine@), time_ms),
            forall|e: Seq<char>| e != engine@ ==> #[trigger] times_of(final(self).engine_response_times@, e) == times_of(old(self).engine_response_times@, e),
            final(self).total_searches == old(self).total_searches,
            final(self).engine_searches == old(self).engine_searches,
            final(self).engine_errors == old(self).engine_errors,
            final(self).engine_successes == old(self).engine_successes,
    {
        let mut i: usize = 0;
        while i < self.engine_response_times.len()
            invariant
                self.wf(),
                self.engine_response_times == old(self).engine_response_times,
                self.total_searches == old(self).total_searches,
                self.engine_searches == old(self).engine_searches,
                self.engine_errors == old(self).engine_errors,
                self.engine_successes == old(self).engine_successes,
                i <= self.engine_response_times@.len(),
                forall|j: int| 0 <= j < i ==> self.engine_response_times@[j].0@ != engine@,
            decreases self.engine_response_times@.len() - i,
        {
            if str_eq(self.engine_response_times[i].0.as_str(), engine) {
                let ghost pre = self.engine_response_times@;
                let mut times = self.engine_response_times[i].1.clone();
                assert(times@ == pre[i as int].1@) by {
                    assert(times@ =~= pre[i as int].1@);
                }
                if times.len() >= 100 {
                    times.remove(0);
                }
                times.push(time_ms);
                let k = self.engine_response_times[i].0.clone();
                self.engine_response_times.set(i, (k, times));
                proof {
                    lemma_times_index(pre, engine@, i as int);
                    assert(self.engine_response_times@[i as int].0@ == engine@);
                    assert forall|a: int, b: int| 0 <= a < b < self.engine_response_times@.len() implies self.engine_response_times@[a].0@ != self.engine_response_times@[b].0@ by {
                        assert(self.engine_response_times@[a].0@ == pre[a].0@);
                        assert(self.engine_response_times@[b].0@ == pre[b].0@);
                    }
                    lemma_times_index(self.engine_response_times@, engine@, i as int);
                    assert(times@ =~= recorded(pre[i as int].1@, time_ms));
                    assert forall|e: Seq<char>| e != engine@ implies #[trigger] times_of(self.engine_response_times@, e) == times_of(pre, e) by {
                        lemma_times_other(pre, self.engine_response_times@, e);
                    }
                }
                return;
            }
            i = i + 1;
        }
        let ghost pre = self.engine_response_times@;
        let mut times: Vec<u64> = Vec::new();
        times.push(time_ms);
        self.engine_response_times.push((String::from_str(engine), times));
        proof {
            assert(times_index(pre, engine@) is None);
            let n = pre.len() as int;
            assert(self.engine_response_times@[n].0@ == engine@);
            assert(times_index(self.engine_response_times@, engine@) == Some(n));
            assert(times@ =~= seq![time_ms]);
            assert(recorded(Seq::<u64>::empty(), time_ms) =~= seq![time_ms]);
            assert forall|e: Seq<char>| e != engine@ implies #[trigger] times_of(self.engine_response_times@, e) == times_of(pre, e) by {
                lemma_times_other(pre, self.engine_response_times@, e);
            }
        }
    }

    pub fn get_total_searches(&self) -> (r: u64)
        ensures
            r == self.total_searches,
    {
        self.total_searches
    }

    /// Mean of the kept response times (rounded down); none when there are none.
    pub fn get_avg_response_time(&self, engine: &str) -> (r: Option<u64>)
        requires
            self.wf(),
        ensures
            times_of(self.engine_response_times@, engine@).len() == 0 ==> r is None,
            times_of(self.engine_response_times@, engine@).len() > 0 ==> r == Some(
                (sum(times_of(self.engine_response_times@, engine@)) / times_of(self.engine_response_times@, engine@).len()) as u64,
            ),
    {
        let mut i: usize = 0;
        while i < self.engine_response_times.len()
            invariant
                self.wf(),
                i <= self.engine_response_times@.len(),
                forall|j: int| 0 <= j < i ==> self.engine_response_times@[j].0@ != engine@,
            decreases self.engine_response_times@.len() - i,
        {
            if str_eq(self.engine_response_times[i].0.as_str(), engine) {
                let t = &self.engine_response_times[i].1;
                proof {
                    lemma_times_index(self.engine_response_times@, engine@, i as int);
                    assert(self.engine_response_times@[i as int].1@.len() <= 100);
                }
                if t.len() == 0 {
                    return None;
                }
                let mut total: u128 = 0;
                let mut j: usize = 0;
                while j < t.len()
                    invariant
                        j <= t@.len() <= 100,
                        total == sum(t@.take(j as int)),
                        total <= j * (u64::MAX as int),
                    decreases t@.len() - j,
                {
                    assert(t@.take(j + 1).drop_last() =~= t@.take(j as int));
                    total = total + t[j] as u128;
                    j = j + 1;
                }
                assert(t@.take(t@.len() as int) =~= t@);
                let avg = total / (t.len() as u128);
                proof {
                    assert(total <= 100 * (u64::MAX as int));
                    assert(avg <= total);
                    assert(avg <= u64::MAX) by (nonlinear_arith)
                        requires
                            avg as int == total as int / (t@.len() as int),
                            total <= t@.len() * (u64::MAX as int),
                            t@.len() >= 1,
                    ;
                }
                return Some(avg as u64);
            }
            i = i + 1;
        }
        proof {
            assert(times_index(self.engine_response_times@, engine@) is None);
        }
        None
    }

    /// Searches recorded for an engine.
    pub fn engine_search_count(&self, engine: &str) -> (r: u64)
        ensures
            r == count_of(self.engine_searches@, engine@),
    {
        lookup(&self.engine_searches, engine)
    }

    /// Errors recorded for an engine.
    pub fn error_count(&self, engine: &str) -> (r: u64)
        ensures
            r == count_of(self.engine_errors@, engine@),
    {
        lookup(&self.engine_errors, engine)
    }

    /// Successes recorded for an engine.
    pub fn success_count(&self, engine: &str) -> (r: u64)
        ensures
            r == count_of(self.engine_successes@, engine@),
    {
        lookup(&self.engine_successes, engine)
    }
}

} // verus!
