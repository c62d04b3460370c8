//! Character-sequence helpers shared by the parsers.

use vstd::prelude::*;

verus! {

/// Relies on `str::chars` collected into a `Vec`: the characters of `s` in order.
#[verifier::external_body]
pub fn chars_of(s: &str) -> (r: Vec<char>)
    ensures
        r@ == s@,
{
    s.chars().collect()
}

/// Relies on `String: FromIterator<char>`: the string made of the characters in order.
#[verifier::external_body]
pub fn string_of(v: &Vec<char>) -> (r: String)
    ensures
        r@ == v@,
{
    v.iter().collect()
}

/// The characters that `char::is_whitespace` accepts (Unicode `White_Space`).
pub open spec fn is_ws(c: char) -> bool {
    ('\u{9}' <= c && c <= '\u{d}') || c == ' ' || c == '\u{85}' || c == '\u{a0}'
        || c == '\u{1680}' || ('\u{2000}' <= c && c <= '\u{200a}') || c == '\u{2028}'
        || c == '\u{2029}' || c == '\u{202f}' || c == '\u{205f}' || c == '\u{3000}'
}

pub fn is_whitespace(c: char) -> (r: bool)
    ensures
        r == is_ws(c),
{
    ('\u{9}' <= c && c <= '\u{d}') || c == ' ' || c == '\u{85}' || c == '\u{a0}'
        || c == '\u{1680}' || ('\u{2000}' <= c && c <= '\u{200a}') || c == '\u{2028}'
        || c == '\u{2029}' || c == '\u{202f}' || c == '\u{205f}' || c == '\u{3000}'
}

/// Left-to-right scan of `s[..i]`: the words completed so far and the word in progress.
pub open spec fn ws_scan(s: Seq<char>, i: nat) -> (Seq<Seq<char>>, Seq<char>)
    decreases i,
{
    if i == 0 || i > s.len() {
        (seq![], seq![])
    } else {
        let (done, cur) = ws_scan(s, (i - 1) as nat);
        let c = s[i - 1];
        if is_ws(c) {
            if cur.len() > 0 {
                (done.push(cur), seq![])
            } else {
                (done, seq![])
            }
        } else {
            (done, cur.push(c))
        }
    }
}

/// The maximal runs of non-whitespace characters of `s`, in order (as `split_whitespace`).
pub open spec fn words(s: Seq<char>) -> Seq<Seq<char>> {
    let (done, cur) = ws_scan(s, s.len());
    if cur.len() > 0 {
        done.push(cur)
    } else {
        done
    }
}

/// The words joined with single spaces.
pub open spec fn join_words(ws: Seq<Seq<char>>) -> Seq<char>
    decreases ws.len(),
{
    if ws.len() == 0 {
        seq![]
    } else if ws.len() == 1 {
        ws[0]
    } else {
        join_words(ws.drop_last()) + seq![' '] + ws.last()
    }
}

/// `s` with leading and trailing whitespace dropped and inner runs collapsed to one space.
pub open spec fn normalize_ws(s: Seq<char>) -> Seq<char> {
    join_words(words(s))
}

pub open spec fn views(v: Seq<Vec<char>>) -> Seq<Seq<char>> {
    v.map_values(|x: Vec<char>| x@)
}

/// Splits `s` into its whitespace-separated words.
pub fn split_words(s: &Vec<char>) -> (r: Vec<Vec<char>>)
    ensures
        views(r@) == words(s@),
{
    let mut done: Vec<Vec<char>> = Vec::new();
    let mut cur: Vec<char> = Vec::new();
    let mut i: usize = 0;
    while i < s.len()
        invariant
            i <= s@.len(),
            (views(done@), cur@) == ws_scan(s@, i as nat),
        decreases s@.len() - i,
    {
        let c = s[i];
        if is_whitespace(c) {
            if cur.len() > 0 {
                let ghost old_done = done@;
                let w = cur;
                done.push(w);
                cur = Vec::new();
                assert(views(done@) =~= views(old_done).push(w@));
            } else {
                cur = Vec::new();
            }
        } else {
            cur.push(c);
        }
        i = i + 1;
    }
    if cur.len() > 0 {
        let ghost old_done = done@;
        let w = cur;
        done.push(w);
        assert(views(done@) =~= views(old_done).push(w@));
    }
    done
}

/// Joins the words with single spaces.
pub fn join_with_spaces(ws: &Vec<Vec<char>>) -> (r: Vec<char>)
    ensures
        r@ == join_words(views(ws@)),
{
    let mut out: Vec<char> = Vec::new();
    let mut i: usize = 0;
    while i < ws.len()
        invariant
            i <= ws@.len(),
            out@ == join_words(views(ws@).take(i as int)),
        decreases ws@.len() - i,
    {
        assert(views(ws@).take(i + 1).drop_last() =~= views(ws@).take(i as int));
        if i > 0 {
            out.push(' ');
        }
        let w = &ws[i];
        let mut j: usize = 0;
        let ghost before = out@;
        while j < w.len()
            invariant
                j <= w@.len(),
                out@ == before + w@.take(j as int),
            decreases w@.len() - j,
        {
            out.push(w[j]);
            assert(w@.take(j + 1) =~= w@.take(j as int).push(w[j as int]));
            j = j + 1;
        }
        assert(w@.take(j as int) =~= w@);
        proof {
            if i == 0 {
                assert(before =~= seq![]);
            }
        }
        i = i + 1;
    }
    assert(views(ws@).take(ws@.len() as int) =~= views(ws@));
    out
}


/// A word: non-empty, without whitespace.
pub open spec fn is_word(w: Seq<char>) -> bool {
    w.len() > 0 && forall|i: int| 0 <= i < w.len() ==> !is_ws(w[i])
}

proof fn lemma_scan_prefix(x: Seq<char>, y: Seq<char>, i: nat)
    requires
        i <= x.len(),
        i <= y.len(),
        x.take(i as int) =~= y.take(i as int),
    ensures
        ws_scan(x, i) == ws_scan(y, i),
    decreases i,
{
    if i > 0 {
        assert(x.take(i - 1) =~= x.take(i as int).take(i - 1));
        assert(y.take(i - 1) =~= y.take(i as int).take(i - 1));
        assert(x[i - 1] == x.take(i as int)[i - 1]);
        assert(y[i - 1] == y.take(i as int)[i - 1]);
        lemma_scan_prefix(x, y, (i - 1) as nat);
    }
}

proof fn lemma_scan_word(s: Seq<char>, w: Seq<char>, j: nat)
    requires
        j <= w.len(),
        forall|k: int| 0 <= k < w.len() ==> !is_ws(w[k]),
    ensures
        ws_scan(s + w, s.len() + j) == (ws_scan(s, s.len()).0, ws_scan(s, s.len()).1 + w.take(
            j as int,
        )),
    decreases j,
{
    if j == 0 {
        lemma_scan_prefix(s + w, s, s.len());
        assert(w.take(0) =~= seq![]);
        assert(ws_scan(s, s.len()).1 + w.take(0) =~= ws_scan(s, s.len()).1);
    } else {
        lemma_scan_word(s, w, (j - 1) as nat);
        assert((s + w)[s.len() + j - 1] == w[j - 1]);
        assert(w.take(j as int) =~= w.take(j - 1).push(w[j - 1]));
        assert(ws_scan(s, s.len()).1 + w.take(j as int) =~= (ws_scan(s, s.len()).1 + w.take(j - 1)).push(w[j - 1]));
    }
}

proof fn lemma_scan_join(ws: Seq<Seq<char>>)
    requires
        ws.len() > 0,
        forall|k: int| 0 <= k < ws.len() ==> is_word(#[trigger] ws[k]),
    ensures
        ws_scan(join_words(ws), join_words(ws).len()) == (ws.drop_last(), ws.last()),
    decreases ws.len(),
{
    if ws.len() == 1 {
        let e: Seq<char> = seq![];
        lemma_scan_word(e, ws[0], ws[0].len());
        assert(e + ws[0] =~= ws[0]);
        assert(ws[0].take(ws[0].len() as int) =~= ws[0]);
        assert(e + ws[0] =~= ws[0]);
        assert(ws.drop_last() =~= seq![]);
    } else {
        let pre = ws.drop_last();
        assert forall|k: int| 0 <= k < pre.len() implies is_word(#[trigger] pre[k]) by {
            assert(pre[k] == ws[k]);
        }
        lemma_scan_join(pre);
        let j = join_words(pre);
        let js = j + seq![' '];
        assert(js.take(j.len() as int) =~= j);
        lemma_scan_prefix(js, j, j.len());
        assert(js[j.len() as int] == ' ');
        assert(pre.drop_last().push(pre.last()) =~= pre);
        let w = ws.last();
        assert(is_word(ws[ws.len() - 1]));
        lemma_scan_word(js, w, w.len());
        assert(w.take(w.len() as int) =~= w);
        let e: Seq<char> = seq![];
        assert(e + w =~= w);
        assert(ws_scan(js, js.len()) == (pre, e));
    }
}

/// Splitting words joined with single spaces gives the words back.
pub proof fn lemma_words_of_join(ws: Seq<Seq<char>>)
    requires
        forall|k: int| 0 <= k < ws.len() ==> is_word(#[trigger] ws[k]),
    ensures
        words(join_words(ws)) == ws,
{
    if ws.len() == 0 {
        assert(words(join_words(ws)) =~= ws);
    } else {
        lemma_scan_join(ws);
        assert(is_word(ws[ws.len() - 1]));
        assert(ws.drop_last().push(ws.last()) =~= ws);
    }
}

proof fn lemma_scan_words(s: Seq<char>, i: nat)
    requires
        i <= s.len(),
    ensures
        forall|k: int| 0 <= k < ws_scan(s, i).0.len() ==> is_word(#[trigger] ws_scan(s, i).0[k]),
        forall|k: int| 0 <= k < ws_scan(s, i).1.len() ==> !is_ws(#[trigger] ws_scan(s, i).1[k]),
    decreases i,
{
    if i > 0 {
        lemma_scan_words(s, (i - 1) as nat);
        let (done, cur) = ws_scan(s, (i - 1) as nat);
        let c = s[i - 1];
        if !is_ws(c) {
            assert forall|k: int| 0 <= k < cur.push(c).len() implies !is_ws(#[trigger] cur.push(c)[k]) by {
                if k < cur.len() {
                    assert(cur.push(c)[k] == cur[k]);
                }
            }
        } else if cur.len() > 0 {
            assert forall|k: int| 0 <= k < done.push(cur).len() implies is_word(#[trigger] done.push(cur)[k]) by {
                if k < done.len() {
                    assert(done.push(cur)[k] == done[k]);
                }
            }
        }
    }
}

/// Every element of `words(s)` is a word.
pub proof fn lemma_words_are_words(s: Seq<char>)
    ensures
        forall|k: int| 0 <= k < words(s).len() ==> is_word(#[trigger] words(s)[k]),
{
    lemma_scan_words(s, s.len());
    let (done, cur) = ws_scan(s, s.len());
    if cur.len() > 0 {
        assert forall|k: int| 0 <= k < done.push(cur).len() implies is_word(#[trigger] done.push(cur)[k]) by {
            if k < done.len() {
                assert(done.push(cur)[k] == done[k]);
            }
        }
    }
}


pub open spec fn has_prefix(s: Seq<char>, p: Seq<char>) -> bool {
    s.len() >= p.len() && s.take(p.len() as int) == p
}

/// `t[from..]` starts with `lit`.
pub fn starts_with_lit(t: &Vec<char>, from: usize, lit: &str) -> (r: bool)
    requires
        from <= t@.len(),
    ensures
        r == has_prefix(t@.skip(from as int), lit@),
{
    let n = lit.unicode_len();
    let tl = t.len();
    if tl - from < n {
        return false;
    }
    let mut i: usize = 0;
    while i < n
        invariant
            n == lit@.len(),
            tl == t@.len(),
            from + n <= tl,
            i <= n,
            forall|j: int| 0 <= j < i ==> t@[from + j] == lit@[j],
        decreases n - i,
    {
        if t[from + i] != lit.get_char(i) {
            assert(t@.skip(from as int).take(n as int)[i as int] != lit@[i as int]);
            return false;
        }
        i = i + 1;
    }
    assert(t@.skip(from as int).take(n as int) =~= lit@);
    true
}

/// The characters `t[lo..hi]`.
pub fn sub_chars(t: &Vec<char>, lo: usize, hi: usize) -> (r: Vec<char>)
    requires
        lo <= hi <= t@.len(),
    ensures
        r@ == t@.subrange(lo as int, hi as int),
{
    let mut r: Vec<char> = Vec::new();
    let mut i: usize = lo;
    while i < hi
        invariant
            lo <= i <= hi <= t@.len(),
            r@ == t@.subrange(lo as int, i as int),
        decreases hi - i,
    {
        r.push(t[i]);
        assert(t@.subrange(lo as int, i + 1) =~= t@.subrange(lo as int, i as int).push(t@[i as int]));
        i = i + 1;
    }
    r
}


/// `a` and `b` hold the same characters.
pub fn str_eq(a: &str, b: &str) -> (r: bool)
    ensures
        r == (a@ == b@),
{
    let n = a.unicode_len();
    if n != b.unicode_len() {
        return false;
    }
    let mut i: usize = 0;
    while i < n
        invariant
            n == a@.len(),
            n == b@.len(),
            i <= n,
            forall|j: int| 0 <= j < i ==> a@[j] == b@[j],
        decreases n - i,
    {
        if a.get_char(i) != b.get_char(i) {
            return false;
        }
        i = i + 1;
    }
    assert(a@ =~= b@);
    true
}

} // verus!
