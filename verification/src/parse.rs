//! Locating the JSON verdict inside a reasoning delegate's reply.
//!
//! The reply may carry the verdict in a fenced code block labeled
//! `json`, as a bare object, or buried inside prose.  The span finder
//! returns the byte range to hand to a JSON parser; any other shape
//! yields no span, and the caller falls back to a pass verdict rather
//! than failing the cycle.

use vstd::prelude::*;
use vstd::string::StringExecFns;
use crate::types::{Action, TradeDecision};

verus! {

/// Whether the pattern occurs in `h` at exactly position `i`.
pub open spec fn matches_at(h: Seq<u8>, pat: Seq<u8>, i: int) -> bool {
    &&& 0 <= i
    &&& i + pat.len() <= h.len()
    &&& h.subrange(i, i + pat.len()) == pat
}

/// The first position at or after `from` where the pattern occurs;
/// -1 when it never does.
pub open spec fn first_match(h: Seq<u8>, pat: Seq<u8>, from: int) -> int
    decreases h.len() + 1 - from,
{
    if from < 0 || from + pat.len() > h.len() {
        -1
    } else if matches_at(h, pat, from) {
        from
    } else {
        first_match(h, pat, from + 1)
    }
}

proof fn lemma_first_match_bounds(h: Seq<u8>, pat: Seq<u8>, from: int)
    requires
        0 <= from,
    ensures
        first_match(h, pat, from) == -1 || (from <= first_match(h, pat, from)
            && first_match(h, pat, from) + pat.len() <= h.len() && matches_at(
            h,
            pat,
            first_match(h, pat, from),
        )),
    decreases h.len() + 1 - from,
{
    if !(from + pat.len() > h.len()) && !matches_at(h, pat, from) {
        lemma_first_match_bounds(h, pat, from + 1);
    }
}

/// Whether `h` contains the pattern anywhere at or after `from`.
pub open spec fn contains_pat(h: Seq<u8>, pat: Seq<u8>, from: int) -> bool {
    first_match(h, pat, from) >= 0
}

fn pat_matches_here(h: &Vec<u8>, pat: &Vec<u8>, i: usize) -> (b: bool)
    requires
        i + pat@.len() <= h@.len(),
    ensures
        b == matches_at(h@, pat@, i as int),
{
    let m = pat.len();
    let hn = h.len();
    let mut k: usize = 0;
    while k < m
        invariant
            0 <= k <= m,
            m == pat@.len(),
            hn == h@.len(),
            i + m <= hn,
            forall|t: int| 0 <= t < k ==> h@[i + t] == pat@[t],
        decreases m - k,
    {
        if h[i + k] != pat[k] {
            proof {
                assert(h@.subrange(i as int, i + pat@.len())[k as int] != pat@[k as int]);
            }
            return false;
        }
        k = k + 1;
    }
    proof {
        assert(h@.subrange(i as int, i + pat@.len()) =~= pat@);
    }
    true
}

/// Find the first occurrence of the pattern at or after `from`.
pub fn find_pattern(h: &Vec<u8>, pat: &Vec<u8>, from: usize) -> (r: Option<usize>)
    requires
        pat@.len() >= 1,
    ensures
        match r {
            Some(i) => i == first_match(h@, pat@, from as int) && from <= i && i + pat@.len()
                <= h@.len() && matches_at(h@, pat@, i as int),
            None => !contains_pat(h@, pat@, from as int),
        },
{
    let n = h.len();
    let m = pat.len();
    if from > n || m > n - from {
        proof {
            lemma_first_match_bounds(h@, pat@, from as int);
        }
        return None;
    }
    let mut i: usize = from;
    while i <= n - m
        invariant
            from <= i,
            m <= n,
            i <= n - m + 1,
            n == h@.len(),
            m == pat@.len(),
            m >= 1,
            first_match(h@, pat@, from as int) == first_match(h@, pat@, i as int),
        decreases n - i,
    {
        if pat_matches_here(h, pat, i) {
            proof {
                lemma_first_match_bounds(h@, pat@, i as int);
            }
            return Some(i);
        }
        i = i + 1;
    }
    proof {
        lemma_first_match_bounds(h@, pat@, i as int);
    }
    None
}

/// ASCII whitespace, as the trim of a delegate reply treats it.
pub open spec fn is_ws(b: u8) -> bool {
    b == 32 || b == 9 || b == 10 || b == 13
}

/// Position of the first non-whitespace byte at or after `i`; the
/// length when all the rest is whitespace.
pub open spec fn skip_ws(h: Seq<u8>, i: int) -> int
    decreases h.len() - i,
{
    if i < 0 || i >= h.len() {
        h.len() as int
    } else if is_ws(h[i]) {
        skip_ws(h, i + 1)
    } else {
        i
    }
}

/// One past the last non-whitespace byte at or before `i`; -1…0 when
/// everything up to `i` is whitespace.
pub open spec fn rskip_ws(h: Seq<u8>, i: int) -> int
    decreases i + 1,
{
    if i < 0 || i >= h.len() {
        0
    } else if is_ws(h[i]) {
        rskip_ws(h, i - 1)
    } else {
        i + 1
    }
}

/// The byte range (start inclusive, end exclusive) of the JSON text
/// inside a delegate reply, per the three accepted shapes:
///
/// - a fenced block labeled `json`: from just after the label to the
///   closing fence (or the end when none closes);
/// - a reply that is a bare object after trimming: the trimmed range;
/// - otherwise, from the first `{` to the last `}`, when both exist
///   in that order.
pub open spec fn spec_json_span(h: Seq<u8>) -> Option<(int, int)> {
    let fence = seq![96u8, 96u8, 96u8, 106u8, 115u8, 111u8, 110u8];
    let close = seq![96u8, 96u8, 96u8];
    let f = first_match(h, fence, 0);
    if f >= 0 {
        let s = f + 7;
        let e = first_match(h, close, s);
        Some((s, if e >= 0 { e } else { h.len() as int }))
    } else {
        let ts = skip_ws(h, 0);
        let te = rskip_ws(h, h.len() - 1);
        if ts < h.len() && h[ts] == 123 {
            Some((ts, if te > ts { te } else { ts + 1 }))
        } else {
            let ob = first_match(h, seq![123u8], 0);
            let cb = last_match_of(h, 125u8);
            if ob >= 0 && cb >= ob {
                Some((ob, cb + 1))
            } else {
                None
            }
        }
    }
}

/// The last position of the byte `b`, or -1 when it never occurs.
pub open spec fn last_match_of(h: Seq<u8>, b: u8) -> int
    decreases h.len(),
{
    if h.len() == 0 {
        -1
    } else if h.last() == b {
        h.len() - 1
    } else {
        last_match_of(h.drop_last(), b)
    }
}

proof fn lemma_last_match_bounds(h: Seq<u8>, b: u8)
    ensures
        -1 <= last_match_of(h, b) < h.len(),
    decreases h.len(),
{
    if h.len() > 0 {
        lemma_last_match_bounds(h.drop_last(), b);
    }
}

fn find_last_byte(h: &Vec<u8>, b: u8) -> (r: Option<usize>)
    ensures
        match r {
            Some(i) => i == last_match_of(h@, b) && i < h@.len(),
            None => last_match_of(h@, b) == -1,
        },
{
    proof {
        lemma_last_match_bounds(h@, b);
    }
    let mut i = h.len();
    while i > 0
        invariant
            0 <= i <= h@.len(),
            last_match_of(h@, b) < i,
        decreases i,
    {
        i = i - 1;
        proof {
            lemma_last_match_prefix(h@, b, i as int);
        }
        if h[i] == b {
            return Some(i);
        }
    }
    None
}

/// If all bytes after `i` differ from `b`, the last match is at `i`
/// exactly when byte `i` is `b`.
proof fn lemma_last_match_prefix(h: Seq<u8>, b: u8, i: int)
    requires
        0 <= i < h.len(),
        last_match_of(h, b) < i + 1,
    ensures
        h[i] == b ==> last_match_of(h, b) == i,
        h[i] != b ==> last_match_of(h, b) < i,
    decreases h.len(),
{
    let front = h.drop_last();
    lemma_last_match_bounds(h, b);
    lemma_last_match_bounds(front, b);
    if i == h.len() - 1 {
        if h[i] != b {
            assert(last_match_of(h, b) == last_match_of(front, b));
        }
    } else {
        assert(front[i] == h[i]);
        assert(h.last() != b);
        assert(last_match_of(h, b) == last_match_of(front, b));
        lemma_last_match_prefix(front, b, i);
    }
}

fn fence_pattern() -> (p: Vec<u8>)
    ensures
        p@ == seq![96u8, 96u8, 96u8, 106u8, 115u8, 111u8, 110u8],
{
    let mut p: Vec<u8> = Vec::new();
    p.push(96);
    p.push(96);
    p.push(96);
    p.push(106);
    p.push(115);
    p.push(111);
    p.push(110);
    proof {
        assert(p@ =~= seq![96u8, 96u8, 96u8, 106u8, 115u8, 111u8, 110u8]);
    }
    p
}

fn close_pattern() -> (p: Vec<u8>)
    ensures
        p@ == seq![96u8, 96u8, 96u8],
{
    let mut p: Vec<u8> = Vec::new();
    p.push(96);
    p.push(96);
    p.push(96);
    proof {
        assert(p@ =~= seq![96u8, 96u8, 96u8]);
    }
    p
}

fn brace_pattern() -> (p: Vec<u8>)
    ensures
        p@ == seq![123u8],
{
    let mut p: Vec<u8> = Vec::new();
    p.push(123);
    proof {
        assert(p@ =~= seq![123u8]);
    }
    p
}

/// Locate the JSON text inside a delegate reply, as a byte range.
pub fn extract_json_span(raw: &Vec<u8>) -> (r: Option<(usize, usize)>)
    ensures
        match r {
            Some((s, e)) => spec_json_span(raw@) == Some((s as int, e as int)) && s <= e
                && e <= raw@.len(),
            None => spec_json_span(raw@) is None,
        },
{
    let n = raw.len();
    let fence = fence_pattern();
    match find_pattern(raw, &fence, 0) {
        Some(f) => {
            let s = f + 7;
            let close = close_pattern();
            let e = match find_pattern(raw, &close, s) {
                Some(e) => e,
                None => n,
            };
            proof {
                lemma_first_match_bounds(raw@, close@, s as int);
            }
            Some((s, if e >= s { e } else { s }))
        },
        None => {
            let ts = skip_ws_exec(raw, 0);
            let te = rskip_ws_exec(raw);
            if ts < n && raw[ts] == 123 {
                Some((ts, if te > ts { te } else { ts + 1 }))
            } else {
                let brace = brace_pattern();
                match find_pattern(raw, &brace, 0) {
                    Some(ob) => match find_last_byte(raw, 125) {
                        Some(cb) => if cb >= ob {
                            Some((ob, cb + 1))
                        } else {
                            None
                        },
                        None => None,
                    },
                    None => None,
                }
            }
        },
    }
}

fn skip_ws_exec(h: &Vec<u8>, from: usize) -> (r: usize)
    requires
        from <= h@.len(),
    ensures
        r == skip_ws(h@, from as int),
        from <= r <= h@.len(),
    decreases h@.len() - from,
{
    if from >= h.len() {
        return from;
    }
    let b = h[from];
    if b == 32 || b == 9 || b == 10 || b == 13 {
        skip_ws_exec(h, from + 1)
    } else {
        from
    }
}

proof fn lemma_rskip_bounds(h: Seq<u8>, j: int)
    ensures
        0 <= rskip_ws(h, j),
        rskip_ws(h, j) <= if j + 1 > 0 { j + 1 } else { 0int },
    decreases j + 1,
{
    if 0 <= j && j < h.len() && is_ws(h[j]) {
        lemma_rskip_bounds(h, j - 1);
    }
}

fn rskip_ws_exec(h: &Vec<u8>) -> (r: usize)
    ensures
        r == rskip_ws(h@, h@.len() - 1),
        r <= h@.len(),
{
    proof {
        lemma_rskip_bounds(h@, h@.len() - 1);
    }
    let mut i = h.len();
    while i > 0
        invariant
            0 <= i <= h@.len(),
            rskip_ws(h@, h@.len() - 1) == rskip_ws(h@, i - 1),
            rskip_ws(h@, i - 1) <= i,
        decreases i,
    {
        let b = h[i - 1];
        if !(b == 32 || b == 9 || b == 10 || b == 13) {
            return i;
        }
        proof {
            lemma_rskip_bounds(h@, i - 2);
        }
        i = i - 1;
    }
    0
}

/// The fixed pass verdict used when no JSON span can be located in a
/// delegate reply: one bad completion must not end the cycle.
pub fn parse_failure_decision() -> (d: TradeDecision)
    ensures
        d.action == Action::Pass,
        d.side is None,
        d.shares is None,
        d.max_price_cents is None,
        d.edge_magnitude == 0,
        d.wf(),
        d.reasoning@ == "Failed to parse the delegate reply"@,
{
    TradeDecision {
        action: Action::Pass,
        side: None,
        shares: None,
        max_price_cents: None,
        reasoning: "Failed to parse the delegate reply".to_owned(),
        edge_magnitude: 0,
    }
}

} // verus!
