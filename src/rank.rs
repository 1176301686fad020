//! Similarity ranking. Scores are IEEE-754 singles carried as their bit
//! patterns; once clamped into [0.0, 1.0] a score's bit pattern orders
//! exactly as the number does, so ranking works on the patterns.

use vstd::prelude::*;
use crate::search::SearchResult;

verus! {

/// Bit pattern of 1.0.
pub const ONE_BITS: u32 = 0x3F80_0000;

/// Largest bit pattern of a positive number (+infinity); larger patterns
/// with the sign bit clear are NaN.
pub const INFINITY_BITS: u32 = 0x7F80_0000;

/// Bit pattern of `max(x, 0.0).min(1.0)` for the single with pattern `bits`:
/// negatives, negative zero and NaN become 0.0, anything above 1.0 becomes
/// 1.0.
pub open spec fn clamp_unit(bits: u32) -> u32 {
    if bits >= 0x8000_0000 {
        0
    } else if bits > INFINITY_BITS {
        0
    } else if bits > ONE_BITS {
        ONE_BITS
    } else {
        bits
    }
}

/// Clamps a score (as bit pattern) into [0.0, 1.0].
pub fn clamp_score(bits: u32) -> (r: u32)
    ensures
        r == clamp_unit(bits),
        r <= ONE_BITS,
{
    if bits >= 0x8000_0000 {
        0
    } else if bits > INFINITY_BITS {
        0
    } else if bits > ONE_BITS {
        ONE_BITS
    } else {
        bits
    }
}

/// A candidate with its similarity to the query (bit pattern of a single).
pub struct Scored {
    pub score: u32,
    pub result: SearchResult,
}

pub open spec fn clamped(s: Seq<Scored>) -> Seq<Scored> {
    s.map_values(|x: Scored| Scored { score: clamp_unit(x.score), result: x.result })
}

/// Number of entries of `s` scoring at least `k`.
pub open spec fn count_at_least(s: Seq<Scored>, k: u32) -> int
    decreases s.len(),
{
    if s.len() == 0 {
        0
    } else {
        count_at_least(s.drop_last(), k) + if s.last().score >= k {
            1int
        } else {
            0int
        }
    }
}

/// Stable sort by descending score: each entry, in input order, goes after
/// every entry already placed that scores at least as much.
pub open spec fn sort_desc(s: Seq<Scored>) -> Seq<Scored>
    decreases s.len(),
{
    if s.len() == 0 {
        Seq::empty()
    } else {
        let t = sort_desc(s.drop_last());
        t.insert(count_at_least(t, s.last().score), s.last())
    }
}

pub open spec fn sorted_desc(s: Seq<Scored>) -> bool {
    forall|i: int, j: int| 0 <= i < j < s.len() ==> #[trigger] s[i].score >= #[trigger] s[j].score
}

pub open spec fn with_score(x: Scored) -> SearchResult {
    SearchResult { score: Some(x.score), ..x.result }
}

/// The ranked answer: clamped, sorted, cut to `limit`, each result carrying
/// its score.
pub open spec fn ranked(s: Seq<Scored>, limit: int) -> Seq<SearchResult> {
    let t = sort_desc(clamped(s));
    let n = if t.len() > limit {
        limit
    } else {
        t.len() as int
    };
    t.take(n).map_values(|x: Scored| with_score(x))
}

proof fn lemma_count_bounds(s: Seq<Scored>, k: u32)
    ensures
        0 <= count_at_least(s, k) <= s.len(),
    decreases s.len(),
{
    if s.len() > 0 {
        lemma_count_bounds(s.drop_last(), k);
    }
}

proof fn lemma_count_splits(s: Seq<Scored>, k: u32)
    requires
        sorted_desc(s),
    ensures
        forall|i: int| 0 <= i < count_at_least(s, k) ==> #[trigger] s[i].score >= k,
        forall|i: int| count_at_least(s, k) <= i < s.len() ==> #[trigger] s[i].score < k,
    decreases s.len(),
{
    lemma_count_bounds(s, k);
    if s.len() > 0 {
        let p = s.drop_last();
        assert(sorted_desc(p));
        lemma_count_splits(p, k);
        lemma_count_bounds(p, k);
        if s.last().score >= k {
            assert forall|i: int| 0 <= i < count_at_least(s, k) implies #[trigger] s[i].score
                >= k by {
                if i < s.len() - 1 {
                    assert(s[i].score >= s[s.len() - 1].score);
                }
            }
            if count_at_least(p, k) < p.len() {
                let c = count_at_least(p, k);
                assert(s[c].score >= s[s.len() - 1].score);
                assert(p[c] == s[c]);
            }
        } else {
            assert forall|i: int| 0 <= i < count_at_least(s, k) implies #[trigger] s[i].score
                >= k by {
                assert(s[i] == p[i]);
            }
            assert forall|i: int| count_at_least(s, k) <= i < s.len() implies #[trigger] s[i].score
                < k by {
                if i < s.len() - 1 {
                    assert(s[i] == p[i]);
                }
            }
        }
    }
}

/// The ranking order is by descending score, and it holds every candidate.
pub proof fn lemma_sort_desc_sorted(s: Seq<Scored>)
    ensures
        sorted_desc(sort_desc(s)),
        sort_desc(s).len() == s.len(),
    decreases s.len(),
{
    if s.len() > 0 {
        let t = sort_desc(s.drop_last());
        let x = s.last();
        lemma_sort_desc_sorted(s.drop_last());
        lemma_count_splits(t, x.score);
        lemma_count_bounds(t, x.score);
        let c = count_at_least(t, x.score);
        let u = t.insert(c, x);
        assert forall|i: int, j: int| 0 <= i < j < u.len() implies #[trigger] u[i].score
            >= #[trigger] u[j].score by {
            if j < c {
                assert(u[i] == t[i] && u[j] == t[j]);
            } else if j == c {
                assert(u[i] == t[i]);
            } else if i < c {
                assert(u[i] == t[i] && u[j] == t[j - 1]);
            } else if i == c {
                assert(u[j] == t[j - 1]);
            } else {
                assert(u[i] == t[i - 1] && u[j] == t[j - 1]);
            }
        }
    }
}

/// Ranks scored candidates: every score is clamped into [0.0, 1.0], the
/// candidates are sorted by descending score (ties keep input order), at
/// most `limit` are kept, and each result carries its clamped score.
pub fn rank_scored(candidates: Vec<Scored>, limit: u32) -> (r: Vec<SearchResult>)
    ensures
        r@ == ranked(candidates@, limit as int),
        forall|i: int|
            0 <= i < r.len() ==> (#[trigger] r@[i]).score is Some && r@[i].score->0 <= ONE_BITS,
        forall|i: int, j: int|
            0 <= i < j < r.len() ==> (#[trigger] r@[i]).score->0 >= (#[trigger] r@[j]).score->0,
{
    let ghost input = candidates@;
    let total = candidates.len();
    let mut sorted: Vec<Scored> = Vec::new();
    let mut n: usize = 0;
    for x in it: candidates.into_iter()
        invariant
            it.seq() == input,
            n == it.index(),
            n <= input.len(),
            input.len() == total,
            sorted@ == sort_desc(clamped(input.take(n as int))),
            forall|i: int| 0 <= i < sorted.len() ==> (#[trigger] sorted@[i]).score <= ONE_BITS,
    {
        assert(n < input.len());
        let c = clamp_score(x.score);
        let item = Scored { score: c, result: x.result };
        let ghost before = sorted@;
        proof {
            lemma_sort_desc_sorted(clamped(input.take(n as int)));
        }
        let mut p: usize = 0;
        let mut j: usize = 0;
        while j < sorted.len()
            invariant
                sorted@ == before,
                j <= sorted.len(),
                p <= j,
                p == count_at_least(sorted@.take(j as int), c),
            decreases sorted.len() - j,
        {
            assert(sorted@.take(j + 1).drop_last() =~= sorted@.take(j as int));
            if sorted[j].score >= c {
                p = p + 1;
            }
            j = j + 1;
        }
        assert(sorted@.take(sorted.len() as int) =~= sorted@);
        assert(clamped(input.take(n + 1)).drop_last() =~= clamped(input.take(n as int)));
        assert(clamped(input.take(n + 1)).last() == item);
        sorted.insert(p, item);
        n = n + 1;
    }
    assert(input.take(input.len() as int) =~= input);
    proof {
        lemma_sort_desc_sorted(clamped(input));
    }
    let ghost all = sorted@;
    let mut out: Vec<SearchResult> = Vec::new();
    let mut k: usize = 0;
    for x in it: sorted.into_iter()
        invariant
            it.seq() == all,
            k == if it.index() <= limit { it.index() as int } else { limit as int },
            k <= all.len(),
            out@ == all.take(k as int).map_values(|x: Scored| with_score(x)),
    {
        if k < limit as usize {
            let mut res = x.result;
            res.score = Some(x.score);
            assert(all[k as int] == x);
            assert(res == with_score(x));
            out.push(res);
            assert(all.take(k + 1).map_values(|x: Scored| with_score(x)) =~= all.take(
                k as int,
            ).map_values(|x: Scored| with_score(x)).push(with_score(x)));
            k = k + 1;
        }
    }
    out
}

} // verus!
