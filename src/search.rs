//! Search results and the federated merge: per-collection quotas, first-wins
//! de-duplication by (kind, id), and the global result budget.

use vstd::prelude::*;

verus! {

/// Collection that a search result comes from.
#[derive(Clone, Copy, Debug, PartialEq, Eq, Structural)]
pub enum ResultKind {
    Project,
    Source,
    Note,
    Canvas,
}

impl ResultKind {
    /// Wire name of the kind.
    pub fn as_str(&self) -> (r: &'static str)
        ensures
            r@ == kind_name(*self),
    {
        match self {
            ResultKind::Project => "project",
            ResultKind::Source => "source",
            ResultKind::Note => "note",
            ResultKind::Canvas => "canvas",
        }
    }
}

pub open spec fn kind_name(k: ResultKind) -> Seq<char> {
    match k {
        ResultKind::Project => "project"@,
        ResultKind::Source => "source"@,
        ResultKind::Note => "note"@,
        ResultKind::Canvas => "canvas"@,
    }
}

/// A point in time: whole seconds since the Unix epoch and the nanoseconds
/// past that second.
#[derive(Clone, Copy, Debug, PartialEq, Eq, Structural)]
pub struct Timestamp {
    pub secs: i64,
    pub nanos: u32,
}

/// One hit of a search. `score` is present only for hits of semantic
/// ranking and holds the bit pattern of an IEEE-754 single in [0.0, 1.0].
#[derive(Clone, Debug)]
pub struct SearchResult {
    pub result_type: ResultKind,
    pub id: String,
    pub title: String,
    pub snippet: String,
    pub score: Option<u32>,
    pub project_id: String,
    pub project_name: String,
    pub updated_at: Timestamp,
}

/// Identity of a result for de-duplication.
pub open spec fn key_of(r: SearchResult) -> (ResultKind, Seq<char>) {
    (r.result_type, r.id@)
}

pub open spec fn has_key(s: Seq<SearchResult>, k: (ResultKind, Seq<char>)) -> bool {
    exists|i: int| 0 <= i < s.len() && key_of(#[trigger] s[i]) == k
}

/// `s` with every result whose key occurred earlier dropped.
pub open spec fn dedup(s: Seq<SearchResult>) -> Seq<SearchResult>
    decreases s.len(),
{
    if s.len() == 0 {
        Seq::empty()
    } else {
        let d = dedup(s.drop_last());
        if has_key(d, key_of(s.last())) {
            d
        } else {
            d.push(s.last())
        }
    }
}

/// Number of results in `s` with key `k`.
pub open spec fn key_count(s: Seq<SearchResult>, k: (ResultKind, Seq<char>)) -> nat
    decreases s.len(),
{
    if s.len() == 0 {
        0
    } else {
        key_count(s.drop_last(), k) + if key_of(s.last()) == k {
            1nat
        } else {
            0nat
        }
    }
}

pub open spec fn capped(s: Seq<SearchResult>, n: int) -> Seq<SearchResult> {
    if s.len() > n {
        s.take(n)
    } else {
        s
    }
}

/// Per-collection quota of the semantic search: a third of the budget, at
/// least 2.
pub open spec fn semantic_quota(limit: u32) -> u32 {
    if limit / 3 > 2 {
        limit / 3
    } else {
        2
    }
}

/// Per-collection quota of the lexical search: a quarter of the budget, at
/// least 2.
pub open spec fn lexical_quota(limit: u32) -> u32 {
    if limit / 4 > 2 {
        limit / 4
    } else {
        2
    }
}

/// Quota of each collection in a semantic search under budget `limit`.
pub fn per_type_limit(limit: u32) -> (r: u32)
    ensures
        r == semantic_quota(limit),
        r >= 2,
{
    let third = limit / 3;
    if third > 2 {
        third
    } else {
        2
    }
}

/// Quota of each collection in a lexical search under budget `limit`.
pub fn lexical_per_type_limit(limit: u32) -> (r: u32)
    ensures
        r == lexical_quota(limit),
        r >= 2,
{
    let quarter = limit / 4;
    if quarter > 2 {
        quarter
    } else {
        2
    }
}

proof fn lemma_dedup_keys(s: Seq<SearchResult>, k: (ResultKind, Seq<char>))
    ensures
        has_key(dedup(s), k) ==> has_key(s, k),
        key_count(dedup(s), k) <= 1,
        key_count(dedup(s), k) == 1 <==> has_key(dedup(s), k),
    decreases s.len(),
{
    if s.len() > 0 {
        let p = s.drop_last();
        let d = dedup(p);
        lemma_dedup_keys(p, k);
        lemma_count_has(d, k);
        lemma_count_has(dedup(s), k);
        if has_key(dedup(s), k) {
            let i = choose|i: int| 0 <= i < dedup(s).len() && key_of(#[trigger] dedup(s)[i]) == k;
            if i < d.len() {
                assert(dedup(s)[i] == d[i]);
                let j = choose|j: int| 0 <= j < p.len() && key_of(#[trigger] p[j]) == k;
                assert(s[j] == p[j]);
            } else {
                assert(key_of(s[s.len() - 1]) == k);
            }
        }
        if !has_key(d, key_of(s.last())) {
            assert(dedup(s).drop_last() =~= d);
        }
    }
}

proof fn lemma_count_has(s: Seq<SearchResult>, k: (ResultKind, Seq<char>))
    ensures
        key_count(s, k) > 0 <==> has_key(s, k),
    decreases s.len(),
{
    if s.len() > 0 {
        let p = s.drop_last();
        lemma_count_has(p, k);
        if has_key(p, k) {
            let j = choose|j: int| 0 <= j < p.len() && key_of(#[trigger] p[j]) == k;
            assert(s[j] == p[j]);
        }
        if has_key(s, k) && key_of(s.last()) != k {
            let j = choose|j: int| 0 <= j < s.len() && key_of(#[trigger] s[j]) == k;
            assert(p[j] == s[j]);
        }
    }
}

/// De-duplication keeps, for each key present in `s`, exactly one result:
/// the first one with that key.
pub proof fn lemma_dedup_first_wins(s: Seq<SearchResult>, i: int)
    requires
        0 <= i < s.len(),
        forall|j: int| 0 <= j < i ==> key_of(#[trigger] s[j]) != key_of(s[i]),
    ensures
        key_count(dedup(s), key_of(s[i])) == 1,
        dedup(s).contains(s[i]),
    decreases s.len(),
{
    let k = key_of(s[i]);
    let p = s.drop_last();
    let d = dedup(p);
    lemma_dedup_keys(s, k);
    if i < s.len() - 1 {
        assert(p[i] == s[i]);
        assert forall|j: int| 0 <= j < i implies key_of(#[trigger] p[j]) != key_of(p[i]) by {
            assert(p[j] == s[j]);
        }
        lemma_dedup_first_wins(p, i);
        let q = choose|q: int| 0 <= q < d.len() && d[q] == s[i];
        if !has_key(d, key_of(s.last())) {
            assert(dedup(s)[q] == d[q]);
        }
        assert(has_key(dedup(s), k)) by {
            assert(key_of(dedup(s)[q]) == k);
        }
    } else {
        lemma_dedup_keys(p, k);
        assert(!has_key(p, k)) by {
            if has_key(p, k) {
                let j = choose|j: int| 0 <= j < p.len() && key_of(#[trigger] p[j]) == k;
                assert(s[j] == p[j]);
            }
        }
        assert(dedup(s) == d.push(s[i]));
        assert(dedup(s)[d.len() as int] == s[i]);
        assert(key_of(dedup(s)[d.len() as int]) == k);
    }
}

/// Whether `out` already holds a result with the key of `r`.
fn seen(out: &Vec<SearchResult>, r: &SearchResult) -> (b: bool)
    ensures
        b == has_key(out@, key_of(*r)),
{
    let mut i: usize = 0;
    while i < out.len()
        invariant
            i <= out.len(),
            forall|j: int| 0 <= j < i ==> key_of(#[trigger] out@[j]) != key_of(*r),
        decreases out.len() - i,
    {
        if out[i].result_type == r.result_type && out[i].id == r.id {
            assert(key_of(out@[i as int]) == key_of(*r));
            return true;
        }
        i = i + 1;
    }
    false
}

/// Appends to `out` the first `cap` results of `stream` whose key is not
/// already in `out`.
fn push_unique(out: &mut Vec<SearchResult>, stream: Vec<SearchResult>, cap: usize)
    ensures
        final(out)@ == dedup_onto(old(out)@, capped(stream@, cap as int)),
{
    let ghost src = capped(stream@, cap as int);
    let ghost start = out@;
    let mut n: usize = 0;
    for r in it: stream.into_iter()
        invariant
            it.seq() == stream@,
            n == if it.index() <= cap { it.index() as int } else { cap as int },
            out@ == dedup_onto(start, stream@.take(n as int)),
    {
        if n < cap {
            assert(stream@.take(n + 1).drop_last() =~= stream@.take(n as int));
            assert(stream@.take(n + 1).last() == r);
            if !seen(out, &r) {
                out.push(r);
            }
            n = n + 1;
        }
    }
    assert(stream@.take(if stream@.len() <= cap { stream@.len() as int } else { cap as int })
        =~= src);
}

/// `dedup` continued from results already collected in `acc`.
pub open spec fn dedup_onto(acc: Seq<SearchResult>, s: Seq<SearchResult>) -> Seq<SearchResult>
    decreases s.len(),
{
    if s.len() == 0 {
        acc
    } else {
        let d = dedup_onto(acc, s.drop_last());
        if has_key(d, key_of(s.last())) {
            d
        } else {
            d.push(s.last())
        }
    }
}

proof fn lemma_dedup_onto(a: Seq<SearchResult>, s: Seq<SearchResult>)
    ensures
        dedup_onto(dedup(a), s) == dedup(a + s),
    decreases s.len(),
{
    if s.len() == 0 {
        assert(a + s =~= a);
    } else {
        lemma_dedup_onto(a, s.drop_last());
        assert((a + s).drop_last() =~= a + s.drop_last());
        assert((a + s).last() == s.last());
    }
}

proof fn lemma_count_capped(s: Seq<SearchResult>, n: int, k: (ResultKind, Seq<char>))
    requires
        0 <= n,
    ensures
        key_count(capped(s, n), k) <= key_count(s, k),
    decreases s.len(),
{
    if s.len() > n {
        assert(s.take(n) == s.drop_last().take(n));
        lemma_count_capped(s.drop_last(), n, k);
        if s.drop_last().len() > n {
        } else {
            assert(s.drop_last().take(n) =~= s.drop_last());
        }
    }
}

/// The stream that a semantic search de-duplicates, in precedence order:
/// lexical project matches, semantic source matches, semantic note matches,
/// lexical source matches, lexical note matches, each cut to the quota.
pub open spec fn semantic_stream(
    limit: u32,
    projects: Seq<SearchResult>,
    sources_semantic: Seq<SearchResult>,
    notes_semantic: Seq<SearchResult>,
    sources_lexical: Seq<SearchResult>,
    notes_lexical: Seq<SearchResult>,
) -> Seq<SearchResult> {
    let q = semantic_quota(limit) as int;
    capped(projects, q) + capped(sources_semantic, q) + capped(notes_semantic, q) + capped(
        sources_lexical,
        q,
    ) + capped(notes_lexical, q)
}

/// Merged answer of a semantic search from its five result lists.
pub open spec fn semantic_merge(
    limit: u32,
    projects: Seq<SearchResult>,
    sources_semantic: Seq<SearchResult>,
    notes_semantic: Seq<SearchResult>,
    sources_lexical: Seq<SearchResult>,
    notes_lexical: Seq<SearchResult>,
) -> Seq<SearchResult> {
    capped(
        dedup(
            semantic_stream(
                limit,
                projects,
                sources_semantic,
                notes_semantic,
                sources_lexical,
                notes_lexical,
            ),
        ),
        limit as int,
    )
}

/// Merges the five result lists of a semantic search: each list is cut to
/// `per_type_limit(limit)`, the lists are taken in precedence order, a result
/// whose (kind, id) was already taken is dropped, and at most `limit`
/// results are kept.
pub fn merge_semantic_results(
    limit: u32,
    projects: Vec<SearchResult>,
    sources_semantic: Vec<SearchResult>,
    notes_semantic: Vec<SearchResult>,
    sources_lexical: Vec<SearchResult>,
    notes_lexical: Vec<SearchResult>,
) -> (r: Vec<SearchResult>)
    ensures
        r@ == semantic_merge(
            limit,
            projects@,
            sources_semantic@,
            notes_semantic@,
            sources_lexical@,
            notes_lexical@,
        ),
{
    let q = per_type_limit(limit) as usize;
    let ghost (p, ss, ns, sl, nl) = (
        capped(projects@, q as int),
        capped(sources_semantic@, q as int),
        capped(notes_semantic@, q as int),
        capped(sources_lexical@, q as int),
        capped(notes_lexical@, q as int),
    );
    let mut out: Vec<SearchResult> = Vec::new();
    proof {
        lemma_dedup_onto(Seq::empty(), p);
        assert(Seq::<SearchResult>::empty() + p =~= p);
        assert(dedup(Seq::<SearchResult>::empty()) =~= Seq::<SearchResult>::empty());
    }
    push_unique(&mut out, projects, q);
    proof {
        lemma_dedup_onto(p, ss);
    }
    push_unique(&mut out, sources_semantic, q);
    proof {
        lemma_dedup_onto(p + ss, ns);
    }
    push_unique(&mut out, notes_semantic, q);
    proof {
        lemma_dedup_onto(p + ss + ns, sl);
    }
    push_unique(&mut out, sources_lexical, q);
    proof {
        lemma_dedup_onto(p + ss + ns + sl, nl);
    }
    push_unique(&mut out, notes_lexical, q);
    out.truncate(limit as usize);
    out
}

/// A merged semantic answer never holds two results with the same
/// (kind, id); when the budget leaves room, the result that first occurs in
/// precedence order is the one present.
pub proof fn lemma_merge_keeps_first_occurrence(
    limit: u32,
    projects: Seq<SearchResult>,
    sources_semantic: Seq<SearchResult>,
    notes_semantic: Seq<SearchResult>,
    sources_lexical: Seq<SearchResult>,
    notes_lexical: Seq<SearchResult>,
    k: (ResultKind, Seq<char>),
)
    ensures
        key_count(
            semantic_merge(
                limit,
                projects,
                sources_semantic,
                notes_semantic,
                sources_lexical,
                notes_lexical,
            ),
            k,
        ) <= 1,
        ({
            let s = semantic_stream(
                limit,
                projects,
                sources_semantic,
                notes_semantic,
                sources_lexical,
                notes_lexical,
            );
            forall|i: int|
                0 <= i < s.len() && key_of(s[i]) == k && (forall|j: int|
                    0 <= j < i ==> key_of(#[trigger] s[j]) != k) ==> dedup(s).contains(s[i])
                    && key_count(dedup(s), k) == 1
        }),
{
    let s = semantic_stream(
        limit,
        projects,
        sources_semantic,
        notes_semantic,
        sources_lexical,
        notes_lexical,
    );
    lemma_dedup_keys(s, k);
    lemma_count_capped(dedup(s), limit as int, k);
    assert forall|i: int|
        0 <= i < s.len() && key_of(s[i]) == k && (forall|j: int|
            0 <= j < i ==> key_of(#[trigger] s[j]) != k) implies dedup(s).contains(s[i])
        && key_count(dedup(s), k) == 1 by {
        lemma_dedup_first_wins(s, i);
    }
}

/// Appends the first `cap` results of `stream` to `out`.
fn push_capped(out: &mut Vec<SearchResult>, stream: Vec<SearchResult>, cap: usize)
    ensures
        final(out)@ == old(out)@ + capped(stream@, cap as int),
{
    let mut s = stream;
    s.truncate(cap);
    out.append(&mut s);
}

/// Merged answer of a lexical search over the four collections.
pub open spec fn lexical_merge(
    limit: u32,
    projects: Seq<SearchResult>,
    sources: Seq<SearchResult>,
    notes: Seq<SearchResult>,
    canvases: Seq<SearchResult>,
) -> Seq<SearchResult> {
    let q = lexical_quota(limit) as int;
    capped(
        capped(projects, q) + capped(sources, q) + capped(notes, q) + capped(canvases, q),
        limit as int,
    )
}

/// Merges the result lists of a lexical search: each cut to
/// `lexical_per_type_limit(limit)`, concatenated in the order projects,
/// sources, notes, canvases, and cut to `limit`. No de-duplication.
pub fn merge_lexical_results(
    limit: u32,
    projects: Vec<SearchResult>,
    sources: Vec<SearchResult>,
    notes: Vec<SearchResult>,
    canvases: Vec<SearchResult>,
) -> (r: Vec<SearchResult>)
    ensures
        r@ == lexical_merge(limit, projects@, sources@, notes@, canvases@),
{
    let q = lexical_per_type_limit(limit) as usize;
    let mut out: Vec<SearchResult> = Vec::new();
    push_capped(&mut out, projects, q);
    push_capped(&mut out, sources, q);
    push_capped(&mut out, notes, q);
    push_capped(&mut out, canvases, q);
    assert(out@ =~= capped(projects@, q as int) + capped(sources@, q as int) + capped(
        notes@,
        q as int,
    ) + capped(canvases@, q as int));
    out.truncate(limit as usize);
    out
}

} // verus!
