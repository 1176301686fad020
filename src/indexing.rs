//! Backfill planning: which entities lacking a stored fingerprint get one,
//! and from what text.

use vstd::prelude::*;
use crate::text::{is_blank, is_blank_text};
use crate::embedding::{embedding_of, hashed_embedding, ints};

verus! {

/// An entity with no stored fingerprint. `label` is its display name (a
/// source) or title (a note); `content` its extracted text or file content.
pub struct MissingEntity {
    pub id: String,
    pub project_id: String,
    pub label: String,
    pub content: Option<String>,
}

/// A fingerprint to store: the hashed, unnormalised vector of an entity.
pub struct PendingEmbedding {
    pub id: String,
    pub project_id: String,
    pub counts: Vec<i32>,
}

/// The text an entity is fingerprinted from: its content when present and
/// not blank, else its label.
pub open spec fn candidate_text(label: Seq<char>, content: Option<Seq<char>>) -> Seq<char> {
    match content {
        Some(c) => if is_blank(c) {
            label
        } else {
            c
        },
        None => label,
    }
}

/// Chooses the text an entity is fingerprinted from (see `candidate_text`).
pub fn choose_candidate_text<'a>(label: &'a String, content: &'a Option<String>) -> (r: &'a str)
    ensures
        r@ == candidate_text(
            label@,
            match content {
                Some(c) => Some(c@),
                None => None,
            },
        ),
{
    match content {
        Some(c) => if is_blank_text(c.as_str()) {
            label.as_str()
        } else {
            c.as_str()
        },
        None => label.as_str(),
    }
}

pub open spec fn entity_text(m: MissingEntity) -> Seq<char> {
    candidate_text(
        m.label@,
        match m.content {
            Some(c) => Some(c@),
            None => None,
        },
    )
}

pub open spec fn pending_view(p: PendingEmbedding) -> (Seq<char>, Seq<char>, Seq<int>) {
    (p.id@, p.project_id@, ints(p.counts@))
}

/// Whether every component of `v` is zero.
pub open spec fn is_zero(v: Seq<int>) -> bool {
    forall|i: int| 0 <= i < v.len() ==> v[i] == 0
}

/// Whether every count is zero: the signed contributions of all tokens
/// cancelled, and the vector cannot be normalised.
pub fn all_zero(v: &Vec<i32>) -> (r: bool)
    ensures
        r == is_zero(ints(v@)),
{
    let mut i: usize = 0;
    while i < v.len()
        invariant
            i <= v.len(),
            forall|j: int| 0 <= j < i ==> v@[j] == 0,
        decreases v.len() - i,
    {
        if v[i] != 0 {
            assert(ints(v@)[i as int] != 0);
            return false;
        }
        i = i + 1;
    }
    assert forall|j: int| 0 <= j < ints(v@).len() implies ints(v@)[j] == 0 by {
        assert(v@[j] == 0);
    }
    true
}

/// What a backfill writes, in order: for each missing entity whose candidate
/// text yields a fingerprint that can be normalised, its id, project id and
/// fingerprint. Entities whose text yields none, or only a zero vector, are
/// skipped: a zero vector is never stored.
pub open spec fn backfill_plan(missing: Seq<MissingEntity>) -> Seq<(Seq<char>, Seq<char>, Seq<int>)>
    decreases missing.len(),
{
    if missing.len() == 0 {
        Seq::empty()
    } else {
        let prev = backfill_plan(missing.drop_last());
        let m = missing.last();
        let e = embedding_of(entity_text(m));
        if e.len() == 0 || is_zero(e) {
            prev
        } else {
            prev.push((m.id@, m.project_id@, e))
        }
    }
}

/// Computes the fingerprints that a backfill stores (see `backfill_plan`).
pub fn plan_backfill(missing: Vec<MissingEntity>) -> (r: Vec<PendingEmbedding>)
    ensures
        r@.map_values(|p: PendingEmbedding| pending_view(p)) == backfill_plan(missing@),
{
    let ghost input = missing@;
    let total = missing.len();
    let mut out: Vec<PendingEmbedding> = Vec::new();
    let mut n: usize = 0;
    for m in it: missing.into_iter()
        invariant
            it.seq() == input,
            n == it.index(),
            n <= input.len(),
            input.len() == total,
            out@.map_values(|p: PendingEmbedding| pending_view(p)) == backfill_plan(
                input.take(n as int),
            ),
    {
        assert(n < input.len());
        assert(input.take(n + 1).drop_last() =~= input.take(n as int));
        assert(input.take(n + 1).last() == m);
        let text = choose_candidate_text(&m.label, &m.content);
        let counts = hashed_embedding(text);
        if counts.len() > 0 && !all_zero(&counts) {
            let ghost before = out@;
            let p = PendingEmbedding { id: m.id, project_id: m.project_id, counts };
            out.push(p);
            assert(out@.map_values(|p: PendingEmbedding| pending_view(p)) =~= before.map_values(
                |p: PendingEmbedding| pending_view(p),
            ).push(pending_view(p)));
        }
        n = n + 1;
    }
    assert(input.take(input.len() as int) =~= input);
    out
}

} // verus!
