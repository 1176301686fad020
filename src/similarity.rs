//! Laws of fingerprints: determinism, the empty fingerprint, and that no text
//! is more similar to a text than the text itself.

use vstd::prelude::*;
use crate::embedding::{embedding_of, embedding_input, tokens_of, scan, hashed_counts, EMBEDDING_DIM};
use crate::text::{is_blank, is_white_space, leading_white_space, trim, trailing_white_space};

verus! {

/// Dot product of two integer vectors of the same length.
pub open spec fn dot(a: Seq<int>, b: Seq<int>) -> int
    decreases a.len(),
{
    if a.len() == 0 || b.len() == 0 {
        0
    } else {
        dot(a.drop_last(), b.drop_last()) + a.last() * b.last()
    }
}

/// Sum over i of (y * a[i] - x * b[i])^2.
pub open spec fn sq_diff(a: Seq<int>, b: Seq<int>, x: int, y: int) -> int
    decreases a.len(),
{
    if a.len() == 0 || b.len() == 0 {
        0
    } else {
        let d = y * a.last() - x * b.last();
        sq_diff(a.drop_last(), b.drop_last(), x, y) + d * d
    }
}

proof fn lemma_sq_diff(a: Seq<int>, b: Seq<int>, x: int, y: int)
    requires
        a.len() == b.len(),
    ensures
        sq_diff(a, b, x, y) >= 0,
        sq_diff(a, b, x, y) == y * y * dot(a, a) - 2 * x * y * dot(a, b) + x * x * dot(b, b),
    decreases a.len(),
{
    if a.len() > 0 {
        let (a0, b0) = (a.drop_last(), b.drop_last());
        lemma_sq_diff(a0, b0, x, y);
        let (p, q) = (a.last(), b.last());
        let (aa, ab, bb) = (dot(a0, a0), dot(a0, b0), dot(b0, b0));
        let d = y * p - x * q;
        assert(d * d >= 0) by (nonlinear_arith);
        let (yp, xq) = (y * p, x * q);
        assert(d * d == yp * yp - 2 * (yp * xq) + xq * xq) by (nonlinear_arith)
            requires
                d == yp - xq,
        ;
        assert(y * y * (aa + p * p) == y * y * aa + yp * yp) by (nonlinear_arith)
            requires
                yp == y * p,
        ;
        assert(2 * x * y * (ab + p * q) == 2 * x * y * ab + 2 * (yp * xq)) by (nonlinear_arith)
            requires
                yp == y * p,
                xq == x * q,
        ;
        assert(x * x * (bb + q * q) == x * x * bb + xq * xq) by (nonlinear_arith)
            requires
                xq == x * q,
        ;
    }
}

/// Cauchy-Schwarz: dot(a, b)^2 <= dot(a, a) * dot(b, b).
pub proof fn lemma_cauchy_schwarz(a: Seq<int>, b: Seq<int>)
    requires
        a.len() == b.len(),
    ensures
        dot(a, b) * dot(a, b) <= dot(a, a) * dot(b, b),
    decreases a.len(),
{
    if a.len() > 0 {
        let (a0, b0) = (a.drop_last(), b.drop_last());
        lemma_cauchy_schwarz(a0, b0);
        let (x, y) = (a.last(), b.last());
        lemma_sq_diff(a0, b0, x, y);
        let (aa, ab, bb) = (dot(a0, a0), dot(a0, b0), dot(b0, b0));
        let xy = x * y;
        assert((ab + xy) * (ab + xy) == ab * ab + 2 * x * y * ab + xy * xy) by (nonlinear_arith)
            requires
                xy == x * y,
        ;
        assert((aa + x * x) * (bb + y * y) == aa * bb + y * y * aa + x * x * bb + xy * xy)
            by (nonlinear_arith)
            requires
                xy == x * y,
        ;
    }
}

/// The same text always gives the same fingerprint.
pub proof fn lemma_embedding_deterministic(t: Seq<char>, u: Seq<char>)
    requires
        t == u,
    ensures
        embedding_of(t) == embedding_of(u),
{
}

proof fn lemma_blank_leading(s: Seq<char>)
    requires
        is_blank(s),
    ensures
        leading_white_space(s) == s.len(),
    decreases s.len(),
{
    if s.len() > 0 {
        assert(is_white_space(s[0]));
        assert forall|i: int| 0 <= i < s.drop_first().len() implies is_white_space(
            #[trigger] s.drop_first()[i],
        ) by {
            assert(s.drop_first()[i] == s[i + 1]);
        }
        lemma_blank_leading(s.drop_first());
    }
}

/// A text that is empty or all whitespace has the empty fingerprint, and so
/// does any text without a token; any other fingerprint has `EMBEDDING_DIM`
/// components.
pub proof fn lemma_empty_input(t: Seq<char>)
    ensures
        is_blank(t) ==> embedding_of(t).len() == 0,
        tokens_of(embedding_input(t)).len() == 0 ==> embedding_of(t).len() == 0,
        embedding_of(t).len() == 0 || embedding_of(t).len() == EMBEDDING_DIM,
{
    if is_blank(t) {
        lemma_blank_leading(t);
        assert(t.skip(t.len() as int) =~= Seq::<char>::empty());
        assert(trailing_white_space(Seq::<char>::empty()) == 0);
        assert(trim(t) =~= Seq::<char>::empty());
        assert(embedding_input(t) =~= Seq::<char>::empty());
        assert(scan(embedding_input(t)) == (Seq::<Seq<char>>::empty(), Seq::<char>::empty()));
    }
    lemma_counts_len(tokens_of(embedding_input(t)));
}

proof fn lemma_counts_len(toks: Seq<Seq<char>>)
    ensures
        hashed_counts(toks).len() == EMBEDDING_DIM,
    decreases toks.len(),
{
    if toks.len() > 0 {
        lemma_counts_len(toks.drop_last());
    }
}

/// No fingerprint is closer to that of `t` than `t`'s own: in exact
/// arithmetic cos(a, b) = dot(a, b) / (|a| |b|) is at most 1 = cos(a, a),
/// that is dot(a, b) <= 0 or dot(a, b)^2 <= dot(a, a) * dot(b, b).
pub proof fn lemma_self_similarity_dominates(t: Seq<char>, u: Seq<char>)
    requires
        embedding_of(t).len() > 0,
        embedding_of(u).len() > 0,
    ensures
        ({
            let (a, b) = (embedding_of(t), embedding_of(u));
            dot(a, b) <= 0 || dot(a, b) * dot(a, b) <= dot(a, a) * dot(b, b)
        }),
{
    lemma_empty_input(t);
    lemma_empty_input(u);
    lemma_cauchy_schwarz(embedding_of(t), embedding_of(u));
}

} // verus!
