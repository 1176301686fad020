//! Byte layout of a stored fingerprint: each component's IEEE-754
//! single-precision bit pattern as 4 little-endian bytes, in index order, with
//! no header. Components are handled as their `u32` bit patterns, so encoding
//! and decoding are exact.

use vstd::prelude::*;
use vstd::bytes::{spec_u32_to_le_bytes, spec_u32_from_le_bytes, u32_to_le_bytes, u32_from_le_bytes, lemma_auto_spec_u32_to_from_le_bytes};
use vstd::slice::slice_subrange;

verus! {

/// Concatenated little-endian bytes of `v`.
pub open spec fn encode(v: Seq<u32>) -> Seq<u8>
    decreases v.len(),
{
    if v.len() == 0 {
        Seq::empty()
    } else {
        encode(v.drop_last()) + spec_u32_to_le_bytes(v.last())
    }
}

/// The components stored in `b`: none when the length is not a multiple of 4.
pub open spec fn decode(b: Seq<u8>) -> Seq<u32> {
    if b.len() % 4 != 0 {
        Seq::empty()
    } else {
        Seq::new(
            (b.len() / 4) as nat,
            |i: int| spec_u32_from_le_bytes(b.subrange(4 * i, 4 * i + 4)),
        )
    }
}

proof fn lemma_encode_chunks(v: Seq<u32>)
    ensures
        encode(v).len() == 4 * v.len(),
        forall|i: int|
            0 <= i < v.len() ==> #[trigger] encode(v).subrange(4 * i, 4 * i + 4)
                == spec_u32_to_le_bytes(v[i]),
    decreases v.len(),
{
    lemma_auto_spec_u32_to_from_le_bytes();
    if v.len() > 0 {
        let p = v.drop_last();
        lemma_encode_chunks(p);
        let e = encode(v);
        assert(e == encode(p) + spec_u32_to_le_bytes(v.last()));
        assert forall|i: int| 0 <= i < v.len() implies #[trigger] e.subrange(4 * i, 4 * i + 4)
            == spec_u32_to_le_bytes(v[i]) by {
            if i < p.len() {
                assert(e.subrange(4 * i, 4 * i + 4) =~= encode(p).subrange(4 * i, 4 * i + 4));
            } else {
                assert(e.subrange(4 * i, 4 * i + 4) =~= spec_u32_to_le_bytes(v.last()));
            }
        }
    }
}

/// Decoding what was encoded gives back every bit pattern unchanged.
pub proof fn lemma_round_trip(v: Seq<u32>)
    ensures
        decode(encode(v)) == v,
{
    lemma_encode_chunks(v);
    lemma_auto_spec_u32_to_from_le_bytes();
    let e = encode(v);
    assert(e.len() % 4 == 0) by {
        assert(e.len() == 4 * v.len());
    }
    assert((e.len() / 4) as nat == v.len());
    assert forall|i: int| 0 <= i < v.len() implies #[trigger] decode(e)[i] == v[i] by {
        assert(e.subrange(4 * i, 4 * i + 4) == spec_u32_to_le_bytes(v[i]));
    }
    assert(decode(e) =~= v);
}

/// Serialises component bit patterns as 4 little-endian bytes each.
pub fn serialize_embedding(bits: &Vec<u32>) -> (r: Vec<u8>)
    requires
        4 * bits.len() <= usize::MAX,
    ensures
        r@ == encode(bits@),
        r.len() == 4 * bits.len(),
{
    proof {
        lemma_encode_chunks(bits@);
    }
    let mut out: Vec<u8> = Vec::new();
    let mut i: usize = 0;
    while i < bits.len()
        invariant
            i <= bits.len(),
            out@ == encode(bits@.take(i as int)),
        decreases bits.len() - i,
    {
        assert(bits@.take(i + 1).drop_last() =~= bits@.take(i as int));
        let bytes = u32_to_le_bytes(bits[i]);
        out.append(&mut bytes.clone());
        assert(out@ =~= encode(bits@.take(i + 1)));
        i = i + 1;
    }
    assert(bits@.take(bits.len() as int) =~= bits@);
    out
}

/// Reads component bit patterns back; a blob whose length is not a multiple
/// of 4 is malformed and yields no components.
pub fn deserialize_embedding(data: &Vec<u8>) -> (r: Vec<u32>)
    ensures
        r@ == decode(data@),
        data.len() % 4 != 0 ==> r.len() == 0,
{
    if data.len() % 4 != 0 {
        return Vec::new();
    }
    let n = data.len() / 4;
    let mut out: Vec<u32> = Vec::new();
    let mut i: usize = 0;
    while i < n
        invariant
            n == data.len() / 4,
            data.len() % 4 == 0,
            i <= n,
            out.len() == i,
            forall|j: int|
                0 <= j < i ==> #[trigger] out@[j] == spec_u32_from_le_bytes(
                    data@.subrange(4 * j, 4 * j + 4),
                ),
        decreases n - i,
    {
        let chunk = slice_subrange(data.as_slice(), 4 * i, 4 * i + 4);
        out.push(u32_from_le_bytes(chunk));
        i = i + 1;
    }
    assert(out@ =~= decode(data@));
    out
}

} // verus!
