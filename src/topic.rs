use vstd::prelude::*;

use crate::primitives::{H256, ParaId};

verus! {

/// What BLAKE2b with a 32-byte output and no key gives for `data`.
pub uninterp spec fn blake2_256(data: Seq<u8>) -> Seq<u8>;

/// Relies on blake2_rfc::blake2b::blake2b: the 32-byte unkeyed BLAKE2b digest
/// of the data, which depends on the data alone.
#[verifier::external_body]
fn blake2_256_hash(data: &[u8]) -> (r: H256)
    ensures
        r@ == blake2_256(data@),
{
    let mut out = [0u8; 32];
    out.copy_from_slice(blake2_rfc::blake2b::blake2b(32, &[], data).as_bytes());
    out
}

/// The little-endian encoding of a parachain identifier.
pub open spec fn para_id_bytes(id: ParaId) -> Seq<u8> {
    seq![
        (id & 0xff) as u8,
        ((id >> 8u32) & 0xff) as u8,
        ((id >> 16u32) & 0xff) as u8,
        ((id >> 24u32) & 0xff) as u8,
    ]
}

/// The ASCII text "incoming".
pub open spec fn incoming_suffix() -> Seq<u8> {
    seq![105u8, 110u8, 99u8, 111u8, 109u8, 105u8, 110u8, 103u8]
}

/// The bytes hashed into the topic of a parachain's incoming messages.
pub open spec fn topic_preimage(parent_hash: H256, parachain: ParaId) -> Seq<u8> {
    parent_hash@ + para_id_bytes(parachain) + incoming_suffix()
}

/// The gossip topic of a parachain's incoming messages at a parent block.
pub open spec fn incoming_topic(parent_hash: H256, parachain: ParaId) -> Seq<u8> {
    blake2_256(topic_preimage(parent_hash, parachain))
}

/// The gossip topic of a parachain's incoming messages at a parent block:
/// the hash of the parent hash, the little-endian parachain identifier and
/// the text "incoming".
pub fn incoming_message_topic(parent_hash: H256, parachain: ParaId) -> (r: H256)
    ensures
        r@ == incoming_topic(parent_hash, parachain),
{
    let mut v: Vec<u8> = Vec::new();
    let mut i: usize = 0;
    while i < 32
        invariant
            i <= 32,
            v@ == parent_hash@.subrange(0, i as int),
        decreases 32 - i,
    {
        v.push(parent_hash[i]);
        i = i + 1;
        assert(v@ =~= parent_hash@.subrange(0, i as int));
    }
    v.push((parachain & 0xff) as u8);
    v.push(((parachain >> 8u32) & 0xff) as u8);
    v.push(((parachain >> 16u32) & 0xff) as u8);
    v.push(((parachain >> 24u32) & 0xff) as u8);
    v.push(105u8);
    v.push(110u8);
    v.push(99u8);
    v.push(111u8);
    v.push(109u8);
    v.push(105u8);
    v.push(110u8);
    v.push(103u8);
    assert(v@ =~= topic_preimage(parent_hash, parachain));
    blake2_256_hash(v.as_slice())
}

/// Four little-endian bytes determine the integer they encode.
pub proof fn lemma_para_id_bytes_injective(a: ParaId, b: ParaId)
    requires
        para_id_bytes(a) == para_id_bytes(b),
    ensures
        a == b,
{
    let sa = para_id_bytes(a);
    let sb = para_id_bytes(b);
    assert(sa[0] == sb[0] && sa[1] == sb[1] && sa[2] == sb[2] && sa[3] == sb[3]);
    assert((a & 0xff) <= 0xff && ((a >> 8u32) & 0xff) <= 0xff && ((a >> 16u32) & 0xff) <= 0xff && ((
    a >> 24u32) & 0xff) <= 0xff) by (bit_vector);
    assert((b & 0xff) <= 0xff && ((b >> 8u32) & 0xff) <= 0xff && ((b >> 16u32) & 0xff) <= 0xff && ((
    b >> 24u32) & 0xff) <= 0xff) by (bit_vector);
    assert((a & 0xff) == (b & 0xff) && ((a >> 8u32) & 0xff) == ((b >> 8u32) & 0xff) && ((a >> 16u32)
        & 0xff) == ((b >> 16u32) & 0xff) && ((a >> 24u32) & 0xff) == ((b >> 24u32) & 0xff));
    assert(a == b) by (bit_vector)
        requires
            (a & 0xff) == (b & 0xff),
            ((a >> 8u32) & 0xff) == ((b >> 8u32) & 0xff),
            ((a >> 16u32) & 0xff) == ((b >> 16u32) & 0xff),
            ((a >> 24u32) & 0xff) == ((b >> 24u32) & 0xff),
    ;
}

/// The topic is a function of the parent hash and the parachain alone, and
/// what is hashed differs whenever either of them differs, so that distinct
/// pairs get distinct topics unless the hash collides.
pub proof fn lemma_topic_determinism(p1: H256, a1: ParaId, p2: H256, a2: ParaId)
    ensures
        p1 == p2 && a1 == a2 ==> incoming_topic(p1, a1) == incoming_topic(p2, a2),
        topic_preimage(p1, a1) == topic_preimage(p2, a2) ==> p1 == p2 && a1 == a2,
{
    broadcast use vstd::array::group_array_axioms;
    let s1 = topic_preimage(p1, a1);
    let s2 = topic_preimage(p2, a2);
    if s1 == s2 {
        assert(s1.subrange(0, 32) =~= p1@);
        assert(s2.subrange(0, 32) =~= p2@);
        assert(p1 =~= p2);
        assert(s1.subrange(32, 36) =~= para_id_bytes(a1));
        assert(s2.subrange(32, 36) =~= para_id_bytes(a2));
        lemma_para_id_bytes_injective(a1, a2);
    }
}

} // verus!
