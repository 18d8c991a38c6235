use vstd::prelude::*;

verus! {

broadcast use vstd::array::group_array_axioms;

/// A 32-byte digest identifying a block or a candidate.
pub type H256 = [u8; 32];

/// The identity of a validator for a session.
pub type SessionKey = [u8; 32];

/// The identifier of a parachain.
pub type ParaId = u32;

/// The payload of a parachain block.
pub type BlockData = Vec<u8>;

/// The extrinsic data produced by the valid execution of a candidate.
pub type Extrinsic = Vec<u8>;

/// A message destined for a parachain.
#[derive(Clone, Debug, PartialEq, Eq)]
pub struct Message(pub Vec<u8>);

impl View for Message {
    type V = Seq<u8>;

    open spec fn view(&self) -> Seq<u8> {
        self.0@
    }
}

/// Compares two 32-byte values.
pub fn bytes32_eq(a: &[u8; 32], b: &[u8; 32]) -> (r: bool)
    ensures
        r == (*a == *b),
{
    let mut i: usize = 0;
    while i < 32
        invariant
            i <= 32,
            forall|j: int| 0 <= j < i ==> a[j] == b[j],
        decreases 32 - i,
    {
        if a[i] != b[i] {
            assert(a[i as int] != b[i as int]);
            return false;
        }
        i = i + 1;
    }
    assert(*a =~= *b);
    true
}

} // verus!
