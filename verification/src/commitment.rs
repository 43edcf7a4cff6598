//! Fixed-size commitments to a player's private board.

use vstd::prelude::*;

verus! {

/// A digest that binds a player's private board and a secret nonce.
#[derive(Clone, Copy, Debug, PartialEq, Eq)]
pub struct Commitment {
    pub bytes: [u8; 32],
}

impl View for Commitment {
    type V = Seq<u8>;

    open spec fn view(&self) -> Seq<u8> {
        self.bytes@
    }
}

impl Commitment {
    /// Wraps 32 digest bytes.
    pub fn new(bytes: [u8; 32]) -> (c: Commitment)
        ensures
            c@ == bytes@,
            c.bytes == bytes,
    {
        Commitment { bytes }
    }

    /// Whether two commitments hold the same bytes.
    pub fn same_as(&self, other: &Commitment) -> (same: bool)
        ensures
            same == (self@ == other@),
    {
        let mut i: usize = 0;
        while i < 32
            invariant
                i <= 32,
                forall|j: int| 0 <= j < i ==> self.bytes@[j] == other.bytes@[j],
            decreases 32 - i,
        {
            if self.bytes[i] != other.bytes[i] {
                return false;
            }
            i += 1;
        }
        assert(self@ =~= other@);
        true
    }
}

impl Default for Commitment {
    /// The commitment of 32 zero bytes.
    fn default() -> (c: Commitment)
        ensures
            c@ == Seq::new(32, |i: int| 0u8),
    {
        let c = Commitment { bytes: [0u8; 32] };
        assert(c@ =~= Seq::new(32, |i: int| 0u8));
        c
    }
}

} // verus!
