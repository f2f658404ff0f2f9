use vstd::prelude::*;

use crate::entry_set::Exact;

verus! {

broadcast use vstd::array::group_array_axioms;

/// A 32 byte account address.
///
/// Account addresses are compared, stored and used as keys throughout the
/// library; their bytes are all the logic ever looks at.
#[derive(Clone, Copy, Debug, PartialEq, Eq, Hash, PartialOrd, Ord)]
pub struct Pubkey(pub [u8; 32]);

impl Pubkey {
    /// Builds an address from its bytes.
    pub fn new_from_array(bytes: [u8; 32]) -> (r: Pubkey)
        ensures
            r.0 == bytes,
    {
        Pubkey(bytes)
    }

    /// Whether every byte of the address is zero ("no authority set").
    pub open spec fn is_zero(self) -> bool {
        forall|i: int| 0 <= i < 32 ==> #[trigger] self.0[i] == 0
    }

    /// The all-zero address, used as "no authority set".
    pub fn zero() -> (r: Pubkey)
        ensures
            r.is_zero(),
    {
        Pubkey([0u8; 32])
    }

    /// Byte-wise equality of two addresses.
    pub fn same_as(&self, other: &Pubkey) -> (r: bool)
        ensures
            r == (*self == *other),
    {
        let mut i: usize = 0;
        while i < 32
            invariant
                0 <= i <= 32,
                forall|j: int| 0 <= j < i ==> self.0[j] == other.0[j],
            decreases 32 - i,
        {
            if self.0[i] != other.0[i] {
                return false;
            }
            i = i + 1;
        }
        assert(self.0 =~= other.0);
        true
    }

    /// The bytes of the address.
    pub fn to_bytes(&self) -> (r: [u8; 32])
        ensures
            r == self.0,
    {
        self.0
    }
}

impl Exact for Pubkey {
    fn exactly(&self, other: &Pubkey) -> (r: bool) {
        self.same_as(other)
    }
}

} // verus!
