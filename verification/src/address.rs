//! Contributor identities.

use vstd::prelude::*;

verus! {

/// A fixed-width identifier of a party. Two addresses name the same party
/// exactly when all their bytes agree.
#[derive(Clone, Copy, Debug, Eq)]
pub struct Address {
    pub bytes: [u8; 32],
}

impl Address {
    /// Wraps raw identifier bytes.
    pub fn new(bytes: [u8; 32]) -> (out: Address)
        ensures
            out.bytes == bytes,
    {
        Address { bytes }
    }

    /// The raw identifier bytes.
    pub fn to_bytes(&self) -> (out: [u8; 32])
        ensures
            out == self.bytes,
    {
        self.bytes
    }
}

impl PartialEq for Address {
    fn eq(&self, other: &Address) -> (r: bool) {
        let mut i: usize = 0;
        while i < 32
            invariant
                i <= 32,
                forall|j: int| 0 <= j < i ==> self.bytes[j] == other.bytes[j],
            decreases 32 - i,
        {
            if self.bytes[i] != other.bytes[i] {
                return false;
            }
            i += 1;
        }
        assert(self.bytes =~= other.bytes);
        true
    }
}

impl vstd::std_specs::cmp::PartialEqSpecImpl for Address {
    open spec fn obeys_eq_spec() -> bool {
        true
    }

    open spec fn eq_spec(&self, other: &Address) -> bool {
        *self == *other
    }
}

} // verus!
