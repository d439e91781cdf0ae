//! Identities of accounts and contracts.

use vstd::prelude::*;

verus! {

/// An account or contract, together with the execution domain it lives on.
///
/// The platform fixes the domain of every identity, so two addresses with
/// one `id` never differ in `domain`.
#[derive(Clone, Copy, Debug, PartialEq, Eq)]
pub struct Address {
    pub id: [u8; 32],
    pub domain: u32,
}

impl Address {
    pub fn new(id: [u8; 32], domain: u32) -> (r: Address)
        ensures
            r.id == id,
            r.domain == domain,
    {
        Address { id, domain }
    }

    /// Whether both name the same identity.
    pub fn same(&self, other: &Address) -> (b: bool)
        ensures
            b == (*self == *other),
    {
        if self.domain != other.domain {
            return false;
        }
        let mut i: usize = 0;
        while i < 32
            invariant
                i <= 32,
                forall|j: int| 0 <= j < i ==> self.id[j] == other.id[j],
            decreases 32 - i,
        {
            if self.id[i] != other.id[i] {
                return false;
            }
            i = i + 1;
        }
        assert(self.id =~= other.id);
        true
    }

    /// Whether both live on one execution domain.
    pub fn same_domain(&self, other: &Address) -> (b: bool)
        ensures
            b == (self.domain == other.domain),
    {
        self.domain == other.domain
    }
}

} // verus!
