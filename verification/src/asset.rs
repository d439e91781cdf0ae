//! Quantities of fungible and semi-fungible assets.

use vstd::prelude::*;
use crate::amount::Amount;

verus! {

/// What tells one asset from another: its identifier and sub-instance.
pub struct AssetKind {
    pub asset_id: Seq<u8>,
    pub sub_id: u64,
}

/// The mathematical content of an `AssetQuantity`.
pub struct Quantity {
    pub asset_id: Seq<u8>,
    pub sub_id: u64,
    pub amount: nat,
}

impl Quantity {
    pub open spec fn kind(self) -> AssetKind {
        AssetKind { asset_id: self.asset_id, sub_id: self.sub_id }
    }

    /// This quantity's kind with another amount.
    pub open spec fn with_amount(self, amount: nat) -> Quantity {
        Quantity { asset_id: self.asset_id, sub_id: self.sub_id, amount }
    }
}

/// Two quantities are of the same kind when asset and sub-instance agree.
pub open spec fn same_kind(a: Quantity, b: Quantity) -> bool {
    a.asset_id == b.asset_id && a.sub_id == b.sub_id
}

/// An amount of one asset, payable or receivable.
#[derive(Debug, PartialEq, Eq)]
pub struct AssetQuantity {
    pub asset_id: Vec<u8>,
    pub sub_id: u64,
    pub amount: Amount,
}

impl View for AssetQuantity {
    type V = Quantity;

    open spec fn view(&self) -> Quantity {
        Quantity { asset_id: self.asset_id@, sub_id: self.sub_id, amount: self.amount@ }
    }
}

impl Clone for AssetQuantity {
    fn clone(&self) -> (r: Self)
        ensures
            r@ == self@,
    {
        let asset_id = self.asset_id.clone();
        assert(asset_id@ =~= self.asset_id@);
        AssetQuantity { asset_id, sub_id: self.sub_id, amount: self.amount.clone() }
    }
}

impl AssetQuantity {
    pub fn new(asset_id: Vec<u8>, sub_id: u64, amount: Amount) -> (r: AssetQuantity)
        ensures
            r@ == (Quantity { asset_id: asset_id@, sub_id, amount: amount@ }),
    {
        AssetQuantity { asset_id, sub_id, amount }
    }

    /// Whether both are quantities of one asset and sub-instance.
    pub fn same_kind(&self, other: &AssetQuantity) -> (b: bool)
        ensures
            b == same_kind(self@, other@),
    {
        if self.sub_id != other.sub_id || self.asset_id.len() != other.asset_id.len() {
            return false;
        }
        let n: usize = self.asset_id.len();
        let mut i: usize = 0;
        while i < n
            invariant
                i <= n,
                n == self.asset_id@.len(),
                n == other.asset_id@.len(),
                forall|j: int| 0 <= j < i ==> self.asset_id@[j] == other.asset_id@[j],
            decreases n - i,
        {
            if self.asset_id[i] != other.asset_id[i] {
                return false;
            }
            i = i + 1;
        }
        assert(self.asset_id@ =~= other.asset_id@);
        true
    }

    /// A quantity of this kind with another amount.
    pub fn with_amount(&self, amount: Amount) -> (r: AssetQuantity)
        ensures
            r@ == self@.with_amount(amount@),
    {
        let asset_id = self.asset_id.clone();
        assert(asset_id@ =~= self.asset_id@);
        AssetQuantity { asset_id, sub_id: self.sub_id, amount }
    }
}

} // verus!
