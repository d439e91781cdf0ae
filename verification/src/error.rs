//! Why an invocation is rejected.

use vstd::prelude::*;

verus! {

#[derive(Clone, Copy, Debug, PartialEq, Eq, Structural)]
pub enum OrderError {
    /// The caller does not own the order.
    Unauthorized,
    /// The order is filled or cancelled already.
    AlreadyFinalized,
    /// The asset supplied is not the asset expected.
    AssetMismatch,
    /// The payment attached is below the order's price.
    InsufficientPayment,
    /// The counter-order yielded less than the order's price.
    InsufficientSettlement,
    /// More was to be forwarded than the order holds in escrow.
    OverdraftAttempt,
    /// The parties of an inline composite fill are not on one domain.
    CrossDomainUnsafe,
    /// No order has this index.
    NotFound,
}

impl OrderError {
    /// The reason shown to whoever made the rejected invocation.
    pub fn reason(&self) -> (text: &'static str)
        ensures
            text@ == self.reason_text(),
    {
        match self {
            OrderError::Unauthorized => "only the owner can cancel the order",
            OrderError::AlreadyFinalized => "the order is no longer active",
            OrderError::AssetMismatch => "the order is not for the same asset",
            OrderError::InsufficientPayment => "the amount is not enough to fill the order",
            OrderError::InsufficientSettlement => "the other order did not pay enough",
            OrderError::OverdraftAttempt => "the remaining amount is negative",
            OrderError::CrossDomainUnsafe => "the caller or the owner is not on the same domain as the contract",
            OrderError::NotFound => "no order has this index",
        }
    }

    pub open spec fn reason_text(self) -> Seq<char> {
        match self {
            OrderError::Unauthorized => "only the owner can cancel the order"@,
            OrderError::AlreadyFinalized => "the order is no longer active"@,
            OrderError::AssetMismatch => "the order is not for the same asset"@,
            OrderError::InsufficientPayment => "the amount is not enough to fill the order"@,
            OrderError::InsufficientSettlement => "the other order did not pay enough"@,
            OrderError::OverdraftAttempt => "the remaining amount is negative"@,
            OrderError::CrossDomainUnsafe => "the caller or the owner is not on the same domain as the contract"@,
            OrderError::NotFound => "no order has this index"@,
        }
    }
}

/// No two kinds of error share a reason, and none is empty.
pub proof fn lemma_reasons_differ()
    ensures
        forall|a: OrderError| #[trigger] a.reason_text().len() > 0,
        forall|a: OrderError, b: OrderError| a != b ==> a.reason_text() != b.reason_text(),
{
    reveal_strlit("only the owner can cancel the order");
    reveal_strlit("the order is no longer active");
    reveal_strlit("the order is not for the same asset");
    reveal_strlit("the amount is not enough to fill the order");
    reveal_strlit("the other order did not pay enough");
    reveal_strlit("the remaining amount is negative");
    reveal_strlit("the caller or the owner is not on the same domain as the contract");
    reveal_strlit("no order has this index");
    assert forall|a: OrderError, b: OrderError| a != b implies a.reason_text() != b.reason_text() by {
        let s = a.reason_text();
        let t = b.reason_text();
        if s.len() == t.len() {
            assert(s[4] != t[4] || s[0] != t[0] || s[8] != t[8]);
        }
    }
}

} // verus!
