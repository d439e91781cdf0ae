//! What an entry point hands back to the platform: transfers to carry out,
//! a counter-order to invoke, and the context to resume with afterwards.

use vstd::prelude::*;
use crate::address::Address;
use crate::amount::Amount;
use crate::asset::{AssetQuantity, Quantity};

verus! {

/// The mathematical content of a `Transfer`.
pub struct TransferView {
    pub to: Address,
    pub what: Quantity,
}

/// An instruction to move `what` out of custody to `to`.
#[derive(Debug, PartialEq, Eq)]
pub struct Transfer {
    pub to: Address,
    pub what: AssetQuantity,
}

impl View for Transfer {
    type V = TransferView;

    open spec fn view(&self) -> TransferView {
        TransferView { to: self.to, what: self.what@ }
    }
}

/// The contents of a list of transfers, in order.
pub open spec fn transfer_views(transfers: Seq<Transfer>) -> Seq<TransferView> {
    transfers.map_values(|transfer: Transfer| transfer@)
}

/// The mathematical content of a `PendingFill`.
pub struct PendingView {
    pub order_id: int,
    pub caller: Address,
    pub remaining: nat,
}

/// All that a composite fill remembers while the counter-order is being
/// invoked: the order to settle, who asked for it, and how much of the
/// escrow was not forwarded.
#[derive(Debug, PartialEq, Eq)]
pub struct PendingFill {
    pub order_id: usize,
    pub caller: Address,
    pub remaining: Amount,
}

impl View for PendingFill {
    type V = PendingView;

    open spec fn view(&self) -> PendingView {
        PendingView {
            order_id: self.order_id as int,
            caller: self.caller,
            remaining: self.remaining@,
        }
    }
}

/// The mathematical content of a `RemoteFill`.
pub struct RemoteFillView {
    pub target: Address,
    pub other_id: int,
    pub payment: Quantity,
    pub expected: Quantity,
    pub pending: PendingView,
}

/// A request to the platform: invoke the fill of order `other_id` at
/// `target` with `payment` attached, then resume with `pending`.
/// `expected` is the price that the invocation has to bring in.
#[derive(Debug, PartialEq, Eq)]
pub struct RemoteFill {
    pub target: Address,
    pub other_id: usize,
    pub payment: AssetQuantity,
    pub expected: AssetQuantity,
    pub pending: PendingFill,
}

impl View for RemoteFill {
    type V = RemoteFillView;

    open spec fn view(&self) -> RemoteFillView {
        RemoteFillView {
            target: self.target,
            other_id: self.other_id as int,
            payment: self.payment@,
            expected: self.expected@,
            pending: self.pending@,
        }
    }
}

/// How far an inline composite fill got in one invocation.
#[derive(Debug, PartialEq, Eq)]
pub enum CompositeStep {
    /// Both orders were in this store: the fill is settled.
    Settled(Vec<Transfer>),
    /// The counter-order lives elsewhere: the platform has to invoke it.
    Call(RemoteFill),
}

/// What came back from a counter-order that was invoked asynchronously.
#[derive(Debug, PartialEq, Eq)]
pub enum FillResult {
    /// The invocation failed; nothing was transferred.
    Failed,
    /// The invocation succeeded and brought this payment.
    Paid(AssetQuantity),
}

impl View for FillResult {
    type V = Option<Quantity>;

    open spec fn view(&self) -> Option<Quantity> {
        match self {
            FillResult::Failed => None,
            FillResult::Paid(payment) => Some(payment@),
        }
    }
}

} // verus!
