//! The rules of the engine, as functions from the orders before an
//! invocation to the orders after it and the transfers it causes.
//!
//! A rejected invocation has no outcome: it leaves the orders as they were
//! and causes no transfer.

use vstd::prelude::*;
use crate::address::Address;
use crate::asset::{same_kind, Quantity};
use crate::error::OrderError;
use crate::order::{OrderState, OrderView};
use crate::settlement::{PendingView, RemoteFillView, TransferView};
use crate::store::has_index;

verus! {

/// What an accepted invocation brings about.
pub struct Outcome {
    pub orders: Seq<OrderView>,
    pub transfers: Seq<TransferView>,
}

/// What an inline composite fill brings about.
pub enum CompositeView {
    Settled(Outcome),
    Call(RemoteFillView),
}

/// The orders with the order at `order_id` moved to `state`.
pub open spec fn finalize(orders: Seq<OrderView>, order_id: int, state: OrderState) -> Seq<
    OrderView,
> {
    orders.update(order_id - 1, orders[order_id - 1].with_state(state))
}

/// Creating an order appends it, active and owned by the caller.
pub open spec fn created(
    orders: Seq<OrderView>,
    caller: Address,
    payment: Quantity,
    price: Quantity,
) -> Seq<OrderView> {
    orders.push(OrderView { owner: caller, payment, price, state: OrderState::Active })
}

/// Cancelling: only the owner may, only while the order is active; the
/// escrowed payment goes back to the owner.
pub open spec fn cancel_outcome(orders: Seq<OrderView>, caller: Address, order_id: int) -> Result<
    Outcome,
    OrderError,
> {
    if !has_index(orders, order_id) {
        Err(OrderError::NotFound)
    } else if orders[order_id - 1].owner != caller {
        Err(OrderError::Unauthorized)
    } else if !orders[order_id - 1].is_active() {
        Err(OrderError::AlreadyFinalized)
    } else {
        Ok(
            Outcome {
                orders: finalize(orders, order_id, OrderState::Cancelled),
                transfers: seq![
                    TransferView {
                        to: orders[order_id - 1].owner,
                        what: orders[order_id - 1].payment,
                    },
                ],
            },
        )
    }
}

/// Whether `paid` fills the order at `order_id`, and if not, why not.
pub open spec fn fill_check(orders: Seq<OrderView>, paid: Quantity, order_id: int) -> Result<
    OrderView,
    OrderError,
> {
    if !has_index(orders, order_id) {
        Err(OrderError::NotFound)
    } else if !orders[order_id - 1].is_active() {
        Err(OrderError::AlreadyFinalized)
    } else if !same_kind(paid, orders[order_id - 1].price) {
        Err(OrderError::AssetMismatch)
    } else if paid.amount < orders[order_id - 1].price.amount {
        Err(OrderError::InsufficientPayment)
    } else {
        Ok(orders[order_id - 1])
    }
}

/// A direct fill: the escrowed payment goes to the filler, and all that the
/// filler attached, surplus included, goes to the owner.
pub open spec fn fill_outcome(
    orders: Seq<OrderView>,
    caller: Address,
    paid: Quantity,
    order_id: int,
) -> Result<Outcome, OrderError> {
    match fill_check(orders, paid, order_id) {
        Err(error) => Err(error),
        Ok(order) => Ok(
            Outcome {
                orders: finalize(orders, order_id, OrderState::Filled),
                transfers: seq![
                    TransferView { to: caller, what: order.payment },
                    TransferView { to: order.owner, what: paid },
                ],
            },
        ),
    }
}

/// Whether `other_price` can be forwarded out of the escrow of the order at
/// `order_id`; if so, how much of the escrow remains.
pub open spec fn forward_check(orders: Seq<OrderView>, order_id: int, other_price: Quantity)
    -> Result<nat, OrderError> {
    if !has_index(orders, order_id) {
        Err(OrderError::NotFound)
    } else if !orders[order_id - 1].is_active() {
        Err(OrderError::AlreadyFinalized)
    } else if !same_kind(other_price, orders[order_id - 1].payment) {
        Err(OrderError::AssetMismatch)
    } else if other_price.amount > orders[order_id - 1].payment.amount {
        Err(OrderError::OverdraftAttempt)
    } else {
        Ok((orders[order_id - 1].payment.amount - other_price.amount) as nat)
    }
}

/// The transfers that settle `order`: what remains of the escrow, if
/// anything, back to the caller, and all that was received to the owner.
pub open spec fn settlement_transfers(
    order: OrderView,
    caller: Address,
    remaining: nat,
    received: Quantity,
) -> Seq<TransferView> {
    let to_owner = seq![TransferView { to: order.owner, what: received }];
    if remaining > 0 {
        seq![TransferView { to: caller, what: order.payment.with_amount(remaining) }] + to_owner
    } else {
        to_owner
    }
}

/// Settling the order at `order_id` with what a counter-order yielded.
pub open spec fn settle_outcome(
    orders: Seq<OrderView>,
    order_id: int,
    caller: Address,
    remaining: nat,
    received: Quantity,
) -> Result<Outcome, OrderError> {
    if !has_index(orders, order_id) {
        Err(OrderError::NotFound)
    } else if !orders[order_id - 1].is_active() {
        Err(OrderError::AlreadyFinalized)
    } else if !same_kind(received, orders[order_id - 1].price) {
        Err(OrderError::AssetMismatch)
    } else if received.amount < orders[order_id - 1].price.amount {
        Err(OrderError::InsufficientSettlement)
    } else {
        Ok(
            Outcome {
                orders: finalize(orders, order_id, OrderState::Filled),
                transfers: settlement_transfers(
                    orders[order_id - 1],
                    caller,
                    remaining,
                    received,
                ),
            },
        )
    }
}

/// The request to invoke a counter-order on behalf of the order at
/// `order_id`.
pub open spec fn remote_fill(
    orders: Seq<OrderView>,
    caller: Address,
    order_id: int,
    remaining: nat,
    other_address: Address,
    other_id: int,
    other_price: Quantity,
) -> RemoteFillView {
    RemoteFillView {
        target: other_address,
        other_id,
        payment: other_price,
        expected: orders[order_id - 1].price,
        pending: PendingView { order_id, caller, remaining },
    }
}

/// Filling a counter-order of this very store inline: its owner gets what
/// was forwarded, its escrowed payment stays in custody, and that payment
/// is what the first order is then settled with.
///
/// No order can be filled with itself: filling it as the counter-order
/// makes it final, and its own settlement then finds it so.
pub open spec fn inline_outcome(
    orders: Seq<OrderView>,
    caller: Address,
    order_id: int,
    remaining: nat,
    other_id: int,
    other_price: Quantity,
) -> Result<Outcome, OrderError> {
    match fill_check(orders, other_price, other_id) {
        Err(error) => Err(error),
        Ok(other) => match settle_outcome(
            finalize(orders, other_id, OrderState::Filled),
            order_id,
            caller,
            remaining,
            other.payment,
        ) {
            Err(error) => Err(error),
            Ok(settled) => Ok(
                Outcome {
                    orders: settled.orders,
                    transfers: seq![TransferView { to: other.owner, what: other_price }]
                        + settled.transfers,
                },
            ),
        },
    }
}

/// An inline composite fill, up to the point where the platform takes over.
pub open spec fn composite_outcome(
    contract: Address,
    orders: Seq<OrderView>,
    caller: Address,
    order_id: int,
    other_address: Address,
    other_id: int,
    other_price: Quantity,
) -> Result<CompositeView, OrderError> {
    match forward_check(orders, order_id, other_price) {
        Err(error) => Err(error),
        Ok(remaining) => if contract.domain != orders[order_id - 1].owner.domain || contract.domain
            != caller.domain {
            Err(OrderError::CrossDomainUnsafe)
        } else if other_address == contract {
            match inline_outcome(orders, caller, order_id, remaining, other_id, other_price) {
                Err(error) => Err(error),
                Ok(outcome) => Ok(CompositeView::Settled(outcome)),
            }
        } else {
            Ok(
                CompositeView::Call(
                    remote_fill(
                        orders,
                        caller,
                        order_id,
                        remaining,
                        other_address,
                        other_id,
                        other_price,
                    ),
                ),
            )
        },
    }
}

/// What came in between two measurements of a balance.
pub open spec fn inflow(before: nat, after: nat) -> nat {
    if after >= before {
        (after - before) as nat
    } else {
        0
    }
}

/// The end of an inline composite fill whose counter-order was invoked
/// elsewhere: what the balance of the price asset gained is what was
/// received.
pub open spec fn complete_outcome(
    orders: Seq<OrderView>,
    pending: PendingView,
    balance_before: nat,
    balance_after: nat,
) -> Result<Outcome, OrderError> {
    if !has_index(orders, pending.order_id) {
        Err(OrderError::NotFound)
    } else {
        settle_outcome(
            orders,
            pending.order_id,
            pending.caller,
            pending.remaining,
            orders[pending.order_id - 1].price.with_amount(inflow(balance_before, balance_after)),
        )
    }
}

/// Dispatching an asynchronous composite fill changes nothing yet.
pub open spec fn dispatch_outcome(
    orders: Seq<OrderView>,
    caller: Address,
    order_id: int,
    other_address: Address,
    other_id: int,
    other_price: Quantity,
) -> Result<RemoteFillView, OrderError> {
    match forward_check(orders, order_id, other_price) {
        Err(error) => Err(error),
        Ok(remaining) => Ok(
            remote_fill(orders, caller, order_id, remaining, other_address, other_id, other_price),
        ),
    }
}

/// The callback of an asynchronous composite fill: it settles where the
/// counter-order paid enough of the right asset and the order is still
/// active, and otherwise leaves everything as it is.
pub open spec fn callback_outcome(
    orders: Seq<OrderView>,
    pending: PendingView,
    result: Option<Quantity>,
) -> Outcome {
    match result {
        None => Outcome { orders, transfers: Seq::empty() },
        Some(received) => match settle_outcome(
            orders,
            pending.order_id,
            pending.caller,
            pending.remaining,
            received,
        ) {
            Ok(outcome) => outcome,
            Err(_) => Outcome { orders, transfers: Seq::empty() },
        },
    }
}

/// An order can be cancelled once: whoever cancels it again is rejected,
/// the owner because the order is final, anyone else for not owning it.
pub proof fn lemma_cancel_twice_is_rejected(
    orders: Seq<OrderView>,
    caller: Address,
    again: Address,
    order_id: int,
)
    requires
        cancel_outcome(orders, caller, order_id).is_ok(),
    ensures
        cancel_outcome(cancel_outcome(orders, caller, order_id).unwrap().orders, again, order_id)
            == if again == caller {
            Err::<Outcome, OrderError>(OrderError::AlreadyFinalized)
        } else {
            Err::<Outcome, OrderError>(OrderError::Unauthorized)
        },
{
}

/// An order that was filled or cancelled refuses every further fill,
/// direct or composite, and every further settlement.
pub proof fn lemma_final_order_refuses(
    orders: Seq<OrderView>,
    order_id: int,
    caller: Address,
    quantity: Quantity,
    remaining: nat,
)
    requires
        has_index(orders, order_id),
        !orders[order_id - 1].is_active(),
    ensures
        fill_outcome(orders, caller, quantity, order_id) == Err::<Outcome, OrderError>(
            OrderError::AlreadyFinalized,
        ),
        forward_check(orders, order_id, quantity) == Err::<nat, OrderError>(
            OrderError::AlreadyFinalized,
        ),
        settle_outcome(orders, order_id, caller, remaining, quantity) == Err::<
            Outcome,
            OrderError,
        >(OrderError::AlreadyFinalized),
{
}

/// A callback that reports failure leaves every order as it is and
/// transfers nothing.
pub proof fn lemma_failed_callback_changes_nothing(orders: Seq<OrderView>, pending: PendingView)
    ensures
        callback_outcome(orders, pending, None).orders == orders,
        callback_outcome(orders, pending, None).transfers == Seq::<TransferView>::empty(),
{
}

/// A callback that reports success settles exactly as the inline composite
/// fill does when its balance gained what the callback received, and the
/// order ends up filled.
pub proof fn lemma_callback_settles_like_completion(
    orders: Seq<OrderView>,
    pending: PendingView,
    received: Quantity,
    balance_before: nat,
    balance_after: nat,
)
    requires
        has_index(orders, pending.order_id),
        orders[pending.order_id - 1].is_active(),
        same_kind(received, orders[pending.order_id - 1].price),
        received.amount >= orders[pending.order_id - 1].price.amount,
        balance_after == balance_before + received.amount,
    ensures
        complete_outcome(orders, pending, balance_before, balance_after) == Ok::<
            Outcome,
            OrderError,
        >(callback_outcome(orders, pending, Some(received))),
        callback_outcome(orders, pending, Some(received)).orders[pending.order_id - 1].state
            == OrderState::Filled,
        callback_outcome(orders, pending, Some(received)).transfers == settlement_transfers(
            orders[pending.order_id - 1],
            pending.caller,
            pending.remaining,
            received,
        ),
{
    let price = orders[pending.order_id - 1].price;
    assert(price.with_amount(inflow(balance_before, balance_after)) == received);
}

} // verus!
