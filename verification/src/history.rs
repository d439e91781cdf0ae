//! What holds of the orders over any sequence of invocations: an order
//! leaves `Active` at most once, and nothing else about it ever changes.

use vstd::prelude::*;
use crate::address::Address;
use crate::asset::Quantity;
use crate::order::{advances, OrderState, OrderView};
use crate::protocol::{
    callback_outcome, cancel_outcome, complete_outcome, composite_outcome, created, fill_check,
    fill_outcome, finalize, CompositeView,
};
use crate::settlement::PendingView;
use crate::store::has_index;

verus! {

/// One invocation of an entry point, with all that the platform hands it.
pub enum Operation {
    Create { caller: Address, payment: Quantity, price: Quantity },
    Cancel { caller: Address, order_id: int },
    Fill { caller: Address, paid: Quantity, order_id: int },
    FillWithOther {
        caller: Address,
        order_id: int,
        other_address: Address,
        other_id: int,
        other_price: Quantity,
    },
    CompleteFillWithOther { pending: PendingView, balance_before: nat, balance_after: nat },
    FillWithOtherAsync {
        caller: Address,
        order_id: int,
        other_address: Address,
        other_id: int,
        other_price: Quantity,
    },
    Callback { pending: PendingView, result: Option<Quantity> },
}

/// The orders after one invocation on the contract at `contract`.
pub open spec fn apply(contract: Address, orders: Seq<OrderView>, operation: Operation) -> Seq<
    OrderView,
> {
    match operation {
        Operation::Create { caller, payment, price } => created(orders, caller, payment, price),
        Operation::Cancel { caller, order_id } => match cancel_outcome(orders, caller, order_id) {
            Ok(outcome) => outcome.orders,
            Err(_) => orders,
        },
        Operation::Fill { caller, paid, order_id } => match fill_outcome(
            orders,
            caller,
            paid,
            order_id,
        ) {
            Ok(outcome) => outcome.orders,
            Err(_) => orders,
        },
        Operation::FillWithOther { caller, order_id, other_address, other_id, other_price } => {
            match composite_outcome(
                contract,
                orders,
                caller,
                order_id,
                other_address,
                other_id,
                other_price,
            ) {
                Ok(CompositeView::Settled(outcome)) => outcome.orders,
                _ => orders,
            }
        },
        Operation::CompleteFillWithOther { pending, balance_before, balance_after } => {
            match complete_outcome(orders, pending, balance_before, balance_after) {
                Ok(outcome) => outcome.orders,
                Err(_) => orders,
            }
        },
        Operation::FillWithOtherAsync { .. } => orders,
        Operation::Callback { pending, result } => callback_outcome(orders, pending, result).orders,
    }
}

/// The orders after a sequence of invocations, the first one first.
pub open spec fn run(contract: Address, orders: Seq<OrderView>, operations: Seq<Operation>) -> Seq<
    OrderView,
>
    decreases operations.len(),
{
    if operations.len() == 0 {
        orders
    } else {
        apply(contract, run(contract, orders, operations.drop_last()), operations.last())
    }
}

/// `after` is a later stage of `before`: no order is gone, and each one
/// is as it was or has left `Active` for good.
pub open spec fn evolves(before: Seq<OrderView>, after: Seq<OrderView>) -> bool {
    &&& before.len() <= after.len()
    &&& forall|i: int| 0 <= i < before.len() ==> advances(before[i], #[trigger] after[i])
}

/// Later stages of later stages are later stages.
pub proof fn lemma_evolves_transitive(
    first: Seq<OrderView>,
    second: Seq<OrderView>,
    third: Seq<OrderView>,
)
    requires
        evolves(first, second),
        evolves(second, third),
    ensures
        evolves(first, third),
{
    assert forall|i: int| 0 <= i < first.len() implies advances(first[i], #[trigger] third[i]) by {
        assert(advances(first[i], second[i]));
        assert(advances(second[i], third[i]));
    }
}

/// Moving an active order to a final state is a step forward.
pub proof fn lemma_finalize_evolves(orders: Seq<OrderView>, order_id: int, state: OrderState)
    requires
        has_index(orders, order_id),
        orders[order_id - 1].is_active(),
        state != OrderState::Active,
    ensures
        evolves(orders, finalize(orders, order_id, state)),
{
    let after = finalize(orders, order_id, state);
    assert forall|i: int| 0 <= i < orders.len() implies advances(orders[i], #[trigger] after[i]) by {
        if i == order_id - 1 {
            assert(after[i] == orders[i].with_state(state));
        }
    }
}

/// Whatever is invoked, with whatever arguments, the orders only move
/// forward.
pub proof fn lemma_step_evolves(contract: Address, orders: Seq<OrderView>, operation: Operation)
    ensures
        evolves(orders, apply(contract, orders, operation)),
{
    let after = apply(contract, orders, operation);
    if after != orders {
        match operation {
            Operation::Create { caller, payment, price } => {
                assert forall|i: int| 0 <= i < orders.len() implies advances(
                    orders[i],
                    #[trigger] after[i],
                ) by {}
            },
            Operation::Cancel { caller, order_id } => {
                lemma_finalize_evolves(orders, order_id, OrderState::Cancelled);
            },
            Operation::Fill { caller, paid, order_id } => {
                lemma_finalize_evolves(orders, order_id, OrderState::Filled);
            },
            Operation::FillWithOther { caller, order_id, other_address, other_id, other_price } => {
                assert(fill_check(orders, other_price, other_id).is_ok());
                let between = finalize(orders, other_id, OrderState::Filled);
                lemma_finalize_evolves(orders, other_id, OrderState::Filled);
                lemma_finalize_evolves(between, order_id, OrderState::Filled);
                lemma_evolves_transitive(orders, between, after);
            },
            Operation::CompleteFillWithOther { pending, balance_before, balance_after } => {
                lemma_finalize_evolves(orders, pending.order_id, OrderState::Filled);
            },
            Operation::FillWithOtherAsync { .. } => {},
            Operation::Callback { pending, result } => {
                lemma_finalize_evolves(orders, pending.order_id, OrderState::Filled);
            },
        }
    } else {
        assert forall|i: int| 0 <= i < orders.len() implies advances(
            orders[i],
            #[trigger] after[i],
        ) by {}
    }
}

/// Over any sequence of invocations an order's state moves one way only:
/// from `Active` to `Filled` or `Cancelled`, never back, and never from one
/// final state to the other.
pub proof fn lemma_state_is_monotonic(
    contract: Address,
    orders: Seq<OrderView>,
    operations: Seq<Operation>,
)
    ensures
        evolves(orders, run(contract, orders, operations)),
    decreases operations.len(),
{
    if operations.len() == 0 {
        assert forall|i: int| 0 <= i < orders.len() implies advances(
            orders[i],
            #[trigger] run(contract, orders, operations)[i],
        ) by {}
    } else {
        let before = run(contract, orders, operations.drop_last());
        lemma_state_is_monotonic(contract, orders, operations.drop_last());
        lemma_step_evolves(contract, before, operations.last());
        lemma_evolves_transitive(orders, before, run(contract, orders, operations));
    }
}

/// An order that is filled or cancelled stays exactly as it is, whatever
/// is invoked afterwards.
pub proof fn lemma_final_orders_are_immutable(
    contract: Address,
    orders: Seq<OrderView>,
    operations: Seq<Operation>,
    order_id: int,
)
    requires
        has_index(orders, order_id),
        !orders[order_id - 1].is_active(),
    ensures
        has_index(run(contract, orders, operations), order_id),
        run(contract, orders, operations)[order_id - 1] == orders[order_id - 1],
{
    lemma_state_is_monotonic(contract, orders, operations);
    let after = run(contract, orders, operations);
    assert(advances(orders[order_id - 1], after[order_id - 1]));
}

} // verus!
