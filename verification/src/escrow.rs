//! Escrow accounting: what the active orders hold in escrow is always
//! covered by what the contract has in custody.
//!
//! Custody is the platform's business; the engine only ever sees it move.
//! The statements below therefore follow one asset kind through the
//! invocations: what comes in with an invocation, what goes out by it, and
//! what the active orders hold of that kind before and after.

use vstd::prelude::*;
use crate::address::Address;
use crate::asset::{AssetKind, Quantity};
use crate::history::{apply, lemma_state_is_monotonic, run, Operation};
use crate::order::{advances, OrderState, OrderView};
use crate::protocol::{
    cancel_outcome, complete_outcome, composite_outcome, fill_check, fill_outcome, finalize,
    forward_check, inflow, settle_outcome, settlement_transfers, CompositeView, Outcome,
};
use crate::settlement::{PendingView, TransferView};
use crate::store::has_index;

verus! {

/// How much of `kind` the quantity is.
pub open spec fn amount_of(quantity: Quantity, kind: AssetKind) -> nat {
    if quantity.kind() == kind {
        quantity.amount
    } else {
        0
    }
}

/// How much of `kind` the order holds in escrow.
pub open spec fn escrow_of(order: OrderView, kind: AssetKind) -> nat {
    if order.is_active() {
        amount_of(order.payment, kind)
    } else {
        0
    }
}

/// How much of `kind` all the orders together hold in escrow.
pub open spec fn escrowed(orders: Seq<OrderView>, kind: AssetKind) -> nat
    decreases orders.len(),
{
    if orders.len() == 0 {
        0
    } else {
        escrowed(orders.drop_last(), kind) + escrow_of(orders.last(), kind)
    }
}

/// How much of `kind` the transfers move out of custody.
pub open spec fn paid_out(transfers: Seq<TransferView>, kind: AssetKind) -> nat
    decreases transfers.len(),
{
    if transfers.len() == 0 {
        0
    } else {
        paid_out(transfers.drop_last(), kind) + amount_of(transfers.last().what, kind)
    }
}

/// What one invocation moves into and out of custody, of one kind.
pub struct Movement {
    pub incoming: nat,
    pub outgoing: nat,
}

/// The part of the escrow that a composite fill forwarded to the
/// counter-order: all of it but what `pending` kept back.
pub open spec fn forwarded(orders: Seq<OrderView>, pending: PendingView) -> Quantity {
    let escrow = orders[pending.order_id - 1].payment;
    escrow.with_amount((escrow.amount - pending.remaining) as nat)
}

/// What a composite fill moves once its counter-order has been invoked
/// elsewhere: the payment forwarded leaves with the settlement, and what
/// the counter-order yielded comes in.
pub open spec fn resumed_movement(
    orders: Seq<OrderView>,
    pending: PendingView,
    received: Quantity,
    kind: AssetKind,
) -> Movement {
    match settle_outcome(orders, pending.order_id, pending.caller, pending.remaining, received) {
        Ok(outcome) => Movement {
            incoming: amount_of(received, kind),
            outgoing: amount_of(forwarded(orders, pending), kind) + paid_out(
                outcome.transfers,
                kind,
            ),
        },
        Err(_) => Movement { incoming: 0, outgoing: 0 },
    }
}

/// What an invocation moves. A rejected invocation moves nothing: the
/// platform discards it whole, attached payment included.
pub open spec fn movement(
    contract: Address,
    orders: Seq<OrderView>,
    operation: Operation,
    kind: AssetKind,
) -> Movement {
    match operation {
        Operation::Create { caller, payment, price } => Movement {
            incoming: amount_of(payment, kind),
            outgoing: 0,
        },
        Operation::Cancel { caller, order_id } => match cancel_outcome(orders, caller, order_id) {
            Ok(outcome) => Movement { incoming: 0, outgoing: paid_out(outcome.transfers, kind) },
            Err(_) => Movement { incoming: 0, outgoing: 0 },
        },
        Operation::Fill { caller, paid, order_id } => match fill_outcome(
            orders,
            caller,
            paid,
            order_id,
        ) {
            Ok(outcome) => Movement {
                incoming: amount_of(paid, kind),
                outgoing: paid_out(outcome.transfers, kind),
            },
            Err(_) => Movement { incoming: 0, outgoing: 0 },
        },
        Operation::FillWithOther { caller, order_id, other_address, other_id, other_price } => {
            match composite_outcome(
                contract,
                orders,
                caller,
                order_id,
                other_address,
                other_id,
                other_price,
            ) {
                Ok(CompositeView::Settled(outcome)) => Movement {
                    incoming: 0,
                    outgoing: paid_out(outcome.transfers, kind),
                },
                _ => Movement { incoming: 0, outgoing: 0 },
            }
        },
        Operation::CompleteFillWithOther { pending, balance_before, balance_after } => {
            if has_index(orders, pending.order_id) {
                resumed_movement(
                    orders,
                    pending,
                    orders[pending.order_id - 1].price.with_amount(
                        inflow(balance_before, balance_after),
                    ),
                    kind,
                )
            } else {
                Movement { incoming: 0, outgoing: 0 }
            }
        },
        Operation::FillWithOtherAsync { .. } => Movement { incoming: 0, outgoing: 0 },
        Operation::Callback { pending, result } => match result {
            Some(received) => resumed_movement(orders, pending, received, kind),
            None => Movement { incoming: 0, outgoing: 0 },
        },
    }
}

/// Whether the engine can account for the invocation.
///
/// It cannot where a composite fill is resumed with a context that keeps
/// back more than the order holds, and it cannot where a counter-order
/// that was dispatched reports success but the order is not settled (the
/// payment is short or of the wrong asset, or the order was cancelled in
/// the meantime): the counter-order has then kept what was forwarded.
pub open spec fn accounted(orders: Seq<OrderView>, operation: Operation) -> bool {
    match operation {
        Operation::CompleteFillWithOther { pending, balance_before, balance_after } => {
            complete_outcome(orders, pending, balance_before, balance_after).is_ok()
                ==> pending.remaining <= orders[pending.order_id - 1].payment.amount
        },
        Operation::Callback { pending, result } => match result {
            Some(received) => {
                &&& settle_outcome(
                    orders,
                    pending.order_id,
                    pending.caller,
                    pending.remaining,
                    received,
                ).is_ok()
                &&& pending.remaining <= orders[pending.order_id - 1].payment.amount
            },
            None => true,
        },
        _ => true,
    }
}

/// Whether the engine can account for every one of the invocations, each
/// taken on the orders that the ones before it left.
pub open spec fn all_accounted(
    contract: Address,
    orders: Seq<OrderView>,
    operations: Seq<Operation>,
) -> bool
    decreases operations.len(),
{
    operations.len() == 0 || {
        &&& all_accounted(contract, orders, operations.drop_last())
        &&& accounted(run(contract, orders, operations.drop_last()), operations.last())
    }
}

/// The custody of `kind` after the invocations, given the custody before.
pub open spec fn custody_after(
    contract: Address,
    orders: Seq<OrderView>,
    operations: Seq<Operation>,
    kind: AssetKind,
    custody: int,
) -> int
    decreases operations.len(),
{
    if operations.len() == 0 {
        custody
    } else {
        let moved = movement(
            contract,
            run(contract, orders, operations.drop_last()),
            operations.last(),
            kind,
        );
        custody_after(contract, orders, operations.drop_last(), kind, custody) + moved.incoming
            - moved.outgoing
    }
}

proof fn lemma_escrowed_push(orders: Seq<OrderView>, order: OrderView, kind: AssetKind)
    ensures
        escrowed(orders.push(order), kind) == escrowed(orders, kind) + escrow_of(order, kind),
{
    assert(orders.push(order).drop_last() =~= orders);
}

proof fn lemma_escrowed_update(orders: Seq<OrderView>, i: int, order: OrderView, kind: AssetKind)
    requires
        0 <= i < orders.len(),
    ensures
        escrowed(orders.update(i, order), kind) + escrow_of(orders[i], kind) == escrowed(
            orders,
            kind,
        ) + escrow_of(order, kind),
    decreases orders.len(),
{
    let updated = orders.update(i, order);
    if i == orders.len() - 1 {
        assert(updated.drop_last() =~= orders.drop_last());
    } else {
        lemma_escrowed_update(orders.drop_last(), i, order, kind);
        assert(updated.drop_last() =~= orders.drop_last().update(i, order));
    }
}

/// An order that leaves `Active` releases exactly its payment.
proof fn lemma_finalize_releases(
    orders: Seq<OrderView>,
    order_id: int,
    state: OrderState,
    kind: AssetKind,
)
    requires
        has_index(orders, order_id),
        orders[order_id - 1].is_active(),
        state != OrderState::Active,
    ensures
        escrowed(finalize(orders, order_id, state), kind) + amount_of(
            orders[order_id - 1].payment,
            kind,
        ) == escrowed(orders, kind),
{
    lemma_escrowed_update(orders, order_id - 1, orders[order_id - 1].with_state(state), kind);
}

proof fn lemma_paid_out_push(transfers: Seq<TransferView>, transfer: TransferView, kind: AssetKind)
    ensures
        paid_out(transfers.push(transfer), kind) == paid_out(transfers, kind) + amount_of(
            transfer.what,
            kind,
        ),
{
    assert(transfers.push(transfer).drop_last() =~= transfers);
}

proof fn lemma_paid_out_concat(
    first: Seq<TransferView>,
    second: Seq<TransferView>,
    kind: AssetKind,
)
    ensures
        paid_out(first + second, kind) == paid_out(first, kind) + paid_out(second, kind),
    decreases second.len(),
{
    if second.len() == 0 {
        assert(first + second =~= first);
    } else {
        lemma_paid_out_concat(first, second.drop_last(), kind);
        assert((first + second).drop_last() =~= first + second.drop_last());
    }
}

proof fn lemma_paid_out_one(transfer: TransferView, kind: AssetKind)
    ensures
        paid_out(seq![transfer], kind) == amount_of(transfer.what, kind),
{
    lemma_paid_out_push(Seq::empty(), transfer, kind);
    assert(Seq::<TransferView>::empty().push(transfer) =~= seq![transfer]);
}

/// A settlement pays out what remained of the escrow and what was received.
proof fn lemma_settlement_pays(
    order: OrderView,
    caller: Address,
    remaining: nat,
    received: Quantity,
    kind: AssetKind,
)
    ensures
        paid_out(settlement_transfers(order, caller, remaining, received), kind) == amount_of(
            order.payment.with_amount(remaining),
            kind,
        ) + amount_of(received, kind),
{
    let to_owner = TransferView { to: order.owner, what: received };
    let refund = TransferView { to: caller, what: order.payment.with_amount(remaining) };
    lemma_paid_out_one(to_owner, kind);
    if remaining > 0 {
        lemma_paid_out_one(refund, kind);
        lemma_paid_out_concat(seq![refund], seq![to_owner], kind);
    }
}

/// Resuming a composite fill releases the order's escrow, and pays out
/// exactly that plus what came in.
proof fn lemma_resumed_conserves(
    orders: Seq<OrderView>,
    pending: PendingView,
    received: Quantity,
    kind: AssetKind,
)
    requires
        settle_outcome(
            orders,
            pending.order_id,
            pending.caller,
            pending.remaining,
            received,
        ) matches Ok(outcome) && pending.remaining <= orders[pending.order_id - 1].payment.amount,
    ensures
        escrowed(orders, kind) + resumed_movement(orders, pending, received, kind).incoming
            == resumed_movement(orders, pending, received, kind).outgoing + escrowed(
            settle_outcome(
                orders,
                pending.order_id,
                pending.caller,
                pending.remaining,
                received,
            ).unwrap().orders,
            kind,
        ),
{
    let order = orders[pending.order_id - 1];
    lemma_finalize_releases(orders, pending.order_id, OrderState::Filled, kind);
    lemma_settlement_pays(order, pending.caller, pending.remaining, received, kind);
}

/// What an invocation releases from escrow is what it pays out beyond what
/// it took in: of every kind, escrow before plus incoming equals outgoing
/// plus escrow after.
pub proof fn lemma_step_conserves(
    contract: Address,
    orders: Seq<OrderView>,
    operation: Operation,
    kind: AssetKind,
)
    requires
        accounted(orders, operation),
    ensures
        escrowed(orders, kind) + movement(contract, orders, operation, kind).incoming == movement(
            contract,
            orders,
            operation,
            kind,
        ).outgoing + escrowed(apply(contract, orders, operation), kind),
{
    match operation {
        Operation::Create { caller, payment, price } => {
            lemma_escrowed_push(
                orders,
                OrderView { owner: caller, payment, price, state: OrderState::Active },
                kind,
            );
        },
        Operation::Cancel { caller, order_id } => {
            if cancel_outcome(orders, caller, order_id).is_ok() {
                let order = orders[order_id - 1];
                lemma_finalize_releases(orders, order_id, OrderState::Cancelled, kind);
                lemma_paid_out_one(TransferView { to: order.owner, what: order.payment }, kind);
            }
        },
        Operation::Fill { caller, paid, order_id } => {
            if fill_outcome(orders, caller, paid, order_id).is_ok() {
                let order = orders[order_id - 1];
                let to_filler = TransferView { to: caller, what: order.payment };
                let to_owner = TransferView { to: order.owner, what: paid };
                lemma_finalize_releases(orders, order_id, OrderState::Filled, kind);
                lemma_paid_out_one(to_filler, kind);
                lemma_paid_out_push(seq![to_filler], to_owner, kind);
                assert(seq![to_filler].push(to_owner) =~= seq![to_filler, to_owner]);
            }
        },
        Operation::FillWithOther { caller, order_id, other_address, other_id, other_price } => {
            if let Ok(CompositeView::Settled(outcome)) = composite_outcome(
                contract,
                orders,
                caller,
                order_id,
                other_address,
                other_id,
                other_price,
            ) {
                let order = orders[order_id - 1];
                let other = orders[other_id - 1];
                let remaining = forward_check(orders, order_id, other_price).unwrap();
                assert(fill_check(orders, other_price, other_id).is_ok());
                let between = finalize(orders, other_id, OrderState::Filled);
                let to_other = TransferView { to: other.owner, what: other_price };
                assert(between[order_id - 1] == order);
                lemma_finalize_releases(orders, other_id, OrderState::Filled, kind);
                lemma_finalize_releases(between, order_id, OrderState::Filled, kind);
                lemma_settlement_pays(order, caller, remaining, other.payment, kind);
                lemma_paid_out_one(to_other, kind);
                lemma_paid_out_concat(
                    seq![to_other],
                    settlement_transfers(order, caller, remaining, other.payment),
                    kind,
                );
            }
        },
        Operation::CompleteFillWithOther { pending, balance_before, balance_after } => {
            if complete_outcome(orders, pending, balance_before, balance_after).is_ok() {
                lemma_resumed_conserves(
                    orders,
                    pending,
                    orders[pending.order_id - 1].price.with_amount(
                        inflow(balance_before, balance_after),
                    ),
                    kind,
                );
            }
        },
        Operation::FillWithOtherAsync { .. } => {},
        Operation::Callback { pending, result } => {
            if let Some(received) = result {
                lemma_resumed_conserves(orders, pending, received, kind);
            }
        },
    }
}

/// Escrow solvency: if custody covers the escrow of a kind to begin with,
/// it covers it after any sequence of invocations that the engine can
/// account for. In particular custody never runs out while the transfers
/// of an invocation are carried out.
pub proof fn lemma_escrow_stays_covered(
    contract: Address,
    orders: Seq<OrderView>,
    operations: Seq<Operation>,
    kind: AssetKind,
    custody: nat,
)
    requires
        custody >= escrowed(orders, kind),
        all_accounted(contract, orders, operations),
    ensures
        custody_after(contract, orders, operations, kind, custody as int) >= escrowed(
            run(contract, orders, operations),
            kind,
        ),
    decreases operations.len(),
{
    if operations.len() > 0 {
        lemma_escrow_stays_covered(contract, orders, operations.drop_last(), kind, custody);
        lemma_step_conserves(
            contract,
            run(contract, orders, operations.drop_last()),
            operations.last(),
            kind,
        );
    }
}

/// The context that a composite fill was dispatched with can be accounted
/// for whenever the fill is completed: while the order is active it is the
/// order that the context was made for.
pub proof fn lemma_dispatched_context_is_accounted(
    contract: Address,
    orders: Seq<OrderView>,
    order_id: int,
    other_price: Quantity,
    caller: Address,
    operations: Seq<Operation>,
    balance_before: nat,
    balance_after: nat,
)
    requires
        forward_check(orders, order_id, other_price).is_ok(),
    ensures
        accounted(
            run(contract, orders, operations),
            Operation::CompleteFillWithOther {
                pending: PendingView {
                    order_id,
                    caller,
                    remaining: forward_check(orders, order_id, other_price).unwrap(),
                },
                balance_before,
                balance_after,
            },
        ),
{
    let later = run(contract, orders, operations);
    lemma_state_is_monotonic(contract, orders, operations);
    assert(advances(orders[order_id - 1], later[order_id - 1]));
}

} // verus!
