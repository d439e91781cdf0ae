//! The entry points of the engine and the order book that implements them.

use vstd::prelude::*;
use crate::address::Address;
use crate::amount::Amount;
use crate::asset::AssetQuantity;
use crate::error::OrderError;
use crate::history::{apply, evolves, lemma_step_evolves, Operation};
use crate::order::{Order, OrderState, OrderView};
use crate::protocol::{
    callback_outcome, cancel_outcome, complete_outcome, composite_outcome, created,
    dispatch_outcome, fill_outcome, settle_outcome, CompositeView, Outcome,
};
use crate::settlement::{
    transfer_views, CompositeStep, FillResult, PendingFill, RemoteFill, Transfer, TransferView,
};
use crate::store::{has_index, OrderStore};

verus! {

/// Whether an entry point did what the rules say: on acceptance the orders
/// and the transfers of the outcome, on rejection the error and no change.
pub open spec fn answers(
    result: Result<Vec<Transfer>, OrderError>,
    before: Seq<OrderView>,
    after: Seq<OrderView>,
    expected: Result<Outcome, OrderError>,
) -> bool {
    match expected {
        Ok(outcome) => result matches Ok(transfers) && transfer_views(transfers@)
            == outcome.transfers && after == outcome.orders,
        Err(error) => result matches Err(e) && e == error && after == before,
    }
}

/// The same for an inline composite fill, which may also end in a request
/// to the platform.
pub open spec fn composite_answers(
    result: Result<CompositeStep, OrderError>,
    before: Seq<OrderView>,
    after: Seq<OrderView>,
    expected: Result<CompositeView, OrderError>,
) -> bool {
    match expected {
        Ok(CompositeView::Settled(outcome)) => result matches Ok(CompositeStep::Settled(transfers))
            && transfer_views(transfers@) == outcome.transfers && after == outcome.orders,
        Ok(CompositeView::Call(call)) => result matches Ok(CompositeStep::Call(request))
            && request@ == call && after == before,
        Err(error) => result matches Err(e) && e == error && after == before,
    }
}

/// The entry points of a limit-order contract.
///
/// Each takes what the platform knows of the invocation (who calls, what
/// payment is attached, what a balance measured) and returns what the
/// platform has to do. What an entry point writes is written before any
/// transfer it returns is carried out.
pub trait LimitOrderContract: Sized {
    /// The contract's own address.
    spec fn address(&self) -> Address;

    /// All orders ever created, the order with index 1 first.
    spec fn orders(&self) -> Seq<OrderView>;

    /// A contract at `address` without orders.
    fn init(address: Address) -> (contract: Self)
        ensures
            contract.address() == address,
            contract.orders() == Seq::<OrderView>::empty(),
    ;

    /// Escrows the attached `payment` in a new order of `caller`, offered
    /// for `price`, and returns the order's index.
    fn create_order(
        &mut self,
        caller: Address,
        payment: AssetQuantity,
        price: AssetQuantity,
    ) -> (order_id: usize)
        requires
            payment@.amount > 0,
            price@.amount > 0,
            old(self).orders().len() < usize::MAX,
        ensures
            final(self).address() == old(self).address(),
            final(self).orders() == apply(
                old(self).address(),
                old(self).orders(),
                Operation::Create { caller, payment: payment@, price: price@ },
            ),
            evolves(old(self).orders(), final(self).orders()),
            final(self).orders() == created(old(self).orders(), caller, payment@, price@),
            order_id == old(self).orders().len() + 1,
    ;

    /// Cancels the order and returns the refund of its escrow.
    fn cancel_order(
        &mut self,
        caller: Address,
        order_id: usize,
    ) -> (result: Result<Vec<Transfer>, OrderError>)
        ensures
            final(self).address() == old(self).address(),
            final(self).orders() == apply(
                old(self).address(),
                old(self).orders(),
                Operation::Cancel { caller, order_id: order_id as int },
            ),
            evolves(old(self).orders(), final(self).orders()),
            answers(
                result,
                old(self).orders(),
                final(self).orders(),
                cancel_outcome(old(self).orders(), caller, order_id as int),
            ),
    ;

    /// Fills the order with the payment `paid` that `caller` attached.
    fn fill_order(
        &mut self,
        caller: Address,
        paid: AssetQuantity,
        order_id: usize,
    ) -> (result: Result<Vec<Transfer>, OrderError>)
        ensures
            final(self).address() == old(self).address(),
            final(self).orders() == apply(
                old(self).address(),
                old(self).orders(),
                Operation::Fill { caller, paid: paid@, order_id: order_id as int },
            ),
            evolves(old(self).orders(), final(self).orders()),
            answers(
                result,
                old(self).orders(),
                final(self).orders(),
                fill_outcome(old(self).orders(), caller, paid@, order_id as int),
            ),
    ;

    /// Fills the order by filling order `other_id` at `other_address` with
    /// `other_price` out of the first order's escrow, within one invocation.
    ///
    /// Where the other order is in this store, all is settled at once.
    /// Where it is not, nothing is written yet: the platform measures the
    /// balance of the price asset, invokes the other order with the payment
    /// attached, measures again, and hands both measurements to
    /// `complete_fill_with_other`.
    ///
    /// Only a platform that undoes a whole invocation can undo the payment
    /// it forwarded, and it can do so only on one execution domain. This
    /// entry point therefore refuses to go on unless the contract, the
    /// order's owner and the caller live on the same domain.
    fn fill_order_with_other(
        &mut self,
        caller: Address,
        order_id: usize,
        other_address: Address,
        other_id: usize,
        other_price: AssetQuantity,
    ) -> (result: Result<CompositeStep, OrderError>)
        ensures
            final(self).address() == old(self).address(),
            final(self).orders() == apply(
                old(self).address(),
                old(self).orders(),
                Operation::FillWithOther {
                    caller,
                    order_id: order_id as int,
                    other_address,
                    other_id: other_id as int,
                    other_price: other_price@,
                },
            ),
            evolves(old(self).orders(), final(self).orders()),
            composite_answers(
                result,
                old(self).orders(),
                final(self).orders(),
                composite_outcome(
                    old(self).address(),
                    old(self).orders(),
                    caller,
                    order_id as int,
                    other_address,
                    other_id as int,
                    other_price@,
                ),
            ),
    ;

    /// Settles an inline composite fill after the platform has invoked the
    /// other order: what the balance of the price asset gained between the
    /// two measurements is what was received.
    fn complete_fill_with_other(
        &mut self,
        pending: PendingFill,
        balance_before: Amount,
        balance_after: Amount,
    ) -> (result: Result<Vec<Transfer>, OrderError>)
        ensures
            final(self).address() == old(self).address(),
            final(self).orders() == apply(
                old(self).address(),
                old(self).orders(),
                Operation::CompleteFillWithOther {
                    pending: pending@,
                    balance_before: balance_before@,
                    balance_after: balance_after@,
                },
            ),
            evolves(old(self).orders(), final(self).orders()),
            answers(
                result,
                old(self).orders(),
                final(self).orders(),
                complete_outcome(old(self).orders(), pending@, balance_before@, balance_after@),
            ),
    ;

    /// Prepares a composite fill across execution domains: the platform
    /// dispatches the returned request and later calls `fill_callback`.
    /// The order stays as it is until then.
    fn fill_order_with_other_async(
        &self,
        caller: Address,
        order_id: usize,
        other_address: Address,
        other_id: usize,
        other_price: AssetQuantity,
    ) -> (result: Result<RemoteFill, OrderError>)
        ensures
            match dispatch_outcome(
                self.orders(),
                caller,
                order_id as int,
                other_address,
                other_id as int,
                other_price@,
            ) {
                Ok(call) => result matches Ok(request) && request@ == call,
                Err(error) => result matches Err(e) && e == error,
            },
    ;

    /// Resumes a composite fill with what the dispatched invocation
    /// brought. A failed invocation, a payment of the wrong asset or below
    /// the price, and an order that is no longer active all leave the store
    /// untouched and cause no transfer.
    fn fill_callback(
        &mut self,
        pending: PendingFill,
        result: FillResult,
    ) -> (transfers: Vec<Transfer>)
        ensures
            final(self).address() == old(self).address(),
            final(self).orders() == apply(
                old(self).address(),
                old(self).orders(),
                Operation::Callback { pending: pending@, result: result@ },
            ),
            evolves(old(self).orders(), final(self).orders()),
            transfer_views(transfers@) == callback_outcome(
                old(self).orders(),
                pending@,
                result@,
            ).transfers,
    ;
}

/// `transfers` with one more at its end.
fn push_transfer(
    transfers: Vec<Transfer>,
    to: Address,
    what: AssetQuantity,
) -> (extended: Vec<Transfer>)
    ensures
        transfer_views(extended@) == transfer_views(transfers@).push(
            TransferView { to, what: what@ },
        ),
{
    let mut extended = transfers;
    extended.push(Transfer { to, what });
    assert(transfer_views(extended@) =~= transfer_views(transfers@).push(
        TransferView { to, what: what@ },
    ));
    extended
}

/// No transfer at all.
fn no_transfer() -> (transfers: Vec<Transfer>)
    ensures
        transfer_views(transfers@) == Seq::<TransferView>::empty(),
{
    let transfers: Vec<Transfer> = Vec::new();
    assert(transfer_views(transfers@) =~= Seq::<TransferView>::empty());
    transfers
}

/// An order book held in memory: the contract's address and its store.
pub struct LimitOrderBook {
    address: Address,
    store: OrderStore,
}

impl LimitOrderBook {
    /// The contract at `address` over the orders that `store` holds.
    pub fn with_store(address: Address, store: OrderStore) -> (book: LimitOrderBook)
        ensures
            book.address() == address,
            book.orders() == store@,
    {
        LimitOrderBook { address, store }
    }

    /// The contract's own address.
    pub fn contract_address(&self) -> (address: Address)
        ensures
            address == self.address(),
    {
        self.address
    }

    /// How many orders were ever created.
    pub fn order_count(&self) -> (count: usize)
        ensures
            count == self.orders().len(),
    {
        self.store.len()
    }

    /// A copy of the order at `order_id`.
    pub fn order(&self, order_id: usize) -> (result: Result<Order, OrderError>)
        ensures
            has_index(self.orders(), order_id as int) ==> result.is_ok()
                && result.unwrap()@ == self.orders()[order_id - 1],
            !has_index(self.orders(), order_id as int) ==> result == Err::<
                Order,
                OrderError,
            >(OrderError::NotFound),
    {
        self.store.get(order_id)
    }

    /// Settles the order at `order_id` with `received`, and appends what
    /// that transfers to `transfers`.
    fn settle(
        &mut self,
        transfers: Vec<Transfer>,
        order_id: usize,
        caller: Address,
        remaining: Amount,
        received: AssetQuantity,
    ) -> (result: Result<Vec<Transfer>, OrderError>)
        ensures
            final(self).address == old(self).address,
            match settle_outcome(old(self).store@, order_id as int, caller, remaining@, received@) {
                Ok(outcome) => result matches Ok(all) && transfer_views(all@) == transfer_views(
                    transfers@,
                ) + outcome.transfers && final(self).store@ == outcome.orders,
                Err(error) => result matches Err(e) && e == error && final(self).store@ == old(
                    self,
                ).store@,
            },
    {
        let order = match self.store.get(order_id) {
            Ok(order) => order,
            Err(error) => {
                return Err(error);
            },
        };
        if !order.is_active() {
            return Err(OrderError::AlreadyFinalized);
        }
        if !received.same_kind(order.price()) {
            return Err(OrderError::AssetMismatch);
        }
        if !received.amount.ge(&order.price().amount) {
            return Err(OrderError::InsufficientSettlement);
        }
        let owner = order.owner();
        let ghost given = transfer_views(transfers@);
        let ghost refund = TransferView {
            to: caller,
            what: order@.payment.with_amount(remaining@),
        };
        let ghost to_owner = TransferView { to: owner, what: received@ };
        let mut all = transfers;
        if !remaining.is_zero() {
            let back = order.payment().with_amount(remaining);
            all = push_transfer(all, caller, back);
            assert(given.push(refund).push(to_owner) =~= given + (seq![refund] + seq![to_owner]));
        } else {
            assert(given.push(to_owner) =~= given + seq![to_owner]);
        }
        all = push_transfer(all, owner, received);
        let _ = self.store.set(order_id, order.with_state(OrderState::Filled));
        Ok(all)
    }
}

impl LimitOrderContract for LimitOrderBook {
    closed spec fn address(&self) -> Address {
        self.address
    }

    closed spec fn orders(&self) -> Seq<OrderView> {
        self.store@
    }

    fn init(address: Address) -> (contract: Self) {
        LimitOrderBook { address, store: OrderStore::new() }
    }

    fn create_order(
        &mut self,
        caller: Address,
        payment: AssetQuantity,
        price: AssetQuantity,
    ) -> (order_id: usize) {
        proof {
            lemma_step_evolves(
                self.address,
                self.store@,
                Operation::Create { caller, payment: payment@, price: price@ },
            );
        }
        self.store.create(Order::new(caller, payment, price))
    }

    fn cancel_order(
        &mut self,
        caller: Address,
        order_id: usize,
    ) -> (result: Result<Vec<Transfer>, OrderError>) {
        proof {
            lemma_step_evolves(
                self.address,
                self.store@,
                Operation::Cancel { caller, order_id: order_id as int },
            );
        }
        let order = match self.store.get(order_id) {
            Ok(order) => order,
            Err(error) => {
                return Err(error);
            },
        };
        if !order.owner().same(&caller) {
            return Err(OrderError::Unauthorized);
        }
        if !order.is_active() {
            return Err(OrderError::AlreadyFinalized);
        }
        let refund = push_transfer(no_transfer(), order.owner(), order.payment().clone());
        assert(Seq::<TransferView>::empty().push(
            TransferView { to: order@.owner, what: order@.payment },
        ) =~= seq![TransferView { to: order@.owner, what: order@.payment }]);
        let _ = self.store.set(order_id, order.with_state(OrderState::Cancelled));
        Ok(refund)
    }

    fn fill_order(
        &mut self,
        caller: Address,
        paid: AssetQuantity,
        order_id: usize,
    ) -> (result: Result<Vec<Transfer>, OrderError>) {
        proof {
            lemma_step_evolves(
                self.address,
                self.store@,
                Operation::Fill { caller, paid: paid@, order_id: order_id as int },
            );
        }
        let order = match self.store.get(order_id) {
            Ok(order) => order,
            Err(error) => {
                return Err(error);
            },
        };
        if !order.is_active() {
            return Err(OrderError::AlreadyFinalized);
        }
        if !paid.same_kind(order.price()) {
            return Err(OrderError::AssetMismatch);
        }
        if !paid.amount.ge(&order.price().amount) {
            return Err(OrderError::InsufficientPayment);
        }
        let ghost to_filler = TransferView { to: caller, what: order@.payment };
        let ghost to_owner = TransferView { to: order@.owner, what: paid@ };
        let transfers = push_transfer(no_transfer(), caller, order.payment().clone());
        let transfers = push_transfer(transfers, order.owner(), paid);
        assert(Seq::<TransferView>::empty().push(to_filler).push(to_owner) =~= seq![
            to_filler,
            to_owner,
        ]);
        let _ = self.store.set(order_id, order.with_state(OrderState::Filled));
        Ok(transfers)
    }

    fn fill_order_with_other(
        &mut self,
        caller: Address,
        order_id: usize,
        other_address: Address,
        other_id: usize,
        other_price: AssetQuantity,
    ) -> (result: Result<CompositeStep, OrderError>) {
        proof {
            lemma_step_evolves(
                self.address,
                self.store@,
                Operation::FillWithOther {
                    caller,
                    order_id: order_id as int,
                    other_address,
                    other_id: other_id as int,
                    other_price: other_price@,
                },
            );
        }
        let order = match self.store.get(order_id) {
            Ok(order) => order,
            Err(error) => {
                return Err(error);
            },
        };
        if !order.is_active() {
            return Err(OrderError::AlreadyFinalized);
        }
        if !other_price.same_kind(order.payment()) {
            return Err(OrderError::AssetMismatch);
        }
        let remaining = match order.payment().amount.checked_sub(&other_price.amount) {
            Some(remaining) => remaining,
            None => {
                return Err(OrderError::OverdraftAttempt);
            },
        };
        if !self.address.same_domain(&order.owner()) || !self.address.same_domain(&caller) {
            return Err(OrderError::CrossDomainUnsafe);
        }
        if !other_address.same(&self.address) {
            let request = RemoteFill {
                target: other_address,
                other_id,
                payment: other_price,
                expected: order.price().clone(),
                pending: PendingFill { order_id, caller, remaining },
            };
            return Ok(CompositeStep::Call(request));
        }
        let other = match self.store.get(other_id) {
            Ok(other) => other,
            Err(error) => {
                return Err(error);
            },
        };
        if !other.is_active() {
            return Err(OrderError::AlreadyFinalized);
        }
        if !other_price.same_kind(other.price()) {
            return Err(OrderError::AssetMismatch);
        }
        if !other_price.amount.ge(&other.price().amount) {
            return Err(OrderError::InsufficientPayment);
        }
        // Filling the other order takes the first one's latch if they are one.
        if other_id == order_id {
            return Err(OrderError::AlreadyFinalized);
        }
        let received = other.payment().clone();
        if !received.same_kind(order.price()) {
            return Err(OrderError::AssetMismatch);
        }
        if !received.amount.ge(&order.price().amount) {
            return Err(OrderError::InsufficientSettlement);
        }
        let ghost to_other = TransferView { to: other@.owner, what: other_price@ };
        let transfers = push_transfer(no_transfer(), other.owner(), other_price);
        assert(Seq::<TransferView>::empty().push(to_other) =~= seq![to_other]);
        let _ = self.store.set(other_id, other.with_state(OrderState::Filled));
        match self.settle(transfers, order_id, caller, remaining, received) {
            Ok(all) => Ok(CompositeStep::Settled(all)),
            Err(error) => Err(error),
        }
    }

    fn complete_fill_with_other(
        &mut self,
        pending: PendingFill,
        balance_before: Amount,
        balance_after: Amount,
    ) -> (result: Result<Vec<Transfer>, OrderError>) {
        proof {
            lemma_step_evolves(
                self.address,
                self.store@,
                Operation::CompleteFillWithOther {
                    pending: pending@,
                    balance_before: balance_before@,
                    balance_after: balance_after@,
                },
            );
        }
        let order = match self.store.get(pending.order_id) {
            Ok(order) => order,
            Err(error) => {
                return Err(error);
            },
        };
        let gained = balance_after.saturating_sub(&balance_before);
        let received = order.price().with_amount(gained);
        let result = self.settle(
            no_transfer(),
            pending.order_id,
            pending.caller,
            pending.remaining,
            received,
        );
        proof {
            let expected = complete_outcome(
                old(self).orders(),
                pending@,
                balance_before@,
                balance_after@,
            );
            if let Ok(outcome) = expected {
                assert(Seq::<TransferView>::empty() + outcome.transfers =~= outcome.transfers);
            }
        }
        result
    }

    fn fill_order_with_other_async(
        &self,
        caller: Address,
        order_id: usize,
        other_address: Address,
        other_id: usize,
        other_price: AssetQuantity,
    ) -> (result: Result<RemoteFill, OrderError>) {
        let order = match self.store.get(order_id) {
            Ok(order) => order,
            Err(error) => {
                return Err(error);
            },
        };
        if !order.is_active() {
            return Err(OrderError::AlreadyFinalized);
        }
        if !other_price.same_kind(order.payment()) {
            return Err(OrderError::AssetMismatch);
        }
        let remaining = match order.payment().amount.checked_sub(&other_price.amount) {
            Some(remaining) => remaining,
            None => {
                return Err(OrderError::OverdraftAttempt);
            },
        };
        Ok(
            RemoteFill {
                target: other_address,
                other_id,
                payment: other_price,
                expected: order.price().clone(),
                pending: PendingFill { order_id, caller, remaining },
            },
        )
    }

    fn fill_callback(
        &mut self,
        pending: PendingFill,
        result: FillResult,
    ) -> (transfers: Vec<Transfer>) {
        proof {
            lemma_step_evolves(
                self.address,
                self.store@,
                Operation::Callback { pending: pending@, result: result@ },
            );
        }
        match result {
            FillResult::Failed => no_transfer(),
            FillResult::Paid(received) => {
                let ghost expected = settle_outcome(
                    self.orders(),
                    pending@.order_id,
                    pending@.caller,
                    pending@.remaining,
                    received@,
                );
                match self.settle(
                    no_transfer(),
                    pending.order_id,
                    pending.caller,
                    pending.remaining,
                    received,
                ) {
                    Ok(transfers) => {
                        proof {
                            let outcome = expected.unwrap();
                            assert(Seq::<TransferView>::empty() + outcome.transfers
                                =~= outcome.transfers);
                        }
                        transfers
                    },
                    Err(_) => no_transfer(),
                }
            },
        }
    }
}

} // verus!
