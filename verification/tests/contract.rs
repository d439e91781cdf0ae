use std::collections::HashMap;

use limit_order::address::Address;
use limit_order::amount::Amount;
use limit_order::asset::AssetQuantity;
use limit_order::contract::{LimitOrderBook, LimitOrderContract};
use limit_order::error::OrderError;
use limit_order::order::{Order, OrderState};
use limit_order::settlement::{CompositeStep, FillResult, PendingFill, RemoteFill, Transfer};
use limit_order::store::OrderStore;

fn x(amount: u64) -> AssetQuantity {
    AssetQuantity::new(b"X-aaaaaa".to_vec(), 0, Amount::from_u64(amount))
}

fn y(amount: u64) -> AssetQuantity {
    AssetQuantity::new(b"Y-bbbbbb".to_vec(), 0, Amount::from_u64(amount))
}

fn contract() -> Address {
    Address::new([0xcc; 32], 0)
}

fn elsewhere() -> Address {
    Address::new([0xdd; 32], 0)
}

fn alice() -> Address {
    Address::new([1; 32], 0)
}

fn bob() -> Address {
    Address::new([2; 32], 0)
}

fn carol() -> Address {
    Address::new([3; 32], 0)
}

fn to(to: Address, what: AssetQuantity) -> Transfer {
    Transfer { to, what }
}

fn state(book: &LimitOrderBook, order_id: usize) -> OrderState {
    book.order(order_id).unwrap().state()
}

/// Order 1 of alice: 100 X escrowed, offered for 50 Y.
fn book_with_order() -> LimitOrderBook {
    let mut book = LimitOrderBook::init(contract());
    assert_eq!(book.create_order(alice(), x(100), y(50)), 1);
    book
}

/// Order 1 as above, and order 2 of bob: 60 Y escrowed, offered for 80 X.
fn book_with_two_orders() -> LimitOrderBook {
    let mut book = book_with_order();
    assert_eq!(book.create_order(bob(), y(60), x(80)), 2);
    book
}

#[test]
fn init_has_no_orders() {
    let book = LimitOrderBook::init(contract());
    assert_eq!(book.order_count(), 0);
    assert_eq!(book.contract_address(), contract());
    assert_eq!(book.order(1), Err(OrderError::NotFound));
}

#[test]
fn create_order_appends_an_active_order() {
    let mut book = LimitOrderBook::init(contract());
    assert_eq!(book.create_order(alice(), x(100), y(50)), 1);
    assert_eq!(book.create_order(bob(), y(7), x(9)), 2);
    assert_eq!(book.order_count(), 2);
    let first = book.order(1).unwrap();
    assert_eq!(first.owner(), alice());
    assert_eq!(first.payment(), &x(100));
    assert_eq!(first.price(), &y(50));
    assert_eq!(first.state(), OrderState::Active);
    let second = book.order(2).unwrap();
    assert_eq!(second.owner(), bob());
    assert_eq!(second.payment(), &y(7));
    assert_eq!(second.price(), &x(9));
    assert!(second.is_active());
}

#[test]
fn cancel_refunds_the_payment_to_the_owner() {
    let mut book = book_with_order();
    assert_eq!(book.cancel_order(alice(), 1), Ok(vec![to(alice(), x(100))]));
    assert_eq!(state(&book, 1), OrderState::Cancelled);
    assert_eq!(book.order(1).unwrap().payment(), &x(100));
}

#[test]
fn cancel_by_another_is_unauthorized() {
    let mut book = book_with_order();
    assert_eq!(book.cancel_order(bob(), 1), Err(OrderError::Unauthorized));
    assert_eq!(state(&book, 1), OrderState::Active);
}

#[test]
fn cancel_twice_is_already_finalized() {
    let mut book = book_with_order();
    assert!(book.cancel_order(alice(), 1).is_ok());
    assert_eq!(book.cancel_order(alice(), 1), Err(OrderError::AlreadyFinalized));
    assert_eq!(state(&book, 1), OrderState::Cancelled);
    // a stranger is told that the order is not theirs, whatever its state
    assert_eq!(book.cancel_order(bob(), 1), Err(OrderError::Unauthorized));
}

#[test]
fn cancel_of_a_missing_order_is_not_found() {
    let mut book = book_with_order();
    assert_eq!(book.cancel_order(alice(), 0), Err(OrderError::NotFound));
    assert_eq!(book.cancel_order(alice(), 2), Err(OrderError::NotFound));
}

#[test]
fn direct_fill_gives_the_surplus_to_the_owner() {
    let mut book = book_with_order();
    assert_eq!(
        book.fill_order(bob(), y(70), 1),
        Ok(vec![to(bob(), x(100)), to(alice(), y(70))])
    );
    assert_eq!(state(&book, 1), OrderState::Filled);
}

#[test]
fn direct_fill_at_the_exact_price() {
    let mut book = book_with_order();
    assert_eq!(
        book.fill_order(bob(), y(50), 1),
        Ok(vec![to(bob(), x(100)), to(alice(), y(50))])
    );
    assert_eq!(state(&book, 1), OrderState::Filled);
}

#[test]
fn underpayment_is_insufficient_payment() {
    let mut book = book_with_order();
    assert_eq!(book.fill_order(bob(), y(40), 1), Err(OrderError::InsufficientPayment));
    assert_eq!(state(&book, 1), OrderState::Active);
    assert_eq!(book.fill_order(bob(), y(49), 1), Err(OrderError::InsufficientPayment));
    assert_eq!(state(&book, 1), OrderState::Active);
}

#[test]
fn fill_with_another_asset_is_a_mismatch() {
    let mut book = book_with_order();
    assert_eq!(book.fill_order(bob(), x(70), 1), Err(OrderError::AssetMismatch));
    let other_sub_id = AssetQuantity::new(b"Y-bbbbbb".to_vec(), 1, Amount::from_u64(70));
    assert_eq!(book.fill_order(bob(), other_sub_id, 1), Err(OrderError::AssetMismatch));
    // the asset is looked at before the amount
    assert_eq!(book.fill_order(bob(), x(1), 1), Err(OrderError::AssetMismatch));
    assert_eq!(state(&book, 1), OrderState::Active);
}

#[test]
fn fill_of_a_finalized_or_missing_order() {
    let mut book = book_with_order();
    assert_eq!(book.fill_order(bob(), y(70), 2), Err(OrderError::NotFound));
    assert_eq!(book.fill_order(bob(), y(70), 0), Err(OrderError::NotFound));
    assert!(book.fill_order(bob(), y(70), 1).is_ok());
    assert_eq!(book.fill_order(carol(), y(70), 1), Err(OrderError::AlreadyFinalized));
    assert_eq!(book.cancel_order(alice(), 1), Err(OrderError::AlreadyFinalized));
    assert_eq!(state(&book, 1), OrderState::Filled);
}

#[test]
fn composite_fill_within_the_store() {
    let mut book = book_with_two_orders();
    let step = book.fill_order_with_other(carol(), 1, contract(), 2, x(80));
    assert_eq!(
        step,
        Ok(CompositeStep::Settled(vec![
            to(bob(), x(80)),
            to(carol(), x(20)),
            to(alice(), y(60)),
        ]))
    );
    assert_eq!(state(&book, 1), OrderState::Filled);
    assert_eq!(state(&book, 2), OrderState::Filled);
}

#[test]
fn composite_fill_without_refund() {
    let mut book = book_with_two_orders();
    let step = book.fill_order_with_other(carol(), 1, contract(), 2, x(100));
    assert_eq!(
        step,
        Ok(CompositeStep::Settled(vec![to(bob(), x(100)), to(alice(), y(60))]))
    );
    assert_eq!(state(&book, 1), OrderState::Filled);
    assert_eq!(state(&book, 2), OrderState::Filled);
}

#[test]
fn composite_fill_rejections_change_nothing() {
    let mut book = book_with_two_orders();
    assert_eq!(
        book.fill_order_with_other(carol(), 3, contract(), 2, x(80)),
        Err(OrderError::NotFound)
    );
    assert_eq!(
        book.fill_order_with_other(carol(), 1, contract(), 2, y(80)),
        Err(OrderError::AssetMismatch)
    );
    assert_eq!(
        book.fill_order_with_other(carol(), 1, contract(), 2, x(101)),
        Err(OrderError::OverdraftAttempt)
    );
    // the other order is missing, or asks more than is forwarded
    assert_eq!(
        book.fill_order_with_other(carol(), 1, contract(), 3, x(80)),
        Err(OrderError::NotFound)
    );
    assert_eq!(
        book.fill_order_with_other(carol(), 1, contract(), 2, x(79)),
        Err(OrderError::InsufficientPayment)
    );
    // an order cannot be filled with itself
    let mut swap = LimitOrderBook::init(contract());
    swap.create_order(alice(), x(100), x(50));
    assert_eq!(
        swap.fill_order_with_other(carol(), 1, contract(), 1, x(60)),
        Err(OrderError::AlreadyFinalized)
    );
    assert_eq!(state(&swap, 1), OrderState::Active);
    assert_eq!(state(&book, 1), OrderState::Active);
    assert_eq!(state(&book, 2), OrderState::Active);
}

#[test]
fn composite_fill_with_a_poor_counter_order() {
    // order 2 escrows 40 Y only, below the 50 Y that order 1 asks
    let mut book = book_with_order();
    book.create_order(bob(), y(40), x(80));
    assert_eq!(
        book.fill_order_with_other(carol(), 1, contract(), 2, x(80)),
        Err(OrderError::InsufficientSettlement)
    );
    // order 3 escrows X, which is not what order 1 asks
    book.create_order(bob(), x(60), x(80));
    assert_eq!(
        book.fill_order_with_other(carol(), 1, contract(), 3, x(80)),
        Err(OrderError::AssetMismatch)
    );
    // order 2 went first, then nothing is left to fill with
    assert!(book.cancel_order(bob(), 2).is_ok());
    assert_eq!(
        book.fill_order_with_other(carol(), 1, contract(), 2, x(80)),
        Err(OrderError::AlreadyFinalized)
    );
    assert_eq!(state(&book, 1), OrderState::Active);
    assert_eq!(state(&book, 3), OrderState::Active);
}

#[test]
fn composite_fill_across_domains_is_refused() {
    let mut book = book_with_two_orders();
    let far_caller = Address::new([3; 32], 1);
    assert_eq!(
        book.fill_order_with_other(far_caller, 1, contract(), 2, x(80)),
        Err(OrderError::CrossDomainUnsafe)
    );
    assert_eq!(
        book.fill_order_with_other(far_caller, 1, elsewhere(), 9, x(80)),
        Err(OrderError::CrossDomainUnsafe)
    );
    let far_owner = Address::new([4; 32], 2);
    book.create_order(far_owner, x(100), y(50));
    assert_eq!(
        book.fill_order_with_other(carol(), 3, contract(), 2, x(80)),
        Err(OrderError::CrossDomainUnsafe)
    );
    // the order's own conditions are looked at first
    assert_eq!(
        book.fill_order_with_other(far_caller, 1, contract(), 2, x(101)),
        Err(OrderError::OverdraftAttempt)
    );
    assert_eq!(state(&book, 1), OrderState::Active);
    assert_eq!(state(&book, 2), OrderState::Active);
    assert_eq!(state(&book, 3), OrderState::Active);
}

fn request_for_order_one(other_price: u64, remaining: u64) -> RemoteFill {
    RemoteFill {
        target: elsewhere(),
        other_id: 7,
        payment: x(other_price),
        expected: y(50),
        pending: PendingFill {
            order_id: 1,
            caller: carol(),
            remaining: Amount::from_u64(remaining),
        },
    }
}

#[test]
fn composite_fill_elsewhere_is_handed_to_the_platform() {
    let mut book = book_with_order();
    let step = book.fill_order_with_other(carol(), 1, elsewhere(), 7, x(80));
    assert_eq!(step, Ok(CompositeStep::Call(request_for_order_one(80, 20))));
    assert_eq!(state(&book, 1), OrderState::Active);
}

#[test]
fn composite_fill_elsewhere_settles_with_what_the_balance_gained() {
    let mut book = book_with_order();
    let request = match book.fill_order_with_other(carol(), 1, elsewhere(), 7, x(80)) {
        Ok(CompositeStep::Call(request)) => request,
        other => panic!("unexpected step: {:?}", other),
    };
    let settled = book.complete_fill_with_other(
        request.pending,
        Amount::from_u64(10),
        Amount::from_u64(70),
    );
    assert_eq!(settled, Ok(vec![to(carol(), x(20)), to(alice(), y(60))]));
    assert_eq!(state(&book, 1), OrderState::Filled);
}

#[test]
fn composite_fill_elsewhere_that_brought_too_little() {
    let mut book = book_with_order();
    let pending = || request_for_order_one(80, 20).pending;
    assert_eq!(
        book.complete_fill_with_other(pending(), Amount::from_u64(10), Amount::from_u64(59)),
        Err(OrderError::InsufficientSettlement)
    );
    assert_eq!(
        book.complete_fill_with_other(pending(), Amount::from_u64(10), Amount::from_u64(10)),
        Err(OrderError::InsufficientSettlement)
    );
    // a balance that fell brought nothing
    assert_eq!(
        book.complete_fill_with_other(pending(), Amount::from_u64(70), Amount::from_u64(10)),
        Err(OrderError::InsufficientSettlement)
    );
    assert_eq!(state(&book, 1), OrderState::Active);
    assert_eq!(
        book.complete_fill_with_other(pending(), Amount::from_u64(10), Amount::from_u64(60)),
        Ok(vec![to(carol(), x(20)), to(alice(), y(50))])
    );
    assert_eq!(
        book.complete_fill_with_other(pending(), Amount::from_u64(10), Amount::from_u64(70)),
        Err(OrderError::AlreadyFinalized)
    );
    let missing = PendingFill { order_id: 5, caller: carol(), remaining: Amount::zero() };
    assert_eq!(
        book.complete_fill_with_other(missing, Amount::from_u64(10), Amount::from_u64(70)),
        Err(OrderError::NotFound)
    );
}

#[test]
fn asynchronous_dispatch_leaves_the_order_active() {
    let book = book_with_order();
    assert_eq!(
        book.fill_order_with_other_async(carol(), 1, elsewhere(), 7, x(80)),
        Ok(request_for_order_one(80, 20))
    );
    // other domains are what this variant is for
    let far_caller = Address::new([3; 32], 1);
    let far_target = Address::new([0xdd; 32], 2);
    let request = book.fill_order_with_other_async(far_caller, 1, far_target, 7, x(100)).unwrap();
    assert_eq!(request.target, far_target);
    assert_eq!(request.pending.caller, far_caller);
    assert!(request.pending.remaining.is_zero());
    assert_eq!(state(&book, 1), OrderState::Active);
}

#[test]
fn asynchronous_dispatch_rejections() {
    let mut book = book_with_order();
    assert_eq!(
        book.fill_order_with_other_async(carol(), 2, elsewhere(), 7, x(80)),
        Err(OrderError::NotFound)
    );
    assert_eq!(
        book.fill_order_with_other_async(carol(), 1, elsewhere(), 7, y(80)),
        Err(OrderError::AssetMismatch)
    );
    assert_eq!(
        book.fill_order_with_other_async(carol(), 1, elsewhere(), 7, x(101)),
        Err(OrderError::OverdraftAttempt)
    );
    assert!(book.cancel_order(alice(), 1).is_ok());
    assert_eq!(
        book.fill_order_with_other_async(carol(), 1, elsewhere(), 7, x(80)),
        Err(OrderError::AlreadyFinalized)
    );
}

#[test]
fn callback_with_failure_changes_nothing() {
    let mut book = book_with_order();
    let request = book.fill_order_with_other_async(carol(), 1, elsewhere(), 7, x(80)).unwrap();
    assert_eq!(book.fill_callback(request.pending, FillResult::Failed), vec![]);
    assert_eq!(state(&book, 1), OrderState::Active);
    // the owner can still cancel, or the fill can be tried again
    assert_eq!(book.cancel_order(alice(), 1), Ok(vec![to(alice(), x(100))]));
}

#[test]
fn callback_with_success_settles_like_the_inline_fill() {
    let mut book = book_with_order();
    let request = book.fill_order_with_other_async(carol(), 1, elsewhere(), 7, x(80)).unwrap();
    assert_eq!(
        book.fill_callback(request.pending, FillResult::Paid(y(60))),
        vec![to(carol(), x(20)), to(alice(), y(60))]
    );
    assert_eq!(state(&book, 1), OrderState::Filled);
}

#[test]
fn callback_absorbs_a_settlement_that_fails() {
    let mut book = book_with_order();
    let pending = || request_for_order_one(80, 20).pending;
    assert_eq!(book.fill_callback(pending(), FillResult::Paid(y(49))), vec![]);
    assert_eq!(book.fill_callback(pending(), FillResult::Paid(x(60))), vec![]);
    let missing = PendingFill { order_id: 9, caller: carol(), remaining: Amount::zero() };
    assert_eq!(book.fill_callback(missing, FillResult::Paid(y(60))), vec![]);
    assert_eq!(state(&book, 1), OrderState::Active);
    assert_eq!(
        book.fill_callback(pending(), FillResult::Paid(y(50))),
        vec![to(carol(), x(20)), to(alice(), y(50))]
    );
    // a second callback finds the order settled and does nothing
    assert_eq!(book.fill_callback(pending(), FillResult::Paid(y(60))), vec![]);
    assert_eq!(state(&book, 1), OrderState::Filled);
}

#[test]
fn callback_after_cancellation_does_nothing() {
    let mut book = book_with_order();
    let request = book.fill_order_with_other_async(carol(), 1, elsewhere(), 7, x(80)).unwrap();
    assert!(book.cancel_order(alice(), 1).is_ok());
    assert_eq!(book.fill_callback(request.pending, FillResult::Paid(y(60))), vec![]);
    assert_eq!(state(&book, 1), OrderState::Cancelled);
}

#[test]
fn a_final_state_is_never_left() {
    let mut book = book_with_two_orders();
    book.create_order(carol(), x(5), y(5));
    assert!(book.cancel_order(alice(), 1).is_ok());
    assert!(book.fill_order(carol(), x(80), 2).is_ok());
    let cancelled = book.order(1).unwrap();
    let filled = book.order(2).unwrap();
    let pending = || PendingFill { order_id: 1, caller: carol(), remaining: Amount::zero() };
    let _ = book.cancel_order(alice(), 1);
    let _ = book.cancel_order(bob(), 2);
    let _ = book.fill_order(carol(), y(50), 1);
    let _ = book.fill_order(carol(), x(80), 2);
    let _ = book.fill_order_with_other(carol(), 1, contract(), 3, x(100));
    let _ = book.fill_order_with_other(carol(), 3, contract(), 2, x(5));
    let _ = book.fill_order_with_other(carol(), 3, contract(), 1, x(5));
    let _ = book.complete_fill_with_other(pending(), Amount::zero(), Amount::from_u64(60));
    let _ = book.fill_callback(pending(), FillResult::Paid(y(60)));
    let _ = book.create_order(alice(), x(1), y(1));
    assert_eq!(book.order(1), Ok(cancelled));
    assert_eq!(book.order(2), Ok(filled));
    assert_eq!(state(&book, 3), OrderState::Active);
    assert_eq!(book.order_count(), 4);
}

/// The platform's side of the accounts: what the contract has in custody.
struct Custody {
    balances: HashMap<(Vec<u8>, u64), u64>,
}

impl Custody {
    fn new() -> Custody {
        Custody { balances: HashMap::new() }
    }

    fn receive(&mut self, what: &AssetQuantity) {
        *self.balances.entry((what.asset_id.clone(), what.sub_id)).or_insert(0) +=
            what.amount.to_u64().unwrap();
    }

    fn send(&mut self, what: &AssetQuantity) {
        let balance = self.balances.entry((what.asset_id.clone(), what.sub_id)).or_insert(0);
        let amount = what.amount.to_u64().unwrap();
        assert!(*balance >= amount, "custody overdrawn");
        *balance -= amount;
    }

    fn carry_out(&mut self, transfers: &[Transfer]) {
        for transfer in transfers {
            self.send(&transfer.what);
        }
    }

    fn covers(&self, book: &LimitOrderBook) -> bool {
        let mut escrow: HashMap<(Vec<u8>, u64), u64> = HashMap::new();
        for order_id in 1..=book.order_count() {
            let order = book.order(order_id).unwrap();
            if order.is_active() {
                let payment = order.payment();
                *escrow.entry((payment.asset_id.clone(), payment.sub_id)).or_insert(0) +=
                    payment.amount.to_u64().unwrap();
            }
        }
        escrow.iter().all(|(kind, amount)| self.balances.get(kind).copied().unwrap_or(0) >= *amount)
    }

    fn balance(&self, what: &AssetQuantity) -> u64 {
        self.balances.get(&(what.asset_id.clone(), what.sub_id)).copied().unwrap_or(0)
    }
}

#[test]
fn custody_always_covers_the_escrow() {
    let mut book = LimitOrderBook::init(contract());
    let mut custody = Custody::new();
    for (owner, payment, price) in [
        (alice(), x(100), y(50)),
        (bob(), y(60), x(80)),
        (carol(), x(30), y(10)),
        (alice(), y(25), x(5)),
        (bob(), x(40), y(40)),
    ] {
        custody.receive(&payment);
        book.create_order(owner, payment, price);
        assert!(custody.covers(&book));
    }
    // 1 is filled with 2, both in this store
    match book.fill_order_with_other(carol(), 1, contract(), 2, x(90)) {
        Ok(CompositeStep::Settled(transfers)) => custody.carry_out(&transfers),
        other => panic!("unexpected step: {:?}", other),
    }
    assert!(custody.covers(&book));
    // 3 is cancelled
    custody.carry_out(&book.cancel_order(carol(), 3).unwrap());
    assert!(custody.covers(&book));
    // 4 is filled directly, with a surplus
    custody.receive(&x(9));
    custody.carry_out(&book.fill_order(bob(), x(9), 4).unwrap());
    assert!(custody.covers(&book));
    // a fill that is rejected comes with nothing
    assert_eq!(book.fill_order(carol(), y(39), 5), Err(OrderError::InsufficientPayment));
    assert!(custody.covers(&book));
    // 5 is filled with an order elsewhere, which yields 45 Y
    let request = book.fill_order_with_other_async(carol(), 5, elsewhere(), 1, x(30)).unwrap();
    assert!(custody.covers(&book));
    custody.send(&request.payment);
    custody.receive(&y(45));
    custody.carry_out(&book.fill_callback(request.pending, FillResult::Paid(y(45))));
    assert!(custody.covers(&book));
    // nothing is active any more, and nothing is left behind
    assert_eq!(custody.balance(&x(0)), 0);
    assert_eq!(custody.balance(&y(0)), 0);
}

#[test]
fn a_book_over_an_existing_store() {
    let mut store = OrderStore::new();
    store.create(Order::new(alice(), x(100), y(50)));
    store.create(Order::new(bob(), y(60), x(80)).with_state(OrderState::Cancelled));
    let mut book = LimitOrderBook::with_store(contract(), store);
    assert_eq!(book.contract_address(), contract());
    assert_eq!(book.order_count(), 2);
    assert_eq!(state(&book, 2), OrderState::Cancelled);
    assert_eq!(
        book.fill_order_with_other(carol(), 1, contract(), 2, x(80)),
        Err(OrderError::AlreadyFinalized)
    );
    assert_eq!(book.create_order(carol(), x(1), y(1)), 3);
    assert_eq!(
        book.fill_order(bob(), y(50), 1),
        Ok(vec![to(bob(), x(100)), to(alice(), y(50))])
    );
}
