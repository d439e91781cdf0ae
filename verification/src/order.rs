//! Orders and their lifecycle.

use vstd::prelude::*;
use crate::address::Address;
use crate::asset::{AssetQuantity, Quantity};

verus! {

/// Where an order stands: `Active` until it is filled or cancelled, and
/// final from then on.
#[derive(Clone, Copy, Debug, PartialEq, Eq, Structural)]
pub enum OrderState {
    Active,
    Filled,
    Cancelled,
}

/// The mathematical content of an `Order`.
pub struct OrderView {
    pub owner: Address,
    pub payment: Quantity,
    pub price: Quantity,
    pub state: OrderState,
}

impl OrderView {
    pub open spec fn is_active(self) -> bool {
        self.state == OrderState::Active
    }

    pub open spec fn with_state(self, state: OrderState) -> OrderView {
        OrderView { owner: self.owner, payment: self.payment, price: self.price, state }
    }
}

/// What became of an order between two moments: nothing, or it left
/// `Active` for good with owner, payment and price untouched.
pub open spec fn advances(before: OrderView, after: OrderView) -> bool {
    ||| after == before
    ||| before.is_active() && !after.is_active() && after == before.with_state(after.state)
}

/// An escrowed `payment`, offered by `owner` for `price`.
#[derive(Debug, PartialEq, Eq)]
pub struct Order {
    owner: Address,
    payment: AssetQuantity,
    price: AssetQuantity,
    state: OrderState,
}

impl View for Order {
    type V = OrderView;

    closed spec fn view(&self) -> OrderView {
        OrderView {
            owner: self.owner,
            payment: self.payment@,
            price: self.price@,
            state: self.state,
        }
    }
}

impl Clone for Order {
    fn clone(&self) -> (r: Self)
        ensures
            r@ == self@,
    {
        proof {
            use_type_invariant(self);
        }
        Order {
            owner: self.owner,
            payment: self.payment.clone(),
            price: self.price.clone(),
            state: self.state,
        }
    }
}

impl Order {
    /// What is escrowed and what is asked for it are never nothing.
    #[verifier::type_invariant]
    spec fn well_formed(&self) -> bool {
        self.payment@.amount > 0 && self.price@.amount > 0
    }

    /// A fresh, active order.
    pub fn new(owner: Address, payment: AssetQuantity, price: AssetQuantity) -> (r: Order)
        requires
            payment@.amount > 0,
            price@.amount > 0,
        ensures
            r@ == (OrderView {
                owner,
                payment: payment@,
                price: price@,
                state: OrderState::Active,
            }),
    {
        Order { owner, payment, price, state: OrderState::Active }
    }

    /// The same order in another state.
    pub fn with_state(self, state: OrderState) -> (r: Order)
        ensures
            r@ == self@.with_state(state),
    {
        proof {
            use_type_invariant(&self);
        }
        Order { owner: self.owner, payment: self.payment, price: self.price, state }
    }

    pub fn owner(&self) -> (r: Address)
        ensures
            r == self@.owner,
    {
        self.owner
    }

    pub fn payment(&self) -> (r: &AssetQuantity)
        ensures
            r@ == self@.payment,
            r@.amount > 0,
    {
        proof {
            use_type_invariant(self);
        }
        &self.payment
    }

    pub fn price(&self) -> (r: &AssetQuantity)
        ensures
            r@ == self@.price,
            r@.amount > 0,
    {
        proof {
            use_type_invariant(self);
        }
        &self.price
    }

    pub fn state(&self) -> (r: OrderState)
        ensures
            r == self@.state,
    {
        self.state
    }

    pub fn is_active(&self) -> (b: bool)
        ensures
            b == self@.is_active(),
    {
        self.state == OrderState::Active
    }
}

} // verus!
