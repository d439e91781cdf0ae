//! The order store: an append-only sequence of orders, addressed from 1.
//!
//! Orders are copied out and copied back in; none is ever removed, so an
//! index stays valid, and keeps naming the same order, for ever. The store
//! checks indices and nothing else: whether a change of state is legal is
//! for its caller to decide.

use vstd::prelude::*;
use crate::error::OrderError;
use crate::order::{Order, OrderView};

verus! {

/// Whether `index` names one of `orders`.
pub open spec fn has_index(orders: Seq<OrderView>, index: int) -> bool {
    1 <= index <= orders.len()
}

pub struct OrderStore {
    orders: Vec<Order>,
}

impl View for OrderStore {
    type V = Seq<OrderView>;

    closed spec fn view(&self) -> Seq<OrderView> {
        self.orders@.map_values(|order: Order| order@)
    }
}

impl OrderStore {
    pub fn new() -> (store: OrderStore)
        ensures
            store@ == Seq::<OrderView>::empty(),
    {
        let store = OrderStore { orders: Vec::new() };
        assert(store@ =~= Seq::<OrderView>::empty());
        store
    }

    pub fn len(&self) -> (n: usize)
        ensures
            n == self@.len(),
    {
        self.orders.len()
    }

    /// Appends `order` and returns its index.
    pub fn create(&mut self, order: Order) -> (index: usize)
        requires
            old(self)@.len() < usize::MAX,
        ensures
            final(self)@ == old(self)@.push(order@),
            index == old(self)@.len() + 1,
    {
        self.orders.push(order);
        assert(self@ =~= old(self)@.push(order@));
        self.orders.len()
    }

    /// A copy of the order at `index`.
    pub fn get(&self, index: usize) -> (r: Result<Order, OrderError>)
        ensures
            has_index(self@, index as int) ==> r.is_ok() && r.unwrap()@ == self@[index - 1],
            !has_index(self@, index as int) ==> r == Err::<Order, OrderError>(OrderError::NotFound),
    {
        if index == 0 || index > self.orders.len() {
            return Err(OrderError::NotFound);
        }
        Ok(self.orders[index - 1].clone())
    }

    /// Puts `order` in the place of the order at `index`.
    pub fn set(&mut self, index: usize, order: Order) -> (r: Result<(), OrderError>)
        ensures
            has_index(old(self)@, index as int) ==> r.is_ok() && final(self)@ == old(self)@.update(
                index - 1,
                order@,
            ),
            !has_index(old(self)@, index as int) ==> r == Err::<(), OrderError>(
                OrderError::NotFound,
            ) && final(self)@ == old(self)@,
    {
        if index == 0 || index > self.orders.len() {
            return Err(OrderError::NotFound);
        }
        self.orders.set(index - 1, order);
        assert(self@ =~= old(self)@.update(index - 1, order@));
        Ok(())
    }
}

} // verus!
