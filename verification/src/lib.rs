//! An escrow-based limit-order engine.
//!
//! Sellers escrow an asset and name the counter-asset they want for it; a
//! buyer, or another order, supplies the counter-asset and the engine settles.
//! The engine decides and records; moving assets, measuring balances and
//! reaching other contracts is the platform's work. Every entry point
//! therefore takes what the platform observed as plain values and answers
//! with the transfers the platform has to carry out.
//!
//! - `amount`, `asset`, `address`: the values that orders are made of.
//! - `order`, `store`: orders and the append-only store that keeps them.
//! - `protocol`: the rules, as mathematical functions on the orders.
//! - `contract`: the entry points, proved to follow the rules.
//! - `history`: an order leaves `Active` once and never changes again.
//! - `escrow`: custody covers what the active orders hold in escrow.

pub mod address;
pub mod amount;
pub mod asset;
pub mod contract;
pub mod error;
pub mod escrow;
pub mod history;
pub mod order;
pub mod protocol;
pub mod settlement;
pub mod store;
