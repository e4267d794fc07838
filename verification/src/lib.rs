//! The decisions of an order service: what it takes to turn a shopping cart into a pending order,
//! and to place a pending order.

pub mod cart;
pub mod catalog;
pub mod creation;
pub mod creation_laws;
pub mod creation_outcomes;
pub mod discounts;
pub mod error;
pub mod insertion;
pub mod inventory;
pub mod items;
pub mod keys;
pub mod model;
pub mod mutation;
pub mod payment;
pub mod placement;
pub mod shipment;
pub mod storage;
pub mod telemetry;
pub mod time;
pub mod uuid;
pub mod validation;
