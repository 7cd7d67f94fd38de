//! A governance ledger: collectives with their participants, a ledger and
//! proposals, and an append-only journal of the actions that changed them.
//!
//! The content store and the link index that the records live in are held in
//! one value, [`store::Dht`], which every write and read is given explicitly.
pub mod error;
pub mod person;
pub mod store;
pub mod action;
pub mod collective;
pub mod ledger;
pub mod proposal;
pub mod laws;
