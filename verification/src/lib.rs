//! A small customer-relationship-management library: customers own
//! opportunities, and the operations on them (listing, retrieval, creation,
//! update, deletion) are verified against a mathematical model of the store.

pub mod client;
pub mod data;
pub mod laws;
pub mod order;
pub mod query;
pub mod store;
pub mod validate;
