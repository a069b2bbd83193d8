//! A contract that keeps mentor profiles, the comments that rate them and
//! the votes cast on those comments in a keyed store, and answers
//! paginated queries over them.
//!
//! `contract` holds the entry points. Their contracts are stated over the
//! `model` of what the store holds; `laws` and `consistency` prove what
//! follows across calls. `store` and `response` are the boundary to the
//! crates that the contract runs on, and are taken on trust.

pub mod consistency;
pub mod contract;
pub mod error;
pub mod ident;
pub mod laws;
pub mod model;
pub mod msg;
pub mod order;
pub mod response;
pub mod state;
pub mod store;
pub mod tally;
