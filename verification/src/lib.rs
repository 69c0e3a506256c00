//! Things, the events that record every accepted change to them, and the
//! dispatch of those events to independent handlers.
//!
//! The store and the log kept here live in memory. Every operation has a
//! contract over a mathematical model of the state, so a caller that keeps the
//! records elsewhere can take the validation rules, the derivation of events
//! and the decisions of the write coordinator from this crate and perform the
//! storage itself.

pub mod api;
pub mod data;
pub mod error;
pub mod handler;
