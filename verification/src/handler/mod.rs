//! The consumers of the event log.

pub mod event;
