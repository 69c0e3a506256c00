//! The records, and the store and log that hold them.

pub mod coordinator;
pub mod db;
pub mod event;
pub mod log;
pub mod mutation;
pub mod store;
pub mod thing;
pub mod types;

pub use db::DB;
pub use event::{CreateEventInput, Event, EventInputView, EventView};
pub use mutation::Mutation;
pub use store::Records;
pub use thing::{Metadata, Thing, ThingInput, ThingView};
pub use types::{assigned_after, Data, Stamp, Timestamp};
