//! The write coordinator: the decisions that make the write of a thing and
//! the append of its event one unit of work.
//!
//! The coordinator writes nothing itself. It is asked after each of the two
//! writes and says what follows. An event is appended only for a thing that
//! was written. A write that fails ends the unit with the write's own error.
//!
//! Where the two writes cannot be made in one step, an append can fail after
//! a write that succeeded. The write is then not undone: the unit ends with
//! `Error::EventAppend`, which names the thing, so that the missing log entry
//! can be found. The store of this crate rules that case out before it
//! writes, so that it commits both records or neither.

use crate::data::event::CreateEventInput;
use crate::data::thing::Thing;
use crate::error::Error;
use vstd::prelude::*;

verus! {

/// What follows the attempt to write a thing.
#[derive(Debug)]
pub enum Decision {
    /// The write succeeded: append the event, then report the thing.
    Append { thing: Thing, event: CreateEventInput },
    /// The write failed: append nothing and report the error as it is.
    Abandon { error: Error },
}

/// Decides what follows the attempt to write a thing, given the outcome of
/// the write and the description of the event that would record it.
pub fn after_write(written: Result<Thing, Error>, descriptor: CreateEventInput) -> (r: Decision)
    ensures
        match written {
            Ok(thing) => r == (Decision::Append { thing, event: descriptor }),
            Err(error) => r == (Decision::Abandon { error }),
        },
{
    match written {
        Ok(thing) => Decision::Append { thing, event: descriptor },
        Err(error) => Decision::Abandon { error },
    }
}

/// Concludes the unit of work, given the thing that was written and the
/// outcome of the append. A failed append is reported as
/// `Error::EventAppend` with the thing's identity and the text of the cause.
pub fn after_append(thing: Thing, appended: Result<(), Error>) -> (r: Result<Thing, Error>)
    ensures
        match appended {
            Ok(()) => r == Ok::<Thing, Error>(thing),
            Err(cause) => r matches Err(Error::EventAppend { thing_id, reason }) && thing_id
                == thing.id && reason@ == cause@.message(),
        },
{
    match appended {
        Ok(()) => Ok(thing),
        Err(cause) => Err(Error::EventAppend { thing_id: thing.id, reason: cause.message() }),
    }
}

} // verus!
