//! Values that records are made of: key-value documents, instants, and the
//! identity and instant that every new event is stamped with.

use vstd::prelude::*;

verus! {

/// `serde_json::Map`, the JSON object. Its inside is not visible here.
#[verifier::external_type_specification]
#[verifier::external_body]
#[verifier::reject_recursive_types(K)]
#[verifier::reject_recursive_types(V)]
pub struct ExJsonObject<K, V>(serde_json::Map<K, V>);

/// `serde_json::Value`, the JSON value. Its inside is not visible here.
#[verifier::external_type_specification]
#[verifier::external_body]
pub struct ExJsonValue(serde_json::Value);

/// The entries of a JSON object: every key it holds, mapped to the JSON text
/// of the value stored under that key.
///
/// Nothing in this crate looks inside a value. The contracts below say only
/// when an object has no entries and that a copy has the entries of the
/// object it was made from.
pub uninterp spec fn document_entries(doc: serde_json::Map<String, serde_json::Value>) -> Map<
    Seq<char>,
    Seq<char>,
>;

/// `serde_json::Map::is_empty`: true exactly when the object holds no entry.
#[verifier::external_body]
pub(crate) fn document_is_empty(doc: &serde_json::Map<String, serde_json::Value>) -> (r: bool)
    ensures
        r == document_entries(*doc).is_empty(),
{
    doc.is_empty()
}

/// `Clone::clone` of `serde_json::Map`: the copy holds the same keys with the
/// same values as the object it was made from.
#[verifier::external_body]
pub(crate) fn document_clone(doc: &serde_json::Map<String, serde_json::Value>) -> (r:
    serde_json::Map<String, serde_json::Value>)
    ensures
        document_entries(r) == document_entries(*doc),
{
    doc.clone()
}

/// `uuid::Uuid::new_v4`, as the 128-bit number that `Uuid::as_u128` gives for
/// it. The value is random; the version and variant fields are those of a
/// version 4 identifier. Fails only if the system cannot supply random bytes.
#[verifier::external_body]
pub(crate) fn fresh_id() -> (r: u128)
    ensures
        is_random_id(r),
{
    uuid::Uuid::new_v4().as_u128()
}

/// `chrono::Utc::now`, as the whole seconds since the Unix epoch
/// (`DateTime::timestamp`) and the nanoseconds into that second
/// (`DateTime::timestamp_subsec_nanos`). The reading carries no leap second:
/// its nanoseconds stay below one billion. Fails only if the system clock
/// stands before the epoch.
#[verifier::external_body]
pub(crate) fn current_time() -> (r: Timestamp)
    ensures
        r.nanos < 1_000_000_000,
{
    let now = chrono::Utc::now();
    Timestamp { secs: now.timestamp(), nanos: now.timestamp_subsec_nanos() }
}

/// The bits that every version 4 identifier has in common: `0100` in the
/// version field and `10` in the variant field.
pub open spec fn is_random_id(id: u128) -> bool {
    id & 0x0000_0000_0000_f000_c000_0000_0000_0000u128
        == 0x0000_0000_0000_4000_8000_0000_0000_0000u128
}

/// A structured key-value document.
#[derive(Debug)]
pub struct Data(pub serde_json::Map<String, serde_json::Value>);

impl View for Data {
    type V = Map<Seq<char>, Seq<char>>;

    open spec fn view(&self) -> Map<Seq<char>, Seq<char>> {
        document_entries(self.0)
    }
}

impl Data {
    /// A document is valid when it holds at least one entry.
    pub fn is_valid(&self) -> (r: bool)
        ensures
            r == !self@.is_empty(),
    {
        !document_is_empty(&self.0)
    }
}

impl Clone for Data {
    fn clone(&self) -> (r: Self)
        ensures
            r@ == self@,
    {
        Data(document_clone(&self.0))
    }
}

/// An instant: whole seconds since the Unix epoch, and the nanoseconds into
/// that second.
#[derive(Clone, Copy, Debug, PartialEq, Eq, Structural)]
pub struct Timestamp {
    pub secs: i64,
    pub nanos: u32,
}

impl Timestamp {
    /// The instant as one number that grows with time: instants are ordered
    /// by their seconds and, within one second, by their nanoseconds.
    pub open spec fn ticks(self) -> int {
        self.secs * 0x1_0000_0000 + self.nanos
    }

    /// The later of the two instants.
    pub open spec fn later(self, other: Timestamp) -> Timestamp {
        if other.ticks() > self.ticks() {
            other
        } else {
            self
        }
    }

    /// The later of the two instants.
    pub fn later_of(self, other: Timestamp) -> (r: Timestamp)
        ensures
            r == self.later(other),
    {
        if other.is_after(&self) {
            other
        } else {
            self
        }
    }

    /// Is this instant strictly later than `other`?
    pub fn is_after(&self, other: &Timestamp) -> (r: bool)
        ensures
            r == (self.ticks() > other.ticks()),
    {
        self.secs > other.secs || (self.secs == other.secs && self.nanos > other.nanos)
    }
}

/// The instant that an event receives when it is appended at the instant
/// `at` to a log whose last event bears the instant `last`: `at` itself,
/// unless the last event is later, in which case it is the instant of that
/// event. Instants in a log therefore never go back, whatever the clock does.
pub fn assigned_after(at: Timestamp, last: Option<Timestamp>) -> (r: Timestamp)
    ensures
        r == match last {
            Some(l) => at.later(l),
            None => at,
        },
{
    match last {
        Some(l) => at.later_of(l),
        None => at,
    }
}

/// What a new event receives from outside: its identity and its instant.
#[derive(Clone, Copy, Debug, PartialEq, Eq, Structural)]
pub struct Stamp {
    pub id: u128,
    pub at: Timestamp,
}

impl Stamp {
    /// What holds of every stamp that `fresh` makes: the identity is a
    /// version 4 identifier, and the instant carries no leap second.
    pub open spec fn is_fresh(self) -> bool {
        is_random_id(self.id) && self.at.nanos < 1_000_000_000
    }

    /// Draws a random identity and reads the clock.
    pub fn fresh() -> (r: Stamp)
        ensures
            r.is_fresh(),
    {
        Stamp { id: fresh_id(), at: current_time() }
    }
}

} // verus!
