//! Instants in UTC, as seconds and nanoseconds since the Unix epoch.
use vstd::prelude::*;

verus! {

/// An instant in UTC: whole seconds since 1970-01-01T00:00:00Z and the
/// nanoseconds past that second.
#[derive(Debug, Clone, Copy, PartialEq, Eq, Structural)]
pub struct UtcTimestamp {
    pub secs: i64,
    pub nanos: u32,
}

} // verus!
