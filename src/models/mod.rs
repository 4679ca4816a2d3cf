use vstd::prelude::*;

pub mod blob_pending;
pub mod message_record;

verus! {

/// An instant with the UTC offset it was recorded in.
#[derive(Debug, Clone, Copy, PartialEq, Eq, Structural)]
pub struct Timestamp {
    /// Seconds since the Unix epoch.
    pub unix_seconds: i64,
    /// Offset from UTC, in seconds.
    pub offset_seconds: i32,
}

} // verus!
