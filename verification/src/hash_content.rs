//! The part of a block that its digest covers.

use vstd::prelude::*;
use crate::clock::now_seconds;

verus! {

/// Payload and creation time of a block: exactly what is hashed.
#[derive(Clone, Copy, Debug, PartialEq, Eq, Structural)]
pub struct HashContent {
    timestamp: i64,
    data: i32,
}

impl HashContent {
    /// The creation time, in seconds since the Unix epoch.
    pub closed spec fn spec_timestamp(&self) -> i64 {
        self.timestamp
    }

    /// The payload.
    pub closed spec fn spec_data(&self) -> i32 {
        self.data
    }

    /// Content carrying `data`, stamped with the current time.
    ///
    /// The timestamp is whatever the clock says, so only the payload is
    /// pinned down; `at` is the same constructor with the time made explicit.
    pub fn new(data: i32) -> (content: HashContent)
        ensures
            content.spec_data() == data,
    {
        HashContent::at(now_seconds(), data)
    }

    /// Content carrying `data`, stamped with `timestamp`.
    pub fn at(timestamp: i64, data: i32) -> (content: HashContent)
        ensures
            content.spec_timestamp() == timestamp,
            content.spec_data() == data,
    {
        HashContent { timestamp, data }
    }

    /// Getter of the timestamp.
    #[verifier::when_used_as_spec(spec_timestamp)]
    pub fn get_timestamp(&self) -> (timestamp: i64)
        ensures
            timestamp == self.spec_timestamp(),
    {
        self.timestamp
    }

    /// Getter of the data.
    #[verifier::when_used_as_spec(spec_data)]
    pub fn get_data(&self) -> (data: i32)
        ensures
            data == self.spec_data(),
    {
        self.data
    }
}

} // verus!
