//! The records a node can report to a log collector; sending them is the
//! caller's part.

use vstd::prelude::*;

verus! {

/// A report on one compressed file.
#[derive(Debug)]
pub struct CompressMessage {
    pub log_type: String,
    pub device_name: String,
    pub original_size: u64,
    pub compressed_size: u64,
    pub time_taken: String,
    pub timestamp: String,
}

/// A report that the node is alive.
#[derive(Debug)]
pub struct HealthMessage {
    pub log_type: String,
    pub status: String,
}

/// The envelope a health report travels in.
#[derive(Debug)]
pub struct Message {
    message: HealthMessage,
}

impl Message {
    pub closed spec fn spec_message(&self) -> HealthMessage {
        self.message
    }

    pub fn new(message: HealthMessage) -> (r: Self)
        ensures
            r.spec_message() == message,
    {
        Message { message }
    }

    pub fn message(&self) -> (r: &HealthMessage)
        ensures
            *r == self.spec_message(),
    {
        &self.message
    }
}

} // verus!
