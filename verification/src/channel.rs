//! Labeled, ordered message channels.
//!
//! A channel owns a first-in-first-out queue of messages, a label fixed at
//! creation time, and reference counts of the outstanding read-side and
//! write-side handles. It is destroyed only when both counts reach zero, and
//! its label never changes after creation.

use vstd::prelude::*;

use crate::label::Label;

verus! {

/// An immutable byte payload plus an ordered list of handles transferred
/// with it.
#[derive(Debug, PartialEq, Eq)]
pub struct Message {
    pub bytes: Vec<u8>,
    pub handles: Vec<u64>,
}

/// A labeled, bounded, ordered message queue with a read half and a write
/// half.
pub struct Channel {
    pub label: Label,
    pub pending: Vec<Message>,
    pub reader_count: u64,
    pub writer_count: u64,
}

impl Channel {
    /// A channel is destroyed once both its read-side and its write-side
    /// handle counts have reached zero; no operation can reach it then.
    pub open spec fn is_destroyed(self) -> bool {
        self.reader_count == 0 && self.writer_count == 0
    }

    /// Its write side has closed: reads drain what is buffered, then report
    /// the closure.
    pub open spec fn write_side_closed(self) -> bool {
        self.writer_count == 0
    }

    /// Its read side has closed: writes fail immediately.
    pub open spec fn read_side_closed(self) -> bool {
        self.reader_count == 0
    }
}

} // verus!
