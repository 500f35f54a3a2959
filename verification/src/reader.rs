//! The decision step of the reader loop: the one task that owns the read
//! half and keeps the device's output drained for the whole process lifetime.
//! The loop itself performs the reads outside the library and hands each
//! outcome to `reader_step`, which decides what must follow.

use vstd::prelude::*;
use crate::protocol::BridgeError;

verus! {

/// What one iteration of the reader loop observed on the read half.
#[derive(Debug, PartialEq, Eq)]
pub enum ReaderEvent {
    /// A whole frame arrived.
    Frame(String),
    /// The read failed, with the failure already classified.
    Failed(BridgeError),
    /// The stream ended: the device side closed.
    Closed,
}

/// What the supervising component must do after one iteration.
#[derive(Debug, PartialEq, Eq)]
pub enum ReaderVerdict {
    /// Hand the frame to the observability sink and keep draining.
    Publish(String),
    /// Stop with this failure: an unaddressed device failure is never
    /// silently ignored.
    Fail(BridgeError),
}

/// Decides one iteration of the reader loop: every frame is published so the
/// device's output stays drained, and every failure or end of stream stops
/// the loop with exactly that failure.
pub fn reader_step(event: ReaderEvent) -> (v: ReaderVerdict)
    ensures
        match event {
            ReaderEvent::Frame(f) => v matches ReaderVerdict::Publish(g) && g@ == f@,
            ReaderEvent::Failed(e) => v matches ReaderVerdict::Fail(e2) && e2 == e,
            ReaderEvent::Closed => v matches ReaderVerdict::Fail(e2) && e2
                == BridgeError::StreamEnded,
        },
{
    match event {
        ReaderEvent::Frame(f) => ReaderVerdict::Publish(f),
        ReaderEvent::Failed(e) => ReaderVerdict::Fail(e),
        ReaderEvent::Closed => ReaderVerdict::Fail(BridgeError::StreamEnded),
    }
}

} // verus!
