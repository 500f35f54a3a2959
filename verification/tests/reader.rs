//! Tests of the reader loop's decision step.

use schellen_bridge_rs::BridgeError;
use schellen_bridge_rs::ReaderEvent;
use schellen_bridge_rs::ReaderVerdict;
use schellen_bridge_rs::reader_step;

#[test]
fn a_frame_is_published_and_the_loop_goes_on() {
    let v = reader_step(ReaderEvent::Frame(String::from("status 1\n")));
    assert_eq!(v, ReaderVerdict::Publish(String::from("status 1\n")));
}

#[test]
fn a_read_failure_stops_the_loop_with_that_failure() {
    let v = reader_step(ReaderEvent::Failed(BridgeError::ReadFailure));
    assert_eq!(v, ReaderVerdict::Fail(BridgeError::ReadFailure));
    let v = reader_step(ReaderEvent::Failed(BridgeError::InvalidEncoding));
    assert_eq!(v, ReaderVerdict::Fail(BridgeError::InvalidEncoding));
}

#[test]
fn a_closed_stream_stops_the_loop_as_stream_ended() {
    let v = reader_step(ReaderEvent::Closed);
    assert_eq!(v, ReaderVerdict::Fail(BridgeError::StreamEnded));
}
