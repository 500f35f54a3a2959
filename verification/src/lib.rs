//! Serial transport core for a line-oriented roller-shutter controller.
//!
//! The library holds the parts of the bridge with real invariants: the
//! newline-framed line codec, the closed command-to-opcode protocol, and the
//! decision step of the background reader loop. The surrounding process
//! (device open, HTTP routes, the shared sender's lock) lives outside the
//! library and talks to it through plain values.

pub mod buffer;
pub mod codec;
pub mod protocol;
pub mod reader;

pub use codec::LineCodec;
pub use protocol::BridgeError;
pub use protocol::Command;
pub use protocol::index;
pub use protocol::shutter_frame;
pub use reader::ReaderEvent;
pub use reader::ReaderVerdict;
pub use reader::reader_step;
