//! Length-prefixed message framing over a byte-at-a-time duplex serial link.
//!
//! A frame is a two-byte little-endian payload length followed by the payload.
//! [`Decoder`] rebuilds frames one received byte at a time, [`encode_frame`]
//! builds them, and [`MiniTxRx`] holds the receive and transmit queues and the
//! flow-control latch of an interrupt-driven serial driver.

pub mod codec;
pub mod decoder;
pub mod driver;
pub mod error;
pub mod laws;
pub mod queue;
pub mod wire;

pub use crate::codec::{FrameCodec, MyCodec, HEADER_LEN};
pub use crate::decoder::{decode_single_frame, Decoded, Decoder, DEFAULT_BUFLEN};
pub use crate::driver::{MiniTxRx, TxState, WriteOutcome};
pub use crate::error::Error;
pub use crate::queue::{QUEUE_CAPACITY, QUEUE_SLOTS};
pub use crate::wire::{encode_frame, frame_in_place, SerializedMsg, MAX_PAYLOAD};
