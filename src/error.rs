use vstd::prelude::*;

verus! {

/// Everything that framing, decoding and queueing can report.
#[derive(Debug, Clone, Copy, PartialEq, Eq, Structural)]
pub enum Error {
    /// The message codec could not turn a value into bytes or back.
    SerializeError,
    /// A payload longer than the wire format or the decode buffer allows.
    TooLong,
    /// The decoder lost frame alignment earlier and has not been reset.
    PreviousError,
    /// The buffer ended before a whole frame was seen.
    Incomplete,
    /// The buffer held bytes after its one complete frame.
    ExtraCharactersFound,
    /// A queue could not take all of the bytes it was given.
    QueueFull,
    /// The output buffer cannot hold the header and the payload.
    BufferTooSmall,
}

} // verus!
