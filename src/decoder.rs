use vstd::prelude::*;

use crate::error::Error;
use crate::wire::{le16, read_le16};

verus! {

/// What the decoder yields for one consumed byte.
#[derive(Debug)]
pub enum Decoded<T> {
    /// A frame has just been completed; this is its payload.
    Msg(T),
    /// The byte was taken; no frame is complete yet.
    FrameNotYetComplete,
    /// The stream is out of step with the frame boundaries.
    Error(Error),
}

/// The abstract state of a decoder.
pub enum Stage {
    /// Between frames.
    Empty,
    /// The first header byte has been read.
    Header(u8),
    /// Reading a payload of the given length; the bytes read so far.
    Body(nat, Seq<u8>),
    /// A header announced more than the decode buffer holds.
    Desync,
}

/// One decoder step: the state after byte `b` and what it yields, for a
/// decode buffer of `cap` bytes.
pub open spec fn step(cap: nat, s: Stage, b: u8) -> (Stage, Decoded<Seq<u8>>) {
    match s {
        Stage::Empty => (Stage::Header(b), Decoded::FrameNotYetComplete),
        Stage::Header(b0) => {
            let n = le16(b0, b);
            if n > cap {
                (Stage::Desync, Decoded::Error(Error::TooLong))
            } else if n == 0 {
                (Stage::Empty, Decoded::Msg(Seq::empty()))
            } else {
                (Stage::Body(n, Seq::empty()), Decoded::FrameNotYetComplete)
            }
        },
        Stage::Body(n, got) => {
            if got.len() + 1 == n {
                (Stage::Empty, Decoded::Msg(got.push(b)))
            } else {
                (Stage::Body(n, got.push(b)), Decoded::FrameNotYetComplete)
            }
        },
        Stage::Desync => (Stage::Desync, Decoded::Error(Error::PreviousError)),
    }
}

/// The state after consuming `bytes` one at a time from `s`, and what each
/// byte yielded, in order.
pub open spec fn feed(cap: nat, s: Stage, bytes: Seq<u8>) -> (Stage, Seq<Decoded<Seq<u8>>>)
    decreases bytes.len(),
{
    if bytes.len() == 0 {
        (s, Seq::empty())
    } else {
        let before = feed(cap, s, bytes.drop_last());
        let last = step(cap, before.0, bytes.last());
        (last.0, before.1.push(last.1))
    }
}

/// The abstract value of an outcome of [`Decoder::consume`].
pub open spec fn decoded_view(d: Decoded<Vec<u8>>) -> Decoded<Seq<u8>> {
    match d {
        Decoded::Msg(v) => Decoded::Msg(v@),
        Decoded::FrameNotYetComplete => Decoded::FrameNotYetComplete,
        Decoded::Error(e) => Decoded::Error(e),
    }
}

#[derive(Clone, Copy)]
enum ReaderState {
    Empty,
    ReadingHeader(u8),
    ReadingMessage { len: u16, idx: u16 },
    Error,
}

/// Rebuilds length-prefixed frames from a byte stream, one byte at a time.
pub struct Decoder {
    buf: Vec<u8>,
    state: ReaderState,
}

/// The decode buffer size of [`Decoder::new`].
pub const DEFAULT_BUFLEN: usize = 256;

impl Decoder {
    /// The size of the decode buffer: the longest payload accepted.
    pub closed spec fn capacity(&self) -> nat {
        self.buf@.len()
    }

    /// Where the decoder stands in the stream.
    pub closed spec fn stage(&self) -> Stage {
        match self.state {
            ReaderState::Empty => Stage::Empty,
            ReaderState::ReadingHeader(b) => Stage::Header(b),
            ReaderState::ReadingMessage { len, idx } => Stage::Body(
                len as nat,
                self.buf@.take(idx as int),
            ),
            ReaderState::Error => Stage::Desync,
        }
    }

    /// A payload being read is announced as nonempty, fits the buffer, and
    /// is not complete yet.
    pub closed spec fn wf(&self) -> bool {
        match self.state {
            ReaderState::ReadingMessage { len, idx } => 0 < len <= self.buf@.len() && idx < len,
            _ => true,
        }
    }

    /// A decoder with a decode buffer of [`DEFAULT_BUFLEN`] bytes.
    pub fn new() -> (r: Self)
        ensures
            r.wf(),
            r.capacity() == DEFAULT_BUFLEN,
            r.stage() == Stage::Empty,
    {
        Self::with_capacity(DEFAULT_BUFLEN)
    }

    /// A decoder that accepts payloads of up to `buflen` bytes.
    pub fn with_capacity(buflen: usize) -> (r: Self)
        ensures
            r.wf(),
            r.capacity() == buflen,
            r.stage() == Stage::Empty,
    {
        Decoder { buf: vec![0u8; buflen], state: ReaderState::Empty }
    }

    /// Takes one byte of the stream.
    pub fn consume(&mut self, byte: u8) -> (r: Decoded<Vec<u8>>)
        requires
            old(self).wf(),
        ensures
            final(self).wf(),
            final(self).capacity() == old(self).capacity(),
            (final(self).stage(), decoded_view(r)) == step(old(self).capacity(), old(self).stage(), byte),
    {
        match self.state {
            ReaderState::Empty => {
                self.state = ReaderState::ReadingHeader(byte);
                Decoded::FrameNotYetComplete
            },
            ReaderState::ReadingHeader(b0) => {
                let len = read_le16(b0, byte);
                if len as usize > self.buf.len() {
                    self.state = ReaderState::Error;
                    Decoded::Error(Error::TooLong)
                } else if len == 0 {
                    self.state = ReaderState::Empty;
                    let v: Vec<u8> = Vec::new();
                    assert(v@ =~= Seq::<u8>::empty());
                    Decoded::Msg(v)
                } else {
                    self.state = ReaderState::ReadingMessage { len, idx: 0 };
                    assert(self.buf@.take(0) =~= Seq::<u8>::empty());
                    Decoded::FrameNotYetComplete
                }
            },
            ReaderState::ReadingMessage { len, idx } => {
                let ghost got = self.buf@.take(idx as int);
                self.buf.set(idx as usize, byte);
                let idx = idx + 1;
                assert(self.buf@.take(idx as int) =~= got.push(byte));
                if idx < len {
                    self.state = ReaderState::ReadingMessage { len, idx };
                    Decoded::FrameNotYetComplete
                } else {
                    self.state = ReaderState::Empty;
                    let v = vstd::slice::slice_to_vec(
                        vstd::slice::slice_subrange(self.buf.as_slice(), 0, idx as usize),
                    );
                    assert(v@ =~= got.push(byte));
                    Decoded::Msg(v)
                }
            },
            ReaderState::Error => Decoded::Error(Error::PreviousError),
        }
    }

    /// Leaves a desynchronized (or partly read) stream and waits for a new
    /// header.
    pub fn reset(&mut self)
        requires
            old(self).wf(),
        ensures
            final(self).wf(),
            final(self).capacity() == old(self).capacity(),
            final(self).stage() == Stage::Empty,
    {
        self.state = ReaderState::Empty;
    }
}

/// What a buffer that should hold exactly one frame decodes to, for a
/// decode buffer of `cap` bytes.
pub open spec fn single_frame_result(cap: nat, buf: Seq<u8>) -> Result<Seq<u8>, Error> {
    if buf.len() < 2 {
        Err(Error::Incomplete)
    } else {
        let n = le16(buf[0], buf[1]);
        if n > cap {
            Err(Error::TooLong)
        } else if buf.len() < n + 2 {
            Err(Error::Incomplete)
        } else if buf.len() > n + 2 {
            Err(Error::ExtraCharactersFound)
        } else {
            Ok(buf.subrange(2, buf.len() as int))
        }
    }
}

/// The abstract value of a decoded payload or error.
pub open spec fn payload_result_view(r: Result<Vec<u8>, Error>) -> Result<Seq<u8>, Error> {
    match r {
        Ok(v) => Ok(v@),
        Err(e) => Err(e),
    }
}

/// Decodes a buffer that must hold exactly one frame, with a decode buffer
/// of `decode_capacity` bytes, and returns its payload.
pub fn decode_single_frame(buf: &[u8], decode_capacity: usize) -> (r: Result<Vec<u8>, Error>)
    ensures
        payload_result_view(r) == single_frame_result(decode_capacity as nat, buf@),
{
    let ghost cap = decode_capacity as nat;
    let mut decoder = Decoder::with_capacity(decode_capacity);
    let mut result: Option<Vec<u8>> = None;
    let mut i: usize = 0;
    while i < buf.len()
        invariant
            decoder.wf(),
            cap == decode_capacity as nat,
            decoder.capacity() == cap,
            i <= buf@.len(),
            i == 0 ==> decoder.stage() == Stage::Empty && result is None,
            i == 1 ==> decoder.stage() == Stage::Header(buf@[0]) && result is None,
            i >= 2 ==> ({
                let n = le16(buf@[0], buf@[1]);
                &&& n <= cap
                &&& i <= n + 2
                &&& i < n + 2 ==> decoder.stage() == Stage::Body(n, buf@.subrange(2, i as int))
                    && result is None
                &&& i == n + 2 ==> decoder.stage() == Stage::Empty && (result matches Some(m)
                    && m@ == buf@.subrange(2, i as int))
            }),
        decreases buf@.len() - i,
    {
        if result.is_some() {
            return Err(Error::ExtraCharactersFound);
        }
        let ghost before = decoder.stage();
        match decoder.consume(buf[i]) {
            Decoded::Msg(msg) => {
                result = Some(msg);
            },
            Decoded::FrameNotYetComplete => {},
            Decoded::Error(e) => {
                return Err(e);
            },
        }
        proof {
            if i >= 2 {
                let n = le16(buf@[0], buf@[1]);
                assert(buf@.subrange(2, i + 1) =~= buf@.subrange(2, i as int).push(buf@[i as int]));
            }
            if i == 1 {
                assert(buf@.subrange(2, 2) =~= Seq::<u8>::empty());
            }
        }
        i = i + 1;
    }
    match result {
        Some(m) => Ok(m),
        None => Err(Error::Incomplete),
    }
}

} // verus!
