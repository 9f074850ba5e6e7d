use vstd::prelude::*;

use crate::error::Error;
use crate::wire::{frame_of, le16, read_le16, write_le16, MAX_PAYLOAD};

verus! {

/// The number of header bytes in front of each payload.
pub const HEADER_LEN: usize = 2;

/// Whether `buf` starts with a whole frame.
pub open spec fn has_frame(buf: Seq<u8>) -> bool {
    buf.len() >= 2 && buf.len() >= le16(buf[0], buf[1]) + 2
}

/// The payload of the frame at the start of `buf`.
pub open spec fn first_payload(buf: Seq<u8>) -> Seq<u8> {
    buf.subrange(2, le16(buf[0], buf[1]) + 2 as int)
}

/// Frames over a buffered byte source, such as a host-side stream reader:
/// unlike [`crate::Decoder`] it looks at all the bytes that have arrived.
pub struct FrameCodec {}

impl FrameCodec {
    pub fn new() -> Self {
        FrameCodec {}
    }

    /// The payload of the frame at the start of `buf`, or `None` while that
    /// frame has not fully arrived. The frame spans the header and the
    /// payload: `HEADER_LEN` more bytes than the payload.
    pub fn decode(&mut self, buf: &[u8]) -> (r: Option<Vec<u8>>)
        ensures
            !has_frame(buf@) ==> r is None,
            has_frame(buf@) ==> (r matches Some(p) && p@ == first_payload(buf@)),
    {
        if buf.len() < HEADER_LEN {
            return None;
        }
        let data_len = read_le16(buf[0], buf[1]) as usize;
        if buf.len() < data_len + HEADER_LEN {
            return None;
        }
        let data = vstd::slice::slice_subrange(buf, HEADER_LEN, HEADER_LEN + data_len);
        Some(vstd::slice::slice_to_vec(data))
    }

    /// The frame that carries `data`; `TooLong` when the header cannot
    /// announce its length.
    pub fn encode(&mut self, data: &[u8]) -> (r: Result<Vec<u8>, Error>)
        ensures
            data@.len() > MAX_PAYLOAD ==> r == Err::<Vec<u8>, Error>(Error::TooLong),
            data@.len() <= MAX_PAYLOAD ==> (r matches Ok(f) && f@ == frame_of(data@)),
    {
        if data.len() > MAX_PAYLOAD {
            return Err(Error::TooLong);
        }
        let (lo, hi) = write_le16(data.len() as u16);
        let mut frame: Vec<u8> = Vec::new();
        frame.push(lo);
        frame.push(hi);
        let mut i: usize = 0;
        while i < data.len()
            invariant
                i <= data@.len(),
                frame@ == seq![lo, hi] + data@.take(i as int),
            decreases data@.len() - i,
        {
            frame.push(data[i]);
            assert(data@.take(i + 1) =~= data@.take(i as int).push(data@[i as int]));
            i = i + 1;
        }
        assert(data@.take(i as int) =~= data@);
        Ok(frame)
    }
}

/// Frames for a link whose incoming messages are `FROM` values and whose
/// outgoing messages are `TO` values; the payloads' encoding is left to the
/// caller.
pub struct MyCodec<FROM, TO> {
    upstream: FrameCodec,
    my_from: core::marker::PhantomData<FROM>,
    my_to: core::marker::PhantomData<TO>,
}

impl<FROM, TO> MyCodec<FROM, TO> {
    pub fn new() -> Self {
        MyCodec {
            upstream: FrameCodec::new(),
            my_from: core::marker::PhantomData,
            my_to: core::marker::PhantomData,
        }
    }

    /// The payload of the frame at the start of `buf`, as [`FrameCodec::decode`].
    pub fn decode_payload(&mut self, buf: &[u8]) -> (r: Option<Vec<u8>>)
        ensures
            !has_frame(buf@) ==> r is None,
            has_frame(buf@) ==> (r matches Some(p) && p@ == first_payload(buf@)),
    {
        self.upstream.decode(buf)
    }

    /// The frame that carries an encoded outgoing message, as
    /// [`FrameCodec::encode`].
    pub fn encode_payload(&mut self, data: &[u8]) -> (r: Result<Vec<u8>, Error>)
        ensures
            data@.len() > MAX_PAYLOAD ==> r == Err::<Vec<u8>, Error>(Error::TooLong),
            data@.len() <= MAX_PAYLOAD ==> (r matches Ok(f) && f@ == frame_of(data@)),
    {
        self.upstream.encode(data)
    }
}

} // verus!
