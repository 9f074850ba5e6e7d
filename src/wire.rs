use byteorder::ByteOrder;
use vstd::prelude::*;

use crate::error::Error;

verus! {

/// The largest payload that a two-byte length header can announce.
pub const MAX_PAYLOAD: usize = 65535;

/// The length that the header bytes `lo`, `hi` announce (little-endian).
pub open spec fn le16(lo: u8, hi: u8) -> nat {
    lo as nat + 256 * (hi as nat)
}

/// The two header bytes that announce a payload of `n` bytes.
pub open spec fn header_of(n: nat) -> Seq<u8> {
    seq![(n % 256) as u8, (n / 256) as u8]
}

/// The frame that carries payload `p`.
pub open spec fn frame_of(p: Seq<u8>) -> Seq<u8> {
    header_of(p.len()) + p
}

/// Relies on byteorder's `LittleEndian::read_u16`: the first byte is the low one.
#[verifier::external_body]
pub(crate) fn read_le16(lo: u8, hi: u8) -> (r: u16)
    ensures
        r as nat == le16(lo, hi),
{
    byteorder::LittleEndian::read_u16(&[lo, hi])
}

/// Relies on byteorder's `LittleEndian::write_u16`: low byte first, then high byte.
#[verifier::external_body]
pub(crate) fn write_le16(n: u16) -> (r: (u8, u8))
    ensures
        seq![r.0, r.1] == header_of(n as nat),
{
    let mut b = [0u8; 2];
    byteorder::LittleEndian::write_u16(&mut b, n);
    (b[0], b[1])
}

/// A frame written at the start of a scratch buffer that may be longer than it.
pub struct SerializedMsg {
    buf: Vec<u8>,
    total_bytes: usize,
}

impl View for SerializedMsg {
    type V = Seq<u8>;

    /// The bytes of the frame: header and payload.
    closed spec fn view(&self) -> Seq<u8> {
        self.buf@.take(self.total_bytes as int)
    }
}

impl SerializedMsg {
    /// The frame fits in the scratch buffer.
    pub closed spec fn wf(&self) -> bool {
        self.total_bytes <= self.buf@.len()
    }

    /// The frame itself, without the unused tail of the scratch buffer.
    pub fn framed_slice(&self) -> (r: &[u8])
        requires
            self.wf(),
        ensures
            r@ == self@,
    {
        vstd::slice::slice_subrange(self.buf.as_slice(), 0, self.total_bytes)
    }
}

/// Completes a frame whose `n_bytes` payload bytes already stand in `buf`
/// from index 2 on, by writing the length header in front of them.
pub fn frame_in_place(buf: Vec<u8>, n_bytes: usize) -> (r: Result<SerializedMsg, Error>)
    ensures
        n_bytes > MAX_PAYLOAD ==> r == Err::<SerializedMsg, Error>(Error::TooLong),
        n_bytes <= MAX_PAYLOAD && buf@.len() < n_bytes + 2
            ==> r == Err::<SerializedMsg, Error>(Error::BufferTooSmall),
        n_bytes <= MAX_PAYLOAD && buf@.len() >= n_bytes + 2 ==> r is Ok,
        r matches Ok(m) ==> m.wf() && m@ == frame_of(buf@.subrange(2, 2 + n_bytes)),
{
    let ghost given = buf@;
    let mut buf = buf;
    if n_bytes > MAX_PAYLOAD {
        return Err(Error::TooLong);
    }
    if buf.len() < n_bytes + 2 {
        return Err(Error::BufferTooSmall);
    }
    let (lo, hi) = write_le16(n_bytes as u16);
    buf.set(0, lo);
    buf.set(1, hi);
    let m = SerializedMsg { buf, total_bytes: n_bytes + 2 };
    assert(m@ =~= frame_of(given.subrange(2, 2 + n_bytes)));
    Ok(m)
}

/// Writes the frame of `payload` at the start of the scratch buffer `buf`.
pub fn encode_frame(payload: &[u8], buf: Vec<u8>) -> (r: Result<SerializedMsg, Error>)
    ensures
        payload@.len() > MAX_PAYLOAD ==> r == Err::<SerializedMsg, Error>(Error::TooLong),
        payload@.len() <= MAX_PAYLOAD && buf@.len() < payload@.len() + 2
            ==> r == Err::<SerializedMsg, Error>(Error::BufferTooSmall),
        payload@.len() <= MAX_PAYLOAD && buf@.len() >= payload@.len() + 2 ==> r is Ok,
        r matches Ok(m) ==> m.wf() && m@ == frame_of(payload@),
{
    let n = payload.len();
    if n > MAX_PAYLOAD {
        return Err(Error::TooLong);
    }
    if buf.len() < n + 2 {
        return Err(Error::BufferTooSmall);
    }
    let mut buf = buf;
    let mut i: usize = 0;
    while i < n
        invariant
            n == payload@.len(),
            n + 2 <= buf.len(),
            i <= n,
            forall|k: int| 0 <= k < i ==> buf@[k + 2] == payload@[k],
        decreases n - i,
    {
        buf.set(i + 2, payload[i]);
        i = i + 1;
    }
    assert(buf@.subrange(2, 2 + n as int) =~= payload@);
    frame_in_place(buf, n)
}

} // verus!
