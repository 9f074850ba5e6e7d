use vstd::prelude::*;

use crate::error::Error;
use crate::queue::{
    dequeue, enqueue, new_queue, queue_items, queue_len, QUEUE_CAPACITY, QUEUE_SLOTS,
};
use crate::wire::{frame_of, write_le16, SerializedMsg, MAX_PAYLOAD};

verus! {

/// How the hardware answered a one-byte write.
#[derive(Debug, Clone, Copy, PartialEq, Eq, Structural)]
pub enum WriteOutcome {
    /// The byte was taken.
    Accepted,
    /// The transmitter is not ready; the byte was not taken.
    WouldBlock,
}

/// The transmit side's latch.
#[derive(Debug, Clone, Copy, PartialEq, Eq, Structural)]
pub enum TxState {
    /// No byte is owed to the hardware beyond the transmit queue.
    Idle,
    /// The hardware refused this byte; it goes out before anything queued.
    Holding(u8),
    /// This held byte is being written again; its outcome is awaited.
    Retrying(u8),
    /// This byte, taken from the transmit queue, is being written; its
    /// outcome is awaited.
    Sending(u8),
}

/// The byte, if any, that is owed to the hardware ahead of the transmit queue.
pub open spec fn owed(s: TxState) -> Seq<u8> {
    match s {
        TxState::Idle => Seq::empty(),
        TxState::Holding(b) => seq![b],
        TxState::Retrying(b) => seq![b],
        TxState::Sending(b) => seq![b],
    }
}

/// Whether a write's outcome is awaited.
pub open spec fn awaiting(s: TxState) -> bool {
    s is Retrying || s is Sending
}

/// The transmit side as a value: the latch and the queued bytes.
pub struct TxView {
    pub state: TxState,
    pub queue: Seq<u8>,
}

/// Every byte that the hardware has not taken yet, in the order it must
/// take them.
pub open spec fn pending_of(t: TxView) -> Seq<u8> {
    owed(t.state) + t.queue
}

/// Beginning a write: the held byte is retried before anything queued;
/// otherwise the front of the queue is tried. Nothing starts while an
/// outcome is awaited.
pub open spec fn start_step(t: TxView) -> (TxView, Option<u8>) {
    match t.state {
        TxState::Holding(b) => (TxView { state: TxState::Retrying(b), queue: t.queue }, Some(b)),
        TxState::Idle => if t.queue.len() == 0 {
            (t, None)
        } else {
            (
                TxView { state: TxState::Sending(t.queue[0]), queue: t.queue.drop_first() },
                Some(t.queue[0]),
            )
        },
        _ => (t, None),
    }
}

/// Taking the hardware's answer to the write under way, and the next byte
/// to write in the same pump: a refused byte is held; once a held byte has
/// gone, the next queued byte is tried at once.
pub open spec fn done_step(t: TxView, outcome: WriteOutcome) -> (TxView, Option<u8>) {
    match t.state {
        TxState::Retrying(b) => if outcome == WriteOutcome::WouldBlock {
            (TxView { state: TxState::Holding(b), queue: t.queue }, None)
        } else {
            start_step(TxView { state: TxState::Idle, queue: t.queue })
        },
        TxState::Sending(b) => if outcome == WriteOutcome::WouldBlock {
            (TxView { state: TxState::Holding(b), queue: t.queue }, None)
        } else {
            (TxView { state: TxState::Idle, queue: t.queue }, None)
        },
        _ => (t, None),
    }
}

/// The queues and the flow-control latch of a duplex serial driver. Each
/// queue's capacity is set at construction, up to [`QUEUE_CAPACITY`].
///
/// The interrupt side hands received bytes to [`MiniTxRx::on_rx_byte`] and
/// asks [`MiniTxRx::start_send`] what to write; the application side takes
/// received bytes with [`MiniTxRx::next_rx_byte`] and queues frames with
/// [`MiniTxRx::send_msg`].
pub struct MiniTxRx {
    in_bytes: heapless::spsc::Queue<u8, QUEUE_SLOTS>,
    tx_queue: heapless::spsc::Queue<u8, QUEUE_SLOTS>,
    tx_state: TxState,
    rx_overflows: u32,
    rx_limit: usize,
    tx_limit: usize,
}

impl MiniTxRx {
    /// Received bytes not yet taken by the application, oldest first.
    pub closed spec fn rx_items(&self) -> Seq<u8> {
        queue_items(self.in_bytes)
    }

    /// Bytes queued for transmission, first to go first.
    pub closed spec fn tx_items(&self) -> Seq<u8> {
        queue_items(self.tx_queue)
    }

    /// The transmit side's latch.
    pub closed spec fn tx_state(&self) -> TxState {
        self.tx_state
    }

    /// The most bytes that the receive queue takes.
    pub closed spec fn rx_capacity(&self) -> nat {
        self.rx_limit as nat
    }

    /// The most bytes that the transmit queue takes.
    pub closed spec fn tx_capacity(&self) -> nat {
        self.tx_limit as nat
    }

    /// Received bytes dropped because the receive queue was full.
    pub closed spec fn overflows(&self) -> nat {
        self.rx_overflows as nat
    }

    /// The transmit side as a value.
    pub open spec fn tx_view(&self) -> TxView {
        TxView { state: self.tx_state(), queue: self.tx_items() }
    }

    /// Neither queue holds more than its capacity, and neither capacity
    /// exceeds what the ring buffers hold.
    pub closed spec fn wf(&self) -> bool {
        &&& self.rx_limit <= QUEUE_CAPACITY
        &&& self.tx_limit <= QUEUE_CAPACITY
        &&& queue_items(self.in_bytes).len() <= self.rx_limit
        &&& queue_items(self.tx_queue).len() <= self.tx_limit
    }

    /// A driver with empty queues of [`QUEUE_CAPACITY`] bytes each and
    /// nothing held.
    pub fn new() -> (r: Self)
        ensures
            r.wf(),
            r.rx_items() == Seq::<u8>::empty(),
            r.tx_items() == Seq::<u8>::empty(),
            r.tx_state() == TxState::Idle,
            r.overflows() == 0,
            r.rx_capacity() == QUEUE_CAPACITY,
            r.tx_capacity() == QUEUE_CAPACITY,
    {
        Self::with_capacities(QUEUE_CAPACITY, QUEUE_CAPACITY)
    }

    /// A driver with empty queues and nothing held, whose receive and
    /// transmit queues take `rx_capacity` and `tx_capacity` bytes, each at
    /// most [`QUEUE_CAPACITY`].
    pub fn with_capacities(rx_capacity: usize, tx_capacity: usize) -> (r: Self)
        ensures
            r.wf(),
            r.rx_items() == Seq::<u8>::empty(),
            r.tx_items() == Seq::<u8>::empty(),
            r.tx_state() == TxState::Idle,
            r.overflows() == 0,
            r.rx_capacity() == if rx_capacity <= QUEUE_CAPACITY {
                rx_capacity
            } else {
                QUEUE_CAPACITY
            },
            r.tx_capacity() == if tx_capacity <= QUEUE_CAPACITY {
                tx_capacity
            } else {
                QUEUE_CAPACITY
            },
    {
        let rx_limit = if rx_capacity <= QUEUE_CAPACITY {
            rx_capacity
        } else {
            QUEUE_CAPACITY
        };
        let tx_limit = if tx_capacity <= QUEUE_CAPACITY {
            tx_capacity
        } else {
            QUEUE_CAPACITY
        };
        MiniTxRx {
            in_bytes: new_queue(),
            tx_queue: new_queue(),
            tx_state: TxState::Idle,
            rx_overflows: 0,
            rx_limit,
            tx_limit,
        }
    }

    /// Stores a byte read from the hardware. When the receive queue is full
    /// the byte is dropped, counted, and reported as `QueueFull`.
    pub fn on_rx_byte(&mut self, byte: u8) -> (r: Result<(), Error>)
        requires
            old(self).wf(),
        ensures
            final(self).wf(),
            final(self).rx_capacity() == old(self).rx_capacity(),
            final(self).tx_capacity() == old(self).tx_capacity(),
            final(self).tx_items() == old(self).tx_items(),
            final(self).tx_state() == old(self).tx_state(),
            old(self).rx_items().len() < old(self).rx_capacity() ==> r is Ok && final(self).rx_items()
                == old(self).rx_items().push(byte) && final(self).overflows() == old(self).overflows(),
            old(self).rx_items().len() >= old(self).rx_capacity() ==> r == Err::<(), Error>(
                Error::QueueFull,
            ) && final(self).rx_items() == old(self).rx_items() && final(self).overflows()
                == if old(self).overflows() < u32::MAX {
                old(self).overflows() + 1
            } else {
                old(self).overflows()
            },
    {
        if queue_len(&self.in_bytes) >= self.rx_limit {
            if self.rx_overflows < u32::MAX {
                self.rx_overflows = self.rx_overflows + 1;
            }
            return Err(Error::QueueFull);
        }
        let _ = enqueue(&mut self.in_bytes, byte);
        Ok(())
    }

    /// The oldest received byte, if any, taken out of the receive queue.
    pub fn next_rx_byte(&mut self) -> (r: Option<u8>)
        requires
            old(self).wf(),
        ensures
            final(self).wf(),
            final(self).rx_capacity() == old(self).rx_capacity(),
            final(self).tx_capacity() == old(self).tx_capacity(),
            final(self).tx_items() == old(self).tx_items(),
            final(self).tx_state() == old(self).tx_state(),
            final(self).overflows() == old(self).overflows(),
            old(self).rx_items().len() == 0 ==> r is None && final(self).rx_items() == old(self).rx_items(),
            old(self).rx_items().len() > 0 ==> r == Some(old(self).rx_items()[0]) && final(self).rx_items() == old(self).rx_items().drop_first(),
    {
        dequeue(&mut self.in_bytes)
    }

    /// The number of receive-queue overflows so far (saturating).
    pub fn rx_overflows(&self) -> (r: u32)
        ensures
            r as nat == self.overflows(),
    {
        self.rx_overflows
    }

    /// Queues every byte of a frame for transmission, or none of them when
    /// the transmit queue has no room for the whole frame.
    pub fn send_msg(&mut self, m: &SerializedMsg) -> (r: Result<(), Error>)
        requires
            old(self).wf(),
            m.wf(),
        ensures
            final(self).wf(),
            final(self).rx_capacity() == old(self).rx_capacity(),
            final(self).tx_capacity() == old(self).tx_capacity(),
            final(self).rx_items() == old(self).rx_items(),
            final(self).tx_state() == old(self).tx_state(),
            final(self).overflows() == old(self).overflows(),
            old(self).tx_items().len() + m@.len() <= old(self).tx_capacity() ==> r is Ok && final(
                self).tx_items() == old(self).tx_items() + m@,
            old(self).tx_items().len() + m@.len() > old(self).tx_capacity() ==> r == Err::<(), Error>(
                Error::QueueFull,
            ) && final(self).tx_items() == old(self).tx_items(),
    {
        self.send_bytes(m.framed_slice())
    }

    /// Queues all of `frame` for transmission, or nothing of it when the
    /// transmit queue has no room for all of it.
    pub fn send_bytes(&mut self, frame: &[u8]) -> (r: Result<(), Error>)
        requires
            old(self).wf(),
        ensures
            final(self).wf(),
            final(self).rx_capacity() == old(self).rx_capacity(),
            final(self).tx_capacity() == old(self).tx_capacity(),
            final(self).rx_items() == old(self).rx_items(),
            final(self).tx_state() == old(self).tx_state(),
            final(self).overflows() == old(self).overflows(),
            old(self).tx_items().len() + frame@.len() <= old(self).tx_capacity() ==> r is Ok && final(
                self).tx_items() == old(self).tx_items() + frame@,
            old(self).tx_items().len() + frame@.len() > old(self).tx_capacity() ==> r == Err::<(), Error>(
                Error::QueueFull,
            ) && final(self).tx_items() == old(self).tx_items(),
    {
        let used = queue_len(&self.tx_queue);
        if frame.len() > self.tx_limit - used {
            return Err(Error::QueueFull);
        }
        let ghost start = queue_items(self.tx_queue);
        let mut i: usize = 0;
        while i < frame.len()
            invariant
                used == start.len(),
                used + frame@.len() <= self.tx_limit,
                self.tx_limit <= QUEUE_CAPACITY,
                self.rx_limit == old(self).rx_limit,
                self.tx_limit == old(self).tx_limit,
                i <= frame@.len(),
                queue_items(self.tx_queue) == start + frame@.take(i as int),
                queue_items(self.in_bytes) == queue_items(old(self).in_bytes),
                queue_items(self.in_bytes).len() <= self.rx_limit,
                self.rx_limit <= QUEUE_CAPACITY,
                self.tx_state == old(self).tx_state,
                self.rx_overflows == old(self).rx_overflows,
            decreases frame@.len() - i,
        {
            let _ = enqueue(&mut self.tx_queue, frame[i]);
            assert(frame@.take(i + 1) =~= frame@.take(i as int).push(frame@[i as int]));
            i = i + 1;
        }
        assert(frame@.take(i as int) =~= frame@);
        Ok(())
    }

    /// Queues the frame that carries `payload`, header first, or nothing of
    /// it when the transmit queue has no room for the whole frame.
    pub fn send_frame(&mut self, payload: &[u8]) -> (r: Result<(), Error>)
        requires
            old(self).wf(),
        ensures
            final(self).wf(),
            final(self).rx_capacity() == old(self).rx_capacity(),
            final(self).tx_capacity() == old(self).tx_capacity(),
            final(self).rx_items() == old(self).rx_items(),
            final(self).tx_state() == old(self).tx_state(),
            final(self).overflows() == old(self).overflows(),
            payload@.len() > MAX_PAYLOAD ==> r == Err::<(), Error>(Error::TooLong)
                && final(self).tx_items() == old(self).tx_items(),
            payload@.len() <= MAX_PAYLOAD && old(self).tx_items().len() + payload@.len() + 2
                <= old(self).tx_capacity() ==> r is Ok && final(self).tx_items() == old(self).tx_items()
                + frame_of(payload@),
            payload@.len() <= MAX_PAYLOAD && old(self).tx_items().len() + payload@.len() + 2
                > old(self).tx_capacity() ==> r == Err::<(), Error>(Error::QueueFull)
                && final(self).tx_items() == old(self).tx_items(),
    {
        if payload.len() > MAX_PAYLOAD {
            return Err(Error::TooLong);
        }
        let used = queue_len(&self.tx_queue);
        if payload.len() + 2 > self.tx_limit - used {
            return Err(Error::QueueFull);
        }
        let ghost start = queue_items(self.tx_queue);
        let (lo, hi) = write_le16(payload.len() as u16);
        let _ = enqueue(&mut self.tx_queue, lo);
        let _ = enqueue(&mut self.tx_queue, hi);
        let r = self.send_bytes(payload);
        assert(start + frame_of(payload@) =~= start.push(lo).push(hi) + payload@);
        r
    }

    /// Begins the write side of a pump: returns the byte to write to the
    /// hardware, the held byte before anything queued. Returns `None` when
    /// nothing is owed, or while an earlier write's outcome is awaited.
    pub fn start_send(&mut self) -> (r: Option<u8>)
        requires
            old(self).wf(),
        ensures
            final(self).wf(),
            final(self).rx_capacity() == old(self).rx_capacity(),
            final(self).tx_capacity() == old(self).tx_capacity(),
            final(self).rx_items() == old(self).rx_items(),
            final(self).overflows() == old(self).overflows(),
            (final(self).tx_view(), r) == start_step(old(self).tx_view()),
    {
        match self.tx_state {
            TxState::Holding(b) => {
                self.tx_state = TxState::Retrying(b);
                Some(b)
            },
            TxState::Idle => {
                match dequeue(&mut self.tx_queue) {
                    Some(b) => {
                        self.tx_state = TxState::Sending(b);
                        Some(b)
                    },
                    None => None,
                }
            },
            _ => None,
        }
    }

    /// Takes the hardware's answer to the write that [`MiniTxRx::start_send`]
    /// (or this function) asked for, and returns the next byte to write in
    /// the same pump, if any.
    pub fn write_done(&mut self, outcome: WriteOutcome) -> (r: Option<u8>)
        requires
            old(self).wf(),
        ensures
            final(self).wf(),
            final(self).rx_capacity() == old(self).rx_capacity(),
            final(self).tx_capacity() == old(self).tx_capacity(),
            final(self).rx_items() == old(self).rx_items(),
            final(self).overflows() == old(self).overflows(),
            (final(self).tx_view(), r) == done_step(old(self).tx_view(), outcome),
    {
        match self.tx_state {
            TxState::Retrying(b) => match outcome {
                WriteOutcome::WouldBlock => {
                    self.tx_state = TxState::Holding(b);
                    None
                },
                WriteOutcome::Accepted => {
                    self.tx_state = TxState::Idle;
                    self.start_send()
                },
            },
            TxState::Sending(b) => {
                match outcome {
                    WriteOutcome::WouldBlock => {
                        self.tx_state = TxState::Holding(b);
                    },
                    WriteOutcome::Accepted => {
                        self.tx_state = TxState::Idle;
                    },
                }
                None
            },
            _ => None,
        }
    }
}

} // verus!
