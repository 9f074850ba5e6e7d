use vstd::prelude::*;

use crate::decoder::{feed, single_frame_result, step, Decoded, Stage};
use crate::driver::{awaiting, done_step, owed, pending_of, start_step, TxState, TxView, WriteOutcome};
use crate::codec::{first_payload, has_frame};
use crate::error::Error;
use crate::wire::{frame_of, header_of, le16};

verus! {

/// `n` outcomes that complete nothing.
pub open spec fn pending(n: nat) -> Seq<Decoded<Seq<u8>>> {
    Seq::new(n, |i: int| Decoded::FrameNotYetComplete)
}

/// `n` outcomes that report an earlier loss of frame alignment.
pub open spec fn previous_errors(n: nat) -> Seq<Decoded<Seq<u8>>> {
    Seq::new(n, |i: int| Decoded::Error(Error::PreviousError))
}

/// What the bytes of one frame with payload `p` yield, fed from between frames.
pub open spec fn frame_outcomes(p: Seq<u8>) -> Seq<Decoded<Seq<u8>>> {
    pending(p.len() + 1).push(Decoded::Msg(p))
}

/// Feeding a stream in two parts, the second from where the first left the
/// decoder, gives the same state and the same outcomes as feeding it whole:
/// how the bytes are split across calls does not matter.
pub proof fn lemma_feed_split(cap: nat, s: Stage, xs: Seq<u8>, ys: Seq<u8>)
    ensures
        feed(cap, s, xs + ys) == (
            feed(cap, feed(cap, s, xs).0, ys).0,
            feed(cap, s, xs).1 + feed(cap, feed(cap, s, xs).0, ys).1,
        ),
    decreases ys.len(),
{
    let mid = feed(cap, s, xs).0;
    if ys.len() == 0 {
        assert(xs + ys =~= xs);
        assert(feed(cap, s, xs).1 + Seq::<Decoded<Seq<u8>>>::empty() =~= feed(cap, s, xs).1);
    } else {
        lemma_feed_split(cap, s, xs, ys.drop_last());
        assert((xs + ys).drop_last() =~= xs + ys.drop_last());
        assert((xs + ys).last() == ys.last());
        let before = feed(cap, mid, ys.drop_last());
        let e = step(cap, before.0, ys.last()).1;
        assert(feed(cap, s, xs).1 + before.1.push(e) =~= (feed(cap, s, xs).1 + before.1).push(e));
    }
}

proof fn lemma_header(n: nat)
    requires
        n <= 65535,
    ensures
        header_of(n).len() == 2,
        le16(header_of(n)[0], header_of(n)[1]) == n,
{
    let lo = (n % 256) as u8;
    let hi = (n / 256) as u8;
    assert(lo as nat == n % 256);
    assert(hi as nat == n / 256);
}

proof fn lemma_feed_body(cap: nat, n: nat, got: Seq<u8>, q: Seq<u8>)
    requires
        got.len() + q.len() < n,
    ensures
        feed(cap, Stage::Body(n, got), q) == (Stage::Body(n, got + q), pending(q.len())),
    decreases q.len(),
{
    if q.len() == 0 {
        assert(got + q =~= got);
        assert(pending(0) =~= Seq::<Decoded<Seq<u8>>>::empty());
    } else {
        lemma_feed_body(cap, n, got, q.drop_last());
        assert((got + q.drop_last()).push(q.last()) =~= got + q);
        assert(pending((q.len() - 1) as nat).push(Decoded::FrameNotYetComplete) =~= pending(q.len()));
    }
}

proof fn lemma_feed_two(cap: nat, s: Stage, a: u8, b: u8)
    ensures
        feed(cap, s, seq![a, b]) == (
            step(cap, step(cap, s, a).0, b).0,
            seq![step(cap, s, a).1, step(cap, step(cap, s, a).0, b).1],
        ),
{
    let e0 = step(cap, s, a);
    let e1 = step(cap, e0.0, b);
    assert(seq![a, b].drop_last() =~= seq![a]);
    assert(seq![a].drop_last() =~= Seq::<u8>::empty());
    assert(feed(cap, s, Seq::<u8>::empty()) == (s, Seq::<Decoded<Seq<u8>>>::empty()));
    assert(Seq::<Decoded<Seq<u8>>>::empty().push(e0.1) =~= seq![e0.1]);
    assert(feed(cap, s, seq![a]) == (e0.0, seq![e0.1]));
    assert(seq![e0.1].push(e1.1) =~= seq![e0.1, e1.1]);
}

proof fn lemma_feed_one(cap: nat, s: Stage, a: u8)
    ensures
        feed(cap, s, seq![a]) == (step(cap, s, a).0, seq![step(cap, s, a).1]),
{
    assert(seq![a].drop_last() =~= Seq::<u8>::empty());
    assert(feed(cap, s, Seq::<u8>::empty()) == (s, Seq::<Decoded<Seq<u8>>>::empty()));
    assert(Seq::<Decoded<Seq<u8>>>::empty().push(step(cap, s, a).1) =~= seq![step(cap, s, a).1]);
}

/// Decoding the frame of any payload that the header and the decode buffer
/// can hold gives back exactly that payload, on the frame's last byte, and
/// leaves the decoder between frames.
pub proof fn lemma_round_trip(cap: nat, p: Seq<u8>)
    requires
        p.len() <= 65535,
        p.len() <= cap,
    ensures
        feed(cap, Stage::Empty, frame_of(p)) == (Stage::Empty, frame_outcomes(p)),
{
    let n = p.len();
    let h = header_of(n);
    lemma_header(n);
    lemma_feed_two(cap, Stage::Empty, h[0], h[1]);
    assert(h =~= seq![h[0], h[1]]);
    lemma_feed_split(cap, Stage::Empty, h, p);
    if n == 0 {
        assert(p =~= Seq::<u8>::empty());
        assert(frame_outcomes(p) =~= seq![
            Decoded::FrameNotYetComplete,
            Decoded::Msg(Seq::<u8>::empty()),
        ]);
        assert(seq![Decoded::FrameNotYetComplete, Decoded::Msg(Seq::<u8>::empty())]
            + Seq::<Decoded<Seq<u8>>>::empty() =~= frame_outcomes(p));
    } else {
        let body = Stage::Body(n, Seq::empty());
        let init = p.drop_last();
        lemma_feed_body(cap, n, Seq::empty(), init);
        lemma_feed_split(cap, body, init, seq![p.last()]);
        assert(init + seq![p.last()] =~= p);
        assert(Seq::<u8>::empty() + init =~= init);
        assert(init.push(p.last()) =~= p);
        lemma_feed_one(cap, Stage::Body(n, init), p.last());
        assert(seq![Decoded::FrameNotYetComplete, Decoded::FrameNotYetComplete] + (pending(
            init.len(),
        ) + seq![Decoded::Msg(p)]) =~= frame_outcomes(p));
    }
}

/// Bytes after a complete frame are no error to the streaming decoder: it
/// goes on to decode the next frame.
pub proof fn lemma_two_frames(cap: nat, p: Seq<u8>, q: Seq<u8>)
    requires
        p.len() <= 65535,
        p.len() <= cap,
        q.len() <= 65535,
        q.len() <= cap,
    ensures
        feed(cap, Stage::Empty, frame_of(p) + frame_of(q)) == (
            Stage::Empty,
            frame_outcomes(p) + frame_outcomes(q),
        ),
{
    lemma_round_trip(cap, p);
    lemma_round_trip(cap, q);
    lemma_feed_split(cap, Stage::Empty, frame_of(p), frame_of(q));
}

proof fn lemma_desync_stays(cap: nat, rest: Seq<u8>)
    ensures
        feed(cap, Stage::Desync, rest) == (Stage::Desync, previous_errors(rest.len())),
    decreases rest.len(),
{
    if rest.len() == 0 {
        assert(previous_errors(0) =~= Seq::<Decoded<Seq<u8>>>::empty());
    } else {
        lemma_desync_stays(cap, rest.drop_last());
        assert(previous_errors((rest.len() - 1) as nat).push(Decoded::Error(Error::PreviousError))
            =~= previous_errors(rest.len()));
    }
}

/// A header that announces more than the decode buffer holds yields
/// `TooLong`, and from then on every byte yields `PreviousError`.
pub proof fn lemma_too_long_is_sticky(cap: nat, lo: u8, hi: u8, rest: Seq<u8>)
    requires
        le16(lo, hi) > cap,
    ensures
        feed(cap, Stage::Empty, seq![lo, hi] + rest) == (
            Stage::Desync,
            seq![Decoded::FrameNotYetComplete, Decoded::Error(Error::TooLong)]
                + previous_errors(rest.len()),
        ),
{
    lemma_feed_two(cap, Stage::Empty, lo, hi);
    lemma_feed_split(cap, Stage::Empty, seq![lo, hi], rest);
    lemma_desync_stays(cap, rest);
}

/// The transmit side after the hardware has answered the writes that the
/// driver asked for with `outcomes`, in order, and the bytes it took. Each
/// outcome answers the write under way, or else the one that starting a
/// write asks for; the run ends early when nothing is left to write.
pub open spec fn pump_run(t: TxView, outcomes: Seq<WriteOutcome>) -> (TxView, Seq<u8>)
    decreases outcomes.len(),
{
    if outcomes.len() == 0 {
        (t, Seq::empty())
    } else {
        let a = if awaiting(t.state) {
            t
        } else {
            start_step(t).0
        };
        if !awaiting(a.state) {
            (a, Seq::empty())
        } else {
            let taken = if outcomes[0] == WriteOutcome::Accepted {
                owed(a.state)
            } else {
                Seq::empty()
            };
            let rest = pump_run(done_step(a, outcomes[0]).0, outcomes.drop_first());
            (rest.0, taken + rest.1)
        }
    }
}

proof fn lemma_start_keeps_pending(t: TxView)
    ensures
        pending_of(start_step(t).0) == pending_of(t),
        !awaiting(t.state) && pending_of(t).len() > 0 ==> awaiting(start_step(t).0.state),
{
    match t.state {
        TxState::Idle => {
            if t.queue.len() > 0 {
                assert(seq![t.queue[0]] + t.queue.drop_first() =~= Seq::<u8>::empty() + t.queue);
            }
        },
        _ => {},
    }
}

proof fn lemma_done_takes_owed(t: TxView, outcome: WriteOutcome)
    requires
        awaiting(t.state),
    ensures
        outcome == WriteOutcome::WouldBlock ==> pending_of(done_step(t, outcome).0) == pending_of(t),
        outcome == WriteOutcome::Accepted ==> pending_of(t) == owed(t.state) + pending_of(
            done_step(t, outcome).0,
        ),
{
    let idle = TxView { state: TxState::Idle, queue: t.queue };
    lemma_start_keeps_pending(idle);
    assert(Seq::<u8>::empty() + t.queue =~= t.queue);
    assert(owed(t.state) + (Seq::<u8>::empty() + t.queue) =~= owed(t.state) + t.queue);
}

/// Flow control neither loses, repeats nor reorders bytes: whatever the
/// hardware answers, the bytes it takes, followed by those still owed, are
/// exactly the bytes owed before, in the same order. A refused byte is
/// therefore the next one taken.
pub proof fn lemma_flow_control_order(t: TxView, outcomes: Seq<WriteOutcome>)
    ensures
        pump_run(t, outcomes).1 + pending_of(pump_run(t, outcomes).0) == pending_of(t),
    decreases outcomes.len(),
{
    if outcomes.len() == 0 {
        assert(Seq::<u8>::empty() + pending_of(t) =~= pending_of(t));
    } else {
        let a = if awaiting(t.state) {
            t
        } else {
            start_step(t).0
        };
        lemma_start_keeps_pending(t);
        assert(pending_of(a) == pending_of(t));
        if !awaiting(a.state) {
            assert(Seq::<u8>::empty() + pending_of(a) =~= pending_of(a));
        } else {
            let next = done_step(a, outcomes[0]).0;
            lemma_done_takes_owed(a, outcomes[0]);
            lemma_flow_control_order(next, outcomes.drop_first());
            let rest = pump_run(next, outcomes.drop_first());
            let taken = if outcomes[0] == WriteOutcome::Accepted {
                owed(a.state)
            } else {
                Seq::<u8>::empty()
            };
            assert(taken + rest.1 + pending_of(rest.0) =~= taken + (rest.1 + pending_of(rest.0)));
            if outcomes[0] == WriteOutcome::WouldBlock {
                assert(Seq::<u8>::empty() + pending_of(next) =~= pending_of(next));
            }
        }
    }
}

/// A byte that the hardware refused is the next byte the driver tries, and
/// stays so for as long as the hardware keeps refusing it.
pub proof fn lemma_refused_byte_retried_first(t: TxView)
    requires
        awaiting(t.state),
    ensures
        start_step(done_step(t, WriteOutcome::WouldBlock).0).1 == Some(owed(t.state)[0]),
        done_step(start_step(done_step(t, WriteOutcome::WouldBlock).0).0, WriteOutcome::WouldBlock).0
            == done_step(t, WriteOutcome::WouldBlock).0,
{
}

/// The single-frame decode gives back the payload of any frame that the
/// header and the decode buffer can hold.
pub proof fn lemma_single_frame_round_trip(cap: nat, p: Seq<u8>)
    requires
        p.len() <= 65535,
        p.len() <= cap,
    ensures
        single_frame_result(cap, frame_of(p)) == Ok::<Seq<u8>, Error>(p),
{
    lemma_header(p.len());
    assert(frame_of(p).subrange(2, frame_of(p).len() as int) =~= p);
}

/// The single-frame decode refuses bytes after a complete frame.
pub proof fn lemma_single_frame_rejects_trailing(cap: nat, p: Seq<u8>, extra: Seq<u8>)
    requires
        p.len() <= 65535,
        p.len() <= cap,
        extra.len() > 0,
    ensures
        single_frame_result(cap, frame_of(p) + extra) == Err::<Seq<u8>, Error>(
            Error::ExtraCharactersFound,
        ),
{
    lemma_header(p.len());
    let f = frame_of(p) + extra;
    assert(f[0] == frame_of(p)[0] && f[1] == frame_of(p)[1]);
}

/// The buffered frame codec reads the same wire format: a buffer that
/// starts with the frame of `p` yields `p`, whatever follows it.
pub proof fn lemma_buffered_round_trip(p: Seq<u8>, rest: Seq<u8>)
    requires
        p.len() <= 65535,
    ensures
        has_frame(frame_of(p) + rest),
        first_payload(frame_of(p) + rest) == p,
{
    lemma_header(p.len());
    let f = frame_of(p) + rest;
    assert(f[0] == frame_of(p)[0] && f[1] == frame_of(p)[1]);
    assert(f.subrange(2, p.len() + 2 as int) =~= p);
}

} // verus!
