use mini_rxtx::{encode_frame, Error, MiniTxRx, WriteOutcome, QUEUE_CAPACITY};

#[test]
fn held_byte_goes_first_then_queue_in_order() {
    let mut q = MiniTxRx::new();
    q.send_bytes(&[1, 2, 3]).unwrap();
    let mut sent = Vec::new();

    // First pump: 1 is refused.
    assert_eq!(q.start_send(), Some(1));
    assert_eq!(q.write_done(WriteOutcome::WouldBlock), None);
    // Second pump: the retry of 1 is refused again.
    assert_eq!(q.start_send(), Some(1));
    assert_eq!(q.write_done(WriteOutcome::WouldBlock), None);
    // Third pump: 1 goes, and 2 is tried in the same pump.
    assert_eq!(q.start_send(), Some(1));
    sent.push(1);
    assert_eq!(q.write_done(WriteOutcome::Accepted), Some(2));
    sent.push(2);
    assert_eq!(q.write_done(WriteOutcome::Accepted), None);
    // Fourth pump: 3.
    assert_eq!(q.start_send(), Some(3));
    sent.push(3);
    assert_eq!(q.write_done(WriteOutcome::Accepted), None);
    assert_eq!(q.start_send(), None);
    assert_eq!(sent, vec![1, 2, 3]);
}

#[test]
fn start_send_waits_for_outcome() {
    let mut q = MiniTxRx::new();
    q.send_bytes(&[4, 5]).unwrap();
    assert_eq!(q.start_send(), Some(4));
    assert_eq!(q.start_send(), None);
    assert_eq!(q.write_done(WriteOutcome::Accepted), None);
    assert_eq!(q.start_send(), Some(5));
}

#[test]
fn write_done_without_attempt_does_nothing() {
    let mut q = MiniTxRx::new();
    q.send_bytes(&[4]).unwrap();
    assert_eq!(q.write_done(WriteOutcome::Accepted), None);
    assert_eq!(q.start_send(), Some(4));
}

#[test]
fn send_msg_queues_the_frame() {
    let mut q = MiniTxRx::new();
    let m = encode_frame(&[9, 8], vec![0u8; 8]).unwrap();
    q.send_msg(&m).unwrap();
    let mut out = Vec::new();
    while let Some(b) = q.start_send() {
        out.push(b);
        assert_eq!(q.write_done(WriteOutcome::Accepted), None);
    }
    assert_eq!(out, vec![2, 0, 9, 8]);
}

#[test]
fn send_is_all_or_nothing() {
    let mut q = MiniTxRx::new();
    let filler = vec![0u8; QUEUE_CAPACITY - 3];
    q.send_bytes(&filler).unwrap();
    assert_eq!(q.send_bytes(&[1, 2, 3, 4]), Err(Error::QueueFull));
    q.send_bytes(&[1, 2, 3]).unwrap();
    let mut out = Vec::new();
    while let Some(b) = q.start_send() {
        out.push(b);
        q.write_done(WriteOutcome::Accepted);
    }
    assert_eq!(out.len(), QUEUE_CAPACITY);
    assert_eq!(&out[QUEUE_CAPACITY - 3..], &[1, 2, 3]);
}

#[test]
fn received_bytes_come_out_in_order() {
    let mut q = MiniTxRx::new();
    assert_eq!(q.next_rx_byte(), None);
    q.on_rx_byte(10).unwrap();
    q.on_rx_byte(11).unwrap();
    assert_eq!(q.next_rx_byte(), Some(10));
    assert_eq!(q.next_rx_byte(), Some(11));
    assert_eq!(q.next_rx_byte(), None);
}

#[test]
fn receive_overflow_is_reported_and_counted() {
    let mut q = MiniTxRx::new();
    for i in 0..QUEUE_CAPACITY {
        q.on_rx_byte(i as u8).unwrap();
    }
    assert_eq!(q.on_rx_byte(200), Err(Error::QueueFull));
    assert_eq!(q.on_rx_byte(201), Err(Error::QueueFull));
    assert_eq!(q.rx_overflows(), 2);
    assert_eq!(q.next_rx_byte(), Some(0));
    q.on_rx_byte(202).unwrap();
    assert_eq!(q.rx_overflows(), 2);
}

fn drain(q: &mut MiniTxRx) -> Vec<u8> {
    let mut out = Vec::new();
    while let Some(b) = q.start_send() {
        out.push(b);
        q.write_done(WriteOutcome::Accepted);
    }
    out
}

#[test]
fn send_frame_queues_header_and_payload() {
    let mut q = MiniTxRx::new();
    q.send_frame(&[7, 8, 9]).unwrap();
    assert_eq!(drain(&mut q), vec![3, 0, 7, 8, 9]);
}

#[test]
fn send_frame_rejects_what_does_not_fit() {
    let mut q = MiniTxRx::new();
    q.send_bytes(&vec![1u8; QUEUE_CAPACITY - 4]).unwrap();
    assert_eq!(q.send_frame(&[5, 5, 5]), Err(Error::QueueFull));
    q.send_frame(&[5, 5]).unwrap();
    let out = drain(&mut q);
    assert_eq!(out.len(), QUEUE_CAPACITY);
    assert_eq!(&out[QUEUE_CAPACITY - 4..], &[2, 0, 5, 5]);
}

#[test]
fn send_frame_rejects_oversized_payload() {
    let mut q = MiniTxRx::new();
    assert_eq!(q.send_frame(&vec![0u8; 65536]), Err(Error::TooLong));
    assert_eq!(q.start_send(), None);
}

#[test]
fn capacities_are_set_per_direction() {
    let mut q = MiniTxRx::with_capacities(2, 5);
    q.on_rx_byte(1).unwrap();
    q.on_rx_byte(2).unwrap();
    assert_eq!(q.on_rx_byte(3), Err(Error::QueueFull));
    assert_eq!(q.rx_overflows(), 1);
    assert_eq!(q.send_bytes(&[1, 2, 3, 4, 5, 6]), Err(Error::QueueFull));
    q.send_bytes(&[1, 2, 3, 4, 5]).unwrap();
    assert_eq!(q.send_bytes(&[6]), Err(Error::QueueFull));
    assert_eq!(drain(&mut q), vec![1, 2, 3, 4, 5]);
}

#[test]
fn capacities_are_clamped_to_the_ring_buffers() {
    let mut q = MiniTxRx::with_capacities(1000, 1000);
    for i in 0..QUEUE_CAPACITY {
        q.on_rx_byte(i as u8).unwrap();
    }
    assert_eq!(q.on_rx_byte(0), Err(Error::QueueFull));
}
