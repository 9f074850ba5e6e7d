use mini_rxtx::{
    decode_single_frame, encode_frame, frame_in_place, Decoded, Decoder, Error, FrameCodec,
    MyCodec, DEFAULT_BUFLEN,
};

fn feed_all(d: &mut Decoder, bytes: &[u8]) -> Vec<Decoded<Vec<u8>>> {
    let mut out = Vec::new();
    for b in bytes {
        out.push(d.consume(*b));
    }
    out
}

fn frame(payload: &[u8]) -> Vec<u8> {
    encode_frame(payload, vec![0u8; payload.len() + 2]).unwrap().framed_slice().to_vec()
}

#[test]
fn empty_payload_encodes_to_two_zero_bytes() {
    assert_eq!(frame(&[]), vec![0u8, 0u8]);
}

#[test]
fn empty_frame_completes_on_second_byte() {
    let mut d = Decoder::new();
    assert!(matches!(d.consume(0), Decoded::FrameNotYetComplete));
    match d.consume(0) {
        Decoded::Msg(p) => assert!(p.is_empty()),
        other => panic!("unexpected {:?}", other),
    }
}

#[test]
fn header_is_little_endian() {
    let payload = vec![7u8; 300];
    let f = frame(&payload);
    assert_eq!(&f[0..2], &[0x2c, 0x01]);
    assert_eq!(&f[2..], &payload[..]);
    assert_eq!(f.len(), 302);
}

#[test]
fn round_trip_through_streaming_decoder() {
    let payload: Vec<u8> = (0..200u32).map(|i| (i * 7) as u8).collect();
    let f = frame(&payload);
    let mut d = Decoder::new();
    let out = feed_all(&mut d, &f);
    assert_eq!(out.len(), f.len());
    for o in &out[..out.len() - 1] {
        assert!(matches!(o, Decoded::FrameNotYetComplete));
    }
    match out.last().unwrap() {
        Decoded::Msg(p) => assert_eq!(p, &payload),
        other => panic!("unexpected {:?}", other),
    }
}

#[test]
fn split_feeding_matches_whole_feeding() {
    let payload = vec![1u8, 2, 3, 4, 5];
    let f = frame(&payload);
    let mut whole = Decoder::new();
    let all = feed_all(&mut whole, &f);
    let mut parts = Decoder::new();
    let mut split = feed_all(&mut parts, &f[..3]);
    split.extend(feed_all(&mut parts, &f[3..]));
    assert_eq!(format!("{:?}", all), format!("{:?}", split));
}

#[test]
fn max_length_payload_round_trips() {
    let payload = vec![0xa5u8; DEFAULT_BUFLEN];
    let f = frame(&payload);
    let mut d = Decoder::new();
    let out = feed_all(&mut d, &f);
    match out.last().unwrap() {
        Decoded::Msg(p) => assert_eq!(p, &payload),
        other => panic!("unexpected {:?}", other),
    }
}

#[test]
fn too_long_then_previous_error_until_reset() {
    let mut d = Decoder::with_capacity(4);
    assert!(matches!(d.consume(5), Decoded::FrameNotYetComplete));
    assert!(matches!(d.consume(0), Decoded::Error(Error::TooLong)));
    for b in [0u8, 1, 2, 3] {
        assert!(matches!(d.consume(b), Decoded::Error(Error::PreviousError)));
    }
    d.reset();
    let out = feed_all(&mut d, &[1, 0, 9]);
    match &out[2] {
        Decoded::Msg(p) => assert_eq!(p, &vec![9u8]),
        other => panic!("unexpected {:?}", other),
    }
}

#[test]
fn streaming_decoder_continues_after_a_frame() {
    let mut bytes = frame(&[1, 2]);
    bytes.extend(frame(&[3]));
    let mut d = Decoder::new();
    let out = feed_all(&mut d, &bytes);
    assert!(matches!(&out[3], Decoded::Msg(p) if p == &vec![1u8, 2]));
    assert!(matches!(&out[6], Decoded::Msg(p) if p == &vec![3u8]));
}

#[test]
fn single_frame_rejects_trailing_bytes() {
    let mut bytes = frame(&[1, 2]);
    bytes.push(0);
    assert_eq!(decode_single_frame(&bytes, 16), Err(Error::ExtraCharactersFound));
}

#[test]
fn single_frame_reports_incomplete() {
    assert_eq!(decode_single_frame(&[], 16), Err(Error::Incomplete));
    assert_eq!(decode_single_frame(&[3], 16), Err(Error::Incomplete));
    assert_eq!(decode_single_frame(&[3, 0, 1, 2], 16), Err(Error::Incomplete));
}

#[test]
fn single_frame_reports_too_long() {
    assert_eq!(decode_single_frame(&[17, 0, 1, 2], 16), Err(Error::TooLong));
}

#[test]
fn single_frame_returns_payload() {
    assert_eq!(decode_single_frame(&[2, 0, 8, 9], 16), Ok(vec![8u8, 9]));
    assert_eq!(decode_single_frame(&[0, 0], 0), Ok(vec![]));
}

#[test]
fn encode_rejects_oversized_payload() {
    let payload = vec![0u8; 65536];
    let r = encode_frame(&payload, vec![0u8; 65538]);
    assert!(matches!(r, Err(Error::TooLong)));
}

#[test]
fn encode_rejects_small_buffer() {
    let r = encode_frame(&[1, 2, 3], vec![0u8; 4]);
    assert!(matches!(r, Err(Error::BufferTooSmall)));
}

#[test]
fn encode_uses_front_of_larger_buffer() {
    let m = encode_frame(&[5, 6], vec![9u8; 10]).unwrap();
    assert_eq!(m.framed_slice(), &[2, 0, 5, 6]);
}

#[test]
fn frame_in_place_writes_header() {
    let m = frame_in_place(vec![9, 9, 4, 5, 6, 9], 3).unwrap();
    assert_eq!(m.framed_slice(), &[3, 0, 4, 5, 6]);
}

#[test]
fn frame_in_place_rejects_oversized_count() {
    let r = frame_in_place(vec![0u8; 65538], 65536);
    assert!(matches!(r, Err(Error::TooLong)));
}

#[test]
fn frame_codec_waits_for_whole_frame() {
    let mut c = FrameCodec::new();
    assert_eq!(c.decode(&[]), None);
    assert_eq!(c.decode(&[2]), None);
    assert_eq!(c.decode(&[2, 0, 7]), None);
    assert_eq!(c.decode(&[2, 0, 7, 8, 1]), Some(vec![7u8, 8]));
    assert_eq!(c.decode(&[0x2c, 0x01, 1, 2]), None);
}

#[test]
fn frame_codec_encodes() {
    let mut c = FrameCodec::new();
    assert_eq!(c.encode(&[7, 8]), Ok(vec![2u8, 0, 7, 8]));
    assert_eq!(c.encode(&vec![0u8; 65536]), Err(Error::TooLong));
}

#[test]
fn my_codec_frames_payloads() {
    let mut c: MyCodec<u32, u32> = MyCodec::new();
    let f = c.encode_payload(&[1, 2, 3]).unwrap();
    assert_eq!(f, vec![3u8, 0, 1, 2, 3]);
    assert_eq!(c.decode_payload(&f), Some(vec![1u8, 2, 3]));
}

#[test]
fn frame_in_place_rejects_small_buffer() {
    let r = frame_in_place(vec![0u8; 4], 3);
    assert!(matches!(r, Err(Error::BufferTooSmall)));
}

#[test]
fn little_endian_header_is_read_low_byte_first() {
    let mut bytes = vec![0x2cu8, 0x01];
    bytes.extend(vec![3u8; 300]);
    let mut d = Decoder::with_capacity(300);
    let out = feed_all(&mut d, &bytes);
    match &out[301] {
        Decoded::Msg(p) => assert_eq!(p.len(), 300),
        other => panic!("unexpected {:?}", other),
    }
}
