use mini_rxtx::{decode_single_frame, frame_in_place};

// The message of these tests is a struct holding one `u32`; ssmarshal lays
// such a struct out exactly as the bare `u32`.

fn serialize_u32(v: u32) -> Vec<u8> {
    let mut dest = vec![0u8; 1024];
    let n_bytes = ssmarshal::serialize(&mut dest[2..], &v).unwrap();
    let msg = frame_in_place(dest, n_bytes).unwrap();
    msg.framed_slice().to_vec()
}

#[test]
fn test_roundtrip_std() {
    let msg_orig: u32 = 12345;

    let buf = serialize_u32(msg_orig);
    let payload = decode_single_frame(&buf, 1024).unwrap();
    let (msg_actual, _n): (u32, usize) = ssmarshal::deserialize(&payload).unwrap();
    assert_eq!(msg_orig, msg_actual);
}

#[test]
fn test_roundtrip_zero_size() {
    let mut dest = vec![0u8; 1024];

    let msg_orig = ();
    let n_bytes = ssmarshal::serialize(&mut dest[2..], &msg_orig).unwrap();
    let buf = frame_in_place(dest, n_bytes).unwrap();
    let b2 = buf.framed_slice();
    let decode_buf = [0u8; 1024];

    println!("() encoded to bytes: {:?}", b2);

    let payload = decode_single_frame(b2, decode_buf.len()).unwrap();
    let (msg_actual, _n): ((), usize) = ssmarshal::deserialize(&payload).unwrap();
    assert_eq!(msg_orig, msg_actual);
}

#[test]
fn test_roundtrip_nostd() {
    let msg_orig: u32 = 12345;

    let mut dest = vec![0u8; 1024];
    let n_bytes = ssmarshal::serialize(&mut dest[2..], &msg_orig).unwrap();
    let encoded = frame_in_place(dest, n_bytes).unwrap();
    let buf = encoded.framed_slice();

    let decode_buf = [0u8; 1024];
    let payload = decode_single_frame(buf, decode_buf.len()).unwrap();
    let (msg_actual, _n): (u32, usize) = ssmarshal::deserialize(&payload).unwrap();
    assert_eq!(msg_orig, msg_actual);
}

#[test]
fn test_roundtrip() {
    let msg_orig: u32 = 12345;

    let buf = serialize_u32(msg_orig);
    assert_eq!(buf, vec![4, 0, 0x39, 0x30, 0, 0]);
    let payload = decode_single_frame(&buf, 1024).unwrap();
    let (msg_actual, _n): (u32, usize) = ssmarshal::deserialize(&payload).unwrap();
    assert_eq!(msg_orig, msg_actual);
}
