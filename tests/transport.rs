use taskmaster::frame::{ack, encode_frame, is_ack, recv_size, send_size, FrameReceiver};

#[test]
fn header_is_big_endian() {
    assert_eq!(send_size(5), vec![0, 0, 0, 5]);
    assert_eq!(send_size(0x0102_0304), vec![1, 2, 3, 4]);
    assert_eq!(recv_size(&[1, 2, 3, 4]), 0x0102_0304);
    assert_eq!(recv_size(&send_size(u32::MAX)), u32::MAX);
}

#[test]
fn frame_is_header_then_payload() {
    let f = encode_frame(b"hello").unwrap();
    assert_eq!(f, vec![0, 0, 0, 5, b'h', b'e', b'l', b'l', b'o']);
    assert_eq!(encode_frame(b"").unwrap(), vec![0, 0, 0, 0]);
}

#[test]
fn ack_is_ok() {
    assert_eq!(ack(), b"OK".to_vec());
    assert!(is_ack(b"OK"));
    assert!(!is_ack(b"KO"));
    assert!(!is_ack(b"O"));
    assert!(!is_ack(b"OKK"));
}

#[test]
fn receiver_completes_one_frame_once() {
    let f = encode_frame(b"status").unwrap();
    let mut r = FrameReceiver::new();
    let done = r.feed_chunk(&f);
    assert_eq!(done, vec![b"status".to_vec()]);
    assert_eq!(r.feed_chunk(&[]), Vec::<Vec<u8>>::new());
}

#[test]
fn large_frame_in_small_reads_is_acknowledged_once() {
    let payload: Vec<u8> = (0..5000u32).map(|i| (i % 251) as u8).collect();
    let f = encode_frame(&payload).unwrap();
    let mut r = FrameReceiver::new();
    let mut completed = Vec::new();
    for chunk in f.chunks(512) {
        completed.extend(r.feed_chunk(chunk));
    }
    assert_eq!(completed.len(), 1);
    assert_eq!(completed[0], payload);
}

#[test]
fn frames_back_to_back_byte_by_byte() {
    let mut bytes = encode_frame(b"a").unwrap();
    bytes.extend(encode_frame(b"").unwrap());
    bytes.extend(encode_frame(b"bc").unwrap());
    let mut r = FrameReceiver::new();
    let mut completed = Vec::new();
    for b in bytes {
        if let Some(p) = r.feed(b) {
            completed.push(p);
        }
    }
    assert_eq!(completed, vec![b"a".to_vec(), Vec::new(), b"bc".to_vec()]);
}
