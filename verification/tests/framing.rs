//! Length-prefixed frames.

use forgetty::socket::framing::{read_frame, read_length, write_frame, FrameError, MAX_FRAME_SIZE};

fn round_trip(payload: Vec<u8>) {
    let mut wire = Vec::new();
    write_frame(&mut wire, &payload).unwrap();
    let mut out = Vec::new();
    let read = read_frame(&wire, &mut out).unwrap();
    assert_eq!(read, wire.len());
    assert_eq!(out, payload);
}

#[test]
fn round_trip_zero() {
    round_trip(Vec::new());
}

#[test]
fn round_trip_one_byte() {
    round_trip(vec![0x42]);
}

#[test]
fn round_trip_64k() {
    let payload: Vec<u8> = (0..65_536).map(|i| (i & 0xff) as u8).collect();
    round_trip(payload);
}

#[test]
fn round_trip_just_under_max() {
    let payload = vec![0xa5u8; MAX_FRAME_SIZE - 1];
    round_trip(payload);
}

#[test]
fn write_rejects_oversize() {
    let mut sink: Vec<u8> = Vec::new();
    let payload = vec![0u8; MAX_FRAME_SIZE + 1];
    let err = write_frame(&mut sink, &payload).unwrap_err();
    assert_eq!(err, FrameError::InvalidInput { len: MAX_FRAME_SIZE + 1 });
    assert!(sink.is_empty(), "no bytes should be written when payload is oversized");
}

#[test]
fn read_rejects_oversize_length_prefix() {
    // A length prefix of one more than the cap, with no payload.
    let len = (MAX_FRAME_SIZE as u32) + 1;
    let src: &[u8] = &len.to_be_bytes();
    let mut buf = Vec::new();
    let err = read_frame(src, &mut buf).unwrap_err();
    assert_eq!(err, FrameError::InvalidData { len: MAX_FRAME_SIZE + 1 });
    assert!(buf.is_empty(), "no bytes should be allocated on oversize prefix");
}

#[test]
fn read_eof_before_length() {
    let src: &[u8] = &[];
    let mut buf = Vec::new();
    let err = read_frame(src, &mut buf).unwrap_err();
    assert_eq!(err, FrameError::UnexpectedEof);
}

#[test]
fn read_eof_mid_payload() {
    // The length prefix says 10, and three bytes follow.
    let mut src: Vec<u8> = Vec::new();
    src.extend_from_slice(&10u32.to_be_bytes());
    src.extend_from_slice(&[1, 2, 3]);
    let mut buf = Vec::new();
    let err = read_frame(&src, &mut buf).unwrap_err();
    assert_eq!(err, FrameError::UnexpectedEof);
}

#[test]
fn a_payload_that_ends_early_leaves_its_length() {
    let src: &[u8] = &[0, 0, 0, 5, 1, 2];
    let mut buf = vec![9u8];
    assert_eq!(read_frame(src, &mut buf).unwrap_err(), FrameError::UnexpectedEof);
    assert_eq!(buf, vec![1, 2, 0, 0, 0]);
    // Without a whole length, or with one that is too large, nothing changes.
    let mut kept = vec![9u8];
    assert_eq!(read_frame(&[0, 0, 1], &mut kept).unwrap_err(), FrameError::UnexpectedEof);
    assert_eq!(
        read_frame(&[255, 0, 0, 0], &mut kept).unwrap_err(),
        FrameError::InvalidData { len: 0xff00_0000 }
    );
    assert_eq!(kept, vec![9]);
}

#[test]
fn a_frame_is_a_big_endian_length_and_the_payload() {
    let mut wire = vec![9u8];
    write_frame(&mut wire, b"abc").unwrap();
    assert_eq!(wire, vec![9, 0, 0, 0, 3, b'a', b'b', b'c']);
    assert_eq!(read_length([0, 0, 1, 2]), Ok(258));
    assert_eq!(read_length([0, 0x40, 0, 0]), Ok(MAX_FRAME_SIZE));
    assert_eq!(read_length([0xff, 0, 0, 0]), Err(FrameError::InvalidData { len: 0xff00_0000 }));
}

#[test]
fn frames_come_back_in_the_order_they_were_written() {
    let sent: Vec<Vec<u8>> = vec![b"one".to_vec(), Vec::new(), b"three".to_vec()];
    let mut wire = Vec::new();
    for payload in &sent {
        write_frame(&mut wire, payload).unwrap();
    }
    let mut came: Vec<Vec<u8>> = Vec::new();
    let mut rest: &[u8] = &wire;
    while !rest.is_empty() {
        let mut buf = Vec::new();
        let n = read_frame(rest, &mut buf).unwrap();
        came.push(buf);
        rest = &rest[n..];
    }
    assert_eq!(came, sent);
}

#[test]
fn frame_errors_have_words() {
    assert_eq!(
        FrameError::InvalidInput { len: 4194305 }.message(),
        "frame payload 4194305 exceeds MAX_FRAME_SIZE 4194304"
    );
    assert_eq!(
        FrameError::InvalidData { len: 4194305 }.message(),
        "frame length 4194305 exceeds MAX_FRAME_SIZE 4194304"
    );
    assert_eq!(FrameError::UnexpectedEof.message(), "early eof");
}
