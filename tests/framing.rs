use established::framing::{decode_frame, decode_line, encode_frame, encode_line, FrameError};
use established::leb128::{leb_decode, leb_encode_u64, LebDecodeError};

#[test]
fn leb_encodes_known_values() {
    assert_eq!(leb_encode_u64(0), vec![0]);
    assert_eq!(leb_encode_u64(127), vec![127]);
    assert_eq!(leb_encode_u64(128), vec![0x80, 0x01]);
    assert_eq!(leb_encode_u64(300), vec![0xac, 0x02]);
    let max = leb_encode_u64(u64::MAX);
    assert_eq!(max.len(), 10);
    assert_eq!(max[9], 0x01);
    assert!(max[..9].iter().all(|b| *b == 0xff));
}

#[test]
fn leb_round_trip_with_trailing_bytes() {
    for n in [0u64, 1, 127, 128, 300, 16_383, 16_384, 1 << 35, u64::MAX] {
        let mut bytes = leb_encode_u64(n);
        let len = bytes.len();
        bytes.extend_from_slice(&[0xff, 0x00, 0x42]);
        assert_eq!(leb_decode(&bytes), Ok((n, len)));
    }
}

#[test]
fn leb_incomplete_is_invalid() {
    assert_eq!(leb_decode(&[]), Err(LebDecodeError::Invalid));
    assert_eq!(leb_decode(&[0x80]), Err(LebDecodeError::Invalid));
    assert_eq!(leb_decode(&[0xff; 9]), Err(LebDecodeError::Invalid));
}

#[test]
fn leb_overflow() {
    assert_eq!(leb_decode(&[0x80; 10]), Err(LebDecodeError::Overflow));
    assert_eq!(leb_decode(&[0x80; 12]), Err(LebDecodeError::Overflow));
    let mut too_big = vec![0xff; 9];
    too_big.push(0x02);
    assert_eq!(leb_decode(&too_big), Err(LebDecodeError::Overflow));
}

#[test]
fn frame_round_trip() {
    let frame = encode_frame(b"request payload");
    assert_eq!(frame[0], 15);
    assert_eq!(&frame[1..], b"request payload");
    let mut bytes = frame.clone();
    bytes.extend_from_slice(b"rest");
    assert_eq!(decode_frame(&bytes, 128), Ok(Some((b"request payload".to_vec(), 16))));
    assert_eq!(decode_frame(&bytes, 15), Ok(Some((b"request payload".to_vec(), 16))));
}

#[test]
fn frame_empty_payload() {
    assert_eq!(encode_frame(b""), vec![0]);
    assert_eq!(decode_frame(&[0], 0), Ok(Some((Vec::new(), 1))));
}

#[test]
fn frame_too_large() {
    let frame = encode_frame(b"response payload");
    assert_eq!(decode_frame(&frame, 15), Err(FrameError::TooLarge));
}

#[test]
fn frame_needs_more_bytes() {
    let frame = encode_frame(b"hello");
    assert_eq!(decode_frame(&frame[..3], 1024), Ok(None));
    assert_eq!(decode_frame(&[], 1024), Ok(None));
}

#[test]
fn frame_invalid_length() {
    assert_eq!(decode_frame(&[0x80; 10], 1024), Err(FrameError::InvalidLength));
}

#[test]
fn multistream_header_line() {
    let line = encode_line(b"/multistream/1.0.0");
    assert_eq!(line[0], 19);
    assert_eq!(&line[1..], b"/multistream/1.0.0\n");
    assert_eq!(decode_line(&line, 1024), Ok(Some((b"/multistream/1.0.0".to_vec(), 20))));
}

#[test]
fn na_line() {
    let line = encode_line(b"na");
    assert_eq!(line, vec![3, b'n', b'a', b'\n']);
    assert_eq!(decode_line(&line, 2), Ok(Some((b"na".to_vec(), 4))));
    assert_eq!(decode_line(&line, 1), Err(FrameError::TooLarge));
}

#[test]
fn line_without_newline() {
    assert_eq!(decode_line(&[2, b'n', b'a'], 1024), Err(FrameError::MissingNewline));
    assert_eq!(decode_line(&[0], 1024), Err(FrameError::MissingNewline));
}
