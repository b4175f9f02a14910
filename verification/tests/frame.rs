use dither_node::frame::decode_frame;
use dither_node::frame::encode_frame;
use dither_node::frame::Frame;
use dither_node::frame::FrameError;

#[test]
fn short_body_gets_one_byte_prefix() {
    assert_eq!(encode_frame(&[]), vec![0u8]);
    assert_eq!(encode_frame(&[7, 8, 9]), vec![3u8, 7, 8, 9]);
    let body = vec![1u8; 127];
    let frame = encode_frame(&body);
    assert_eq!(frame.len(), 128);
    assert_eq!(frame[0], 127);
}

#[test]
fn long_body_gets_varint_prefix() {
    let body = vec![5u8; 300];
    let frame = encode_frame(&body);
    assert_eq!(frame.len(), 302);
    assert_eq!(&frame[..2], &[0xac, 0x02]);
    assert_eq!(&frame[2..], &body[..]);
    let body = vec![0u8; 128];
    assert_eq!(&encode_frame(&body)[..2], &[0x80, 0x01]);
    let body = vec![0u8; 16_384];
    assert_eq!(&encode_frame(&body)[..3], &[0x80, 0x80, 0x01]);
}

#[test]
fn frame_is_read_back_as_written() {
    for len in [0usize, 1, 2, 127, 128, 129, 300, 16_383, 16_384, 70_000] {
        let body: Vec<u8> = (0..len).map(|i| (i % 251) as u8).collect();
        let mut stream = encode_frame(&body);
        let frame_len = stream.len();
        stream.extend_from_slice(&[0xff, 0xff, 0xff]);
        match decode_frame(&stream) {
            Frame::Complete { start, end } => {
                assert_eq!(end, frame_len);
                assert_eq!(&stream[start..end], &body[..]);
            }
            other => panic!("unexpected {:?}", other),
        }
    }
}

#[test]
fn partial_frame_is_incomplete() {
    let body: Vec<u8> = (0..200u8).collect();
    let frame = encode_frame(&body);
    for received in 0..frame.len() {
        assert_eq!(decode_frame(&frame[..received]), Frame::Incomplete);
    }
    assert_eq!(decode_frame(&frame), Frame::Complete { start: 2, end: 202 });
}

#[test]
fn two_frames_are_read_one_after_the_other() {
    let mut stream = encode_frame(&[1, 2, 3]);
    stream.extend_from_slice(&encode_frame(&[4, 5]));
    assert_eq!(decode_frame(&stream), Frame::Complete { start: 1, end: 4 });
    assert_eq!(decode_frame(&stream[4..]), Frame::Complete { start: 1, end: 3 });
    assert_eq!(decode_frame(&stream[7..]), Frame::Incomplete);
}

#[test]
fn padded_length_is_malformed() {
    assert_eq!(decode_frame(&[0x80, 0x00]), Frame::Malformed(FrameError::LengthNotMinimal));
    assert_eq!(decode_frame(&[0x81, 0x80, 0x00, 1]), Frame::Malformed(FrameError::LengthNotMinimal));
    assert_eq!(decode_frame(&[0x00]), Frame::Complete { start: 1, end: 1 });
}

#[test]
fn overlong_length_is_malformed() {
    let stream = [0xffu8; 10];
    assert_eq!(decode_frame(&stream), Frame::Malformed(FrameError::LengthOverflow));
    let stream = [0x80u8; 12];
    assert_eq!(decode_frame(&stream), Frame::Malformed(FrameError::LengthOverflow));
    let stream = [0x80u8; 9];
    assert_eq!(decode_frame(&stream), Frame::Incomplete);
}

#[test]
fn full_length_varint_is_taken_modulo_the_word() {
    let mut stream = vec![0x80u8; 9];
    stream.push(0x02);
    assert_eq!(decode_frame(&stream), Frame::Complete { start: 10, end: 10 });
    let mut stream = vec![0x83u8];
    stream.extend_from_slice(&[0x80u8; 8]);
    stream.push(0x02);
    stream.extend_from_slice(&[9, 9, 9, 9]);
    assert_eq!(decode_frame(&stream), Frame::Complete { start: 10, end: 13 });
}

#[test]
fn length_beyond_buffer_is_incomplete() {
    assert_eq!(decode_frame(&[5, 1, 2, 3, 4]), Frame::Incomplete);
    assert_eq!(decode_frame(&[5, 1, 2, 3, 4, 5]), Frame::Complete { start: 1, end: 6 });
    assert_eq!(decode_frame(&[0xff, 0xff, 0x03, 0]), Frame::Incomplete);
}
