use mpris_hyprland_host::messaging::{
    frame_length, read_message, write_message, FrameError, MAX_MESSAGE_BYTES,
};

#[test]
fn write_message_prefixes_little_endian_length() {
    let frame = write_message(b"{\"type\":\"ping\"}").unwrap();
    assert_eq!(&frame[..4], &[15, 0, 0, 0]);
    assert_eq!(&frame[4..], b"{\"type\":\"ping\"}");
}

#[test]
fn write_message_encodes_multi_byte_length() {
    let payload = vec![7u8; 0x0102];
    let frame = write_message(&payload).unwrap();
    assert_eq!(&frame[..4], &[0x02, 0x01, 0, 0]);
    assert_eq!(frame.len(), 4 + 0x0102);
}

#[test]
fn write_then_read_gives_back_the_payload() {
    let payload = b"{\"type\":\"update\",\"tabId\":3}".to_vec();
    let mut stream = write_message(&payload).unwrap();
    stream.extend_from_slice(b"trailing");
    let (read, consumed) = read_message(&stream).unwrap().unwrap();
    assert_eq!(read, payload);
    assert_eq!(consumed, 4 + payload.len());
}

#[test]
fn write_accepts_exactly_the_maximum() {
    let payload = vec![0u8; MAX_MESSAGE_BYTES as usize];
    let frame = write_message(&payload).unwrap();
    assert_eq!(&frame[..4], &[0, 0, 0x10, 0]);
}

#[test]
fn write_refuses_oversized_payload() {
    let payload = vec![0u8; MAX_MESSAGE_BYTES as usize + 1];
    assert_eq!(
        write_message(&payload),
        Err(FrameError::OutboundTooLarge(MAX_MESSAGE_BYTES as usize + 1))
    );
}

#[test]
fn read_of_empty_input_is_clean_end_of_stream() {
    assert_eq!(read_message(&[]), Ok(None));
}

#[test]
fn read_refuses_a_length_prefix_cut_short() {
    assert_eq!(read_message(&[5, 0]), Err(FrameError::TruncatedHeader));
    assert_eq!(read_message(&[1, 0, 0]), Err(FrameError::TruncatedHeader));
    assert_eq!(read_message(&[9]), Err(FrameError::TruncatedHeader));
}

#[test]
fn read_of_zero_length_frame_is_empty_payload() {
    assert_eq!(read_message(&[0, 0, 0, 0, 9]), Ok(Some((Vec::new(), 4))));
}

#[test]
fn read_refuses_length_over_one_mebibyte() {
    assert_eq!(
        read_message(&[1, 0, 0x10, 0]),
        Err(FrameError::LengthTooLarge(0x0010_0001))
    );
    assert_eq!(frame_length([1, 0, 0x10, 0]), Err(FrameError::LengthTooLarge(0x0010_0001)));
}

#[test]
fn read_refuses_truncated_body() {
    assert_eq!(read_message(&[5, 0, 0, 0, b'a', b'b']), Err(FrameError::TruncatedBody));
}

#[test]
fn frame_length_decodes_little_endian() {
    assert_eq!(frame_length([0x78, 0x56, 0x0f, 0]), Ok(0x000f_5678));
    assert_eq!(frame_length([0, 0, 0x10, 0]), Ok(MAX_MESSAGE_BYTES));
}
