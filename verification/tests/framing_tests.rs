use grpc_core::decoder::StreamingDecoder;
use grpc_core::framing::{encode_frame, encode_messages, encode_u32_be};
use grpc_core::status::Code;

#[test]
fn frame_layout_is_flag_length_payload() {
    // Encoding the payload [0x0a, 0x05, "world"] gives the literal frame
    // [0x00, 0x00,0x00,0x00,0x07, 0x0a,0x05, "world"].
    let mut payload = vec![0x0au8, 0x05];
    payload.extend_from_slice(b"world");
    let frame = encode_frame(0, &payload, None).unwrap();
    let mut expected = vec![0x00u8, 0x00, 0x00, 0x00, 0x07, 0x0a, 0x05];
    expected.extend_from_slice(b"world");
    assert_eq!(frame, expected);
}

#[test]
fn length_bytes_are_big_endian() {
    assert_eq!(encode_u32_be(7), vec![0, 0, 0, 7]);
    assert_eq!(encode_u32_be(0x0102_0304), vec![1, 2, 3, 4]);
}

#[test]
fn decode_returns_what_encode_wrote() {
    let payload = b"hello world".to_vec();
    let frame = encode_frame(0, &payload, None).unwrap();
    let mut dec = StreamingDecoder::new_response(false, None);
    dec.push_bytes(&frame);
    let msg = dec.next_message().unwrap().unwrap();
    assert_eq!(msg, payload);
    // Nothing else buffered.
    assert_eq!(dec.next_message().unwrap(), None);
}

#[test]
fn compressed_round_trip_when_encoding_known() {
    let payload = b"abc".to_vec();
    let frame = encode_frame(1, &payload, None).unwrap();
    let mut dec = StreamingDecoder::new_response(true, None);
    dec.push_bytes(&frame);
    assert_eq!(dec.next_message().unwrap().unwrap(), payload);
}

#[test]
fn compressed_frame_without_encoding_is_internal() {
    let payload = b"abc".to_vec();
    let frame = encode_frame(1, &payload, None).unwrap();
    let mut dec = StreamingDecoder::new_response(false, None);
    dec.push_bytes(&frame);
    let st = dec.next_message().unwrap_err();
    assert_eq!(st.code, Code::Internal);
}

#[test]
fn unknown_flag_is_internal() {
    let mut dec = StreamingDecoder::new_response(true, None);
    dec.push_bytes(&[7, 0, 0, 0, 1, 42]);
    let st = dec.next_message().unwrap_err();
    assert_eq!(st.code, Code::Internal);
}

#[test]
fn oversize_encode_is_resource_exhausted() {
    let payload = b"hello".to_vec();
    let st = encode_frame(0, &payload, Some(4)).unwrap_err();
    assert_eq!(st.code, Code::ResourceExhausted);
    let st = encode_messages(&vec![b"ok".to_vec(), b"hello".to_vec()], 0, Some(4)).unwrap_err();
    assert_eq!(st.code, Code::ResourceExhausted);
}

#[test]
fn oversize_decode_is_resource_exhausted() {
    // Max decode is four; the frame declares five bytes.
    let mut body = vec![0x00u8, 0x00, 0x00, 0x00, 0x05];
    body.extend_from_slice(b"hello");
    let mut dec = StreamingDecoder::new_response(false, Some(4));
    dec.push_bytes(&body);
    let st = dec.next_message().unwrap_err();
    assert_eq!(st.code, Code::ResourceExhausted);
}

#[test]
fn partial_frame_waits_for_more_bytes() {
    let mut dec = StreamingDecoder::new_response(false, None);
    dec.push_bytes(&[0, 0, 0]);
    assert_eq!(dec.next_message().unwrap(), None);
    dec.push_bytes(&[0, 2, 9]);
    assert_eq!(dec.next_message().unwrap(), None);
    dec.push_bytes(&[8]);
    assert_eq!(dec.next_message().unwrap().unwrap(), vec![9, 8]);
}

#[test]
fn two_frames_come_out_in_order() {
    let body = [
        encode_frame(0, &b"one".to_vec(), None).unwrap(),
        encode_frame(0, &b"two".to_vec(), None).unwrap(),
    ]
    .concat();
    let mut dec = StreamingDecoder::new_response(false, None);
    dec.push_bytes(&body);
    assert_eq!(dec.next_message().unwrap().unwrap(), b"one".to_vec());
    assert_eq!(dec.next_message().unwrap().unwrap(), b"two".to_vec());
    assert_eq!(dec.next_message().unwrap(), None);
}

#[test]
fn encode_messages_concatenates_frames() {
    let body = encode_messages(&vec![b"one".to_vec(), b"two".to_vec()], 0, None).unwrap();
    let expected = [
        encode_frame(0, &b"one".to_vec(), None).unwrap(),
        encode_frame(0, &b"two".to_vec(), None).unwrap(),
    ]
    .concat();
    assert_eq!(body, expected);
}
