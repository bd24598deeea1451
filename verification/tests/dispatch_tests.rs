use grpc_core::client::{
    take_single_response, CompressionEncoding, Grpc, GrpcBuilder, Origin, ResponseKind,
};
use grpc_core::framing::encode_frame;
use grpc_core::headers::HeaderMap;
use grpc_core::status::Code;

fn client() -> Grpc<()> {
    Grpc::new(())
}

fn ok_trailers() -> HeaderMap {
    let mut t = HeaderMap::new();
    t.insert(b"grpc-status".to_vec(), b"0".to_vec());
    t
}

#[test]
fn unary_ok_end_to_end() {
    // Path /g.Greeter/SayHello; the response body carries one frame whose
    // payload is [0x0a, 0x0b, "hello world"]; trailers say grpc-status: 0.
    let g = client();
    let req = g.prepare_request(HeaderMap::new(), b"/g.Greeter/SayHello");
    assert_eq!(req.path, b"/g.Greeter/SayHello".to_vec());
    assert_eq!(req.headers.get(b"te"), Some(&b"trailers".to_vec()));
    assert_eq!(req.headers.get(b"content-type"), Some(&b"application/grpc".to_vec()));

    let mut payload = vec![0x0au8, 0x0b];
    payload.extend_from_slice(b"hello world");
    let body = encode_frame(0, &payload, None).unwrap();
    assert_eq!(body[..5], [0x00, 0x00, 0x00, 0x00, 0x0d]);

    let headers = HeaderMap::new();
    let reply = g.process_unary_response(&headers, &body, Some(&ok_trailers())).unwrap();
    assert_eq!(reply, payload);

    // The full reply also carries the metadata: the response headers with
    // the trailers merged in after them.
    let mut headers = HeaderMap::new();
    headers.insert(b"content-type".to_vec(), b"application/grpc".to_vec());
    let full = g.process_unary_call(&headers, &body, Some(&ok_trailers())).unwrap();
    assert_eq!(full.message, payload);
    assert_eq!(full.metadata.get(b"content-type"), Some(&b"application/grpc".to_vec()));
    assert_eq!(full.metadata.get(b"grpc-status"), Some(&b"0".to_vec()));
}

#[test]
fn decode_failure_status_carries_the_response_headers() {
    // A failure met while reading the stream comes back with the response
    // headers merged into its metadata.
    let g = client().max_decoding_message_size(4);
    let mut headers = HeaderMap::new();
    headers.insert(b"x-request-id".to_vec(), b"seven".to_vec());
    let mut body = vec![0x00u8, 0x00, 0x00, 0x00, 0x05];
    body.extend_from_slice(b"hello");
    let st = g.process_unary_call(&headers, &body, Some(&ok_trailers())).unwrap_err();
    assert_eq!(st.code, Code::ResourceExhausted);
    assert_eq!(st.metadata.get(b"x-request-id"), Some(&b"seven".to_vec()));
}

#[test]
fn unary_missing_response_is_internal() {
    // Headers, empty body, trailers grpc-status: 0.
    let g = client();
    let reply = g.process_unary_response(&HeaderMap::new(), &[], Some(&ok_trailers()));
    let st = reply.unwrap_err();
    assert_eq!(st.code, Code::Internal);
    assert_eq!(st.message, b"Missing response message.".to_vec());
}

#[test]
fn trailer_only_error_skips_body() {
    // grpc-status: 5 and grpc-message: "not found" in the headers fail the
    // call with NotFound without reading the body: a nonsense body gives
    // the same outcome as an empty one.
    let g = client();
    let mut headers = HeaderMap::new();
    headers.insert(b"grpc-status".to_vec(), b"5".to_vec());
    headers.insert(b"grpc-message".to_vec(), b"not found".to_vec());

    let st = g.process_unary_response(&headers, b"garbage-that-is-no-frame", None).unwrap_err();
    assert_eq!(st.code, Code::NotFound);
    assert_eq!(st.message, b"not found".to_vec());

    let st2 = g.process_unary_response(&headers, &[], None).unwrap_err();
    assert_eq!(st2.code, st.code);
    assert_eq!(st2.message, st.message);
}

#[test]
fn trailer_only_ok_is_empty_stream() {
    let g = client();
    let mut headers = HeaderMap::new();
    headers.insert(b"grpc-status".to_vec(), b"0".to_vec());
    match g.create_response(&headers).unwrap() {
        ResponseKind::TrailerOnly => {}
        ResponseKind::Stream(_) => panic!("trailer-only response must not read the body"),
    }
}

#[test]
fn percent_encoded_message_is_decoded() {
    let g = client();
    let mut headers = HeaderMap::new();
    headers.insert(b"grpc-status".to_vec(), b"5".to_vec());
    headers.insert(b"grpc-message".to_vec(), b"not%20found".to_vec());
    let st = g.process_unary_response(&headers, &[], None).unwrap_err();
    assert_eq!(st.message, b"not found".to_vec());
}

#[test]
fn oversize_decode_fails_the_call() {
    let g = client().max_decoding_message_size(4);
    let mut body = vec![0x00u8, 0x00, 0x00, 0x00, 0x05];
    body.extend_from_slice(b"hello");
    let st = g.process_unary_response(&HeaderMap::new(), &body, Some(&ok_trailers())).unwrap_err();
    assert_eq!(st.code, Code::ResourceExhausted);
}

#[test]
fn unknown_response_encoding_is_unimplemented() {
    let g = client();
    let mut headers = HeaderMap::new();
    headers.insert(b"grpc-encoding".to_vec(), b"br".to_vec());
    let st = g.process_unary_response(&headers, &[], Some(&ok_trailers())).unwrap_err();
    assert_eq!(st.code, Code::Unimplemented);

    // gzip is fine once accepted.
    let g = client().accept_compressed(CompressionEncoding::Gzip);
    let mut headers = HeaderMap::new();
    headers.insert(b"grpc-encoding".to_vec(), b"gzip".to_vec());
    let payload = b"x".to_vec();
    let body = encode_frame(1, &payload, None).unwrap();
    let reply = g.process_unary_response(&headers, &body, Some(&ok_trailers())).unwrap();
    assert_eq!(reply, payload);
}

#[test]
fn missing_trailer_status_is_internal() {
    let g = client();
    let payload = b"x".to_vec();
    let body = encode_frame(0, &payload, None).unwrap();
    let st = g.process_unary_response(&HeaderMap::new(), &body, None).unwrap_err();
    assert_eq!(st.code, Code::Internal);
    let st = g
        .process_unary_response(&HeaderMap::new(), &body, Some(&HeaderMap::new()))
        .unwrap_err();
    assert_eq!(st.code, Code::Internal);
}

#[test]
fn non_ok_trailer_status_fails_the_call() {
    let g = client();
    let payload = b"x".to_vec();
    let body = encode_frame(0, &payload, None).unwrap();
    let mut t = HeaderMap::new();
    t.insert(b"grpc-status".to_vec(), b"8".to_vec());
    let st = g.process_unary_response(&HeaderMap::new(), &body, Some(&t)).unwrap_err();
    assert_eq!(st.code, Code::ResourceExhausted);
}

#[test]
fn take_single_response_requires_a_message() {
    assert_eq!(take_single_response(Some(b"m".to_vec())).unwrap(), b"m".to_vec());
    let st = take_single_response(None).unwrap_err();
    assert_eq!(st.code, Code::Internal);
    assert_eq!(st.message, b"Missing response message.".to_vec());
}

#[test]
fn accept_compressed_is_idempotent() {
    let once = client().accept_compressed(CompressionEncoding::Gzip);
    let twice = client()
        .accept_compressed(CompressionEncoding::Gzip)
        .accept_compressed(CompressionEncoding::Gzip);
    assert_eq!(
        once.config.accept_compression_encodings,
        twice.config.accept_compression_encodings
    );
    assert!(once.config.accept_compression_encodings.is_enabled(CompressionEncoding::Gzip));
    assert!(!once.config.accept_compression_encodings.is_enabled(CompressionEncoding::Zstd));
}

#[test]
fn config_mutation_leaves_clones_unchanged() {
    let original = client().max_decoding_message_size(1024);
    let cloned = original.clone();
    let mutated = cloned
        .send_compressed(CompressionEncoding::Gzip)
        .accept_compressed(CompressionEncoding::Zstd)
        .max_decoding_message_size(4);
    assert_eq!(original.config.send_compression_encodings, None);
    assert_eq!(original.config.max_decoding_message_size, Some(1024));
    assert!(!original.config.accept_compression_encodings.zstd);
    assert_eq!(mutated.config.max_decoding_message_size, Some(4));
}

#[test]
fn builder_sets_every_field() {
    let origin = Origin::new(b"http".to_vec(), b"example.com".to_vec(), b"/base".to_vec());
    let g = GrpcBuilder::default()
        .origin(origin)
        .send_compressed(CompressionEncoding::Gzip)
        .accept_compressed(CompressionEncoding::Gzip)
        .max_decoding_message_size(2048)
        .max_encoding_message_size(1024)
        .build(());
    assert_eq!(g.config.origin.authority, b"example.com".to_vec());
    assert_eq!(g.config.send_compression_encodings, Some(CompressionEncoding::Gzip));
    assert!(g.config.accept_compression_encodings.gzip);
    assert_eq!(g.config.max_decoding_message_size, Some(2048));
    assert_eq!(g.config.max_encoding_message_size, Some(1024));

    let req = g.prepare_request(HeaderMap::new(), b"/svc.Svc/Method");
    assert_eq!(req.scheme, b"http".to_vec());
    assert_eq!(req.authority, b"example.com".to_vec());
    assert_eq!(req.path, b"/base/svc.Svc/Method".to_vec());
    assert_eq!(req.headers.get(b"grpc-encoding"), Some(&b"gzip".to_vec()));
    assert_eq!(req.headers.get(b"grpc-accept-encoding"), Some(&b"gzip".to_vec()));
}

#[test]
fn prepare_request_keeps_user_headers_and_guards_reserved_ones() {
    let g = client();
    let mut user = HeaderMap::new();
    user.insert(b"x-request-id".to_vec(), b"seven".to_vec());
    user.insert(b"grpc-timeout".to_vec(), b"50m".to_vec());
    user.insert(b"grpc-encoding".to_vec(), b"gzip".to_vec());
    let req = g.prepare_request(user, b"/svc.Svc/Method");
    assert_eq!(req.headers.get(b"x-request-id"), Some(&b"seven".to_vec()));
    assert_eq!(req.headers.get(b"grpc-timeout"), Some(&b"50m".to_vec()));
    // No send compression configured: the user cannot smuggle the header.
    assert_eq!(req.headers.get(b"grpc-encoding"), None);
}

#[test]
fn accept_header_lists_enabled_encodings_in_order() {
    let g = client()
        .accept_compressed(CompressionEncoding::Zstd)
        .accept_compressed(CompressionEncoding::Gzip);
    let req = g.prepare_request(HeaderMap::new(), b"/s/M");
    assert_eq!(req.headers.get(b"grpc-accept-encoding"), Some(&b"gzip,zstd".to_vec()));
}

#[test]
fn status_codes_follow_the_wire_numbers() {
    assert_eq!(Code::Okay.value(), 0);
    assert_eq!(Code::Cancelled.value(), 1);
    assert_eq!(Code::Unknown.value(), 2);
    assert_eq!(Code::DeadlineExceeded.value(), 4);
    assert_eq!(Code::NotFound.value(), 5);
    assert_eq!(Code::ResourceExhausted.value(), 8);
    assert_eq!(Code::Unimplemented.value(), 12);
    assert_eq!(Code::Internal.value(), 13);
    assert_eq!(Code::Unavailable.value(), 14);
    assert_eq!(Code::from_u32(4), Code::DeadlineExceeded);
    assert_eq!(Code::from_u32(99), Code::Unknown);
}

#[test]
fn two_digit_status_and_malformed_status_parse() {
    let g = client();
    let mut headers = HeaderMap::new();
    headers.insert(b"grpc-status".to_vec(), b"16".to_vec());
    let st = g.process_unary_response(&headers, &[], None).unwrap_err();
    assert_eq!(st.code.value(), 16);

    // A status value that is not one or two digits reads as Unknown.
    let mut headers = HeaderMap::new();
    headers.insert(b"grpc-status".to_vec(), b"nope".to_vec());
    let st = g.process_unary_response(&headers, &[], None).unwrap_err();
    assert_eq!(st.code, Code::Unknown);
}
