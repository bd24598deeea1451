use grpc_core::duration::Duration;
use grpc_core::headers::HeaderMap;
use grpc_core::timeout::{
    effective_timeout, format_grpc_timeout, parse_timeout_value, try_parse_grpc_timeout,
    DeadlineWait, GrpcTimeout, TimeoutUnit,
};

fn setup_map_try_parse(val: Option<&str>) -> Result<Option<Duration>, String> {
    let mut hm = HeaderMap::new();
    if let Some(v) = val {
        hm.insert(b"grpc-timeout".to_vec(), v.as_bytes().to_vec());
    }
    try_parse_grpc_timeout(&hm).map_err(|e| String::from_utf8(e).unwrap())
}

#[test]
fn test_hours() {
    let parsed_duration = setup_map_try_parse(Some("3H")).unwrap().unwrap();
    assert_eq!(Duration::from_secs(3 * 60 * 60), parsed_duration);
}

#[test]
fn test_minutes() {
    let parsed_duration = setup_map_try_parse(Some("1M")).unwrap().unwrap();
    assert_eq!(Duration::from_secs(60), parsed_duration);
}

#[test]
fn test_seconds() {
    let parsed_duration = setup_map_try_parse(Some("42S")).unwrap().unwrap();
    assert_eq!(Duration::from_secs(42), parsed_duration);
}

#[test]
fn test_milliseconds() {
    let parsed_duration = setup_map_try_parse(Some("13m")).unwrap().unwrap();
    assert_eq!(Duration::from_millis(13), parsed_duration);
}

#[test]
fn test_microseconds() {
    let parsed_duration = setup_map_try_parse(Some("2u")).unwrap().unwrap();
    assert_eq!(Duration::from_micros(2), parsed_duration);
}

#[test]
fn test_nanoseconds() {
    let parsed_duration = setup_map_try_parse(Some("82n")).unwrap().unwrap();
    assert_eq!(Duration::from_nanos(82), parsed_duration);
}

#[test]
fn test_header_not_present() {
    let parsed_duration = setup_map_try_parse(None).unwrap();
    assert!(parsed_duration.is_none());
}

#[test]
#[should_panic(expected = "82f")]
fn test_invalid_unit() {
    // "f" is not a valid TimeoutUnit
    setup_map_try_parse(Some("82f")).unwrap().unwrap();
}

#[test]
#[should_panic(expected = "123456789H")]
fn test_too_many_digits() {
    // gRPC spec states TimeoutValue will be at most 8 digits
    setup_map_try_parse(Some("123456789H")).unwrap().unwrap();
}

#[test]
#[should_panic(expected = "oneH")]
fn test_invalid_digits() {
    // gRPC spec states TimeoutValue will be at most 8 digits
    setup_map_try_parse(Some("oneH")).unwrap().unwrap();
}

#[test]
fn fuzz() {
    // Any ASCII header value parses without panicking; malformed ones come
    // back unchanged as the error.
    let alphabet: &[u8] = b"ABCDEFGHIJKLMNOPQRSTUVabcdefghilpqrstuvwxyz----0123456789HMSmun";
    let mut state: u64 = 0x2545_f491_4f6c_dd1d;
    for _ in 0..500 {
        let mut value = Vec::new();
        state = state.wrapping_mul(6364136223846793005).wrapping_add(1442695040888963407);
        let len = (state % 12) as usize;
        for k in 0..len {
            state = state.wrapping_mul(6364136223846793005).wrapping_add(1442695040888963407);
            let _ = k;
            value.push(alphabet[(state % alphabet.len() as u64) as usize]);
        }
        let mut hm = HeaderMap::new();
        hm.insert(b"grpc-timeout".to_vec(), value.clone());
        match try_parse_grpc_timeout(&hm) {
            Ok(_) => {}
            Err(e) => assert_eq!(e, value),
        }
    }
}

#[test]
fn malformed_value_is_returned_unchanged() {
    let err = setup_map_try_parse(Some("12x")).unwrap_err();
    assert_eq!(err, "12x");
    let err = setup_map_try_parse(Some("")).unwrap_err();
    assert_eq!(err, "");
}

#[test]
fn format_then_parse_round_trips() {
    let cases = [
        (0u64, TimeoutUnit::Hours),
        (3, TimeoutUnit::Hours),
        (60, TimeoutUnit::Minutes),
        (42, TimeoutUnit::Seconds),
        (50, TimeoutUnit::Millis),
        (7, TimeoutUnit::Micros),
        (99_999_999, TimeoutUnit::Nanos),
    ];
    for (v, u) in cases {
        let formatted = format_grpc_timeout(v, u);
        let parsed = parse_timeout_value(&formatted).expect("formatted value parses");
        let expected = match u {
            TimeoutUnit::Hours => Duration::from_secs(v * 3600),
            TimeoutUnit::Minutes => Duration::from_secs(v * 60),
            TimeoutUnit::Seconds => Duration::from_secs(v),
            TimeoutUnit::Millis => Duration::from_millis(v),
            TimeoutUnit::Micros => Duration::from_micros(v),
            TimeoutUnit::Nanos => Duration::from_nanos(v),
        };
        assert_eq!(parsed, expected);
    }
    assert_eq!(format_grpc_timeout(50, TimeoutUnit::Millis), b"50m".to_vec());
}

#[test]
fn deadline_is_the_shorter_of_client_and_server() {
    let c = Duration::from_millis(50);
    let s = Duration::from_secs(1);
    assert_eq!(effective_timeout(Some(c), Some(s)), Some(c));
    assert_eq!(effective_timeout(Some(s), Some(c)), Some(c));
    assert_eq!(effective_timeout(Some(c), None), Some(c));
    assert_eq!(effective_timeout(None, Some(s)), Some(s));
    assert_eq!(effective_timeout(None, None), None);
}

#[test]
fn deadline_for_intersects_header_with_ceiling() {
    // Client sets grpc-timeout: 50m, the server's ceiling is one second:
    // the applied deadline is the client's fifty milliseconds.
    let middleware = GrpcTimeout::new((), Some(Duration::from_secs(1)));
    let mut headers = HeaderMap::new();
    headers.insert(b"grpc-timeout".to_vec(), b"50m".to_vec());
    assert_eq!(middleware.deadline_for(&headers), Some(Duration::from_millis(50)));

    // A malformed value counts as absent, not as an error.
    let mut bad = HeaderMap::new();
    bad.insert(b"grpc-timeout".to_vec(), b"oneH".to_vec());
    assert_eq!(middleware.deadline_for(&bad), Some(Duration::from_secs(1)));
}

#[test]
fn deadline_wait_resolves_closed_channel_to_no_deadline() {
    let w = DeadlineWait::Pending;
    assert_eq!(
        w.resolve(Some(Some(Duration::from_millis(5)))),
        DeadlineWait::Known(Some(Duration::from_millis(5)))
    );
    assert_eq!(DeadlineWait::Pending.resolve(None), DeadlineWait::Known(None));
    let known = DeadlineWait::Known(None);
    assert_eq!(known.resolve(Some(Some(Duration::from_secs(1)))), DeadlineWait::Known(None));
}
