use grpc_core::client::{GrpcRequest, Origin};
use grpc_core::duration::Duration;
use grpc_core::endpoint::{stack_plan, Endpoint, LayerKind};
use grpc_core::headers::HeaderMap;
use grpc_core::layer::{default_modifier, AddOrigin, LayerFnOnce, ModifierFn, UserAgent};
use grpc_core::reconnect::{ConnectionState, ReadinessAction, Reconnect};
use grpc_core::status::{transport_error_status, Code, TransportErrorKind};

fn plain_request() -> GrpcRequest {
    GrpcRequest {
        scheme: Vec::new(),
        authority: Vec::new(),
        path: b"/svc.Svc/Method".to_vec(),
        headers: HeaderMap::new(),
    }
}

#[test]
fn layer_once_detects_second_use() {
    let mut layer = LayerFnOnce::new(|inner: u32| inner + 1);
    let built = layer.layer(41u32);
    assert_eq!(built.unwrap(), 42);
    // The constructor was consumed: a second use is a detected error.
    let again = layer.layer(1u32);
    assert!(again.is_err());
}

#[test]
fn modifier_layer_builds_the_wrapped_service() {
    let mut layer = ModifierFn::new_layer_once(default_modifier);
    let built: ModifierFn<u8, _> = layer.layer(7u8).unwrap();
    assert_eq!(built.inner, 7);
    assert!(layer.layer(9u8).is_err());
}

#[test]
fn default_modifier_is_identity() {
    let req = plain_request();
    let out = default_modifier(req);
    assert_eq!(out.path, b"/svc.Svc/Method".to_vec());
    assert_eq!(out.headers.len(), 0);
}

#[test]
fn add_origin_rewrites_scheme_and_authority() {
    let origin = Origin::new(b"https".to_vec(), b"example.com".to_vec(), b"/".to_vec());
    let add = AddOrigin::new(&origin).unwrap();
    let out = add.apply(plain_request());
    assert_eq!(out.scheme, b"https".to_vec());
    assert_eq!(out.authority, b"example.com".to_vec());
    assert_eq!(out.path, b"/svc.Svc/Method".to_vec());
}

#[test]
fn user_agent_is_injected_but_never_overwritten() {
    let ua = UserAgent::new(b"grpc-core/1".to_vec());
    let out = ua.apply(plain_request());
    assert_eq!(out.headers.get(b"user-agent"), Some(&b"grpc-core/1".to_vec()));

    let mut req = plain_request();
    req.headers.insert(b"user-agent".to_vec(), b"caller/2".to_vec());
    let out = ua.apply(req);
    assert_eq!(out.headers.get(b"user-agent"), Some(&b"caller/2".to_vec()));

    // Applying it twice changes nothing.
    let twice = ua.apply(ua.apply(plain_request()));
    assert_eq!(twice.headers.get(b"user-agent"), Some(&b"grpc-core/1".to_vec()));
}

#[test]
fn reconnect_rebuilds_after_session_death() {
    // An eager wrapper starts out connecting and becomes ready.
    let mut r = Reconnect::new(false);
    assert_eq!(r.state, ConnectionState::Connecting);
    r.on_connect_outcome(true);
    assert_eq!(r.state, ConnectionState::Ready);
    assert_eq!(r.poll_ready(), ReadinessAction::UseSession);

    // The first call fails with a dead session: its error surfaces, the
    // wrapper goes idle, and nothing is retried.
    r.on_call_failure();
    assert_eq!(r.state, ConnectionState::Idle);

    // The second call reconnects through Idle -> Connecting -> Ready.
    assert_eq!(r.poll_ready(), ReadinessAction::StartConnect);
    assert_eq!(r.state, ConnectionState::Connecting);
    assert_eq!(r.poll_ready(), ReadinessAction::AwaitConnect);
    r.on_connect_outcome(true);
    assert_eq!(r.poll_ready(), ReadinessAction::UseSession);
}

#[test]
fn failed_connect_goes_back_to_idle() {
    let mut r = Reconnect::new(true);
    assert_eq!(r.state, ConnectionState::Idle);
    assert_eq!(r.poll_ready(), ReadinessAction::StartConnect);
    r.on_connect_outcome(false);
    assert_eq!(r.state, ConnectionState::Idle);
}

#[test]
fn transport_errors_map_by_kind() {
    // Deadline expiry surfaces as DeadlineExceeded, a connection failure
    // from the reconnect layer as Unavailable, anything else as Unknown.
    assert_eq!(
        transport_error_status(TransportErrorKind::DeadlineExpired).code,
        Code::DeadlineExceeded
    );
    assert_eq!(
        transport_error_status(TransportErrorKind::ConnectionFailure).code,
        Code::Unavailable
    );
    assert_eq!(transport_error_status(TransportErrorKind::Other).code, Code::Unknown);
}

#[test]
fn origin_without_scheme_or_authority_is_refused() {
    let no_scheme = Origin::new(Vec::new(), b"example.com".to_vec(), b"/".to_vec());
    assert!(AddOrigin::new(&no_scheme).is_err());
    let no_authority = Origin::new(b"https".to_vec(), Vec::new(), b"/".to_vec());
    assert!(AddOrigin::new(&no_authority).is_err());
}

#[test]
fn stack_plan_follows_the_documented_order() {
    let mut e = Endpoint::new(Origin::new(b"http".to_vec(), b"a".to_vec(), b"/".to_vec()));
    e.concurrency_limit = Some(8);
    e.rate_limit = Some((100, Duration::from_secs(1)));
    e.timeout = Some(Duration::from_secs(1));
    let plan = stack_plan(&e);
    assert_eq!(
        plan,
        vec![
            LayerKind::ConcurrencyLimit(8),
            LayerKind::RateLimit(100, Duration::from_secs(1)),
            LayerKind::OriginRewrite,
            LayerKind::UserAgentInject,
            LayerKind::CustomModifier,
            LayerKind::Deadline(Some(Duration::from_secs(1))),
            LayerKind::ReconnectWrapper,
            LayerKind::SendEndpoint,
        ]
    );

    let bare = Endpoint::new(Origin::new(b"http".to_vec(), b"a".to_vec(), b"/".to_vec()));
    let plan = stack_plan(&bare);
    assert_eq!(plan[0], LayerKind::OriginRewrite);
    assert_eq!(plan.len(), 6);
}

#[test]
fn header_map_insert_replaces_and_remove_drops() {
    let mut h = HeaderMap::new();
    h.insert(b"k".to_vec(), b"one".to_vec());
    h.insert(b"k".to_vec(), b"two".to_vec());
    assert_eq!(h.get(b"k"), Some(&b"two".to_vec()));
    assert_eq!(h.len(), 1);
    h.remove(b"k");
    assert_eq!(h.get(b"k"), None);
}
