//! One logical target and its session tuning, and the order the
//! middleware stack is assembled in around the reconnecting send endpoint.

use vstd::prelude::*;

use crate::client::Origin;
use crate::duration::Duration;

verus! {

/// The immutable bundle of target and session tuning.
#[derive(Debug)]
pub struct Endpoint {
    /// The target the connector dials.
    pub origin: Origin,
    /// An override for the request's `:scheme` and `:authority`, if any.
    pub override_origin: Option<Origin>,
    /// The `user-agent` value injected when the caller set none.
    pub user_agent: Option<Vec<u8>>,
    /// The server-side deadline ceiling.
    pub timeout: Option<Duration>,
    /// At most this many calls in flight.
    pub concurrency_limit: Option<usize>,
    /// At most this many calls per period.
    pub rate_limit: Option<(u64, Duration)>,
    pub init_stream_window_size: Option<u32>,
    pub init_connection_window_size: Option<u32>,
    pub http2_keep_alive_interval: Option<Duration>,
    pub http2_keep_alive_timeout: Option<Duration>,
    pub http2_keep_alive_while_idle: Option<bool>,
    pub http2_adaptive_window: Option<bool>,
    pub http2_max_header_list_size: Option<u32>,
}

impl Endpoint {
    /// A bare endpoint for `origin`: no tuning, everything at its default.
    pub fn new(origin: Origin) -> (r: Self)
        ensures
            r.origin@ == origin@,
            r.override_origin is None,
            r.user_agent is None,
            r.timeout is None,
            r.concurrency_limit is None,
            r.rate_limit is None,
            r.init_stream_window_size is None,
            r.init_connection_window_size is None,
            r.http2_keep_alive_interval is None,
            r.http2_keep_alive_timeout is None,
            r.http2_keep_alive_while_idle is None,
            r.http2_adaptive_window is None,
            r.http2_max_header_list_size is None,
    {
        Endpoint {
            origin,
            override_origin: None,
            user_agent: None,
            timeout: None,
            concurrency_limit: None,
            rate_limit: None,
            init_stream_window_size: None,
            init_connection_window_size: None,
            http2_keep_alive_interval: None,
            http2_keep_alive_timeout: None,
            http2_keep_alive_while_idle: None,
            http2_adaptive_window: None,
            http2_max_header_list_size: None,
        }
    }
}

/// One layer of the per-connection middleware stack, outermost first.
#[derive(Clone, Copy, Debug, PartialEq, Eq, Structural)]
pub enum LayerKind {
    /// Bound on simultaneous calls.
    ConcurrencyLimit(usize),
    /// Bound on call admission per period.
    RateLimit(u64, Duration),
    /// Rewrite `:scheme` and `:authority` to the configured origin.
    OriginRewrite,
    /// Inject `user-agent` where the caller set none.
    UserAgentInject,
    /// The caller-supplied request modifier.
    CustomModifier,
    /// The deadline race, with the server's ceiling.
    Deadline(Option<Duration>),
    /// Rebuild the session on failure.
    ReconnectWrapper,
    /// The HTTP/2 send endpoint itself.
    SendEndpoint,
}

/// The stack an endpoint asks for, outermost first: concurrency, rate,
/// origin rewrite, user agent, the custom modifier, the deadline, the
/// reconnect wrapper, and the send endpoint. The two limits appear only
/// when configured.
pub open spec fn spec_stack_plan(e: &Endpoint) -> Seq<LayerKind> {
    (match e.concurrency_limit {
        Some(l) => seq![LayerKind::ConcurrencyLimit(l)],
        None => Seq::empty(),
    }) + (match e.rate_limit {
        Some((l, d)) => seq![LayerKind::RateLimit(l, d)],
        None => Seq::empty(),
    }) + seq![
        LayerKind::OriginRewrite,
        LayerKind::UserAgentInject,
        LayerKind::CustomModifier,
        LayerKind::Deadline(e.timeout),
        LayerKind::ReconnectWrapper,
        LayerKind::SendEndpoint,
    ]
}

/// Lay out the middleware for this endpoint, outermost first.
pub fn stack_plan(e: &Endpoint) -> (r: Vec<LayerKind>)
    ensures
        r@ == spec_stack_plan(e),
{
    let mut out: Vec<LayerKind> = Vec::new();
    if let Some(l) = e.concurrency_limit {
        out.push(LayerKind::ConcurrencyLimit(l));
    }
    if let Some((l, d)) = e.rate_limit {
        out.push(LayerKind::RateLimit(l, d));
    }
    out.push(LayerKind::OriginRewrite);
    out.push(LayerKind::UserAgentInject);
    out.push(LayerKind::CustomModifier);
    out.push(LayerKind::Deadline(e.timeout));
    out.push(LayerKind::ReconnectWrapper);
    out.push(LayerKind::SendEndpoint);
    proof {
        assert(out@ =~= spec_stack_plan(e));
    }
    out
}

} // verus!
