//! The call dispatcher: per-client configuration, request preparation with
//! the mandatory gRPC headers, and response classification with the
//! trailer-only shortcut.

use vstd::prelude::*;

use crate::decoder::StreamingDecoder;
use crate::headers::{ascii_bytes, ascii_literal_bytes, clone_bytes, lookup, HeaderMap};
use crate::status::{spec_status_from_headers, status_from_headers, Code, Status};

verus! {

/// A message compression algorithm.
#[derive(Clone, Copy, Debug, PartialEq, Eq, Structural)]
pub enum CompressionEncoding {
    Gzip,
    Deflate,
    Zstd,
}

/// The `grpc-encoding` name of an algorithm.
pub open spec fn encoding_name(e: CompressionEncoding) -> Seq<u8> {
    match e {
        CompressionEncoding::Gzip => ascii_bytes("gzip"@),
        CompressionEncoding::Deflate => ascii_bytes("deflate"@),
        CompressionEncoding::Zstd => ascii_bytes("zstd"@),
    }
}

pub fn encoding_name_bytes(e: CompressionEncoding) -> (r: Vec<u8>)
    ensures
        r@ == encoding_name(e),
{
    proof {
        reveal_strlit("gzip");
        reveal_strlit("deflate");
        reveal_strlit("zstd");
    }
    match e {
        CompressionEncoding::Gzip => ascii_literal_bytes("gzip"),
        CompressionEncoding::Deflate => ascii_literal_bytes("deflate"),
        CompressionEncoding::Zstd => ascii_literal_bytes("zstd"),
    }
}

/// The set of compression encodings a client accepts.
#[derive(Clone, Copy, Debug, PartialEq, Eq, Structural)]
pub struct EnabledCompressionEncodings {
    pub gzip: bool,
    pub deflate: bool,
    pub zstd: bool,
}

/// The set with one more encoding enabled.
pub open spec fn spec_enable(
    s: EnabledCompressionEncodings,
    e: CompressionEncoding,
) -> EnabledCompressionEncodings {
    match e {
        CompressionEncoding::Gzip => EnabledCompressionEncodings { gzip: true, ..s },
        CompressionEncoding::Deflate => EnabledCompressionEncodings { deflate: true, ..s },
        CompressionEncoding::Zstd => EnabledCompressionEncodings { zstd: true, ..s },
    }
}

pub open spec fn spec_is_enabled(s: EnabledCompressionEncodings, e: CompressionEncoding) -> bool {
    match e {
        CompressionEncoding::Gzip => s.gzip,
        CompressionEncoding::Deflate => s.deflate,
        CompressionEncoding::Zstd => s.zstd,
    }
}

pub open spec fn any_enabled(s: EnabledCompressionEncodings) -> bool {
    s.gzip || s.deflate || s.zstd
}

/// The `grpc-accept-encoding` list: the enabled names, comma separated,
/// gzip first, then deflate, then zstd.
pub open spec fn spec_accept_csv(s: EnabledCompressionEncodings) -> Seq<u8> {
    let gz = ascii_bytes("gzip"@);
    let df = ascii_bytes("deflate"@);
    let zs = ascii_bytes("zstd"@);
    let c = seq![44u8];
    if s.gzip && s.deflate && s.zstd {
        gz + c + df + c + zs
    } else if s.gzip && s.deflate {
        gz + c + df
    } else if s.gzip && s.zstd {
        gz + c + zs
    } else if s.gzip {
        gz
    } else if s.deflate && s.zstd {
        df + c + zs
    } else if s.deflate {
        df
    } else if s.zstd {
        zs
    } else {
        Seq::empty()
    }
}

impl Default for EnabledCompressionEncodings {
    /// The empty set.
    fn default() -> (r: Self)
        ensures
            r == (EnabledCompressionEncodings { gzip: false, deflate: false, zstd: false }),
    {
        EnabledCompressionEncodings { gzip: false, deflate: false, zstd: false }
    }
}

impl EnabledCompressionEncodings {
    /// Accept one more encoding. Enabling an encoding that is already
    /// enabled changes nothing: the call is idempotent.
    pub fn enable(&mut self, e: CompressionEncoding)
        ensures
            *final(self) == spec_enable(*old(self), e),
    {
        match e {
            CompressionEncoding::Gzip => self.gzip = true,
            CompressionEncoding::Deflate => self.deflate = true,
            CompressionEncoding::Zstd => self.zstd = true,
        }
    }

    pub fn is_enabled(&self, e: CompressionEncoding) -> (r: bool)
        ensures
            r == spec_is_enabled(*self, e),
    {
        match e {
            CompressionEncoding::Gzip => self.gzip,
            CompressionEncoding::Deflate => self.deflate,
            CompressionEncoding::Zstd => self.zstd,
        }
    }

    /// The `grpc-accept-encoding` value: present exactly when any encoding
    /// is enabled.
    pub fn accept_header_value(&self) -> (r: Option<Vec<u8>>)
        ensures
            match r {
                Some(v) => any_enabled(*self) && v@ == spec_accept_csv(*self),
                None => !any_enabled(*self),
            },
    {
        if !self.gzip && !self.deflate && !self.zstd {
            return None;
        }
        proof {
            reveal_strlit("gzip");
            reveal_strlit("deflate");
            reveal_strlit("zstd");
        }
        let mut out: Vec<u8> = Vec::new();
        let mut first = true;
        if self.gzip {
            let ghost before = out@;
            let name = ascii_literal_bytes("gzip");
            out.extend_from_slice(name.as_slice());
            proof {
                assert(out@ =~= before + name@);
            }
            first = false;
        }
        if self.deflate {
            if !first {
                out.push(44);
            }
            let ghost before = out@;
            let name = ascii_literal_bytes("deflate");
            out.extend_from_slice(name.as_slice());
            proof {
                assert(out@ =~= before + name@);
            }
            first = false;
        }
        if self.zstd {
            if !first {
                out.push(44);
            }
            let ghost before = out@;
            let name = ascii_literal_bytes("zstd");
            out.extend_from_slice(name.as_slice());
            proof {
                assert(out@ =~= before + name@);
            }
        }
        proof {
            assert(out@ =~= spec_accept_csv(*self));
        }
        Some(out)
    }
}

/// Enabling the same encoding twice is a no-op after the first time.
pub proof fn lemma_accept_compressed_idempotent(
    s: EnabledCompressionEncodings,
    e: CompressionEncoding,
)
    ensures
        spec_enable(spec_enable(s, e), e) == spec_enable(s, e),
{
}

/// What a response's `grpc-encoding` header means against the client's
/// accept set: nothing or `identity` is plain; an accepted name selects the
/// algorithm; anything else cannot be decoded.
pub open spec fn spec_encoding_from_headers(
    h: Seq<(Seq<u8>, Seq<u8>)>,
    accept: EnabledCompressionEncodings,
) -> Result<Option<CompressionEncoding>, ()> {
    match lookup(h, grpc_encoding_name()) {
        None => Ok(None),
        Some(v) => {
            if v == ascii_bytes("identity"@) {
                Ok(None)
            } else if v == encoding_name(CompressionEncoding::Gzip) && accept.gzip {
                Ok(Some(CompressionEncoding::Gzip))
            } else if v == encoding_name(CompressionEncoding::Deflate) && accept.deflate {
                Ok(Some(CompressionEncoding::Deflate))
            } else if v == encoding_name(CompressionEncoding::Zstd) && accept.zstd {
                Ok(Some(CompressionEncoding::Zstd))
            } else {
                Err(())
            }
        },
    }
}

pub open spec fn grpc_encoding_name() -> Seq<u8> {
    ascii_bytes("grpc-encoding"@)
}

pub open spec fn grpc_accept_encoding_name() -> Seq<u8> {
    ascii_bytes("grpc-accept-encoding"@)
}

pub open spec fn te_name() -> Seq<u8> {
    ascii_bytes("te"@)
}

pub open spec fn trailers_value() -> Seq<u8> {
    ascii_bytes("trailers"@)
}

pub open spec fn content_type_name() -> Seq<u8> {
    ascii_bytes("content-type"@)
}

pub open spec fn grpc_content_type() -> Seq<u8> {
    ascii_bytes("application/grpc"@)
}

/// Read the response's encoding. An encoding the client cannot decode is
/// `Unimplemented`.
pub fn encoding_from_headers(h: &HeaderMap, accept: EnabledCompressionEncodings) -> (r: Result<
    Option<CompressionEncoding>,
    Status,
>)
    ensures
        match spec_encoding_from_headers(h@, accept) {
            Ok(enc) => r == Ok::<Option<CompressionEncoding>, Status>(enc),
            Err(()) => r matches Err(st) && st.code == Code::Unimplemented && st.message@
                == Seq::<u8>::empty() && st.metadata@ == Seq::<(Seq<u8>, Seq<u8>)>::empty(),
        },
{
    proof {
        reveal_strlit("grpc-encoding");
        reveal_strlit("identity");
        reveal_strlit("gzip");
        reveal_strlit("deflate");
        reveal_strlit("zstd");
    }
    let name = ascii_literal_bytes("grpc-encoding");
    match h.get(name.as_slice()) {
        None => Ok(None),
        Some(v) => {
            let identity = ascii_literal_bytes("identity");
            let gz = ascii_literal_bytes("gzip");
            let df = ascii_literal_bytes("deflate");
            let zs = ascii_literal_bytes("zstd");
            if crate::headers::bytes_eq(v.as_slice(), identity.as_slice()) {
                Ok(None)
            } else if crate::headers::bytes_eq(v.as_slice(), gz.as_slice()) && accept.gzip {
                Ok(Some(CompressionEncoding::Gzip))
            } else if crate::headers::bytes_eq(v.as_slice(), df.as_slice()) && accept.deflate {
                Ok(Some(CompressionEncoding::Deflate))
            } else if crate::headers::bytes_eq(v.as_slice(), zs.as_slice()) && accept.zstd {
                Ok(Some(CompressionEncoding::Zstd))
            } else {
                Err(Status::new(Code::Unimplemented, Vec::new()))
            }
        },
    }
}

/// One logical target: scheme, authority, and base path, as plain bytes.
#[derive(Debug)]
pub struct Origin {
    pub scheme: Vec<u8>,
    pub authority: Vec<u8>,
    pub path: Vec<u8>,
}

/// The plain-value model of an origin.
pub struct OriginView {
    pub scheme: Seq<u8>,
    pub authority: Seq<u8>,
    pub path: Seq<u8>,
}

impl View for Origin {
    type V = OriginView;

    open spec fn view(&self) -> OriginView {
        OriginView { scheme: self.scheme@, authority: self.authority@, path: self.path@ }
    }
}

impl Clone for Origin {
    fn clone(&self) -> (r: Self)
        ensures
            r@ == self@,
    {
        Origin {
            scheme: clone_bytes(&self.scheme),
            authority: clone_bytes(&self.authority),
            path: clone_bytes(&self.path),
        }
    }
}

impl Origin {
    pub fn new(scheme: Vec<u8>, authority: Vec<u8>, path: Vec<u8>) -> (r: Self)
        ensures
            r@ == (OriginView { scheme: scheme@, authority: authority@, path: path@ }),
    {
        Origin { scheme, authority, path }
    }

    /// The default target: no scheme, no authority, the bare root path.
    pub fn root() -> (r: Self)
        ensures
            r@.scheme == Seq::<u8>::empty(),
            r@.authority == Seq::<u8>::empty(),
            r@.path == seq![47u8],
    {
        let mut path: Vec<u8> = Vec::new();
        path.push(47);
        proof {
            assert(path@ =~= seq![47u8]);
        }
        Origin { scheme: Vec::new(), authority: Vec::new(), path }
    }
}

/// The outgoing path: the origin's base path — a bare `/` or an empty path
/// adds nothing — followed by the method path. The result always begins
/// with the method path's leading slash or the base path's.
pub open spec fn spec_compose_path(origin_path: Seq<u8>, method_path: Seq<u8>) -> Seq<u8> {
    if origin_path.len() <= 1 {
        method_path
    } else {
        origin_path + method_path
    }
}

/// Join the origin's base path with a method path.
pub fn compose_path(origin_path: &[u8], method_path: &[u8]) -> (r: Vec<u8>)
    ensures
        r@ == spec_compose_path(origin_path@, method_path@),
{
    if origin_path.len() <= 1 {
        vstd::slice::slice_to_vec(method_path)
    } else {
        let mut out = vstd::slice::slice_to_vec(origin_path);
        let ghost before = out@;
        out.extend_from_slice(method_path);
        proof {
            assert(out@ =~= before + method_path@);
        }
        out
    }
}

/// Per-client tunables. An immutable snapshot: every setter returns a new
/// value, so callers holding an older snapshot are unaffected.
#[derive(Debug)]
pub struct GrpcConfig {
    pub origin: Origin,
    pub accept_compression_encodings: EnabledCompressionEncodings,
    pub send_compression_encodings: Option<CompressionEncoding>,
    pub max_decoding_message_size: Option<usize>,
    pub max_encoding_message_size: Option<usize>,
}

/// The plain-value model of a configuration snapshot.
pub struct ConfigView {
    pub origin: OriginView,
    pub accept: EnabledCompressionEncodings,
    pub send: Option<CompressionEncoding>,
    pub max_dec: Option<usize>,
    pub max_enc: Option<usize>,
}

impl View for GrpcConfig {
    type V = ConfigView;

    open spec fn view(&self) -> ConfigView {
        ConfigView {
            origin: self.origin@,
            accept: self.accept_compression_encodings,
            send: self.send_compression_encodings,
            max_dec: self.max_decoding_message_size,
            max_enc: self.max_encoding_message_size,
        }
    }
}

impl Clone for GrpcConfig {
    fn clone(&self) -> (r: Self)
        ensures
            r@ == self@,
    {
        GrpcConfig {
            origin: self.origin.clone(),
            accept_compression_encodings: self.accept_compression_encodings,
            send_compression_encodings: self.send_compression_encodings,
            max_decoding_message_size: self.max_decoding_message_size,
            max_encoding_message_size: self.max_encoding_message_size,
        }
    }
}

/// The default configuration: root origin, nothing accepted, nothing sent
/// compressed, no size ceilings.
pub open spec fn spec_default_config() -> ConfigView {
    ConfigView {
        origin: OriginView {
            scheme: Seq::<u8>::empty(),
            authority: Seq::<u8>::empty(),
            path: seq![47u8],
        },
        accept: EnabledCompressionEncodings { gzip: false, deflate: false, zstd: false },
        send: None,
        max_dec: None,
        max_enc: None,
    }
}

impl Default for GrpcConfig {
    fn default() -> (r: Self)
        ensures
            r@ == spec_default_config(),
    {
        GrpcConfig {
            origin: Origin::root(),
            accept_compression_encodings: EnabledCompressionEncodings {
                gzip: false,
                deflate: false,
                zstd: false,
            },
            send_compression_encodings: None,
            max_decoding_message_size: None,
            max_encoding_message_size: None,
        }
    }
}

/// A prepared outgoing call: the target parts and the final header set.
/// The method is always `POST` and the protocol HTTP/2; neither varies.
#[derive(Debug)]
pub struct GrpcRequest {
    pub scheme: Vec<u8>,
    pub authority: Vec<u8>,
    pub path: Vec<u8>,
    pub headers: HeaderMap,
}

/// How a response with these headers is read further.
pub enum ResponseKind {
    /// The headers already carried a final `Okay` status: the stream is
    /// empty and the body is never touched.
    TrailerOnly,
    /// Frames follow: read them through this decoder, then the trailers.
    Stream(StreamingDecoder),
}

/// A gRPC client dispatcher: an inner connection handle and one immutable
/// configuration snapshot. Every configuration change builds a new
/// snapshot, so clones holding the old one keep their behavior.
#[derive(Debug)]
pub struct Grpc<T> {
    pub inner: T,
    pub config: GrpcConfig,
}

impl<T: Clone> Clone for Grpc<T> {
    fn clone(&self) -> (r: Self)
        ensures
            r.config@ == self.config@,
            vstd::pervasive::cloned::<T>(self.inner, r.inner),
    {
        Grpc { inner: self.inner.clone(), config: self.config.clone() }
    }
}

impl<T> Grpc<T> {
    /// A client over `inner` with the default configuration.
    pub fn new(inner: T) -> (r: Self)
        ensures
            r.inner == inner,
            r.config@ == spec_default_config(),
    {
        Grpc { inner, config: GrpcConfig::default() }
    }

    /// A builder for a configured client.
    pub fn builder() -> (r: GrpcBuilder)
        ensures
            r.config@ == spec_default_config(),
    {
        GrpcBuilder { config: GrpcConfig::default() }
    }

    /// A client over `inner` aimed at `origin`.
    pub fn with_origin(inner: T, origin: Origin) -> (r: Self)
        ensures
            r.inner == inner,
            r.config@ == (ConfigView { origin: origin@, ..spec_default_config() }),
    {
        let mut config = GrpcConfig::default();
        config.origin = origin;
        Grpc { inner, config }
    }

    /// Compress requests with `encoding`. Returns a client holding a new
    /// configuration snapshot; no other client changes.
    pub fn send_compressed(self, encoding: CompressionEncoding) -> (r: Self)
        ensures
            r.inner == self.inner,
            r.config@ == (ConfigView { send: Some(encoding), ..self.config@ }),
    {
        let mut config = self.config;
        config.send_compression_encodings = Some(encoding);
        Grpc { inner: self.inner, config }
    }

    /// Accept responses compressed with `encoding`. Enabling the same
    /// encoding again is a no-op. Returns a client holding a new
    /// configuration snapshot; no other client changes.
    pub fn accept_compressed(self, encoding: CompressionEncoding) -> (r: Self)
        ensures
            r.inner == self.inner,
            r.config@ == (ConfigView {
                accept: spec_enable(self.config@.accept, encoding),
                ..self.config@
            }),
    {
        let mut config = self.config;
        config.accept_compression_encodings.enable(encoding);
        Grpc { inner: self.inner, config }
    }

    /// Cap the size of decoded messages.
    pub fn max_decoding_message_size(self, limit: usize) -> (r: Self)
        ensures
            r.inner == self.inner,
            r.config@ == (ConfigView { max_dec: Some(limit), ..self.config@ }),
    {
        let mut config = self.config;
        config.max_decoding_message_size = Some(limit);
        Grpc { inner: self.inner, config }
    }

    /// Cap the size of encoded messages.
    pub fn max_encoding_message_size(self, limit: usize) -> (r: Self)
        ensures
            r.inner == self.inner,
            r.config@ == (ConfigView { max_enc: Some(limit), ..self.config@ }),
    {
        let mut config = self.config;
        config.max_encoding_message_size = Some(limit);
        Grpc { inner: self.inner, config }
    }

    /// Build the outgoing request for one call: compose the target path and
    /// set the gRPC protocol headers. User headers pass through untouched,
    /// except the reserved protocol headers, which only this function sets.
    pub fn prepare_request(&self, headers: HeaderMap, path: &[u8]) -> (r: GrpcRequest)
        ensures
            r.scheme@ == self.config@.origin.scheme,
            r.authority@ == self.config@.origin.authority,
            r.path@ == spec_compose_path(self.config@.origin.path, path@),
            lookup(r.headers@, te_name()) == Some(trailers_value()),
            lookup(r.headers@, content_type_name()) == Some(grpc_content_type()),
            match self.config@.send {
                Some(e) => lookup(r.headers@, grpc_encoding_name()) == Some(encoding_name(e)),
                None => lookup(r.headers@, grpc_encoding_name()) is None,
            },
            (if any_enabled(self.config@.accept) {
                lookup(r.headers@, grpc_accept_encoding_name()) == Some(
                    spec_accept_csv(self.config@.accept),
                )
            } else {
                lookup(r.headers@, grpc_accept_encoding_name()) is None
            }),
            forall|m: Seq<u8>|
                m != te_name() && m != content_type_name() && m != grpc_encoding_name() && m
                    != grpc_accept_encoding_name() ==> lookup(r.headers@, m) == lookup(
                    headers@,
                    m,
                ),
    {
        proof {
            reveal_strlit("te");
            reveal_strlit("trailers");
            reveal_strlit("content-type");
            reveal_strlit("application/grpc");
            reveal_strlit("grpc-encoding");
            reveal_strlit("grpc-accept-encoding");
            assert(te_name().len() == 2);
            assert(content_type_name().len() == 12);
            assert(grpc_encoding_name().len() == 13);
            assert(grpc_accept_encoding_name().len() == 20);
            assert(te_name() != content_type_name());
            assert(te_name() != grpc_encoding_name());
            assert(te_name() != grpc_accept_encoding_name());
            assert(content_type_name() != grpc_encoding_name());
            assert(content_type_name() != grpc_accept_encoding_name());
            assert(grpc_encoding_name() != grpc_accept_encoding_name());
        }
        let mut h = headers;
        h.insert(ascii_literal_bytes("te"), ascii_literal_bytes("trailers"));
        h.insert(ascii_literal_bytes("content-type"), ascii_literal_bytes("application/grpc"));
        match self.config.send_compression_encodings {
            Some(e) => {
                h.insert(ascii_literal_bytes("grpc-encoding"), encoding_name_bytes(e));
            },
            None => {
                let name = ascii_literal_bytes("grpc-encoding");
                h.remove(name.as_slice());
            },
        }
        match self.config.accept_compression_encodings.accept_header_value() {
            Some(v) => {
                h.insert(ascii_literal_bytes("grpc-accept-encoding"), v);
            },
            None => {
                let name = ascii_literal_bytes("grpc-accept-encoding");
                h.remove(name.as_slice());
            },
        }
        let path_vec = compose_path(self.config.origin.path.as_slice(), path);
        GrpcRequest {
            scheme: clone_bytes(&self.config.origin.scheme),
            authority: clone_bytes(&self.config.origin.authority),
            path: path_vec,
            headers: h,
        }
    }

    /// Classify a response by its headers: an encoding the client cannot
    /// decode is `Unimplemented`; a final status in the headers either ends
    /// the call at once — `Okay` as an empty stream whose body is never
    /// read, anything else as that very status — and otherwise the body is
    /// read through a fresh decoder expecting trailers.
    pub fn create_response(&self, response_headers: &HeaderMap) -> (r: Result<
        ResponseKind,
        Status,
    >)
        ensures
            match spec_encoding_from_headers(response_headers@, self.config@.accept) {
                Err(()) => r matches Err(st) && st.code == Code::Unimplemented && st.message@
                    == Seq::<u8>::empty() && st.metadata@ == Seq::<(Seq<u8>, Seq<u8>)>::empty(),
                Ok(enc) => match spec_status_from_headers(response_headers@) {
                    Some((c, m)) => if c == Code::Okay {
                        r matches Ok(k) && k is TrailerOnly
                    } else {
                        r matches Err(st) && st.code == c && st.message@ == m && st.metadata@
                            == response_headers@
                    },
                    None => r matches Ok(k) && k matches ResponseKind::Stream(d)
                        && d.buf@ == Seq::<u8>::empty() && d.compression_ok == (enc is Some)
                        && d.max_decoding_size == self.config@.max_dec && d.expect_trailers,
                },
            },
    {
        let encoding = match encoding_from_headers(
            response_headers,
            self.config.accept_compression_encodings,
        ) {
            Ok(enc) => enc,
            Err(st) => {
                return Err(st);
            },
        };
        match status_from_headers(response_headers) {
            Some(st) => {
                if matches!(st.code, Code::Okay) {
                    Ok(ResponseKind::TrailerOnly)
                } else {
                    Err(st)
                }
            },
            None => Ok(
                ResponseKind::Stream(
                    StreamingDecoder::new_response(
                        encoding.is_some(),
                        self.config.max_decoding_message_size,
                    ),
                ),
            ),
        }
    }
}

/// Promote a stream's first message into the unary reply: a stream that
/// carried none fails with `Internal` and the dispatcher's message.
pub fn take_single_response(first: Option<Vec<u8>>) -> (r: Result<Vec<u8>, Status>)
    ensures
        match first {
            Some(m) => r == Ok::<Vec<u8>, Status>(m),
            None => r matches Err(st) && st.code == Code::Internal && st.message@
                == crate::status::missing_response_text(),
        },
{
    match first {
        Some(m) => Ok(m),
        None => Err(Status::missing_response_message()),
    }
}

/// What a whole unary exchange comes to: the reply with its metadata, or
/// the failing status as code, message and metadata.
pub enum UnaryOutcome {
    /// The single decoded reply payload, and the response metadata: the
    /// response headers with the trailers merged in after them.
    Reply(Seq<u8>, Seq<(Seq<u8>, Seq<u8>)>),
    /// Failure, with the status code, message and metadata.
    Fail(Code, Seq<u8>, Seq<(Seq<u8>, Seq<u8>)>),
}

/// The unary outcome of a response: headers first — unknown encoding, then
/// the trailer-only shortcut — then the first frame of the body, then the
/// status in the trailers. A body is consulted only when the headers carry
/// no final status.
///
/// Metadata of a failure follows where the failure arose: a status met
/// while reading the stream before the message carries the response
/// headers merged in after its own entries; the missing-message status is
/// fresh; a trailer status read after the message keeps its own metadata.
pub open spec fn spec_unary_outcome(
    h: Seq<(Seq<u8>, Seq<u8>)>,
    accept: EnabledCompressionEncodings,
    max_dec: Option<usize>,
    body: Seq<u8>,
    trailers: Option<Seq<(Seq<u8>, Seq<u8>)>>,
) -> UnaryOutcome {
    match spec_encoding_from_headers(h, accept) {
        Err(()) => UnaryOutcome::Fail(Code::Unimplemented, Seq::empty(), Seq::empty()),
        Ok(enc) => match spec_status_from_headers(h) {
            Some((c, m)) => if c == Code::Okay {
                UnaryOutcome::Fail(
                    Code::Internal,
                    crate::status::missing_response_text(),
                    Seq::empty(),
                )
            } else {
                UnaryOutcome::Fail(c, m, h)
            },
            None => match crate::decoder::spec_decode_step(body, enc is Some, max_dec) {
                crate::decoder::DecodeStep::BadFlag => UnaryOutcome::Fail(
                    Code::Internal,
                    Seq::empty(),
                    h,
                ),
                crate::decoder::DecodeStep::TooLarge => UnaryOutcome::Fail(
                    Code::ResourceExhausted,
                    Seq::empty(),
                    h,
                ),
                crate::decoder::DecodeStep::NeedMore => match trailers {
                    None => UnaryOutcome::Fail(Code::Internal, Seq::empty(), h),
                    Some(t) => if body.len() != 0 {
                        UnaryOutcome::Fail(Code::Internal, Seq::empty(), h)
                    } else {
                        match spec_status_from_headers(t) {
                            None => UnaryOutcome::Fail(Code::Internal, Seq::empty(), h),
                            Some((c, m)) => if c == Code::Okay {
                                UnaryOutcome::Fail(
                                    Code::Internal,
                                    crate::status::missing_response_text(),
                                    Seq::empty(),
                                )
                            } else {
                                UnaryOutcome::Fail(c, m, t + h)
                            },
                        }
                    },
                },
                crate::decoder::DecodeStep::Message(p, rest) => match trailers {
                    None => UnaryOutcome::Fail(Code::Internal, Seq::empty(), Seq::empty()),
                    Some(t) => match spec_status_from_headers(t) {
                        None => UnaryOutcome::Fail(Code::Internal, Seq::empty(), Seq::empty()),
                        Some((c, m)) => if c == Code::Okay {
                            UnaryOutcome::Reply(p, h + t)
                        } else {
                            UnaryOutcome::Fail(c, m, t)
                        },
                    },
                },
            },
        },
    }
}

/// Trailer-only shortcut: when the response headers already carry a final
/// status, the outcome is the same whatever the body holds — the body is
/// never consulted.
pub proof fn lemma_trailer_only_skips_body(
    h: Seq<(Seq<u8>, Seq<u8>)>,
    accept: EnabledCompressionEncodings,
    max_dec: Option<usize>,
    body1: Seq<u8>,
    body2: Seq<u8>,
    trailers: Option<Seq<(Seq<u8>, Seq<u8>)>>,
)
    requires
        spec_status_from_headers(h) is Some,
    ensures
        spec_unary_outcome(h, accept, max_dec, body1, trailers) == spec_unary_outcome(
            h,
            accept,
            max_dec,
            body2,
            trailers,
        ),
{
}

/// A unary reply: the single decoded message, and the response metadata —
/// the response headers with the trailers merged in after them.
#[derive(Debug)]
pub struct UnaryReply {
    pub message: Vec<u8>,
    pub metadata: HeaderMap,
}

impl<T> Grpc<T> {
    /// Run one unary response through the whole pipeline: classify the
    /// headers, read the first frame out of the body, take the single
    /// reply with its merged metadata, and settle the final status from
    /// the trailers. Frames after the first are ignored. A status met
    /// while reading the stream before the message comes back with the
    /// response headers merged into its metadata.
    pub fn process_unary_call(
        &self,
        response_headers: &HeaderMap,
        body: &[u8],
        trailers: Option<&HeaderMap>,
    ) -> (r: Result<UnaryReply, Status>)
        ensures
            match spec_unary_outcome(
                response_headers@,
                self.config@.accept,
                self.config@.max_dec,
                body@,
                match trailers {
                    None => None,
                    Some(t) => Some(t@),
                },
            ) {
                UnaryOutcome::Reply(p, meta) => r matches Ok(rep) && rep.message@ == p
                    && rep.metadata@ == meta,
                UnaryOutcome::Fail(c, m, meta) => r matches Err(st) && st.code == c
                    && st.message@ == m && st.metadata@ == meta,
            },
    {
        let kind = match self.create_response(response_headers) {
            Ok(k) => k,
            Err(st) => {
                return Err(st);
            },
        };
        let mut dec = match kind {
            ResponseKind::TrailerOnly => {
                return Err(Status::missing_response_message());
            },
            ResponseKind::Stream(d) => d,
        };
        dec.push_bytes(body);
        proof {
            assert(dec.buf@ =~= body@);
        }
        let first = match dec.next_message() {
            Ok(m) => m,
            Err(st) => {
                proof {
                    assert(st.metadata@ + response_headers@ =~= response_headers@);
                }
                return Err(st.merge_metadata(response_headers));
            },
        };
        match first {
            None => {
                match dec.finish(trailers) {
                    Err(st) => {
                        proof {
                            if st.metadata@.len() == 0 {
                                assert(st.metadata@ + response_headers@ =~= response_headers@);
                            }
                        }
                        Err(st.merge_metadata(response_headers))
                    },
                    Ok(()) => Err(Status::missing_response_message()),
                }
            },
            Some(msg) => {
                match trailers {
                    None => Err(Status::new(Code::Internal, Vec::new())),
                    Some(t) => {
                        match status_from_headers(t) {
                            None => Err(Status::new(Code::Internal, Vec::new())),
                            Some(st) => {
                                if matches!(st.code, Code::Okay) {
                                    let mut metadata = response_headers.clone();
                                    metadata.merge(t);
                                    Ok(UnaryReply { message: msg, metadata })
                                } else {
                                    Err(st)
                                }
                            },
                        }
                    },
                }
            },
        }
    }

    /// The unary pipeline reduced to its message: same outcome as
    /// `process_unary_call`, with the metadata dropped.
    pub fn process_unary_response(
        &self,
        response_headers: &HeaderMap,
        body: &[u8],
        trailers: Option<&HeaderMap>,
    ) -> (r: Result<Vec<u8>, Status>)
        ensures
            match spec_unary_outcome(
                response_headers@,
                self.config@.accept,
                self.config@.max_dec,
                body@,
                match trailers {
                    None => None,
                    Some(t) => Some(t@),
                },
            ) {
                UnaryOutcome::Reply(p, meta) => r matches Ok(v) && v@ == p,
                UnaryOutcome::Fail(c, m, meta) => r matches Err(st) && st.code == c
                    && st.message@ == m && st.metadata@ == meta,
            },
    {
        match self.process_unary_call(response_headers, body, trailers) {
            Ok(rep) => Ok(rep.message),
            Err(st) => Err(st),
        }
    }
}

/// A builder for a configured client.
#[derive(Debug)]
pub struct GrpcBuilder {
    pub config: GrpcConfig,
}

impl Default for GrpcBuilder {
    fn default() -> (r: Self)
        ensures
            r.config@ == spec_default_config(),
    {
        GrpcBuilder { config: GrpcConfig::default() }
    }
}

impl GrpcBuilder {
    /// Aim the client at `origin`.
    pub fn origin(self, origin: Origin) -> (r: Self)
        ensures
            r.config@ == (ConfigView { origin: origin@, ..self.config@ }),
    {
        let mut config = self.config;
        config.origin = origin;
        GrpcBuilder { config }
    }

    /// Compress requests with `encoding`.
    pub fn send_compressed(self, encoding: CompressionEncoding) -> (r: Self)
        ensures
            r.config@ == (ConfigView { send: Some(encoding), ..self.config@ }),
    {
        let mut config = self.config;
        config.send_compression_encodings = Some(encoding);
        GrpcBuilder { config }
    }

    /// Accept responses compressed with `encoding`; idempotent.
    pub fn accept_compressed(self, encoding: CompressionEncoding) -> (r: Self)
        ensures
            r.config@ == (ConfigView {
                accept: spec_enable(self.config@.accept, encoding),
                ..self.config@
            }),
    {
        let mut config = self.config;
        config.accept_compression_encodings.enable(encoding);
        GrpcBuilder { config }
    }

    /// Cap the size of decoded messages.
    pub fn max_decoding_message_size(self, limit: usize) -> (r: Self)
        ensures
            r.config@ == (ConfigView { max_dec: Some(limit), ..self.config@ }),
    {
        let mut config = self.config;
        config.max_decoding_message_size = Some(limit);
        GrpcBuilder { config }
    }

    /// Cap the size of encoded messages.
    pub fn max_encoding_message_size(self, limit: usize) -> (r: Self)
        ensures
            r.config@ == (ConfigView { max_enc: Some(limit), ..self.config@ }),
    {
        let mut config = self.config;
        config.max_encoding_message_size = Some(limit);
        GrpcBuilder { config }
    }

    /// The configured client over `inner`.
    pub fn build<T>(self, inner: T) -> (r: Grpc<T>)
        ensures
            r.inner == inner,
            r.config@ == self.config@,
    {
        Grpc { inner, config: self.config }
    }
}

} // verus!
