//! The gRPC status domain: a code, a UTF-8 message, and metadata headers;
//! and how a status is read out of response headers or trailers.

use vstd::prelude::*;

use crate::headers::{ascii_bytes, ascii_literal_bytes, clone_bytes, lookup, HeaderMap};
use crate::timeout::{all_digits, digits_val, is_digit};

verus! {

/// A gRPC status code.
#[derive(Clone, Copy, Debug, PartialEq, Eq, Structural)]
pub enum Code {
    Okay,
    Cancelled,
    Unknown,
    InvalidArgument,
    DeadlineExceeded,
    NotFound,
    AlreadyExists,
    PermissionDenied,
    ResourceExhausted,
    FailedPrecondition,
    Aborted,
    OutOfRange,
    Unimplemented,
    Internal,
    Unavailable,
    DataLoss,
    Unauthenticated,
}

/// The wire number of a code.
pub open spec fn code_value(c: Code) -> int {
    match c {
        Code::Okay => 0,
        Code::Cancelled => 1,
        Code::Unknown => 2,
        Code::InvalidArgument => 3,
        Code::DeadlineExceeded => 4,
        Code::NotFound => 5,
        Code::AlreadyExists => 6,
        Code::PermissionDenied => 7,
        Code::ResourceExhausted => 8,
        Code::FailedPrecondition => 9,
        Code::Aborted => 10,
        Code::OutOfRange => 11,
        Code::Unimplemented => 12,
        Code::Internal => 13,
        Code::Unavailable => 14,
        Code::DataLoss => 15,
        Code::Unauthenticated => 16,
    }
}

/// The code a wire number denotes; numbers outside the table are `Unknown`.
pub open spec fn spec_code_from(v: int) -> Code {
    if v == 0 {
        Code::Okay
    } else if v == 1 {
        Code::Cancelled
    } else if v == 2 {
        Code::Unknown
    } else if v == 3 {
        Code::InvalidArgument
    } else if v == 4 {
        Code::DeadlineExceeded
    } else if v == 5 {
        Code::NotFound
    } else if v == 6 {
        Code::AlreadyExists
    } else if v == 7 {
        Code::PermissionDenied
    } else if v == 8 {
        Code::ResourceExhausted
    } else if v == 9 {
        Code::FailedPrecondition
    } else if v == 10 {
        Code::Aborted
    } else if v == 11 {
        Code::OutOfRange
    } else if v == 12 {
        Code::Unimplemented
    } else if v == 13 {
        Code::Internal
    } else if v == 14 {
        Code::Unavailable
    } else if v == 15 {
        Code::DataLoss
    } else if v == 16 {
        Code::Unauthenticated
    } else {
        Code::Unknown
    }
}

impl Code {
    pub fn value(&self) -> (r: u32)
        ensures
            r == code_value(*self),
    {
        match self {
            Code::Okay => 0,
            Code::Cancelled => 1,
            Code::Unknown => 2,
            Code::InvalidArgument => 3,
            Code::DeadlineExceeded => 4,
            Code::NotFound => 5,
            Code::AlreadyExists => 6,
            Code::PermissionDenied => 7,
            Code::ResourceExhausted => 8,
            Code::FailedPrecondition => 9,
            Code::Aborted => 10,
            Code::OutOfRange => 11,
            Code::Unimplemented => 12,
            Code::Internal => 13,
            Code::Unavailable => 14,
            Code::DataLoss => 15,
            Code::Unauthenticated => 16,
        }
    }

    pub fn from_u32(v: u32) -> (r: Code)
        ensures
            r == spec_code_from(v as int),
    {
        if v == 0 {
            Code::Okay
        } else if v == 1 {
            Code::Cancelled
        } else if v == 2 {
            Code::Unknown
        } else if v == 3 {
            Code::InvalidArgument
        } else if v == 4 {
            Code::DeadlineExceeded
        } else if v == 5 {
            Code::NotFound
        } else if v == 6 {
            Code::AlreadyExists
        } else if v == 7 {
            Code::PermissionDenied
        } else if v == 8 {
            Code::ResourceExhausted
        } else if v == 9 {
            Code::FailedPrecondition
        } else if v == 10 {
            Code::Aborted
        } else if v == 11 {
            Code::OutOfRange
        } else if v == 12 {
            Code::Unimplemented
        } else if v == 13 {
            Code::Internal
        } else if v == 14 {
            Code::Unavailable
        } else if v == 15 {
            Code::DataLoss
        } else if v == 16 {
            Code::Unauthenticated
        } else {
            Code::Unknown
        }
    }
}

/// The code a `grpc-status` header value denotes: one or two decimal
/// digits; anything else is `Unknown`.
pub open spec fn spec_code_from_bytes(s: Seq<u8>) -> Code {
    if 1 <= s.len() <= 2 && all_digits(s) {
        spec_code_from(digits_val(s) as int)
    } else {
        Code::Unknown
    }
}

/// Parse a `grpc-status` value.
pub fn code_from_bytes(s: &[u8]) -> (r: Code)
    ensures
        r == spec_code_from_bytes(s@),
{
    if s.len() == 1 {
        let b = s[0];
        if 48 <= b && b <= 57 {
            proof {
                assert(s@.drop_last() =~= Seq::<u8>::empty());
                assert(digits_val(Seq::<u8>::empty()) == 0);
                assert(s@.last() == s@[0]);
                assert(digits_val(s@) == digits_val(s@.drop_last()) * 10 + ((s@.last()
                    - 48) as nat));
                assert(digits_val(s@) == (b - 48) as nat);
            }
            Code::from_u32((b - 48) as u32)
        } else {
            Code::Unknown
        }
    } else if s.len() == 2 {
        let b0 = s[0];
        let b1 = s[1];
        if 48 <= b0 && b0 <= 57 && 48 <= b1 && b1 <= 57 {
            proof {
                assert(digits_val(Seq::<u8>::empty()) == 0);
                assert(s@.drop_last().drop_last() =~= Seq::<u8>::empty());
                assert(s@.drop_last().last() == s@[0]);
                assert(digits_val(s@.drop_last()) == digits_val(s@.drop_last().drop_last()) * 10 + (
                (s@.drop_last().last() - 48) as nat));
                assert(digits_val(s@.drop_last()) == (b0 - 48) as nat);
                assert(s@.last() == s@[1]);
                assert(digits_val(s@) == digits_val(s@.drop_last()) * 10 + ((s@.last()
                    - 48) as nat));
                assert(digits_val(s@) == (b0 - 48) as nat * 10 + (b1 - 48) as nat);
            }
            Code::from_u32((b0 - 48) as u32 * 10 + (b1 - 48) as u32)
        } else {
            Code::Unknown
        }
    } else {
        Code::Unknown
    }
}

/// A gRPC status: code, message, and the headers it arrived with.
#[derive(Clone, Debug)]
pub struct Status {
    pub code: Code,
    pub message: Vec<u8>,
    pub metadata: HeaderMap,
}

impl Status {
    pub fn new(code: Code, message: Vec<u8>) -> (r: Self)
        ensures
            r.code == code,
            r.message@ == message@,
            r.metadata@ == Seq::<(Seq<u8>, Seq<u8>)>::empty(),
    {
        Status { code, message, metadata: HeaderMap::new() }
    }

    /// The status with the given headers merged into its metadata, as the
    /// dispatcher does for failures met while reading a response stream:
    /// the status's own entries stay ahead, the headers' follow.
    pub fn merge_metadata(self, headers: &HeaderMap) -> (r: Self)
        ensures
            r.code == self.code,
            r.message@ == self.message@,
            r.metadata@ == self.metadata@ + headers@,
    {
        let mut st = self;
        st.metadata.merge(headers);
        st
    }

    /// The `Internal` status the dispatcher raises for a unary call whose
    /// response stream carried no message.
    pub fn missing_response_message() -> (r: Self)
        ensures
            r.code == Code::Internal,
            r.message@ == missing_response_text(),
            r.metadata@ == Seq::<(Seq<u8>, Seq<u8>)>::empty(),
    {
        proof {
            reveal_strlit("Missing response message.");
        }
        Status::new(Code::Internal, ascii_literal_bytes("Missing response message."))
    }
}

/// The dispatcher's message for a unary response stream without a message.
pub open spec fn missing_response_text() -> Seq<u8> {
    ascii_bytes("Missing response message."@)
}

/// How a transport-level failure is classified before it becomes a status.
#[derive(Clone, Copy, Debug, PartialEq, Eq, Structural)]
pub enum TransportErrorKind {
    /// The deadline race fired before the response.
    DeadlineExpired,
    /// The connector or the session failed, surfaced through the
    /// reconnect wrapper.
    ConnectionFailure,
    /// A transport error without a better classification.
    Other,
}

/// The status code each transport failure surfaces as.
pub open spec fn spec_transport_code(kind: TransportErrorKind) -> Code {
    match kind {
        TransportErrorKind::DeadlineExpired => Code::DeadlineExceeded,
        TransportErrorKind::ConnectionFailure => Code::Unavailable,
        TransportErrorKind::Other => Code::Unknown,
    }
}

/// The status a transport error surfaces as: deadline expiry is
/// `DeadlineExceeded`, a connection failure from the reconnect layer is
/// `Unavailable`, anything else `Unknown`.
pub fn transport_error_status(kind: TransportErrorKind) -> (r: Status)
    ensures
        r.code == spec_transport_code(kind),
        r.message@ == Seq::<u8>::empty(),
        r.metadata@ == Seq::<(Seq<u8>, Seq<u8>)>::empty(),
{
    match kind {
        TransportErrorKind::DeadlineExpired => Status::new(Code::DeadlineExceeded, Vec::new()),
        TransportErrorKind::ConnectionFailure => Status::new(Code::Unavailable, Vec::new()),
        TransportErrorKind::Other => Status::new(Code::Unknown, Vec::new()),
    }
}

pub open spec fn grpc_status_name() -> Seq<u8> {
    ascii_bytes("grpc-status"@)
}

pub open spec fn grpc_message_name() -> Seq<u8> {
    ascii_bytes("grpc-message"@)
}

pub open spec fn is_hex_digit(b: u8) -> bool {
    is_digit(b) || (65 <= b <= 70) || (97 <= b <= 102)
}

pub open spec fn hex_val(b: u8) -> nat {
    if is_digit(b) {
        (b - 48) as nat
    } else if 65 <= b <= 70 {
        (b - 55) as nat
    } else if 97 <= b <= 102 {
        (b - 87) as nat
    } else {
        0
    }
}

/// Percent-decoding as `grpc-message` uses it: a `%` followed by two hex
/// digits becomes one byte; everything else passes through unchanged.
pub open spec fn spec_percent_decode(s: Seq<u8>) -> Seq<u8>
    decreases s.len(),
{
    if s.len() == 0 {
        Seq::empty()
    } else if s[0] == 37 && s.len() >= 3 && is_hex_digit(s[1]) && is_hex_digit(s[2]) {
        seq![(hex_val(s[1]) * 16 + hex_val(s[2])) as u8] + spec_percent_decode(s.skip(3))
    } else {
        seq![s[0]] + spec_percent_decode(s.skip(1))
    }
}

/// Decode a percent-encoded message value.
pub fn percent_decode(s: &[u8]) -> (r: Vec<u8>)
    ensures
        r@ == spec_percent_decode(s@),
{
    let n = s.len();
    let mut out: Vec<u8> = Vec::new();
    let mut i: usize = 0;
    proof {
        assert(s@.skip(0) =~= s@);
        assert(out@ + spec_percent_decode(s@) =~= spec_percent_decode(s@));
    }
    while i < n
        invariant
            n == s@.len(),
            0 <= i <= n,
            spec_percent_decode(s@) == out@ + spec_percent_decode(s@.skip(i as int)),
        decreases n - i,
    {
        let ghost rest = s@.skip(i as int);
        proof {
            assert(rest[0] == s@[i as int]);
        }
        let b = s[i];
        let mut took_escape = false;
        if b == 37 && n - i > 2 {
            let h1 = s[i + 1];
            let h2 = s[i + 2];
            proof {
                assert(rest[1] == s@[i as int + 1]);
                assert(rest[2] == s@[i as int + 2]);
            }
            let d1 = hex_digit_value(h1);
            let d2 = hex_digit_value(h2);
            if d1.is_some() && d2.is_some() {
                took_escape = true;
                let v1 = d1.unwrap();
                let v2 = d2.unwrap();
                let ghost before = out@;
                out.push(v1 * 16 + v2);
                proof {
                    assert(rest.skip(3) =~= s@.skip(i as int + 3));
                    assert(spec_percent_decode(rest) == seq![(hex_val(rest[1]) * 16 + hex_val(
                        rest[2],
                    )) as u8] + spec_percent_decode(rest.skip(3)));
                    assert(out@ + spec_percent_decode(s@.skip(i as int + 3)) =~= before
                        + spec_percent_decode(rest));
                }
                i += 3;
            }
        }
        if !took_escape {
            let ghost before = out@;
            out.push(b);
            proof {
                assert(rest.skip(1) =~= s@.skip(i as int + 1));
                assert(spec_percent_decode(rest) == seq![rest[0]] + spec_percent_decode(
                    rest.skip(1),
                ));
                assert(out@ + spec_percent_decode(s@.skip(i as int + 1)) =~= before
                    + spec_percent_decode(rest));
            }
            i += 1;
        }
    }
    proof {
        assert(s@.skip(n as int) =~= Seq::<u8>::empty());
        assert(out@ =~= spec_percent_decode(s@));
    }
    out
}

/// The value of one hex digit byte, if it is one.
pub fn hex_digit_value(b: u8) -> (r: Option<u8>)
    ensures
        match r {
            Some(v) => is_hex_digit(b) && v == hex_val(b),
            None => !is_hex_digit(b),
        },
{
    if 48 <= b && b <= 57 {
        Some(b - 48)
    } else if 65 <= b && b <= 70 {
        Some(b - 55)
    } else if 97 <= b && b <= 102 {
        Some(b - 87)
    } else {
        None
    }
}

/// What a header map says as a final status: present exactly when
/// `grpc-status` is, with the percent-decoded `grpc-message` or an empty
/// message.
pub open spec fn spec_status_from_headers(h: Seq<(Seq<u8>, Seq<u8>)>) -> Option<(Code, Seq<u8>)> {
    match lookup(h, grpc_status_name()) {
        None => None,
        Some(sv) => Some(
            (
                spec_code_from_bytes(sv),
                match lookup(h, grpc_message_name()) {
                    None => Seq::<u8>::empty(),
                    Some(m) => spec_percent_decode(m),
                },
            ),
        ),
    }
}

/// Read a trailer-only or trailer status out of a header map.
pub fn status_from_headers(h: &HeaderMap) -> (r: Option<Status>)
    ensures
        match spec_status_from_headers(h@) {
            None => r is None,
            Some((c, m)) => r matches Some(st) && st.code == c && st.message@ == m
                && st.metadata@ == h@,
        },
{
    proof {
        reveal_strlit("grpc-status");
        reveal_strlit("grpc-message");
    }
    let status_name = ascii_literal_bytes("grpc-status");
    let message_name = ascii_literal_bytes("grpc-message");
    match h.get(status_name.as_slice()) {
        None => None,
        Some(sv) => {
            let code = code_from_bytes(sv.as_slice());
            let message = match h.get(message_name.as_slice()) {
                None => Vec::new(),
                Some(m) => percent_decode(m.as_slice()),
            };
            Some(Status { code, message, metadata: h.clone() })
        },
    }
}

} // verus!
