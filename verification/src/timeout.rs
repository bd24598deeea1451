//! The `grpc-timeout` header: parsing, formatting, and the deadline a call
//! runs under — the shorter of the client's header and the server's ceiling.
//!
//! A timeout value is `<digits><unit>`: one to eight ASCII digits and a unit
//! letter out of hours, minutes, seconds, milliseconds, microseconds and
//! nanoseconds. Anything else is handed back unchanged as the error.

use vstd::prelude::*;

use crate::duration::Duration;
use crate::headers::{ascii_bytes, ascii_literal_bytes, clone_bytes, lookup, HeaderMap};

verus! {

/// ASCII `H`: hours.
pub const UNIT_HOURS: u8 = 72;

/// ASCII `M`: minutes.
pub const UNIT_MINUTES: u8 = 77;

/// ASCII `S`: seconds.
pub const UNIT_SECONDS: u8 = 83;

/// ASCII `m`: milliseconds.
pub const UNIT_MILLIS: u8 = 109;

/// ASCII `u`: microseconds.
pub const UNIT_MICROS: u8 = 117;

/// ASCII `n`: nanoseconds.
pub const UNIT_NANOS: u8 = 110;

/// The most digits a timeout value may carry.
pub const MAX_TIMEOUT_DIGITS: usize = 8;

/// The largest value eight decimal digits can carry.
pub const MAX_TIMEOUT_VALUE: u64 = 99_999_999;

pub open spec fn grpc_timeout_name() -> Seq<u8> {
    ascii_bytes("grpc-timeout"@)
}

pub open spec fn is_digit(b: u8) -> bool {
    48 <= b <= 57
}

pub open spec fn all_digits(s: Seq<u8>) -> bool {
    forall|i: int| 0 <= i < s.len() ==> is_digit(#[trigger] s[i])
}

/// The number a sequence of decimal digit bytes denotes.
pub open spec fn digits_val(s: Seq<u8>) -> nat
    decreases s.len(),
{
    if s.len() == 0 {
        0
    } else {
        digits_val(s.drop_last()) * 10 + ((s.last() - 48) as nat)
    }
}

pub open spec fn pow10(n: nat) -> nat
    decreases n,
{
    if n == 0 {
        1
    } else {
        10 * pow10((n - 1) as nat)
    }
}

/// The duration a timeout value of `v` units denotes, by unit letter.
pub open spec fn spec_timeout(v: nat, unit: u8) -> Option<Duration> {
    if unit == UNIT_HOURS {
        Some(Duration { secs: (v * 3600) as u64, nanos: 0 })
    } else if unit == UNIT_MINUTES {
        Some(Duration { secs: (v * 60) as u64, nanos: 0 })
    } else if unit == UNIT_SECONDS {
        Some(Duration { secs: v as u64, nanos: 0 })
    } else if unit == UNIT_MILLIS {
        Some(Duration { secs: (v / 1000) as u64, nanos: ((v % 1000) * 1_000_000) as u32 })
    } else if unit == UNIT_MICROS {
        Some(Duration { secs: (v / 1_000_000) as u64, nanos: ((v % 1_000_000) * 1_000) as u32 })
    } else if unit == UNIT_NANOS {
        Some(Duration { secs: (v / 1_000_000_000) as u64, nanos: (v % 1_000_000_000) as u32 })
    } else {
        None
    }
}

/// What a `grpc-timeout` header value means: `Some` exactly for one to eight
/// digits followed by a known unit letter.
pub open spec fn spec_parse_timeout(s: Seq<u8>) -> Option<Duration> {
    if 2 <= s.len() <= 9 && all_digits(s.drop_last()) {
        spec_timeout(digits_val(s.drop_last()), s.last())
    } else {
        None
    }
}

/// A digit string's value stays below ten to the power of its length.
pub proof fn lemma_digits_val_bound(s: Seq<u8>)
    requires
        all_digits(s),
    ensures
        digits_val(s) < pow10(s.len()),
    decreases s.len(),
{
    if s.len() > 0 {
        assert(all_digits(s.drop_last())) by {
            assert(forall|i: int|
                0 <= i < s.len() - 1 ==> s.drop_last()[i] == #[trigger] s[i]);
        }
        lemma_digits_val_bound(s.drop_last());
        assert(is_digit(s.last()));
    }
}

pub proof fn lemma_pow10_mono(a: nat, b: nat)
    requires
        a <= b,
    ensures
        pow10(a) <= pow10(b),
    decreases b,
{
    if a < b {
        lemma_pow10_mono(a, (b - 1) as nat);
        assert(pow10((b - 1) as nat) <= 10 * pow10((b - 1) as nat)) by (nonlinear_arith)
            requires
                pow10((b - 1) as nat) >= 0,
        ;
    }
}

/// A parsed timeout is a well-formed duration.
pub proof fn lemma_spec_parse_timeout_wf(s: Seq<u8>)
    ensures
        spec_parse_timeout(s) matches Some(d) ==> d.wf(),
{
    if spec_parse_timeout(s) is Some {
        let digits = s.drop_last();
        lemma_digits_val_bound(digits);
        lemma_pow10_mono(digits.len(), 8);
        let v = digits_val(digits);
        assert(pow10(8) == 100_000_000) by {
            reveal_with_fuel(pow10, 9);
        }
        assert(v <= MAX_TIMEOUT_VALUE);
        let unit = s.last();
        if unit == UNIT_MILLIS {
            assert((v % 1000) * 1_000_000 < 1_000_000_000);
        } else if unit == UNIT_MICROS {
            assert((v % 1_000_000) * 1_000 < 1_000_000_000);
        } else if unit == UNIT_NANOS {
            assert(v % 1_000_000_000 < 1_000_000_000);
        }
    }
}

/// Parse one timeout value. Returns exactly what the value denotes.
pub fn parse_timeout_value(val: &[u8]) -> (r: Option<Duration>)
    ensures
        r == spec_parse_timeout(val@),
        r matches Some(d) ==> d.wf(),
{
    proof {
        lemma_spec_parse_timeout_wf(val@);
    }
    let n = val.len();
    if n < 2 || n > MAX_TIMEOUT_DIGITS + 1 {
        return None;
    }
    let mut v: u64 = 0;
    let mut i: usize = 0;
    while i < n - 1
        invariant
            2 <= n <= 9,
            n == val@.len(),
            0 <= i <= n - 1,
            all_digits(val@.take(i as int)),
            v == digits_val(val@.take(i as int)),
        decreases n - i,
    {
        let b = val[i];
        if b < 48 || b > 57 {
            proof {
                assert(!is_digit(val@.drop_last()[i as int]));
            }
            return None;
        }
        proof {
            lemma_digits_val_bound(val@.take(i as int));
            lemma_pow10_mono(i as nat, 7);
            assert(pow10(7) == 10_000_000) by {
                reveal_with_fuel(pow10, 8);
            }
            assert(v < 10_000_000);
            let t1 = val@.take(i as int + 1);
            assert(t1.drop_last() =~= val@.take(i as int));
            assert(t1.last() == val@[i as int]);
            assert forall|j: int| 0 <= j < t1.len() implies is_digit(t1[j]) by {
                if j < i as int {
                    assert(t1[j] == val@.take(i as int)[j]);
                } else {
                    assert(t1[j] == val@[i as int]);
                }
            }
            assert(digits_val(t1) == digits_val(val@.take(i as int)) * 10 + ((val@[i as int]
                - 48) as nat));
        }
        v = v * 10 + (b - 48) as u64;
        i += 1;
    }
    proof {
        assert(val@.take(n as int - 1) =~= val@.drop_last());
        lemma_digits_val_bound(val@.drop_last());
        lemma_pow10_mono((n - 1) as nat, 8);
        assert(pow10(8) == 100_000_000) by {
            reveal_with_fuel(pow10, 9);
        }
        assert(v <= MAX_TIMEOUT_VALUE);
    }
    let unit = val[n - 1];
    proof {
        assert(val@.last() == val@[n - 1]);
    }
    if unit == UNIT_HOURS {
        Some(Duration::from_secs(v * 3600))
    } else if unit == UNIT_MINUTES {
        Some(Duration::from_secs(v * 60))
    } else if unit == UNIT_SECONDS {
        Some(Duration::from_secs(v))
    } else if unit == UNIT_MILLIS {
        Some(Duration::from_millis(v))
    } else if unit == UNIT_MICROS {
        Some(Duration::from_micros(v))
    } else if unit == UNIT_NANOS {
        Some(Duration::from_nanos(v))
    } else {
        None
    }
}

/// A timeout unit letter.
#[derive(Clone, Copy, Debug, PartialEq, Eq, Structural)]
pub enum TimeoutUnit {
    Hours,
    Minutes,
    Seconds,
    Millis,
    Micros,
    Nanos,
}

pub open spec fn unit_byte(u: TimeoutUnit) -> u8 {
    match u {
        TimeoutUnit::Hours => UNIT_HOURS,
        TimeoutUnit::Minutes => UNIT_MINUTES,
        TimeoutUnit::Seconds => UNIT_SECONDS,
        TimeoutUnit::Millis => UNIT_MILLIS,
        TimeoutUnit::Micros => UNIT_MICROS,
        TimeoutUnit::Nanos => UNIT_NANOS,
    }
}

/// The decimal digit bytes of `v`, most significant first.
pub open spec fn spec_digits(v: nat) -> Seq<u8>
    decreases v,
{
    if v < 10 {
        seq![(48 + v) as u8]
    } else {
        spec_digits(v / 10).push((48 + v % 10) as u8)
    }
}

/// A formatted timeout value: the digits of `v`, then the unit letter.
pub open spec fn spec_format_timeout(v: nat, u: TimeoutUnit) -> Seq<u8> {
    spec_digits(v).push(unit_byte(u))
}

/// The digit bytes of `v` are digits, denote `v`, and fit in `k` places
/// whenever `v` does.
pub proof fn lemma_spec_digits(v: nat, k: nat)
    requires
        1 <= k,
        v < pow10(k),
    ensures
        all_digits(spec_digits(v)),
        digits_val(spec_digits(v)) == v,
        1 <= spec_digits(v).len() <= k,
    decreases v,
{
    let s = spec_digits(v);
    if v < 10 {
        assert(s == seq![(48 + v) as u8]);
        assert(s.drop_last() =~= Seq::<u8>::empty());
        assert(digits_val(Seq::<u8>::empty()) == 0);
        assert(s.last() == (48 + v) as u8);
        assert(digits_val(s) == digits_val(s.drop_last()) * 10 + ((s.last() - 48) as nat));
        assert(digits_val(s) == v);
    } else {
        assert(v / 10 < pow10((k - 1) as nat)) by (nonlinear_arith)
            requires
                v < pow10(k),
                v >= 10,
                k >= 1,
                pow10(k) == 10 * pow10((k - 1) as nat),
        ;
        assert(v / 10 < v) by (nonlinear_arith)
            requires
                v >= 10,
        ;
        assert(pow10((k - 1) as nat) >= 1) by {
            lemma_pow10_mono(0, (k - 1) as nat);
        }
        assert(k - 1 >= 1) by {
            if k == 1 {
                assert(pow10((k - 1) as nat) == 1);
                assert(v / 10 < 1);
                assert(v < 10) by (nonlinear_arith)
                    requires
                        v / 10 < 1,
                ;
            }
        }
        lemma_spec_digits(v / 10, (k - 1) as nat);
        let sub = spec_digits(v / 10);
        assert(s == sub.push((48 + v % 10) as u8));
        assert(s.drop_last() =~= sub);
        assert(s.last() == (48 + v % 10) as u8);
        assert forall|i: int| 0 <= i < s.len() implies is_digit(s[i]) by {
            if i < s.len() - 1 {
                assert(s[i] == sub[i]);
            }
        }
        assert(digits_val(s) == digits_val(sub) * 10 + v % 10);
        vstd::arithmetic::div_mod::lemma_fundamental_div_mod(v as int, 10);
    }
}

/// Format a timeout value: digits of `value`, then the unit letter.
pub fn format_grpc_timeout(value: u64, unit: TimeoutUnit) -> (r: Vec<u8>)
    requires
        value <= MAX_TIMEOUT_VALUE,
    ensures
        r@ == spec_format_timeout(value as nat, unit),
{
    let mut out: Vec<u8> = Vec::new();
    push_digits(value, &mut out);
    let b: u8 = match unit {
        TimeoutUnit::Hours => UNIT_HOURS,
        TimeoutUnit::Minutes => UNIT_MINUTES,
        TimeoutUnit::Seconds => UNIT_SECONDS,
        TimeoutUnit::Millis => UNIT_MILLIS,
        TimeoutUnit::Micros => UNIT_MICROS,
        TimeoutUnit::Nanos => UNIT_NANOS,
    };
    out.push(b);
    proof {
        assert(out@ =~= spec_format_timeout(value as nat, unit));
    }
    out
}

/// Append the decimal digits of `v`.
fn push_digits(v: u64, out: &mut Vec<u8>)
    ensures
        final(out)@ == old(out)@ + spec_digits(v as nat),
    decreases v,
{
    if v < 10 {
        out.push(48 + v as u8);
        proof {
            assert(out@ =~= old(out)@ + spec_digits(v as nat));
        }
    } else {
        proof {
            assert(v / 10 < v) by (nonlinear_arith)
                requires
                    v >= 10,
            ;
        }
        push_digits(v / 10, out);
        out.push(48 + (v % 10) as u8);
        proof {
            assert(out@ =~= old(out)@ + spec_digits(v as nat));
        }
    }
}

/// Round trip: a formatted timeout parses back to exactly the duration the
/// value and unit denote, for every value of up to eight digits and every
/// unit.
pub proof fn lemma_timeout_round_trip(v: nat, u: TimeoutUnit)
    requires
        v <= MAX_TIMEOUT_VALUE,
    ensures
        spec_timeout(v, unit_byte(u)) is Some,
        spec_parse_timeout(spec_format_timeout(v, u)) == spec_timeout(v, unit_byte(u)),
{
    assert(pow10(8) == 100_000_000) by {
        reveal_with_fuel(pow10, 9);
    }
    lemma_spec_digits(v, 8);
    let s = spec_format_timeout(v, u);
    let digits = spec_digits(v);
    assert(s.drop_last() =~= digits);
    assert(s.last() == unit_byte(u));
    assert(2 <= s.len() <= 9);
}

/// Parse `grpc-timeout` out of a header map, as the deadline middleware
/// reads it: absent is fine; a malformed value comes back unchanged as the
/// error.
pub fn try_parse_grpc_timeout(headers: &HeaderMap) -> (r: Result<Option<Duration>, Vec<u8>>)
    ensures
        match lookup(headers@, grpc_timeout_name()) {
            None => r == Ok::<Option<Duration>, Vec<u8>>(None),
            Some(v) => match spec_parse_timeout(v) {
                Some(d) => r == Ok::<Option<Duration>, Vec<u8>>(Some(d)) && d.wf(),
                None => r matches Err(e) && e@ == v,
            },
        },
{
    proof {
        reveal_strlit("grpc-timeout");
    }
    let name = ascii_literal_bytes("grpc-timeout");
    match headers.get(name.as_slice()) {
        None => Ok(None),
        Some(val) => {
            match parse_timeout_value(val.as_slice()) {
                Some(d) => Ok(Some(d)),
                None => Err(clone_bytes(val)),
            }
        },
    }
}

/// The deadline a call runs under, out of the client's parsed timeout and
/// the server's configured ceiling: the shorter of the two when both are
/// set, the one that is set otherwise, none when neither is.
pub open spec fn spec_effective_timeout(
    client: Option<Duration>,
    server: Option<Duration>,
) -> Option<Duration> {
    match (client, server) {
        (None, None) => None,
        (Some(c), None) => Some(c),
        (None, Some(s)) => Some(s),
        (Some(c), Some(s)) => Some(
            if c.as_nanos() <= s.as_nanos() {
                c
            } else {
                s
            },
        ),
    }
}

/// Intersect the client timeout with the server ceiling.
pub fn effective_timeout(client: Option<Duration>, server: Option<Duration>) -> (r: Option<
    Duration,
>)
    requires
        client matches Some(c) ==> c.wf(),
        server matches Some(s) ==> s.wf(),
    ensures
        r == spec_effective_timeout(client, server),
{
    match (client, server) {
        (None, None) => None,
        (Some(c), None) => Some(c),
        (None, Some(s)) => Some(s),
        (Some(c), Some(s)) => Some(c.min(s)),
    }
}

/// The deadline middleware: a wrapped inner service and the server's
/// timeout ceiling.
#[derive(Clone, Debug)]
pub struct GrpcTimeout<S> {
    pub inner: S,
    pub server_timeout: Option<Duration>,
}

impl<S> GrpcTimeout<S> {
    pub open spec fn wf(self) -> bool {
        self.server_timeout matches Some(d) ==> d.wf()
    }

    pub fn new(inner: S, server_timeout: Option<Duration>) -> (r: Self)
        requires
            server_timeout matches Some(d) ==> d.wf(),
        ensures
            r == (GrpcTimeout { inner, server_timeout }),
            r.wf(),
    {
        GrpcTimeout { inner, server_timeout }
    }

    /// The deadline for one request: parse the client's header — a malformed
    /// value counts as absent, never as an error — and intersect it with the
    /// server ceiling.
    pub fn deadline_for(&self, headers: &HeaderMap) -> (r: Option<Duration>)
        requires
            self.wf(),
        ensures
            r == spec_effective_timeout(spec_client_timeout(headers@), self.server_timeout),
    {
        let client = match try_parse_grpc_timeout(headers) {
            Ok(t) => t,
            Err(_) => None,
        };
        effective_timeout(client, self.server_timeout)
    }
}

/// The client timeout a header map carries: a parseable `grpc-timeout`
/// value, and nothing otherwise.
pub open spec fn spec_client_timeout(headers: Seq<(Seq<u8>, Seq<u8>)>) -> Option<Duration> {
    match lookup(headers, grpc_timeout_name()) {
        None => None,
        Some(v) => spec_parse_timeout(v),
    }
}

/// What the timeout race knows about its deadline while the request is
/// still being rewritten: nothing yet, or a resolved optional deadline.
#[derive(Clone, Copy, Debug, PartialEq, Eq, Structural)]
pub enum DeadlineWait {
    Pending,
    Known(Option<Duration>),
}

impl DeadlineWait {
    /// Take one message off the one-shot deadline channel. A closed channel
    /// (`None`) resolves to no deadline rather than failing.
    pub fn resolve(self, msg: Option<Option<Duration>>) -> (r: Self)
        ensures
            r == match self {
                DeadlineWait::Known(k) => DeadlineWait::Known(k),
                DeadlineWait::Pending => match msg {
                    Some(k) => DeadlineWait::Known(k),
                    None => DeadlineWait::Known(None),
                },
            },
            r is Known,
    {
        match self {
            DeadlineWait::Known(k) => DeadlineWait::Known(k),
            DeadlineWait::Pending => match msg {
                Some(k) => DeadlineWait::Known(k),
                None => DeadlineWait::Known(None),
            },
        }
    }
}

} // verus!
