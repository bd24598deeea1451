//! The gRPC body wire format: one frame is a compression flag byte, a
//! four-byte big-endian payload length, and the payload itself.

use vstd::prelude::*;

use crate::status::{Code, Status};

verus! {

/// Flag of an uncompressed frame.
pub const FLAG_UNCOMPRESSED: u8 = 0;

/// Flag of a compressed frame.
pub const FLAG_COMPRESSED: u8 = 1;

/// The number four big-endian length bytes denote.
pub open spec fn be_val(b0: u8, b1: u8, b2: u8, b3: u8) -> nat {
    (b0 * 0x100_0000 + b1 * 0x1_0000 + b2 * 0x100 + b3) as nat
}

/// The four big-endian bytes of a length.
pub open spec fn u32_be(n: u32) -> Seq<u8> {
    seq![
        (n / 0x100_0000) as u8,
        ((n / 0x1_0000) % 0x100) as u8,
        ((n / 0x100) % 0x100) as u8,
        (n % 0x100) as u8,
    ]
}

/// The length bytes read back as the length they were written from.
pub proof fn lemma_u32_be_round_trip(n: u32)
    ensures
        be_val(u32_be(n)[0], u32_be(n)[1], u32_be(n)[2], u32_be(n)[3]) == n,
{
    assert((n / 0x100_0000) as u8 * 0x100_0000 + ((n / 0x1_0000) % 0x100) as u8 * 0x1_0000 + ((n
        / 0x100) % 0x100) as u8 * 0x100 + (n % 0x100) as u8 == n) by (bit_vector);
}

/// Write the four big-endian bytes of `n`.
pub fn encode_u32_be(n: u32) -> (r: Vec<u8>)
    ensures
        r@ == u32_be(n),
{
    let mut out: Vec<u8> = Vec::new();
    proof {
        assert(n / 0x100_0000 < 0x100) by (bit_vector);
    }
    out.push((n / 0x100_0000) as u8);
    out.push(((n / 0x1_0000) % 0x100) as u8);
    out.push(((n / 0x100) % 0x100) as u8);
    out.push((n % 0x100) as u8);
    proof {
        assert(out@ =~= u32_be(n));
    }
    out
}

/// Read four big-endian length bytes.
pub fn decode_u32_be(b0: u8, b1: u8, b2: u8, b3: u8) -> (n: u32)
    ensures
        n == be_val(b0, b1, b2, b3),
{
    (b0 as u32) * 0x100_0000 + (b1 as u32) * 0x1_0000 + (b2 as u32) * 0x100 + (b3 as u32)
}

/// One frame on the wire: flag, length, payload.
pub open spec fn spec_frame(flag: u8, payload: Seq<u8>) -> Seq<u8> {
    seq![flag] + u32_be(payload.len() as u32) + payload
}

/// Whether a payload length passes a configured ceiling.
pub open spec fn within_limit(len: nat, limit: Option<usize>) -> bool {
    match limit {
        None => true,
        Some(m) => len <= m,
    }
}

/// Encode one frame. Succeeds exactly when the payload passes the encoding
/// size ceiling; an oversize payload is refused with `ResourceExhausted`,
/// so no frame beyond the ceiling is ever emitted.
pub fn encode_frame(flag: u8, payload: &[u8], max_encoding_size: Option<usize>) -> (r: Result<
    Vec<u8>,
    Status,
>)
    requires
        payload@.len() <= 0xFFFF_FFFF,
    ensures
        match r {
            Ok(buf) => within_limit(payload@.len(), max_encoding_size) && buf@ == spec_frame(
                flag,
                payload@,
            ),
            Err(st) => !within_limit(payload@.len(), max_encoding_size) && st.code
                == Code::ResourceExhausted,
        },
{
    if let Some(m) = max_encoding_size {
        if payload.len() > m {
            return Err(Status::new(Code::ResourceExhausted, Vec::new()));
        }
    }
    let mut out: Vec<u8> = Vec::new();
    out.push(flag);
    let len_bytes = encode_u32_be(payload.len() as u32);
    let ghost before = out@;
    out.extend_from_slice(len_bytes.as_slice());
    proof {
        assert(out@ =~= before + len_bytes@);
    }
    let ghost before2 = out@;
    out.extend_from_slice(payload);
    proof {
        assert(out@ =~= before2 + payload@);
        assert(out@ =~= spec_frame(flag, payload@));
    }
    Ok(out)
}

/// A whole outgoing body: the frames of all messages in order, or the
/// first refusal.
pub open spec fn spec_encode_messages(msgs: Seq<Seq<u8>>, flag: u8, max: Option<usize>) -> Result<
    Seq<u8>,
    (),
>
    decreases msgs.len(),
{
    if msgs.len() == 0 {
        Ok(Seq::empty())
    } else if !within_limit(msgs[0].len(), max) {
        Err(())
    } else {
        match spec_encode_messages(msgs.skip(1), flag, max) {
            Ok(rest) => Ok(spec_frame(flag, msgs[0]) + rest),
            Err(()) => Err(()),
        }
    }
}

/// Encode a message sequence into one framed body. Succeeds exactly when
/// every payload passes the encoding size ceiling; the first oversize one
/// is refused with `ResourceExhausted` and nothing is emitted.
pub fn encode_messages(messages: &Vec<Vec<u8>>, flag: u8, max_encoding_size: Option<usize>) -> (r:
    Result<Vec<u8>, Status>)
    requires
        forall|i: int| 0 <= i < messages@.len() ==> #[trigger] messages@[i]@.len() <= 0xFFFF_FFFF,
    ensures
        match r {
            Ok(body) => spec_encode_messages(messages@.map_values(|m: Vec<u8>| m@), flag,
            max_encoding_size) == Ok::<Seq<u8>, ()>(body@),
            Err(st) => spec_encode_messages(messages@.map_values(|m: Vec<u8>| m@), flag,
            max_encoding_size) is Err && st.code == Code::ResourceExhausted,
        },
{
    let ghost model = messages@.map_values(|m: Vec<u8>| m@);
    let n = messages.len();
    let mut out: Vec<u8> = Vec::new();
    let mut i: usize = 0;
    proof {
        assert(model.skip(0) =~= model);
        if spec_encode_messages(model, flag, max_encoding_size) is Ok {
            assert(out@ + unwrap_encoded(model, flag, max_encoding_size) =~= unwrap_encoded(
                model,
                flag,
                max_encoding_size,
            ));
        }
    }
    while i < n
        invariant
            n == messages@.len(),
            model == messages@.map_values(|m: Vec<u8>| m@),
            forall|k: int| 0 <= k < n ==> #[trigger] messages@[k]@.len() <= 0xFFFF_FFFF,
            0 <= i <= n,
            forall|k: int|
                0 <= k < i ==> within_limit(#[trigger] model[k].len(), max_encoding_size),
            spec_encode_messages(model, flag, max_encoding_size) matches Ok(whole) ==> whole
                == out@ + unwrap_encoded(model.skip(i as int), flag, max_encoding_size),
        decreases n - i,
    {
        let ghost rest = model.skip(i as int);
        proof {
            assert(rest[0] == model[i as int]);
            assert(rest.skip(1) =~= model.skip(i as int + 1));
        }
        match encode_frame(flag, messages[i].as_slice(), max_encoding_size) {
            Ok(frame) => {
                let ghost before = out@;
                out.extend_from_slice(frame.as_slice());
                proof {
                    assert(out@ =~= before + spec_frame(flag, model[i as int]));
                    if spec_encode_messages(model, flag, max_encoding_size) matches Ok(whole) {
                        if spec_encode_messages(rest, flag, max_encoding_size) is Err {
                            lemma_encode_prefix_err(model, flag, max_encoding_size, i as int);
                        }
                        assert(unwrap_encoded(rest, flag, max_encoding_size) == spec_frame(
                            flag,
                            model[i as int],
                        ) + unwrap_encoded(model.skip(i as int + 1), flag, max_encoding_size));
                        assert(before + (spec_frame(flag, model[i as int]) + unwrap_encoded(
                            model.skip(i as int + 1),
                            flag,
                            max_encoding_size,
                        )) =~= out@ + unwrap_encoded(
                            model.skip(i as int + 1),
                            flag,
                            max_encoding_size,
                        ));
                    }
                }
            },
            Err(st) => {
                proof {
                    assert(spec_encode_messages(rest, flag, max_encoding_size) is Err);
                    lemma_encode_prefix_err(model, flag, max_encoding_size, i as int);
                }
                return Err(st);
            },
        }
        i += 1;
    }
    proof {
        assert(model.skip(n as int) =~= Seq::<Seq<u8>>::empty());
        if spec_encode_messages(model, flag, max_encoding_size) is Err {
            lemma_encode_all_ok(model, flag, max_encoding_size);
        }
        assert(out@ + unwrap_encoded(
            Seq::<Seq<u8>>::empty(),
            flag,
            max_encoding_size,
        ) =~= out@);
    }
    Ok(out)
}

/// The encoded body, where encoding is known to succeed.
pub open spec fn unwrap_encoded(msgs: Seq<Seq<u8>>, flag: u8, max: Option<usize>) -> Seq<u8> {
    match spec_encode_messages(msgs, flag, max) {
        Ok(b) => b,
        Err(()) => Seq::empty(),
    }
}

/// If a suffix refuses, the whole sequence refuses.
proof fn lemma_encode_prefix_err(msgs: Seq<Seq<u8>>, flag: u8, max: Option<usize>, i: int)
    requires
        0 <= i <= msgs.len(),
        spec_encode_messages(msgs.skip(i), flag, max) is Err,
    ensures
        spec_encode_messages(msgs, flag, max) is Err,
    decreases i,
{
    if i == 0 {
        assert(msgs.skip(0) =~= msgs);
    }
    if i > 0 {
        assert(msgs.skip(i - 1).skip(1) =~= msgs.skip(i));
        assert(msgs.skip(i - 1).len() > 0);
        lemma_encode_prefix_err_step(msgs.skip(i - 1), flag, max);
        lemma_encode_prefix_err(msgs, flag, max, i - 1);
    }
}

/// One unfolding step: a refusing tail makes the sequence refuse.
proof fn lemma_encode_prefix_err_step(msgs: Seq<Seq<u8>>, flag: u8, max: Option<usize>)
    requires
        msgs.len() > 0,
        spec_encode_messages(msgs.skip(1), flag, max) is Err,
    ensures
        spec_encode_messages(msgs, flag, max) is Err,
{
}

/// A sequence of within-limit messages encodes.
proof fn lemma_encode_all_ok(msgs: Seq<Seq<u8>>, flag: u8, max: Option<usize>)
    requires
        forall|k: int| 0 <= k < msgs.len() ==> within_limit(#[trigger] msgs[k].len(), max),
    ensures
        spec_encode_messages(msgs, flag, max) is Ok,
    decreases msgs.len(),
{
    if msgs.len() > 0 {
        assert forall|k: int| 0 <= k < msgs.skip(1).len() implies within_limit(
            #[trigger] msgs.skip(1)[k].len(),
            max,
        ) by {
            assert(msgs.skip(1)[k] == msgs[k + 1]);
        }
        lemma_encode_all_ok(msgs.skip(1), flag, max);
    }
}

} // verus!
