//! The streaming decoder: consumes a framed response body chunk by chunk,
//! yields one decoded payload per complete frame, and reads the final
//! status out of the trailers.

use vstd::prelude::*;

use crate::framing::{be_val, within_limit, FLAG_COMPRESSED, FLAG_UNCOMPRESSED};
use crate::headers::HeaderMap;
use crate::status::{spec_status_from_headers, Code, Status};

verus! {

/// What the buffered bytes hold next.
pub enum DecodeStep {
    /// No complete frame yet; more body bytes are needed.
    NeedMore,
    /// A compression flag the session cannot accept.
    BadFlag,
    /// A declared length beyond the decoding size ceiling.
    TooLarge,
    /// One complete frame: its payload, and the bytes after it.
    Message(Seq<u8>, Seq<u8>),
}

/// What the first frame in `buf` is: complete, incomplete, or malformed.
/// A compressed flag is acceptable only when the response carried a known
/// `grpc-encoding`; any other flag byte is a protocol error.
pub open spec fn spec_decode_step(
    buf: Seq<u8>,
    compression_ok: bool,
    max: Option<usize>,
) -> DecodeStep {
    if buf.len() < 5 {
        DecodeStep::NeedMore
    } else {
        let flag = buf[0];
        let len = be_val(buf[1], buf[2], buf[3], buf[4]);
        if !(flag == FLAG_UNCOMPRESSED || (flag == FLAG_COMPRESSED && compression_ok)) {
            DecodeStep::BadFlag
        } else if !within_limit(len, max) {
            DecodeStep::TooLarge
        } else if buf.len() < 5 + len {
            DecodeStep::NeedMore
        } else {
            DecodeStep::Message(buf.subrange(5, 5 + len as int), buf.skip(5 + len as int))
        }
    }
}

/// What a whole buffered body holds: every complete frame's payload in
/// order and the trailing incomplete bytes, or the first frame error.
pub open spec fn spec_decode_all(buf: Seq<u8>, compression_ok: bool, max: Option<usize>) -> Result<
    (Seq<Seq<u8>>, Seq<u8>),
    Code,
>
    decreases buf.len(),
    via spec_decode_all_decreases
{
    match spec_decode_step(buf, compression_ok, max) {
        DecodeStep::NeedMore => Ok((Seq::empty(), buf)),
        DecodeStep::BadFlag => Err(Code::Internal),
        DecodeStep::TooLarge => Err(Code::ResourceExhausted),
        DecodeStep::Message(payload, rest) => match spec_decode_all(
            rest,
            compression_ok,
            max,
        ) {
            Ok((msgs, left)) => Ok((seq![payload] + msgs, left)),
            Err(c) => Err(c),
        },
    }
}

/// A complete frame consumes at least its five header bytes, so the bytes
/// after it are strictly fewer.
#[via_fn]
proof fn spec_decode_all_decreases(buf: Seq<u8>, compression_ok: bool, max: Option<usize>) {
    match spec_decode_step(buf, compression_ok, max) {
        DecodeStep::Message(payload, rest) => {
            assert(rest.len() < buf.len());
        },
        _ => {},
    }
}

/// Round trip: a body that begins with an encoded frame decodes to exactly
/// the frame's payload and leaves exactly the bytes after the frame — for
/// every payload under the ceilings, uncompressed or compressed with an
/// acceptable encoding.
pub proof fn lemma_frame_round_trip(
    flag: u8,
    payload: Seq<u8>,
    rest: Seq<u8>,
    compression_ok: bool,
    max: Option<usize>,
)
    requires
        payload.len() <= 0xFFFF_FFFF,
        flag == FLAG_UNCOMPRESSED || (flag == FLAG_COMPRESSED && compression_ok),
        within_limit(payload.len(), max),
    ensures
        spec_decode_step(crate::framing::spec_frame(flag, payload) + rest, compression_ok, max)
            == DecodeStep::Message(payload, rest),
{
    let buf = crate::framing::spec_frame(flag, payload) + rest;
    let len = payload.len();
    crate::framing::lemma_u32_be_round_trip(len as u32);
    let lb = crate::framing::u32_be(len as u32);
    assert(buf[0] == flag);
    assert(buf[1] == lb[0]);
    assert(buf[2] == lb[1]);
    assert(buf[3] == lb[2]);
    assert(buf[4] == lb[3]);
    assert(be_val(buf[1], buf[2], buf[3], buf[4]) == len);
    assert(buf.len() == 5 + len + rest.len());
    assert(buf.subrange(5, 5 + len as int) =~= payload);
    assert(buf.skip(5 + len as int) =~= rest);
}

/// Round trip for a whole body: a message sequence that encodes under the
/// encoding ceiling decodes back to exactly that sequence, with nothing
/// left over, whenever every message also passes the decoding ceiling and
/// the flag is acceptable.
pub proof fn lemma_body_round_trip(
    msgs: Seq<Seq<u8>>,
    flag: u8,
    compression_ok: bool,
    max_enc: Option<usize>,
    max_dec: Option<usize>,
)
    requires
        forall|i: int| 0 <= i < msgs.len() ==> (#[trigger] msgs[i]).len() <= 0xFFFF_FFFF,
        forall|i: int| 0 <= i < msgs.len() ==> within_limit((#[trigger] msgs[i]).len(), max_dec),
        flag == FLAG_UNCOMPRESSED || (flag == FLAG_COMPRESSED && compression_ok),
    ensures
        crate::framing::spec_encode_messages(msgs, flag, max_enc) matches Ok(body)
            ==> spec_decode_all(body, compression_ok, max_dec) == Ok::<
            (Seq<Seq<u8>>, Seq<u8>),
            Code,
        >((msgs, Seq::empty())),
    decreases msgs.len(),
{
    match crate::framing::spec_encode_messages(msgs, flag, max_enc) {
        Err(()) => {},
        Ok(body) => {
            if msgs.len() == 0 {
                assert(body == Seq::<u8>::empty());
                assert(spec_decode_all(body, compression_ok, max_dec) == Ok::<
                    (Seq<Seq<u8>>, Seq<u8>),
                    Code,
                >((Seq::empty(), body)));
                assert(body =~= Seq::<u8>::empty());
                assert(msgs =~= Seq::<Seq<u8>>::empty());
            } else {
                let tail = msgs.skip(1);
                assert(forall|i: int|
                    0 <= i < tail.len() ==> (#[trigger] tail[i]).len() <= 0xFFFF_FFFF
                        && within_limit(tail[i].len(), max_dec)) by {
                    assert(forall|i: int|
                        0 <= i < tail.len() ==> #[trigger] tail[i] == msgs[i + 1]);
                }
                lemma_body_round_trip(tail, flag, compression_ok, max_enc, max_dec);
                let rest_body = match crate::framing::spec_encode_messages(tail, flag, max_enc) {
                    Ok(b) => b,
                    Err(()) => Seq::empty(),
                };
                assert(crate::framing::spec_encode_messages(tail, flag, max_enc) == Ok::<
                    Seq<u8>,
                    (),
                >(rest_body));
                assert(body == crate::framing::spec_frame(flag, msgs[0]) + rest_body);
                lemma_frame_round_trip(flag, msgs[0], rest_body, compression_ok, max_dec);
                assert(spec_decode_all(rest_body, compression_ok, max_dec) == Ok::<
                    (Seq<Seq<u8>>, Seq<u8>),
                    Code,
                >((tail, Seq::empty())));
                assert(seq![msgs[0]] + tail =~= msgs);
                assert(spec_decode_all(body, compression_ok, max_dec) == Ok::<
                    (Seq<Seq<u8>>, Seq<u8>),
                    Code,
                >((seq![msgs[0]] + tail, Seq::empty())));
            }
        },
    }
}

/// The decoder over one response body.
pub struct StreamingDecoder {
    /// Received and not yet consumed body bytes.
    pub buf: Vec<u8>,
    /// Whether compressed frames are acceptable: the response advertised a
    /// `grpc-encoding` the client accepts.
    pub compression_ok: bool,
    /// The decoding size ceiling.
    pub max_decoding_size: Option<usize>,
    /// Whether a final status is still owed by the trailers. An
    /// empty-mode decoder never yields anything.
    pub expect_trailers: bool,
}

impl StreamingDecoder {
    /// A decoder that expects frames and then trailers.
    pub fn new_response(compression_ok: bool, max_decoding_size: Option<usize>) -> (r: Self)
        ensures
            r.buf@ == Seq::<u8>::empty(),
            r.compression_ok == compression_ok,
            r.max_decoding_size == max_decoding_size,
            r.expect_trailers == true,
    {
        StreamingDecoder { buf: Vec::new(), compression_ok, max_decoding_size, expect_trailers: true }
    }

    /// A decoder for a response whose headers already carried the final
    /// status: it consumes nothing and yields nothing.
    pub fn new_empty() -> (r: Self)
        ensures
            r.buf@ == Seq::<u8>::empty(),
            r.expect_trailers == false,
    {
        StreamingDecoder {
            buf: Vec::new(),
            compression_ok: false,
            max_decoding_size: None,
            expect_trailers: false,
        }
    }

    /// Feed one body chunk.
    pub fn push_bytes(&mut self, chunk: &[u8])
        ensures
            final(self).buf@ == old(self).buf@ + chunk@,
            final(self).compression_ok == old(self).compression_ok,
            final(self).max_decoding_size == old(self).max_decoding_size,
            final(self).expect_trailers == old(self).expect_trailers,
    {
        let ghost before = self.buf@;
        self.buf.extend_from_slice(chunk);
        proof {
            assert(self.buf@ =~= before + chunk@);
        }
    }

    /// Pull the next message out of the buffered bytes.
    ///
    /// In empty mode nothing is ever yielded. Otherwise: a complete frame
    /// comes back as its payload and leaves only the bytes after it; an
    /// incomplete one asks for more input; an unacceptable compression flag
    /// is `Internal`; a declared length over the ceiling is
    /// `ResourceExhausted`, so no oversize message is ever surfaced.
    pub fn next_message(&mut self) -> (r: Result<Option<Vec<u8>>, Status>)
        ensures
            final(self).compression_ok == old(self).compression_ok,
            final(self).max_decoding_size == old(self).max_decoding_size,
            final(self).expect_trailers == old(self).expect_trailers,
            !old(self).expect_trailers ==> r == Ok::<Option<Vec<u8>>, Status>(None)
                && final(self).buf@ == old(self).buf@,
            old(self).expect_trailers ==> match spec_decode_step(
                old(self).buf@,
                old(self).compression_ok,
                old(self).max_decoding_size,
            ) {
                DecodeStep::NeedMore => r == Ok::<Option<Vec<u8>>, Status>(None)
                    && final(self).buf@ == old(self).buf@,
                DecodeStep::BadFlag => r matches Err(st) && st.code == Code::Internal
                    && st.message@ == Seq::<u8>::empty() && st.metadata@ == Seq::<
                    (Seq<u8>, Seq<u8>),
                >::empty(),
                DecodeStep::TooLarge => r matches Err(st) && st.code == Code::ResourceExhausted
                    && st.message@ == Seq::<u8>::empty() && st.metadata@ == Seq::<
                    (Seq<u8>, Seq<u8>),
                >::empty(),
                DecodeStep::Message(payload, rest) => r matches Ok(m) && m matches Some(v) && v@
                    == payload && final(self).buf@ == rest,
            },
    {
        if !self.expect_trailers {
            return Ok(None);
        }
        if self.buf.len() < 5 {
            return Ok(None);
        }
        let flag = self.buf[0];
        let len32 = crate::framing::decode_u32_be(self.buf[1], self.buf[2], self.buf[3], self.buf[4]);
        let len = len32 as usize;
        if !(flag == FLAG_UNCOMPRESSED || (flag == FLAG_COMPRESSED && self.compression_ok)) {
            return Err(Status::new(Code::Internal, Vec::new()));
        }
        if let Some(m) = self.max_decoding_size {
            if len > m {
                return Err(Status::new(Code::ResourceExhausted, Vec::new()));
            }
        }
        if self.buf.len() - 5 < len {
            return Ok(None);
        }
        let payload_slice = vstd::slice::slice_subrange(self.buf.as_slice(), 5, 5 + len);
        let payload = vstd::slice::slice_to_vec(payload_slice);
        let rest_slice = vstd::slice::slice_subrange(self.buf.as_slice(), 5 + len, self.buf.len());
        let rest = vstd::slice::slice_to_vec(rest_slice);
        proof {
            assert(payload@ =~= old(self).buf@.subrange(5, 5 + len as int));
            assert(rest@ =~= old(self).buf@.skip(5 + len as int));
        }
        self.buf = rest;
        Ok(Some(payload))
    }

    /// Pull every complete message out of the buffered bytes, in order,
    /// leaving only the trailing incomplete bytes. The first malformed or
    /// oversize frame fails the stream; messages before it stay observable
    /// through earlier pulls, never through a failing one.
    pub fn decode_all(&mut self) -> (r: Result<Vec<Vec<u8>>, Status>)
        ensures
            final(self).compression_ok == old(self).compression_ok,
            final(self).max_decoding_size == old(self).max_decoding_size,
            final(self).expect_trailers == old(self).expect_trailers,
            !old(self).expect_trailers ==> (r matches Ok(v) && v@.len() == 0 && final(self).buf@
                == old(self).buf@),
            old(self).expect_trailers ==> match spec_decode_all(
                old(self).buf@,
                old(self).compression_ok,
                old(self).max_decoding_size,
            ) {
                Ok((msgs, left)) => r matches Ok(v) && v@.map_values(|m: Vec<u8>| m@) == msgs
                    && final(self).buf@ == left,
                Err(c) => r matches Err(st) && st.code == c,
            },
    {
        let ghost orig = self.buf@;
        let ghost ok = self.compression_ok;
        let ghost max = self.max_decoding_size;
        let mut out: Vec<Vec<u8>> = Vec::new();
        if !self.expect_trailers {
            return Ok(out);
        }
        loop
            invariant
                self.expect_trailers == old(self).expect_trailers,
                self.expect_trailers,
                self.compression_ok == old(self).compression_ok,
                self.max_decoding_size == old(self).max_decoding_size,
                ok == old(self).compression_ok,
                max == old(self).max_decoding_size,
                orig == old(self).buf@,
                match spec_decode_all(orig, ok, max) {
                    Ok((msgs, left)) => spec_decode_all(self.buf@, ok, max) matches Ok(
                        (rest, left2),
                    ) && left2 == left && msgs == out@.map_values(|m: Vec<u8>| m@) + rest,
                    Err(c) => spec_decode_all(self.buf@, ok, max) == Err::<
                        (Seq<Seq<u8>>, Seq<u8>),
                        Code,
                    >(c),
                },
            decreases self.buf@.len(),
        {
            let ghost before = self.buf@;
            let ghost prev_out = out@.map_values(|m: Vec<u8>| m@);
            match self.next_message() {
                Ok(None) => {
                    proof {
                        assert(spec_decode_all(before, ok, max) == Ok::<
                            (Seq<Seq<u8>>, Seq<u8>),
                            Code,
                        >((Seq::empty(), before)));
                        if spec_decode_all(orig, ok, max) matches Ok((msgs, left)) {
                            assert(prev_out + Seq::<Seq<u8>>::empty() =~= prev_out);
                        }
                    }
                    return Ok(out);
                },
                Ok(Some(msg)) => {
                    let ghost m = msg@;
                    out.push(msg);
                    proof {
                        assert(out@.map_values(|x: Vec<u8>| x@) =~= prev_out.push(m));
                        match spec_decode_all(self.buf@, ok, max) {
                            Ok(p) => {
                                assert(prev_out + (seq![m] + p.0) =~= prev_out.push(m) + p.0);
                            },
                            Err(_) => {},
                        }
                    }
                },
                Err(st) => {
                    return Err(st);
                },
            }
        }
    }

    /// Close the stream at end of body. The trailers must carry the final
    /// status: a missing map, leftover bytes of an unfinished frame, or a
    /// missing `grpc-status` are protocol errors; a non-`Okay` status fails
    /// the stream with exactly that status.
    pub fn finish(&self, trailers: Option<&HeaderMap>) -> (r: Result<(), Status>)
        ensures
            !self.expect_trailers ==> r == Ok::<(), Status>(()),
            self.expect_trailers ==> match trailers {
                None => r matches Err(st) && st.code == Code::Internal && st.message@
                    == Seq::<u8>::empty() && st.metadata@ == Seq::<(Seq<u8>, Seq<u8>)>::empty(),
                Some(t) => if self.buf@.len() != 0 {
                    r matches Err(st) && st.code == Code::Internal && st.message@
                        == Seq::<u8>::empty() && st.metadata@ == Seq::<
                        (Seq<u8>, Seq<u8>),
                    >::empty()
                } else {
                    match spec_status_from_headers(t@) {
                        None => r matches Err(st) && st.code == Code::Internal && st.message@
                            == Seq::<u8>::empty() && st.metadata@ == Seq::<
                            (Seq<u8>, Seq<u8>),
                        >::empty(),
                        Some((c, m)) => if c == Code::Okay {
                            r == Ok::<(), Status>(())
                        } else {
                            r matches Err(st) && st.code == c && st.message@ == m && st.metadata@
                                == t@
                        },
                    }
                },
            },
    {
        if !self.expect_trailers {
            return Ok(());
        }
        match trailers {
            None => Err(Status::new(Code::Internal, Vec::new())),
            Some(t) => {
                if self.buf.len() != 0 {
                    return Err(Status::new(Code::Internal, Vec::new()));
                }
                match crate::status::status_from_headers(t) {
                    None => Err(Status::new(Code::Internal, Vec::new())),
                    Some(st) => {
                        if matches!(st.code, Code::Okay) {
                            Ok(())
                        } else {
                            Err(st)
                        }
                    },
                }
            },
        }
    }
}

} // verus!
