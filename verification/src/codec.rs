//! The wire codec.
//!
//! Each message is a sequence of tagged fields. A text field is the tag
//! `0x0a` followed by a varint length and the bytes; an integer field is a
//! tag (`0x08` for the first field, `0x10` for the second) followed by the
//! varint of the value widened to 64 bits; a field holding its default
//! value (empty text, zero) is omitted. An envelope is a single
//! length-delimited field whose tag picks the variant: `0x0a` wraps an echo
//! message, `0x12` wraps an add request (client side) or an add response
//! (server side). Decoding consumes the whole buffer or fails; bytes that
//! fit no grammar decode as nothing.

use vstd::prelude::*;
use crate::varint::{varint_bytes, parse_varint, encode_varint, decode_varint, lemma_parse_varint_at, lemma_varint_len};
use crate::message::{EchoMessage, AddRequest, AddResponse, ClientMessage, ServerMessage, ClientMsg, ServerMsg};

verus! {

/// Whether `b` is valid UTF-8; the meaning is fixed by the runtime check
/// below, never written out here.
pub uninterp spec fn utf8_ok(b: Seq<u8>) -> bool;

/// Relies on std::str::from_utf8, whose documentation promises `Ok` exactly
/// when the bytes are valid UTF-8; the verdict depends on the bytes alone.
#[verifier::external_body]
fn utf8_check(b: &Vec<u8>) -> (r: bool)
    ensures
        r == utf8_ok(b@),
{
    std::str::from_utf8(b.as_slice()).is_ok()
}

/// `a` read as its 64-bit two's-complement bit pattern, the form a signed
/// field carries on the wire.
pub open spec fn wide_of_i32(a: i32) -> u64 {
    if a >= 0 {
        a as u64
    } else {
        (a + 0x1_0000_0000_0000_0000) as u64
    }
}

/// The low 32 bits of `v` read as a two's-complement signed integer: how a
/// decoded varint becomes a signed field.
pub open spec fn narrow_of_u64(v: u64) -> i32 {
    let low = v % 0x1_0000_0000;
    if low < 0x8000_0000 {
        low as i32
    } else {
        (low - 0x1_0000_0000) as i32
    }
}

/// Narrowing undoes widening: every 32-bit value survives the trip through
/// its 64-bit wire form.
pub proof fn lemma_narrow_wide(a: i32)
    ensures
        narrow_of_u64(wide_of_i32(a)) == a,
{
    if a >= 0 {
        vstd::arithmetic::div_mod::lemma_small_mod(a as nat, 0x1_0000_0000);
    } else {
        let w = a + 0x1_0000_0000_0000_0000;
        vstd::arithmetic::div_mod::lemma_fundamental_div_mod_converse_mod(
            w, 0x1_0000_0000, 0xffff_ffff, a + 0x1_0000_0000);
        assert(w % 0x1_0000_0000 == a + 0x1_0000_0000);
    }
}

/// Computes `wide_of_i32` at runtime.
pub fn i32_to_wide(a: i32) -> (r: u64)
    ensures
        r == wide_of_i32(a),
{
    if a >= 0 {
        a as u64
    } else {
        let neg: i64 = -(a as i64);
        let neg_u: u64 = neg as u64;
        0xffff_ffff_ffff_ffffu64 - (neg_u - 1)
    }
}

/// Computes `narrow_of_u64` at runtime.
pub fn u64_to_i32(v: u64) -> (r: i32)
    ensures
        r == narrow_of_u64(v),
{
    let low: u64 = v % 0x1_0000_0000;
    if low < 0x8000_0000 {
        low as i32
    } else {
        let neg: u64 = 0x1_0000_0000 - low;
        -((neg - 1) as i32) - 1
    }
}

/// Appends every byte of `src` to `dst`.
pub fn push_all(dst: &mut Vec<u8>, src: &Vec<u8>)
    ensures
        final(dst)@ == old(dst)@ + src@,
{
    let mut k: usize = 0;
    while k < src.len()
        invariant
            k <= src@.len(),
            dst@ == old(dst)@ + src@.subrange(0, k as int),
        decreases src@.len() - k,
    {
        proof {
            assert(src@.subrange(0, k as int + 1)
                =~= src@.subrange(0, k as int).push(src@[k as int]));
        }
        dst.push(src[k]);
        k = k + 1;
    }
    proof {
        assert(src@.subrange(0, src@.len() as int) =~= src@);
    }
}

/// Copies `buf[start..end]` into a fresh buffer.
pub fn subvec(buf: &Vec<u8>, start: usize, end: usize) -> (out: Vec<u8>)
    requires
        start <= end <= buf@.len(),
    ensures
        out@ == buf@.subrange(start as int, end as int),
{
    let mut out: Vec<u8> = Vec::new();
    let mut k: usize = start;
    while k < end
        invariant
            start <= k <= end <= buf@.len(),
            out@ == buf@.subrange(start as int, k as int),
        decreases end - k,
    {
        proof {
            assert(buf@.subrange(start as int, k as int + 1)
                =~= buf@.subrange(start as int, k as int).push(buf@[k as int]));
        }
        out.push(buf[k]);
        k = k + 1;
    }
    out
}

/// The body of an echo message: its content as one text field, or nothing
/// when the content is empty.
pub open spec fn echo_payload(content: Seq<u8>) -> Seq<u8> {
    if content.len() == 0 {
        Seq::empty()
    } else {
        seq![0x0au8] + varint_bytes(content.len() as u64) + content
    }
}

/// One signed integer field under `tag`, omitted when the value is zero.
pub open spec fn int32_field(tag: u8, v: i32) -> Seq<u8> {
    if v == 0 {
        Seq::empty()
    } else {
        seq![tag] + varint_bytes(wide_of_i32(v))
    }
}

/// The body of an add request: its two summands.
pub open spec fn add_request_payload(a: i32, b: i32) -> Seq<u8> {
    int32_field(0x08, a) + int32_field(0x10, b)
}

/// The body of an add response: the sum.
pub open spec fn add_response_payload(result: i32) -> Seq<u8> {
    int32_field(0x08, result)
}

/// `body` wrapped as one length-delimited field under `tag`: the shape of
/// every envelope.
pub open spec fn framed(tag: u8, body: Seq<u8>) -> Seq<u8> {
    seq![tag] + varint_bytes(body.len() as u64) + body
}

/// The bytes of a client envelope.
pub open spec fn client_msg_bytes(m: ClientMsg) -> Seq<u8> {
    match m {
        ClientMsg::Echo { content } => framed(0x0a, echo_payload(content)),
        ClientMsg::Add { a, b } => framed(0x12, add_request_payload(a, b)),
    }
}

/// The bytes of a server envelope.
pub open spec fn server_msg_bytes(m: ServerMsg) -> Seq<u8> {
    match m {
        ServerMsg::Echo { content } => framed(0x0a, echo_payload(content)),
        ServerMsg::AddResp { result } => framed(0x12, add_response_payload(result)),
    }
}

/// Splits an envelope into its tag and its body; the length must account
/// for the whole buffer.
pub open spec fn parse_framed(s: Seq<u8>) -> Option<(u8, Seq<u8>)> {
    if s.len() == 0 {
        None
    } else {
        match parse_varint(s, 1) {
            None => None,
            Some((n, j)) => {
                if j + n == s.len() {
                    Some((s[0], s.subrange(j, s.len() as int)))
                } else {
                    None
                }
            },
        }
    }
}

/// Parses an echo body: empty means empty content; otherwise one text
/// field whose length reaches the end of the buffer and whose bytes are
/// valid UTF-8.
pub open spec fn parse_echo_payload(s: Seq<u8>) -> Option<Seq<u8>> {
    if s.len() == 0 {
        Some(Seq::empty())
    } else if s[0] == 0x0a {
        match parse_varint(s, 1) {
            None => None,
            Some((n, j)) => {
                if j + n == s.len() && utf8_ok(s.subrange(j, s.len() as int)) {
                    Some(s.subrange(j, s.len() as int))
                } else {
                    None
                }
            },
        }
    } else {
        None
    }
}

/// Parses an add-request body: the two integer fields in order, each
/// optional and zero when absent, consuming the whole buffer.
pub open spec fn parse_add_request_payload(s: Seq<u8>) -> Option<(i32, i32)> {
    if s.len() == 0 {
        Some((0, 0))
    } else if s[0] == 0x08 {
        match parse_varint(s, 1) {
            None => None,
            Some((va, j)) => {
                if j == s.len() {
                    Some((narrow_of_u64(va), 0))
                } else if s[j] == 0x10 {
                    match parse_varint(s, j + 1) {
                        None => None,
                        Some((vb, k)) => {
                            if k == s.len() {
                                Some((narrow_of_u64(va), narrow_of_u64(vb)))
                            } else {
                                None
                            }
                        },
                    }
                } else {
                    None
                }
            },
        }
    } else if s[0] == 0x10 {
        match parse_varint(s, 1) {
            None => None,
            Some((vb, j)) => {
                if j == s.len() {
                    Some((0, narrow_of_u64(vb)))
                } else {
                    None
                }
            },
        }
    } else {
        None
    }
}

/// Parses an add-response body: one optional integer field.
pub open spec fn parse_add_response_payload(s: Seq<u8>) -> Option<i32> {
    if s.len() == 0 {
        Some(0)
    } else if s[0] == 0x08 {
        match parse_varint(s, 1) {
            None => None,
            Some((v, j)) => {
                if j == s.len() {
                    Some(narrow_of_u64(v))
                } else {
                    None
                }
            },
        }
    } else {
        None
    }
}

/// Parses a client envelope. The variants are tried in the fixed trial
/// order — the echo kind before the add kind — and their tags are
/// distinct, so at most one can match.
pub open spec fn parse_client_msg(s: Seq<u8>) -> Option<ClientMsg> {
    match parse_framed(s) {
        None => None,
        Some((tag, body)) => {
            if tag == 0x0a {
                match parse_echo_payload(body) {
                    Some(content) => Some(ClientMsg::Echo { content }),
                    None => None,
                }
            } else if tag == 0x12 {
                match parse_add_request_payload(body) {
                    Some((a, b)) => Some(ClientMsg::Add { a, b }),
                    None => None,
                }
            } else {
                None
            }
        },
    }
}

/// Parses a server envelope, echo kind first.
pub open spec fn parse_server_msg(s: Seq<u8>) -> Option<ServerMsg> {
    match parse_framed(s) {
        None => None,
        Some((tag, body)) => {
            if tag == 0x0a {
                match parse_echo_payload(body) {
                    Some(content) => Some(ServerMsg::Echo { content }),
                    None => None,
                }
            } else if tag == 0x12 {
                match parse_add_response_payload(body) {
                    Some(result) => Some(ServerMsg::AddResp { result }),
                    None => None,
                }
            } else {
                None
            }
        },
    }
}

/// Appends one integer field to `out`.
fn encode_int32_field(tag: u8, v: i32, out: &mut Vec<u8>)
    ensures
        final(out)@ == old(out)@ + int32_field(tag, v),
{
    if v != 0 {
        out.push(tag);
        let w = encode_varint(i32_to_wide(v));
        push_all(out, &w);
        proof {
            assert(out@ =~= old(out)@ + int32_field(tag, v));
        }
    } else {
        proof {
            assert(out@ =~= old(out)@ + int32_field(tag, v));
        }
    }
}

/// Encodes the body of an echo message.
pub fn encode_echo_payload(m: &EchoMessage) -> (out: Vec<u8>)
    ensures
        out@ == echo_payload(m@),
{
    let mut out: Vec<u8> = Vec::new();
    if m.content.len() > 0 {
        out.push(0x0a);
        let lv = encode_varint(m.content.len() as u64);
        push_all(&mut out, &lv);
        push_all(&mut out, &m.content);
        proof {
            assert(out@ =~= seq![0x0au8] + varint_bytes(m.content@.len() as u64) + m.content@);
        }
    }
    out
}

/// Encodes the body of an add request.
pub fn encode_add_request_payload(r: &AddRequest) -> (out: Vec<u8>)
    ensures
        out@ == add_request_payload(r.a, r.b),
{
    let mut out: Vec<u8> = Vec::new();
    encode_int32_field(0x08, r.a, &mut out);
    encode_int32_field(0x10, r.b, &mut out);
    proof {
        assert(out@ =~= add_request_payload(r.a, r.b));
    }
    out
}

/// Encodes the body of an add response.
pub fn encode_add_response_payload(r: &AddResponse) -> (out: Vec<u8>)
    ensures
        out@ == add_response_payload(r.result),
{
    let mut out: Vec<u8> = Vec::new();
    encode_int32_field(0x08, r.result, &mut out);
    proof {
        assert(out@ =~= add_response_payload(r.result));
    }
    out
}

/// Wraps a body as one envelope field under `tag`.
fn frame_body(tag: u8, body: &Vec<u8>) -> (out: Vec<u8>)
    ensures
        out@ == framed(tag, body@),
{
    let mut out: Vec<u8> = Vec::new();
    out.push(tag);
    let lv = encode_varint(body.len() as u64);
    push_all(&mut out, &lv);
    push_all(&mut out, body);
    proof {
        assert(out@ =~= framed(tag, body@));
    }
    out
}

/// Encodes a client envelope.
pub fn encode_client_message(m: &ClientMessage) -> (out: Vec<u8>)
    ensures
        out@ == client_msg_bytes(m@),
{
    match m {
        ClientMessage::EchoMessage(e) => {
            let body = encode_echo_payload(e);
            frame_body(0x0a, &body)
        },
        ClientMessage::AddRequest(r) => {
            let body = encode_add_request_payload(r);
            frame_body(0x12, &body)
        },
    }
}

/// Encodes a server envelope.
pub fn encode_server_message(m: &ServerMessage) -> (out: Vec<u8>)
    ensures
        out@ == server_msg_bytes(m@),
{
    match m {
        ServerMessage::EchoMessage(e) => {
            let body = encode_echo_payload(e);
            frame_body(0x0a, &body)
        },
        ServerMessage::AddResponse(r) => {
            let body = encode_add_response_payload(r);
            frame_body(0x12, &body)
        },
    }
}

/// Decodes an echo body, exactly as `parse_echo_payload` describes.
pub fn decode_echo_payload(buf: &Vec<u8>) -> (r: Option<EchoMessage>)
    ensures
        r matches Some(m) ==> parse_echo_payload(buf@) == Some(m@),
        r is None ==> parse_echo_payload(buf@) is None,
{
    if buf.len() == 0 {
        return Some(EchoMessage { content: Vec::new() });
    }
    if buf[0] != 0x0a {
        return None;
    }
    match decode_varint(buf, 1) {
        None => None,
        Some((n, j)) => {
            let rem: usize = buf.len() - j;
            if rem as u64 == n {
                let content = subvec(buf, j, buf.len());
                if utf8_check(&content) {
                    Some(EchoMessage { content })
                } else {
                    None
                }
            } else {
                None
            }
        },
    }
}

/// Decodes an add-request body, exactly as `parse_add_request_payload`
/// describes.
pub fn decode_add_request_payload(buf: &Vec<u8>) -> (r: Option<AddRequest>)
    ensures
        r matches Some(m) ==> parse_add_request_payload(buf@) == Some((m.a, m.b)),
        r is None ==> parse_add_request_payload(buf@) is None,
{
    if buf.len() == 0 {
        return Some(AddRequest { a: 0, b: 0 });
    }
    if buf[0] == 0x08 {
        match decode_varint(buf, 1) {
            None => None,
            Some((va, j)) => {
                if j == buf.len() {
                    Some(AddRequest { a: u64_to_i32(va), b: 0 })
                } else if buf[j] == 0x10 {
                    match decode_varint(buf, j + 1) {
                        None => None,
                        Some((vb, k)) => {
                            if k == buf.len() {
                                Some(AddRequest { a: u64_to_i32(va), b: u64_to_i32(vb) })
                            } else {
                                None
                            }
                        },
                    }
                } else {
                    None
                }
            },
        }
    } else if buf[0] == 0x10 {
        match decode_varint(buf, 1) {
            None => None,
            Some((vb, j)) => {
                if j == buf.len() {
                    Some(AddRequest { a: 0, b: u64_to_i32(vb) })
                } else {
                    None
                }
            },
        }
    } else {
        None
    }
}

/// Decodes an add-response body, exactly as `parse_add_response_payload`
/// describes.
pub fn decode_add_response_payload(buf: &Vec<u8>) -> (r: Option<AddResponse>)
    ensures
        r matches Some(m) ==> parse_add_response_payload(buf@) == Some(m.result),
        r is None ==> parse_add_response_payload(buf@) is None,
{
    if buf.len() == 0 {
        return Some(AddResponse { result: 0 });
    }
    if buf[0] != 0x08 {
        return None;
    }
    match decode_varint(buf, 1) {
        None => None,
        Some((v, j)) => {
            if j == buf.len() {
                Some(AddResponse { result: u64_to_i32(v) })
            } else {
                None
            }
        },
    }
}

/// Decodes a client envelope, exactly as `parse_client_msg` describes.
pub fn decode_client_message(buf: &Vec<u8>) -> (r: Option<ClientMessage>)
    ensures
        r matches Some(m) ==> parse_client_msg(buf@) == Some(m@),
        r is None ==> parse_client_msg(buf@) is None,
{
    if buf.len() == 0 {
        return None;
    }
    let tag: u8 = buf[0];
    if tag != 0x0a && tag != 0x12 {
        return None;
    }
    match decode_varint(buf, 1) {
        None => None,
        Some((n, j)) => {
            let rem: usize = buf.len() - j;
            if rem as u64 != n {
                None
            } else {
                let body = subvec(buf, j, buf.len());
                if tag == 0x0a {
                    match decode_echo_payload(&body) {
                        Some(e) => Some(ClientMessage::EchoMessage(e)),
                        None => None,
                    }
                } else {
                    match decode_add_request_payload(&body) {
                        Some(a) => Some(ClientMessage::AddRequest(a)),
                        None => None,
                    }
                }
            }
        },
    }
}

/// Decodes a server envelope, exactly as `parse_server_msg` describes.
pub fn decode_server_message(buf: &Vec<u8>) -> (r: Option<ServerMessage>)
    ensures
        r matches Some(m) ==> parse_server_msg(buf@) == Some(m@),
        r is None ==> parse_server_msg(buf@) is None,
{
    if buf.len() == 0 {
        return None;
    }
    let tag: u8 = buf[0];
    if tag != 0x0a && tag != 0x12 {
        return None;
    }
    match decode_varint(buf, 1) {
        None => None,
        Some((n, j)) => {
            let rem: usize = buf.len() - j;
            if rem as u64 != n {
                None
            } else {
                let body = subvec(buf, j, buf.len());
                if tag == 0x0a {
                    match decode_echo_payload(&body) {
                        Some(e) => Some(ServerMessage::EchoMessage(e)),
                        None => None,
                    }
                } else {
                    match decode_add_response_payload(&body) {
                        Some(a) => Some(ServerMessage::AddResponse(a)),
                        None => None,
                    }
                }
            }
        },
    }
}

/// Splitting an envelope undoes framing it, for every tag and body.
pub proof fn lemma_parse_framed_of_framed(tag: u8, body: Seq<u8>)
    requires
        body.len() <= 0xffff_ffff_ffff,
    ensures
        parse_framed(framed(tag, body)) == Some((tag, body)),
{
    let n = body.len() as u64;
    let v = varint_bytes(n);
    let s = framed(tag, body);
    assert(s.len() == 1 + v.len() + body.len());
    assert(s.subrange(1, 1 + v.len() as int) =~= v);
    lemma_parse_varint_at(s, 1, n);
    let j = 1 + v.len() as int;
    assert(j + n == s.len());
    assert(s.subrange(j, s.len() as int) =~= body);
    assert(s[0] == tag);
}

/// Parsing an echo body undoes encoding it: every content that an echo
/// message may carry — text, or nothing — survives the round trip.
pub proof fn lemma_echo_payload_round_trip(content: Seq<u8>)
    requires
        content.len() <= 0xffff_ffff,
    ensures
        content.len() == 0 || utf8_ok(content) ==>
            parse_echo_payload(echo_payload(content)) == Some(content),
{
    if content.len() == 0 {
        assert(parse_echo_payload(echo_payload(content)) == Some(Seq::<u8>::empty()));
        assert(Seq::<u8>::empty() =~= content);
    } else if utf8_ok(content) {
        let n = content.len() as u64;
        let v = varint_bytes(n);
        let s = echo_payload(content);
        assert(s.len() == 1 + v.len() + content.len());
        assert(s[0] == 0x0a);
        assert(s.subrange(1, 1 + v.len() as int) =~= v);
        lemma_parse_varint_at(s, 1, n);
        let j = 1 + v.len() as int;
        assert(j + n == s.len());
        assert(s.subrange(j, s.len() as int) =~= content);
    }
}

/// Parsing an add-request body undoes encoding it, for every pair of
/// summands, zero or not.
pub proof fn lemma_add_request_payload_round_trip(a: i32, b: i32)
    ensures
        parse_add_request_payload(add_request_payload(a, b)) == Some((a, b)),
{
    let s = add_request_payload(a, b);
    lemma_narrow_wide(a);
    lemma_narrow_wide(b);
    if a == 0 && b == 0 {
        assert(s.len() == 0);
    } else if a != 0 && b == 0 {
        let va = varint_bytes(wide_of_i32(a));
        assert(s =~= seq![0x08u8] + va);
        assert(s[0] == 0x08);
        assert(s.subrange(1, 1 + va.len() as int) =~= va);
        lemma_parse_varint_at(s, 1, wide_of_i32(a));
        assert(1 + va.len() == s.len());
    } else if a == 0 && b != 0 {
        let vb = varint_bytes(wide_of_i32(b));
        assert(s =~= seq![0x10u8] + vb);
        assert(s[0] == 0x10);
        assert(s.subrange(1, 1 + vb.len() as int) =~= vb);
        lemma_parse_varint_at(s, 1, wide_of_i32(b));
        assert(1 + vb.len() == s.len());
    } else {
        let va = varint_bytes(wide_of_i32(a));
        let vb = varint_bytes(wide_of_i32(b));
        assert(s =~= seq![0x08u8] + va + seq![0x10u8] + vb);
        assert(s[0] == 0x08);
        assert(s.subrange(1, 1 + va.len() as int) =~= va);
        lemma_parse_varint_at(s, 1, wide_of_i32(a));
        let j = 1 + va.len() as int;
        assert(j < s.len());
        assert(s[j] == 0x10);
        assert(s.subrange(j + 1, j + 1 + vb.len() as int) =~= vb);
        lemma_parse_varint_at(s, j + 1, wide_of_i32(b));
        assert(j + 1 + vb.len() == s.len());
    }
}

/// Parsing an add-response body undoes encoding it, for every sum.
pub proof fn lemma_add_response_payload_round_trip(result: i32)
    ensures
        parse_add_response_payload(add_response_payload(result)) == Some(result),
{
    let s = add_response_payload(result);
    lemma_narrow_wide(result);
    if result != 0 {
        let v = varint_bytes(wide_of_i32(result));
        assert(s =~= seq![0x08u8] + v);
        assert(s[0] == 0x08);
        assert(s.subrange(1, 1 + v.len() as int) =~= v);
        lemma_parse_varint_at(s, 1, wide_of_i32(result));
        assert(1 + v.len() == s.len());
    }
}

/// Decoding a client envelope undoes encoding it: for every add request,
/// and for every echo message whose content is text, the decoded message
/// is the one encoded.
pub proof fn lemma_client_msg_round_trip(m: ClientMsg)
    requires
        m matches ClientMsg::Echo { content } ==> content.len() <= 0xffff_ffff,
    ensures
        m matches ClientMsg::Echo { content } ==>
            ((content.len() == 0 || utf8_ok(content)) ==>
                parse_client_msg(client_msg_bytes(m)) == Some(m)),
        m matches ClientMsg::Add { a, b } ==>
            parse_client_msg(client_msg_bytes(m)) == Some(m),
{
    match m {
        ClientMsg::Echo { content } => {
            lemma_varint_len(content.len() as u64);
            lemma_parse_framed_of_framed(0x0a, echo_payload(content));
            lemma_echo_payload_round_trip(content);
        },
        ClientMsg::Add { a, b } => {
            lemma_varint_len(wide_of_i32(a));
            lemma_varint_len(wide_of_i32(b));
            lemma_parse_framed_of_framed(0x12, add_request_payload(a, b));
            lemma_add_request_payload_round_trip(a, b);
        },
    }
}

/// A client message the wire can carry faithfully: echo content is text
/// (or empty) and fits the length a varint prefix can promise here.
pub open spec fn client_msg_wf(m: ClientMsg) -> bool {
    match m {
        ClientMsg::Echo { content } => content.len() <= 0xffff_ffff && (content.len() == 0
            || utf8_ok(content)),
        ClientMsg::Add { .. } => true,
    }
}

/// The encoding is unambiguous: two well-formed client messages with the
/// same bytes are the same message, so the decode trial order can never
/// hand one kind's bytes to the other kind.
pub proof fn lemma_client_encoding_unambiguous(m1: ClientMsg, m2: ClientMsg)
    ensures
        client_msg_wf(m1) && client_msg_wf(m2) && client_msg_bytes(m1) == client_msg_bytes(m2)
            ==> m1 == m2,
{
    if client_msg_wf(m1) && client_msg_wf(m2) && client_msg_bytes(m1) == client_msg_bytes(m2) {
        lemma_client_msg_round_trip(m1);
        lemma_client_msg_round_trip(m2);
    }
}

/// Decoding a server envelope undoes encoding it, in the same way.
pub proof fn lemma_server_msg_round_trip(m: ServerMsg)
    requires
        m matches ServerMsg::Echo { content } ==> content.len() <= 0xffff_ffff,
    ensures
        m matches ServerMsg::Echo { content } ==>
            ((content.len() == 0 || utf8_ok(content)) ==>
                parse_server_msg(server_msg_bytes(m)) == Some(m)),
        m matches ServerMsg::AddResp { result } ==>
            parse_server_msg(server_msg_bytes(m)) == Some(m),
{
    match m {
        ServerMsg::Echo { content } => {
            lemma_varint_len(content.len() as u64);
            lemma_parse_framed_of_framed(0x0a, echo_payload(content));
            lemma_echo_payload_round_trip(content);
        },
        ServerMsg::AddResp { result } => {
            lemma_varint_len(wide_of_i32(result));
            lemma_parse_framed_of_framed(0x12, add_response_payload(result));
            lemma_add_response_payload_round_trip(result);
        },
    }
}

} // verus!
