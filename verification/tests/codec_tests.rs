use echo_add_server::codec::{
    decode_add_request_payload, decode_client_message, decode_server_message,
    encode_client_message, encode_server_message, i32_to_wide, u64_to_i32,
};
use echo_add_server::varint::{decode_varint, encode_varint};
use echo_add_server::message::{
    AddRequest, AddResponse, ClientMessage, EchoMessage, ServerMessage,
};

#[test]
fn varint_single_byte_values() {
    assert_eq!(encode_varint(0), vec![0x00]);
    assert_eq!(encode_varint(1), vec![0x01]);
    assert_eq!(encode_varint(127), vec![0x7f]);
}

#[test]
fn varint_multi_byte_values() {
    assert_eq!(encode_varint(128), vec![0x80, 0x01]);
    assert_eq!(encode_varint(300), vec![0xac, 0x02]);
    assert_eq!(
        encode_varint(u64::MAX),
        vec![0xff, 0xff, 0xff, 0xff, 0xff, 0xff, 0xff, 0xff, 0xff, 0x01]
    );
}

#[test]
fn varint_decode_round_trip() {
    for n in [0u64, 1, 127, 128, 300, 16383, 16384, u64::MAX - 1, u64::MAX] {
        let enc = encode_varint(n);
        let got = decode_varint(&enc, 0);
        assert_eq!(got, Some((n, enc.len())));
    }
}

#[test]
fn varint_decode_rejects_truncated() {
    assert_eq!(decode_varint(&vec![0x80], 0), None);
    assert_eq!(decode_varint(&vec![0xff, 0xff], 0), None);
    assert_eq!(decode_varint(&vec![], 0), None);
}

#[test]
fn varint_decode_rejects_too_wide() {
    // Ten continuation bytes before the final one encode a value past 64
    // bits.
    let wide = vec![0xff, 0xff, 0xff, 0xff, 0xff, 0xff, 0xff, 0xff, 0xff, 0xff, 0x01];
    assert_eq!(decode_varint(&wide, 0), None);
}

#[test]
fn wide_narrow_round_trip() {
    for v in [0i32, 1, -1, 10, -10, i32::MAX, i32::MIN] {
        assert_eq!(u64_to_i32(i32_to_wide(v)), v);
    }
    assert_eq!(i32_to_wide(-1), u64::MAX);
    assert_eq!(i32_to_wide(1), 1);
}

#[test]
fn echo_envelope_exact_bytes() {
    let m = ClientMessage::EchoMessage(EchoMessage {
        content: b"Hello, World!".to_vec(),
    });
    let enc = encode_client_message(&m);
    let mut expect = vec![0x0a, 0x0f, 0x0a, 0x0d];
    expect.extend_from_slice(b"Hello, World!");
    assert_eq!(enc, expect);
}

#[test]
fn add_request_envelope_exact_bytes() {
    let m = ClientMessage::AddRequest(AddRequest { a: 10, b: 20 });
    let enc = encode_client_message(&m);
    assert_eq!(enc, vec![0x12, 0x04, 0x08, 0x0a, 0x10, 0x14]);
}

#[test]
fn add_response_envelope_exact_bytes() {
    let m = ServerMessage::AddResponse(AddResponse { result: 30 });
    let enc = encode_server_message(&m);
    assert_eq!(enc, vec![0x12, 0x02, 0x08, 0x1e]);
}

#[test]
fn client_echo_decode_round_trip() {
    let m = ClientMessage::EchoMessage(EchoMessage {
        content: b"How are you?".to_vec(),
    });
    let enc = encode_client_message(&m);
    match decode_client_message(&enc) {
        Some(ClientMessage::EchoMessage(e)) => {
            assert_eq!(e.content, b"How are you?".to_vec())
        }
        _ => panic!("expected an echo message"),
    }
}

#[test]
fn client_echo_empty_content_round_trip() {
    let m = ClientMessage::EchoMessage(EchoMessage { content: Vec::new() });
    let enc = encode_client_message(&m);
    assert_eq!(enc, vec![0x0a, 0x00]);
    match decode_client_message(&enc) {
        Some(ClientMessage::EchoMessage(e)) => assert_eq!(e.content, Vec::<u8>::new()),
        _ => panic!("expected an echo message"),
    }
}

#[test]
fn client_add_decode_round_trip_negative() {
    let m = ClientMessage::AddRequest(AddRequest { a: -1, b: -2 });
    let enc = encode_client_message(&m);
    match decode_client_message(&enc) {
        Some(ClientMessage::AddRequest(r)) => {
            assert_eq!(r.a, -1);
            assert_eq!(r.b, -2);
        }
        _ => panic!("expected an add request"),
    }
}

#[test]
fn client_add_decode_round_trip_extremes() {
    for (a, b) in [(i32::MIN, i32::MAX), (0, i32::MIN), (i32::MAX, 0)] {
        let m = ClientMessage::AddRequest(AddRequest { a, b });
        let enc = encode_client_message(&m);
        match decode_client_message(&enc) {
            Some(ClientMessage::AddRequest(r)) => {
                assert_eq!(r.a, a);
                assert_eq!(r.b, b);
            }
            _ => panic!("expected an add request"),
        }
    }
}

#[test]
fn server_echo_decode_round_trip() {
    let m = ServerMessage::EchoMessage(EchoMessage {
        content: b"Goodbye!".to_vec(),
    });
    let enc = encode_server_message(&m);
    match decode_server_message(&enc) {
        Some(ServerMessage::EchoMessage(e)) => assert_eq!(e.content, b"Goodbye!".to_vec()),
        _ => panic!("expected an echo message"),
    }
}

#[test]
fn server_add_response_decode_round_trip() {
    let m = ServerMessage::AddResponse(AddResponse { result: -30 });
    let enc = encode_server_message(&m);
    match decode_server_message(&enc) {
        Some(ServerMessage::AddResponse(r)) => assert_eq!(r.result, -30),
        _ => panic!("expected an add response"),
    }
}

#[test]
fn decode_rejects_invalid_utf8_content() {
    // An echo envelope whose content bytes are not UTF-8 decodes as
    // nothing at all.
    let enc = vec![0x0a, 0x04, 0x0a, 0x02, 0xff, 0xfe];
    assert!(decode_client_message(&enc).is_none());
    assert!(decode_server_message(&enc).is_none());
}

#[test]
fn decode_accepts_valid_utf8_content() {
    // The same shape with text content decodes; the two differ only in
    // the content bytes, so the UTF-8 verdict decides.
    let enc = vec![0x0a, 0x04, 0x0a, 0x02, 0x68, 0x69];
    match decode_client_message(&enc) {
        Some(ClientMessage::EchoMessage(e)) => assert_eq!(e.content, b"hi".to_vec()),
        _ => panic!("expected an echo message"),
    }
}

#[test]
fn decode_rejects_empty_and_unknown_tag() {
    assert!(decode_client_message(&Vec::new()).is_none());
    assert!(decode_client_message(&vec![0x1a, 0x00]).is_none());
    assert!(decode_server_message(&vec![0x2a, 0x00]).is_none());
}

#[test]
fn decode_rejects_trailing_bytes() {
    let m = ClientMessage::AddRequest(AddRequest { a: 1, b: 2 });
    let mut enc = encode_client_message(&m);
    enc.push(0x00);
    assert!(decode_client_message(&enc).is_none());
}

#[test]
fn decode_rejects_length_past_end() {
    // The envelope length claims more bytes than the buffer holds.
    let enc = vec![0x0a, 0x05, 0x0a, 0x01, 0x41];
    assert!(decode_client_message(&enc).is_none());
}

#[test]
fn add_payload_field_order_is_fixed() {
    // The second summand's field may not come before the first.
    let swapped = vec![0x10, 0x14, 0x08, 0x0a];
    assert!(decode_add_request_payload(&swapped).is_none());
}
