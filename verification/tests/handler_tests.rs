use echo_add_server::codec::{decode_server_message, encode_client_message};
use echo_add_server::handler::{
    add_wrapping, connection_continues, handle_payload, handle_read_event, HandlerAction,
    ReadEvent, READ_RETRY_MILLIS, READ_TIMEOUT_SECS, RECV_BUFFER_BYTES,
};
use echo_add_server::message::{AddRequest, ClientMessage, EchoMessage, ServerMessage};

fn echo_request(text: &str) -> Vec<u8> {
    encode_client_message(&ClientMessage::EchoMessage(EchoMessage {
        content: text.as_bytes().to_vec(),
    }))
}

fn add_request(a: i32, b: i32) -> Vec<u8> {
    encode_client_message(&ClientMessage::AddRequest(AddRequest { a, b }))
}

fn echoed_content(response: &Vec<u8>) -> Vec<u8> {
    match decode_server_message(response) {
        Some(ServerMessage::EchoMessage(e)) => e.content,
        _ => panic!("expected an echo message in the response"),
    }
}

fn sum_result(response: &Vec<u8>) -> i32 {
    match decode_server_message(response) {
        Some(ServerMessage::AddResponse(r)) => r.result,
        _ => panic!("expected an add response in the response"),
    }
}

#[test]
fn echo_request_draws_same_content() {
    let req = echo_request("Hello, World!");
    let resp = handle_payload(&req).expect("an echo request draws a response");
    assert_eq!(echoed_content(&resp), b"Hello, World!".to_vec());
}

#[test]
fn add_request_draws_sum() {
    let req = add_request(10, 20);
    let resp = handle_payload(&req).expect("an add request draws a response");
    assert_eq!(sum_result(&resp), 30);
}

#[test]
fn three_echoes_in_order() {
    let texts = ["Hello, World!", "How are you?", "Goodbye!"];
    let mut answers: Vec<Vec<u8>> = Vec::new();
    for text in texts {
        let resp = handle_payload(&echo_request(text)).expect("each echo draws a response");
        answers.push(echoed_content(&resp));
    }
    assert_eq!(answers.len(), 3);
    for (text, answer) in texts.iter().zip(answers.iter()) {
        assert_eq!(answer, &text.as_bytes().to_vec());
    }
}

#[test]
fn connections_get_only_their_own_answers() {
    // Three connections, served in interleaved order: each response is a
    // function of its own connection's request alone.
    let texts = ["Hello, World!", "How are you?", "Goodbye!"];
    for round in 0..3 {
        for text in texts {
            let resp = handle_payload(&echo_request(text)).expect("a response per request");
            assert_eq!(echoed_content(&resp), text.as_bytes().to_vec());
        }
        let resp = handle_payload(&add_request(round, 100)).expect("a response per request");
        assert_eq!(sum_result(&resp), round + 100);
    }
}

#[test]
fn unknown_payload_draws_no_response() {
    let garbage = vec![0x1b, 0x02, 0xde, 0xad];
    assert!(handle_payload(&garbage).is_none());
    let act = handle_read_event(ReadEvent::Data(garbage));
    assert!(matches!(act, HandlerAction::Ignore));
    // The connection stays open after the warning.
    assert!(connection_continues(true, &act));
}

#[test]
fn zero_byte_read_disconnects_cleanly() {
    let act = handle_read_event(ReadEvent::Closed);
    assert!(matches!(act, HandlerAction::Disconnect));
    assert!(!connection_continues(true, &act));
}

#[test]
fn timeout_pauses_and_retries() {
    let act = handle_read_event(ReadEvent::TimedOut);
    assert!(matches!(act, HandlerAction::Pause));
    assert!(connection_continues(true, &act));
}

#[test]
fn read_failure_abandons_connection() {
    let act = handle_read_event(ReadEvent::Failed);
    assert!(matches!(act, HandlerAction::Abort));
    assert!(!connection_continues(true, &act));
}

#[test]
fn stopped_flag_ends_every_connection() {
    for act in [
        HandlerAction::Ignore,
        HandlerAction::Pause,
        HandlerAction::Reply(Vec::new()),
    ] {
        assert!(!connection_continues(false, &act));
    }
}

#[test]
fn data_event_replies_with_response_bytes() {
    let req = add_request(-5, 3);
    match handle_read_event(ReadEvent::Data(req)) {
        HandlerAction::Reply(out) => assert_eq!(sum_result(&out), -2),
        _ => panic!("expected a reply"),
    }
}

#[test]
fn addition_wraps_on_overflow() {
    assert_eq!(add_wrapping(i32::MAX, 1), i32::MIN);
    assert_eq!(add_wrapping(i32::MIN, -1), i32::MAX);
    assert_eq!(add_wrapping(i32::MAX, i32::MAX), -2);
    let resp = handle_payload(&add_request(i32::MAX, 1)).expect("a response");
    assert_eq!(sum_result(&resp), i32::MIN);
}

#[test]
fn handler_constants_match_the_design() {
    assert_eq!(READ_RETRY_MILLIS, 100);
    assert_eq!(READ_TIMEOUT_SECS, 10);
    assert_eq!(RECV_BUFFER_BYTES, 512);
}
