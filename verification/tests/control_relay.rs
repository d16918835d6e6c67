use openshell_relay::control::{
    control_response_ok, parse_read_reply, ControlChannelError, ControlRequest, ReadReply,
};
use openshell_relay::control_relay::{ControlAction, ControlEvent, ControlPhase, ControlRelay};
use openshell_relay::json::{JsonMember, JsonValue};
use openshell_relay::relay::NONCE_LEN;

const NONCE: [u8; NONCE_LEN] = [7; NONCE_LEN];
const PORT: u16 = 12345;

fn member(key: &str, value: JsonValue) -> JsonMember {
    JsonMember { key: key.to_string(), value }
}

fn text(t: &str) -> JsonValue {
    JsonValue::Text(t.to_string())
}

fn ok() -> Result<JsonValue, ControlChannelError> {
    Ok(JsonValue::Object(vec![member("ok", JsonValue::Bool(true))]))
}

fn refused() -> Result<JsonValue, ControlChannelError> {
    Ok(JsonValue::Object(vec![member("ok", JsonValue::Bool(false))]))
}

fn failed() -> Result<JsonValue, ControlChannelError> {
    Err(ControlChannelError { message: "timed out".to_string() })
}

fn read(data: Vec<JsonMember>) -> Result<JsonValue, ControlChannelError> {
    Ok(JsonValue::Object(vec![
        member("id", JsonValue::Unsigned(3)),
        member("ok", JsonValue::Bool(true)),
        member("data", JsonValue::Object(data)),
    ]))
}

fn bytes(encoded: &str) -> Result<JsonValue, ControlChannelError> {
    read(vec![member("bytes", text(encoded)), member("eof", JsonValue::Bool(false))])
}

fn tell(relay: &mut ControlRelay, event: ControlEvent) -> Vec<ControlAction> {
    assert!(relay.admits(&event), "{event:?} in {:?}", relay.phase());
    relay.step(event)
}

fn read_request(id: &str) -> Vec<ControlAction> {
    vec![ControlAction::Exchange(ControlRequest::Read { session_id: id.to_string() })]
}

fn close(id: &str) -> ControlAction {
    ControlAction::Request(ControlRequest::Close { session_id: id.to_string() })
}

fn closed(id: &str) -> Vec<ControlAction> {
    vec![close(id), ControlAction::DropHost, ControlAction::AcceptHost]
}

/// Brings a host client to an open forward, and gives the forward's name.
fn open_forward(relay: &mut ControlRelay) -> String {
    assert_eq!(
        tell(relay, ControlEvent::ConnectionAccepted),
        vec![ControlAction::ReadHostPrefix]
    );
    let actions = tell(relay, ControlEvent::HostPrefix(NONCE));
    let id = relay.session_id().to_string();
    assert_eq!(
        actions,
        vec![ControlAction::Request(ControlRequest::Open {
            session_id: id.clone(),
            target_port: PORT
        })]
    );
    assert_eq!(tell(relay, ControlEvent::Replied(ok())), read_request(&id));
    id
}

/// Opens a forward, ends it by a shutdown request or by the client's end of file,
/// and sees that it is closed under its own name before anything else.
fn check_forward_cleanup(interrupt_active: bool) {
    let mut relay = ControlRelay::new(NONCE, PORT);
    tell(&mut relay, ControlEvent::ConnectionAccepted);
    let mut observed: Vec<(String, String)> = Vec::new();
    let mut events = vec![
        ControlEvent::HostPrefix(NONCE),
        ControlEvent::Replied(ok()),
        ControlEvent::ReadReplied(bytes("")),
    ];
    events.push(if interrupt_active {
        ControlEvent::ShutdownRequested
    } else {
        ControlEvent::HostRead(Vec::new())
    });
    let mut last = Vec::new();
    for event in events {
        last = tell(&mut relay, event);
        for action in &last {
            let request = match action {
                ControlAction::Request(request) | ControlAction::Exchange(request) => request,
                _ => continue,
            };
            let JsonValue::Object(members) = request.data() else {
                panic!("the data of a request are an object");
            };
            assert_eq!(members[0].key, "session_id");
            let id = members[0].value.as_str().unwrap().to_string();
            observed.push((request.op().to_string(), id));
        }
    }
    assert_eq!(observed.first().unwrap().0, "forward_open");
    assert_eq!(observed.last().unwrap().0, "forward_close");
    assert_eq!(observed.last().unwrap().1, observed.first().unwrap().1);
    assert_eq!(
        observed.iter().filter(|(op, _)| op == "forward_close").count(),
        1
    );
    if !interrupt_active {
        last = tell(&mut relay, ControlEvent::ShutdownRequested);
    }
    assert_eq!(last.last(), Some(&ControlAction::Stop));
    assert_eq!(relay.phase(), ControlPhase::Stopped);
}

#[test]
fn active_forward_is_closed_before_relay_shutdown_returns() {
    check_forward_cleanup(true);
}

#[test]
fn ordinary_client_eof_still_closes_the_forward() {
    check_forward_cleanup(false);
}

#[test]
fn forwards_are_named_by_fresh_random_bytes() {
    let mut relay = ControlRelay::new(NONCE, PORT);
    assert_eq!(relay.session_id(), "");
    let mut ids: Vec<String> = Vec::new();
    for _ in 0..8 {
        let id = open_forward(&mut relay);
        assert_eq!(id.len(), 64);
        assert!(id.chars().all(|c| c.is_ascii_digit() || ('a'..='f').contains(&c)));
        assert_ne!(id, "00".repeat(32));
        assert!(!ids.contains(&id));
        assert_eq!(tell(&mut relay, ControlEvent::HostReadFailed), closed(&id));
        ids.push(id);
    }
}

#[test]
fn a_forward_is_named_by_the_bytes_drawn() {
    let mut relay = ControlRelay::new(NONCE, PORT);
    relay.step_with(ControlEvent::ConnectionAccepted, &[1; NONCE_LEN]);
    let actions = relay.step_with(ControlEvent::HostPrefix(NONCE), &[0xab; NONCE_LEN]);
    assert_eq!(
        actions,
        vec![ControlAction::Request(ControlRequest::Open {
            session_id: "ab".repeat(32),
            target_port: PORT
        })]
    );
}

#[test]
fn wrong_host_clients_are_dropped_without_a_request() {
    let mut relay = ControlRelay::new(NONCE, PORT);
    for event in [
        ControlEvent::HostPrefix([8; NONCE_LEN]),
        ControlEvent::HostPrefixFailed,
        ControlEvent::HostPrefixTimedOut,
    ] {
        tell(&mut relay, ControlEvent::ConnectionAccepted);
        assert_eq!(
            tell(&mut relay, event),
            vec![ControlAction::DropHost, ControlAction::AcceptHost]
        );
    }
}

#[test]
fn a_refused_opening_is_not_closed() {
    let mut relay = ControlRelay::new(NONCE, PORT);
    for response in [refused(), failed(), Ok(JsonValue::Null)] {
        tell(&mut relay, ControlEvent::ConnectionAccepted);
        tell(&mut relay, ControlEvent::HostPrefix(NONCE));
        assert_eq!(
            tell(&mut relay, ControlEvent::Replied(response)),
            vec![ControlAction::DropHost, ControlAction::AcceptHost]
        );
    }
}

#[test]
fn host_bytes_are_written_in_base64_and_counted_when_confirmed() {
    let mut relay = ControlRelay::new(NONCE, PORT);
    let id = open_forward(&mut relay);
    for (chunk, encoded) in [
        (&b"hello"[..], "aGVsbG8="),
        (&b"hell"[..], "aGVsbA=="),
        (&[0xfb, 0xff, 0xbf][..], "+/+/"),
    ] {
        assert_eq!(
            tell(&mut relay, ControlEvent::HostRead(chunk.to_vec())),
            vec![ControlAction::Request(ControlRequest::Write {
                session_id: id.clone(),
                bytes: encoded.to_string()
            })]
        );
        assert_eq!(tell(&mut relay, ControlEvent::Replied(ok())), read_request(&id));
    }
    assert_eq!(relay.host_to_sandbox_bytes(), 12);
    tell(&mut relay, ControlEvent::HostRead(vec![1, 2, 3]));
    assert_eq!(tell(&mut relay, ControlEvent::Replied(refused())), closed(&id));
    assert_eq!(relay.host_to_sandbox_bytes(), 12);
    open_forward(&mut relay);
    assert_eq!(relay.host_to_sandbox_bytes(), 0);
}

#[test]
fn sandbox_bytes_are_decoded_and_counted_when_delivered() {
    let mut relay = ControlRelay::new(NONCE, PORT);
    let id = open_forward(&mut relay);
    assert_eq!(
        tell(&mut relay, ControlEvent::ReadReplied(bytes("aGVsbG8="))),
        vec![ControlAction::WriteHost(b"hello".to_vec())]
    );
    assert_eq!(relay.sandbox_to_host_bytes(), 0);
    assert_eq!(tell(&mut relay, ControlEvent::Written), read_request(&id));
    assert_eq!(relay.sandbox_to_host_bytes(), 5);
    assert_eq!(tell(&mut relay, ControlEvent::ReadReplied(bytes(""))), read_request(&id));
    tell(&mut relay, ControlEvent::ReadReplied(bytes("AA==")));
    assert_eq!(tell(&mut relay, ControlEvent::WriteFailed), closed(&id));
    assert_eq!(relay.sandbox_to_host_bytes(), 5);
}

#[test]
fn a_forward_is_closed_when_a_read_says_so() {
    let ends = vec![
        failed(),
        refused(),
        read(vec![member("eof", JsonValue::Bool(true)), member("bytes", text("AA=="))]),
        read(vec![member("eof", JsonValue::Bool(false))]),
        read(vec![member("bytes", JsonValue::Unsigned(1))]),
        bytes("no base64!"),
        bytes("aGVsbG8"),
        bytes("aGVsbG9="),
        ok(),
    ];
    let mut relay = ControlRelay::new(NONCE, PORT);
    for response in ends {
        let id = open_forward(&mut relay);
        assert_eq!(tell(&mut relay, ControlEvent::ReadReplied(response)), closed(&id));
    }
}

#[test]
fn what_a_read_reply_says() {
    assert_eq!(parse_read_reply(&bytes("AA==")), ReadReply::Encoded("AA==".to_string()));
    assert_eq!(parse_read_reply(&bytes("")), ReadReply::Idle);
    assert_eq!(
        parse_read_reply(&read(vec![member("bytes", text("x")), member("eof", text("true"))])),
        ReadReply::Encoded("x".to_string())
    );
    assert_eq!(parse_read_reply(&failed()), ReadReply::Finished);
    assert_eq!(
        parse_read_reply(&Ok(JsonValue::Object(vec![member("bytes", text("x"))]))),
        ReadReply::Finished
    );
}

#[test]
fn a_decoded_read_is_delivered_and_an_undecodable_one_closes() {
    let mut relay = ControlRelay::new(NONCE, PORT);
    let id = open_forward(&mut relay);
    assert_eq!(
        relay.deliver(Some(vec![1, 2])),
        vec![ControlAction::WriteHost(vec![1, 2])]
    );
    assert_eq!(tell(&mut relay, ControlEvent::Written), read_request(&id));
    assert_eq!(
        relay.forward(3, "text".to_string()),
        vec![ControlAction::Request(ControlRequest::Write {
            session_id: id.clone(),
            bytes: "text".to_string()
        })]
    );
    tell(&mut relay, ControlEvent::Replied(ok()));
    assert_eq!(relay.host_to_sandbox_bytes(), 3);
    assert_eq!(relay.deliver(None), closed(&id));
}

#[test]
fn only_a_true_ok_is_success() {
    assert!(control_response_ok(&ok()));
    assert!(!control_response_ok(&refused()));
    assert!(!control_response_ok(&failed()));
    assert!(!control_response_ok(&Ok(text("ok"))));
    assert!(!control_response_ok(&Ok(JsonValue::Object(vec![member("ok", text("true"))]))));
    assert!(!control_response_ok(&Ok(JsonValue::Object(Vec::new()))));
    assert!(!control_response_ok(&Ok(JsonValue::Other)));
}

#[test]
fn requests_over_the_control_channel() {
    let id = || "s1".to_string();
    let open = ControlRequest::Open { session_id: id(), target_port: 22000 };
    assert_eq!(open.op(), "forward_open");
    assert_eq!(open.timeout_secs(), 10);
    assert_eq!(
        open.data(),
        JsonValue::Object(vec![
            member("session_id", text("s1")),
            member("target_port", JsonValue::Unsigned(22000)),
        ])
    );
    let write = ControlRequest::Write { session_id: id(), bytes: "AA==".to_string() };
    assert_eq!(write.op(), "forward_write");
    assert_eq!(
        write.data(),
        JsonValue::Object(vec![member("session_id", text("s1")), member("bytes", text("AA=="))])
    );
    let read = ControlRequest::Read { session_id: id() };
    assert_eq!((read.op(), read.timeout_secs()), ("forward_read", 10));
    assert_eq!(read.data(), JsonValue::Object(vec![member("session_id", text("s1"))]));
    let close = ControlRequest::Close { session_id: id() };
    assert_eq!((close.op(), close.timeout_secs()), ("forward_close", 5));
    assert_eq!(close.data(), JsonValue::Object(vec![member("session_id", text("s1"))]));
}

#[test]
fn members_of_objects() {
    let value = JsonValue::Object(vec![
        member("a", JsonValue::Bool(true)),
        member("b", text("x")),
        member("a", JsonValue::Null),
    ]);
    assert_eq!(value.get("a").and_then(JsonValue::as_bool), Some(true));
    assert_eq!(value.get("b").and_then(JsonValue::as_str), Some("x"));
    assert_eq!(value.get("b").and_then(JsonValue::as_bool), None);
    assert!(value.get("c").is_none());
    assert!(text("a").get("a").is_none());
}

#[test]
fn the_relay_stops_when_asked_or_when_the_listener_fails() {
    for event in [ControlEvent::ShutdownRequested, ControlEvent::ListenerFailed] {
        let mut relay = ControlRelay::new(NONCE, PORT);
        assert_eq!(tell(&mut relay, event), vec![ControlAction::Stop]);
        assert_eq!(relay.phase(), ControlPhase::Stopped);
        assert!(!relay.admits(&ControlEvent::ConnectionAccepted));
    }
}

#[test]
fn every_opened_forward_is_closed_once_in_order() {
    let mut relay = ControlRelay::new(NONCE, PORT);
    let mut opened: Vec<String> = Vec::new();
    let mut closes: Vec<String> = Vec::new();
    for round in 0..6 {
        let id = open_forward(&mut relay);
        opened.push(id);
        let event = match round % 3 {
            0 => ControlEvent::HostRead(Vec::new()),
            1 => ControlEvent::ReadReplied(failed()),
            _ => ControlEvent::HostReadFailed,
        };
        for action in tell(&mut relay, event) {
            if let ControlAction::Request(ControlRequest::Close { session_id }) = action {
                closes.push(session_id);
            }
        }
    }
    assert_eq!(opened, closes);
}

#[test]
fn requests_of_forwards_follow_one_another() {
    let mut relay = ControlRelay::new(NONCE, PORT);
    let mut made: Vec<(&'static str, u8)> = Vec::new();
    for (drawn, opened) in [(1, true), (2, false), (3, true)] {
        let mut events = vec![
            ControlEvent::ConnectionAccepted,
            ControlEvent::HostPrefix(NONCE),
            ControlEvent::Replied(if opened { ok() } else { refused() }),
        ];
        if opened {
            events.push(ControlEvent::HostRead(vec![9]));
            events.push(ControlEvent::Replied(ok()));
            events.push(ControlEvent::HostReadFailed);
        }
        for event in events {
            assert!(relay.admits(&event));
            for action in relay.step_with(event, &[drawn; NONCE_LEN]) {
                let request = match action {
                    ControlAction::Request(request) | ControlAction::Exchange(request) => request,
                    _ => continue,
                };
                assert_eq!(
                    request.data().get("session_id").and_then(JsonValue::as_str),
                    Some(format!("{drawn:02x}").repeat(32).as_str())
                );
                made.push((request.op(), drawn));
            }
        }
    }
    assert_eq!(
        made,
        vec![
            ("forward_open", 1),
            ("forward_read", 1),
            ("forward_write", 1),
            ("forward_read", 1),
            ("forward_close", 1),
            ("forward_open", 2),
            ("forward_open", 3),
            ("forward_read", 3),
            ("forward_write", 3),
            ("forward_read", 3),
            ("forward_close", 3),
        ]
    );
}
