use openshell_relay::octets::encode_hex;
use openshell_relay::relay::{
    Relay, RelayAction, RelayEvent, RelayPhase, SandboxFrame, Traffic, AUTH_TIMEOUT_SECS,
    HOST_CHUNK_LEN, NONCE_LEN,
};

const NONCE: [u8; NONCE_LEN] = [7; NONCE_LEN];

fn text(t: &str) -> RelayEvent {
    RelayEvent::Frame(SandboxFrame::Text(t.to_string()))
}

fn binary(b: &[u8]) -> RelayEvent {
    RelayEvent::Frame(SandboxFrame::Binary(b.to_vec()))
}

fn send(t: &str) -> RelayAction {
    RelayAction::SendText(t.to_string())
}

fn tell(relay: &mut Relay, event: RelayEvent) -> Vec<RelayAction> {
    assert!(relay.admits(&event), "{event:?} in {:?}", relay.phase());
    relay.step(event)
}

fn auth() -> RelayEvent {
    text(&format!("AUTH:{}", "07".repeat(32)))
}

/// A relay whose sandbox has been accepted.
fn with_sandbox() -> Relay {
    let mut relay = Relay::new(NONCE);
    assert_eq!(tell(&mut relay, RelayEvent::ConnectionAccepted), vec![RelayAction::Handshake]);
    assert_eq!(tell(&mut relay, RelayEvent::HandshakeDone), vec![RelayAction::ReceiveAuth]);
    assert_eq!(tell(&mut relay, auth()), vec![RelayAction::AcceptHost]);
    relay
}

fn open_session(relay: &mut Relay) {
    assert_eq!(
        tell(relay, RelayEvent::ConnectionAccepted),
        vec![RelayAction::ReadHostPrefix]
    );
    assert_eq!(tell(relay, RelayEvent::HostPrefix(NONCE)), vec![send("SESSION_START")]);
    assert_eq!(tell(relay, RelayEvent::Sent), vec![RelayAction::Exchange]);
}

fn session_end() -> Vec<RelayAction> {
    vec![send("SESSION_END"), RelayAction::DropHost, RelayAction::AcceptHost]
}

#[test]
fn limits_of_the_protocol() {
    assert_eq!(NONCE_LEN, 32);
    assert_eq!(AUTH_TIMEOUT_SECS, 5);
    assert_eq!(HOST_CHUNK_LEN, 8192);
}

#[test]
fn sandbox_is_accepted_by_its_hex_nonce() {
    let mut nonce = [0u8; NONCE_LEN];
    for (i, b) in nonce.iter_mut().enumerate() {
        *b = (i * 9) as u8;
    }
    let mut relay = Relay::new(nonce);
    assert_eq!(relay.phase(), RelayPhase::AwaitingSandbox);
    tell(&mut relay, RelayEvent::ConnectionAccepted);
    tell(&mut relay, RelayEvent::HandshakeDone);
    let actions = tell(&mut relay, text(&format!("AUTH:{}", encode_hex(&nonce))));
    assert_eq!(actions, vec![RelayAction::AcceptHost]);
    assert_eq!(relay.phase(), RelayPhase::AwaitingHost);
}

#[test]
fn wrong_first_messages_are_closed_and_the_relay_keeps_waiting() {
    let mut relay = Relay::new(NONCE);
    let wrong = vec![
        text("AUTH:"),
        text(&format!("AUTH:{}", "08".repeat(32))),
        text(&format!("auth:{}", "07".repeat(32))),
        text(&format!("AUTH:{} ", "07".repeat(32))),
        binary(&NONCE),
        RelayEvent::Frame(SandboxFrame::Close),
        RelayEvent::Frame(SandboxFrame::Control),
        RelayEvent::FrameTimedOut,
    ];
    for event in wrong {
        tell(&mut relay, RelayEvent::ConnectionAccepted);
        tell(&mut relay, RelayEvent::HandshakeDone);
        assert_eq!(
            tell(&mut relay, event),
            vec![
                RelayAction::CloseSandbox,
                RelayAction::DropSandbox,
                RelayAction::AcceptSandbox
            ]
        );
        assert_eq!(relay.phase(), RelayPhase::AwaitingSandbox);
    }
    for event in [
        RelayEvent::Frame(SandboxFrame::Ended),
        RelayEvent::Frame(SandboxFrame::Failed),
    ] {
        tell(&mut relay, RelayEvent::ConnectionAccepted);
        tell(&mut relay, RelayEvent::HandshakeDone);
        assert_eq!(
            tell(&mut relay, event),
            vec![RelayAction::DropSandbox, RelayAction::AcceptSandbox]
        );
    }
    for event in [RelayEvent::HandshakeFailed, RelayEvent::HandshakeTimedOut] {
        tell(&mut relay, RelayEvent::ConnectionAccepted);
        assert_eq!(
            tell(&mut relay, event),
            vec![RelayAction::DropSandbox, RelayAction::AcceptSandbox]
        );
    }
    tell(&mut relay, RelayEvent::ConnectionAccepted);
    tell(&mut relay, RelayEvent::HandshakeDone);
    assert_eq!(tell(&mut relay, auth()), vec![RelayAction::AcceptHost]);
}

#[test]
fn wrong_host_clients_are_dropped_and_the_relay_keeps_waiting() {
    let mut relay = with_sandbox();
    let mut almost = NONCE;
    almost[31] = 6;
    for event in [
        RelayEvent::HostPrefix(almost),
        RelayEvent::HostPrefix([0; NONCE_LEN]),
        RelayEvent::HostPrefixFailed,
        RelayEvent::HostPrefixTimedOut,
    ] {
        tell(&mut relay, RelayEvent::ConnectionAccepted);
        assert_eq!(
            tell(&mut relay, event),
            vec![RelayAction::DropHost, RelayAction::AcceptHost]
        );
        assert_eq!(relay.phase(), RelayPhase::AwaitingHost);
    }
    open_session(&mut relay);
}

#[test]
fn bytes_pass_both_ways_and_are_counted() {
    let mut relay = with_sandbox();
    open_session(&mut relay);
    assert_eq!(
        tell(&mut relay, RelayEvent::HostRead(b"GET /".to_vec())),
        vec![RelayAction::SendBinary(b"GET /".to_vec())]
    );
    assert_eq!(tell(&mut relay, RelayEvent::Sent), vec![RelayAction::Exchange]);
    assert_eq!(
        tell(&mut relay, binary(b"200")),
        vec![RelayAction::WriteHost(b"200".to_vec())]
    );
    assert_eq!(tell(&mut relay, RelayEvent::Written), vec![RelayAction::Exchange]);
    assert_eq!(tell(&mut relay, binary(b"")), vec![RelayAction::WriteHost(Vec::new())]);
    assert_eq!(tell(&mut relay, RelayEvent::Written), vec![RelayAction::Exchange]);
    assert_eq!(
        relay.traffic(),
        Traffic {
            host_to_sandbox_bytes: 5,
            host_to_sandbox_chunks: 1,
            sandbox_to_host_bytes: 3,
            sandbox_to_host_chunks: 2,
        }
    );
    assert_eq!(tell(&mut relay, RelayEvent::HostRead(Vec::new())), session_end());
    assert_eq!(relay.traffic().host_to_sandbox_bytes, 5);
    open_session(&mut relay);
    assert_eq!(relay.traffic().host_to_sandbox_bytes, 0);
}

#[test]
fn a_session_ends_when_either_end_of_the_tunnel_does() {
    let ends = vec![
        RelayEvent::HostRead(Vec::new()),
        RelayEvent::HostReadFailed,
        text("SESSION_END"),
        text("SESSION_FAILED:connection refused"),
        text("SESSION_FAILED:"),
    ];
    let mut relay = with_sandbox();
    for event in ends {
        open_session(&mut relay);
        assert_eq!(tell(&mut relay, event), session_end());
        assert_eq!(relay.phase(), RelayPhase::AwaitingHost);
    }
    open_session(&mut relay);
    tell(&mut relay, binary(b"x"));
    assert_eq!(tell(&mut relay, RelayEvent::WriteFailed), session_end());
}

#[test]
fn other_messages_of_the_sandbox_change_nothing() {
    let mut relay = with_sandbox();
    open_session(&mut relay);
    for event in [
        text("SESSION_FAILED"),
        text("SESSION_END "),
        text("SESSION_START"),
        text(""),
        RelayEvent::Frame(SandboxFrame::Control),
    ] {
        assert_eq!(tell(&mut relay, event), vec![RelayAction::Exchange]);
        assert_eq!(relay.phase(), RelayPhase::Bridging);
    }
}

#[test]
fn the_relay_stops_when_the_sandbox_is_gone() {
    let gone = vec![RelayAction::DropHost, RelayAction::Stop];
    for frame in [SandboxFrame::Close, SandboxFrame::Ended, SandboxFrame::Failed] {
        let mut relay = with_sandbox();
        open_session(&mut relay);
        assert_eq!(tell(&mut relay, RelayEvent::Frame(frame)), gone);
        assert_eq!(relay.phase(), RelayPhase::Stopped);
    }
    let mut relay = with_sandbox();
    open_session(&mut relay);
    tell(&mut relay, RelayEvent::HostRead(vec![1]));
    assert_eq!(tell(&mut relay, RelayEvent::SendFailed), gone);
    assert_eq!(relay.traffic().host_to_sandbox_bytes, 1);
    let mut relay = with_sandbox();
    tell(&mut relay, RelayEvent::ConnectionAccepted);
    tell(&mut relay, RelayEvent::HostPrefix(NONCE));
    assert_eq!(tell(&mut relay, RelayEvent::SendFailed), gone);
}

#[test]
fn shutdown_closes_the_sandbox_first() {
    let mut relay = Relay::new(NONCE);
    assert_eq!(
        tell(&mut relay, RelayEvent::ShutdownRequested),
        vec![RelayAction::Stop]
    );
    let mut relay = with_sandbox();
    assert_eq!(
        tell(&mut relay, RelayEvent::ShutdownRequested),
        vec![RelayAction::CloseSandbox, RelayAction::Stop]
    );
    let mut relay = with_sandbox();
    open_session(&mut relay);
    assert_eq!(
        tell(&mut relay, RelayEvent::ShutdownRequested),
        vec![RelayAction::CloseSandbox, RelayAction::DropHost, RelayAction::Stop]
    );
}

#[test]
fn a_listener_failure_stops_the_relay() {
    let mut relay = Relay::new(NONCE);
    assert_eq!(tell(&mut relay, RelayEvent::ListenerFailed), vec![RelayAction::Stop]);
    let mut relay = with_sandbox();
    assert_eq!(
        tell(&mut relay, RelayEvent::ListenerFailed),
        vec![RelayAction::CloseSandbox, RelayAction::Stop]
    );
    assert_eq!(relay.phase(), RelayPhase::Stopped);
}

#[test]
fn a_sandbox_that_is_still_there_is_closed_before_the_relay_stops() {
    for (event, in_session) in [
        (RelayEvent::ListenerFailed, false),
        (RelayEvent::ShutdownRequested, false),
        (RelayEvent::ShutdownRequested, true),
    ] {
        let mut relay = with_sandbox();
        if in_session {
            open_session(&mut relay);
        }
        let actions = tell(&mut relay, event);
        assert_eq!(relay.phase(), RelayPhase::Stopped);
        assert_eq!(actions.first(), Some(&RelayAction::CloseSandbox));
        assert_eq!(actions.last(), Some(&RelayAction::Stop));
    }
}

#[test]
fn binary_messages_come_between_start_and_end_and_none_after_the_close() {
    let mut relay = Relay::new(NONCE);
    let mut done: Vec<RelayAction> = Vec::new();
    let mut events = vec![
        RelayEvent::ConnectionAccepted,
        RelayEvent::HandshakeDone,
        text("AUTH:wrong"),
        RelayEvent::ConnectionAccepted,
        RelayEvent::HandshakeDone,
        auth(),
    ];
    for _ in 0..2 {
        events.extend([
            RelayEvent::ConnectionAccepted,
            RelayEvent::HostPrefix(NONCE),
            RelayEvent::Sent,
            RelayEvent::HostRead(vec![1, 2]),
            RelayEvent::Sent,
            RelayEvent::HostRead(vec![3]),
            RelayEvent::Sent,
            RelayEvent::HostReadFailed,
        ]);
    }
    events.push(RelayEvent::ListenerFailed);
    for event in events {
        done.extend(tell(&mut relay, event));
    }
    let messages: Vec<String> = done
        .iter()
        .filter_map(|action| match action {
            RelayAction::SendText(t) => Some(t.clone()),
            RelayAction::SendBinary(b) => Some(format!("{} bytes", b.len())),
            RelayAction::CloseSandbox => Some("close".to_string()),
            RelayAction::DropSandbox => Some("drop".to_string()),
            _ => None,
        })
        .collect();
    let session = ["SESSION_START", "2 bytes", "1 bytes", "SESSION_END"];
    let expected = [&["close", "drop"][..], &session[..], &session[..], &["close"][..]].concat();
    assert_eq!(messages, expected);
}

#[test]
fn starts_and_ends_take_turns() {
    let mut relay = with_sandbox();
    let mut texts: Vec<String> = Vec::new();
    for _ in 0..3 {
        for event in [
            RelayEvent::ConnectionAccepted,
            RelayEvent::HostPrefix(NONCE),
            RelayEvent::Sent,
            RelayEvent::HostRead(vec![1, 2]),
            RelayEvent::Sent,
            RelayEvent::HostRead(Vec::new()),
        ] {
            for action in tell(&mut relay, event) {
                if let RelayAction::SendText(t) = action {
                    texts.push(t);
                }
            }
        }
    }
    assert_eq!(texts, ["SESSION_START", "SESSION_END"].repeat(3));
}

#[test]
fn events_out_of_turn_are_not_admitted() {
    let relay = Relay::new(NONCE);
    assert!(!relay.admits(&RelayEvent::HostPrefix(NONCE)));
    assert!(!relay.admits(&binary(b"x")));
    assert!(!relay.admits(&RelayEvent::Sent));
    let mut relay = with_sandbox();
    assert!(!relay.admits(&RelayEvent::HostRead(vec![1])));
    open_session(&mut relay);
    assert!(relay.admits(&RelayEvent::HostRead(vec![0; HOST_CHUNK_LEN])));
    assert!(!relay.admits(&RelayEvent::HostRead(vec![0; HOST_CHUNK_LEN + 1])));
    tell(&mut relay, RelayEvent::ShutdownRequested);
    assert!(!relay.admits(&RelayEvent::ShutdownRequested));
}
