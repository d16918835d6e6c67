//! The relay between a sandbox and host clients, as a state machine.
//!
//! The sandbox connects outward as a WebSocket client and must first send
//! `AUTH:<hex nonce>` as a text message. Host clients then connect one at a time
//! over plain TCP; each must first write the raw nonce. What follows is tunnelled:
//! host bytes go to the sandbox as binary messages, binary messages from the
//! sandbox go to the host. A connection that fails its check is dropped, and the
//! relay goes on waiting for the real peer. A relay that stops, on request or over an
//! error, sends the sandbox a close message first, where the sandbox is still there.
//!
//! The machine does no I/O. It is told what happened (a [`RelayEvent`]) and
//! answers with what to do next (a list of [`RelayAction`]). The last action of a
//! list is the one whose outcome is the next event; the outcome of those before
//! it does not matter.

use crate::octets::{constant_time_eq, encode_hex};
use crate::text::{same_text, starts_with};
use vstd::prelude::*;
use vstd::string::StringExecFns;

verus! {

/// The length in bytes of the nonce that both peers of a forward present.
pub const NONCE_LEN: usize = 32;

/// How many seconds a fresh connection has for each step of its check.
pub const AUTH_TIMEOUT_SECS: u64 = 5;

/// The most bytes that are read from a host client at once.
pub const HOST_CHUNK_LEN: usize = 8192;

/// What the machine waits for.
#[derive(Clone, Copy, Debug, PartialEq, Eq, Structural)]
pub enum RelayPhase {
    /// The sandbox's connection.
    AwaitingSandbox,
    /// The WebSocket handshake of a connection that may be the sandbox's.
    Handshaking,
    /// The first message of such a connection.
    AwaitingAuth,
    /// A host client's connection.
    AwaitingHost,
    /// The first bytes of a host client.
    CheckingHost,
    /// The announcement of a session to the sandbox.
    OpeningSession,
    /// Traffic in either direction.
    Bridging,
    /// The delivery of a host chunk to the sandbox.
    Forwarding,
    /// The delivery of a sandbox message to the host client.
    Delivering,
    /// Nothing: the relay is over.
    Stopped,
}

/// What reading from the sandbox's WebSocket gives.
#[derive(Debug, PartialEq, Eq)]
pub enum SandboxFrame {
    /// A text message.
    Text(String),
    /// A binary message.
    Binary(Vec<u8>),
    /// A close message.
    Close,
    /// A message that the WebSocket layer deals with: a ping or a pong.
    Control,
    /// The end of the stream.
    Ended,
    /// A read error.
    Failed,
}

/// What happened.
#[derive(Debug, PartialEq, Eq)]
pub enum RelayEvent {
    /// The listener accepted a connection.
    ConnectionAccepted,
    /// The listener failed.
    ListenerFailed,
    /// The owner of the relay asked it to stop.
    ShutdownRequested,
    /// The WebSocket handshake is done.
    HandshakeDone,
    /// The WebSocket handshake failed.
    HandshakeFailed,
    /// The WebSocket handshake took too long.
    HandshakeTimedOut,
    /// The sandbox's WebSocket was read.
    Frame(SandboxFrame),
    /// The first message of a WebSocket took too long.
    FrameTimedOut,
    /// A host client wrote as many bytes as a nonce has.
    HostPrefix([u8; NONCE_LEN]),
    /// A host client went away before that.
    HostPrefixFailed,
    /// A host client took too long over them.
    HostPrefixTimedOut,
    /// A message was sent to the sandbox.
    Sent,
    /// It could not be sent.
    SendFailed,
    /// A host client was read; no bytes mean that it has closed its end.
    HostRead(Vec<u8>),
    /// Reading a host client failed.
    HostReadFailed,
    /// Bytes were written to the host client.
    Written,
    /// They could not be written.
    WriteFailed,
}

/// What to do.
#[derive(Debug, PartialEq, Eq)]
pub enum RelayAction {
    /// Wait for a connection, as the sandbox's, or for a shutdown request.
    AcceptSandbox,
    /// Do the WebSocket handshake on the accepted connection, within the time limit.
    Handshake,
    /// Read the first message, within the time limit.
    ReceiveAuth,
    /// Send a WebSocket close message.
    CloseSandbox,
    /// Drop the connection that was taken for the sandbox's.
    DropSandbox,
    /// Wait for a connection, as a host client's, or for a shutdown request.
    AcceptHost,
    /// Read as many bytes as a nonce has from the host client, within the time limit.
    ReadHostPrefix,
    /// Send a text message to the sandbox.
    SendText(String),
    /// Send a binary message to the sandbox.
    SendBinary(Vec<u8>),
    /// Wait for host bytes, a sandbox message or a shutdown request.
    Exchange,
    /// Write bytes to the host client.
    WriteHost(Vec<u8>),
    /// Drop the host client.
    DropHost,
    /// Stop: drop what is open, and release the listener.
    Stop,
}

/// The contents of a [`SandboxFrame`].
pub enum FrameView {
    Text(Seq<char>),
    Binary(Seq<u8>),
    Close,
    Control,
    Ended,
    Failed,
}

/// The contents of a [`RelayEvent`].
pub enum EventView {
    ConnectionAccepted,
    ListenerFailed,
    ShutdownRequested,
    HandshakeDone,
    HandshakeFailed,
    HandshakeTimedOut,
    Frame(FrameView),
    FrameTimedOut,
    HostPrefix(Seq<u8>),
    HostPrefixFailed,
    HostPrefixTimedOut,
    Sent,
    SendFailed,
    HostRead(Seq<u8>),
    HostReadFailed,
    Written,
    WriteFailed,
}

/// The contents of a [`RelayAction`].
pub enum ActionView {
    AcceptSandbox,
    Handshake,
    ReceiveAuth,
    CloseSandbox,
    DropSandbox,
    AcceptHost,
    ReadHostPrefix,
    SendText(Seq<char>),
    SendBinary(Seq<u8>),
    Exchange,
    WriteHost(Seq<u8>),
    DropHost,
    Stop,
}

impl View for SandboxFrame {
    type V = FrameView;

    open spec fn view(&self) -> FrameView {
        match *self {
            SandboxFrame::Text(t) => FrameView::Text(t@),
            SandboxFrame::Binary(b) => FrameView::Binary(b@),
            SandboxFrame::Close => FrameView::Close,
            SandboxFrame::Control => FrameView::Control,
            SandboxFrame::Ended => FrameView::Ended,
            SandboxFrame::Failed => FrameView::Failed,
        }
    }
}

impl View for RelayEvent {
    type V = EventView;

    open spec fn view(&self) -> EventView {
        match *self {
            RelayEvent::ConnectionAccepted => EventView::ConnectionAccepted,
            RelayEvent::ListenerFailed => EventView::ListenerFailed,
            RelayEvent::ShutdownRequested => EventView::ShutdownRequested,
            RelayEvent::HandshakeDone => EventView::HandshakeDone,
            RelayEvent::HandshakeFailed => EventView::HandshakeFailed,
            RelayEvent::HandshakeTimedOut => EventView::HandshakeTimedOut,
            RelayEvent::Frame(f) => EventView::Frame(f@),
            RelayEvent::FrameTimedOut => EventView::FrameTimedOut,
            RelayEvent::HostPrefix(p) => EventView::HostPrefix(p@),
            RelayEvent::HostPrefixFailed => EventView::HostPrefixFailed,
            RelayEvent::HostPrefixTimedOut => EventView::HostPrefixTimedOut,
            RelayEvent::Sent => EventView::Sent,
            RelayEvent::SendFailed => EventView::SendFailed,
            RelayEvent::HostRead(b) => EventView::HostRead(b@),
            RelayEvent::HostReadFailed => EventView::HostReadFailed,
            RelayEvent::Written => EventView::Written,
            RelayEvent::WriteFailed => EventView::WriteFailed,
        }
    }
}

impl View for RelayAction {
    type V = ActionView;

    open spec fn view(&self) -> ActionView {
        match *self {
            RelayAction::AcceptSandbox => ActionView::AcceptSandbox,
            RelayAction::Handshake => ActionView::Handshake,
            RelayAction::ReceiveAuth => ActionView::ReceiveAuth,
            RelayAction::CloseSandbox => ActionView::CloseSandbox,
            RelayAction::DropSandbox => ActionView::DropSandbox,
            RelayAction::AcceptHost => ActionView::AcceptHost,
            RelayAction::ReadHostPrefix => ActionView::ReadHostPrefix,
            RelayAction::SendText(t) => ActionView::SendText(t@),
            RelayAction::SendBinary(b) => ActionView::SendBinary(b@),
            RelayAction::Exchange => ActionView::Exchange,
            RelayAction::WriteHost(b) => ActionView::WriteHost(b@),
            RelayAction::DropHost => ActionView::DropHost,
            RelayAction::Stop => ActionView::Stop,
        }
    }
}

/// The contents of a list of actions.
pub open spec fn action_views(actions: Seq<RelayAction>) -> Seq<ActionView> {
    actions.map_values(|a: RelayAction| a@)
}

/// What the current or the last session has carried.
#[derive(Clone, Copy, Debug, PartialEq, Eq, Structural)]
pub struct Traffic {
    /// Bytes read from the host client.
    pub host_to_sandbox_bytes: u64,
    /// Non-empty reads from the host client.
    pub host_to_sandbox_chunks: u64,
    /// Bytes in binary messages of the sandbox.
    pub sandbox_to_host_bytes: u64,
    /// Binary messages of the sandbox.
    pub sandbox_to_host_chunks: u64,
}

/// [`Traffic`] in natural numbers.
pub struct TrafficView {
    pub host_to_sandbox_bytes: nat,
    pub host_to_sandbox_chunks: nat,
    pub sandbox_to_host_bytes: nat,
    pub sandbox_to_host_chunks: nat,
}

impl View for Traffic {
    type V = TrafficView;

    open spec fn view(&self) -> TrafficView {
        TrafficView {
            host_to_sandbox_bytes: self.host_to_sandbox_bytes as nat,
            host_to_sandbox_chunks: self.host_to_sandbox_chunks as nat,
            sandbox_to_host_bytes: self.sandbox_to_host_bytes as nat,
            sandbox_to_host_chunks: self.sandbox_to_host_chunks as nat,
        }
    }
}

/// The state of a relay.
pub struct RelayView {
    /// What both peers have to present.
    pub nonce: Seq<u8>,
    pub phase: RelayPhase,
    pub traffic: TrafficView,
}

/// The first message of the real sandbox.
pub open spec fn auth_text(nonce: Seq<u8>) -> Seq<char> {
    "AUTH:"@ + crate::octets::hex_text(nonce)
}

/// The announcement of a session.
pub open spec fn session_start() -> Seq<char> {
    "SESSION_START"@
}

/// The end of a session, as either side says it.
pub open spec fn session_end() -> Seq<char> {
    "SESSION_END"@
}

/// Whether a text message of the sandbox says that the session is over: its
/// target has closed, or could not be reached.
pub open spec fn ends_session(text: Seq<char>) -> bool {
    crate::text::has_prefix(text, "SESSION_FAILED:"@) || text == session_end()
}

pub open spec fn no_traffic() -> TrafficView {
    TrafficView {
        host_to_sandbox_bytes: 0,
        host_to_sandbox_chunks: 0,
        sandbox_to_host_bytes: 0,
        sandbox_to_host_chunks: 0,
    }
}

/// A relay that has just been made.
pub open spec fn initial(nonce: Seq<u8>) -> RelayView {
    RelayView { nonce, phase: RelayPhase::AwaitingSandbox, traffic: no_traffic() }
}

/// Which events can come while the relay waits in `phase`.
pub open spec fn expects(phase: RelayPhase, event: EventView) -> bool {
    match phase {
        RelayPhase::AwaitingSandbox | RelayPhase::AwaitingHost => {
            ||| event is ConnectionAccepted
            ||| event is ListenerFailed
            ||| event is ShutdownRequested
        },
        RelayPhase::Handshaking => {
            ||| event is HandshakeDone
            ||| event is HandshakeFailed
            ||| event is HandshakeTimedOut
        },
        RelayPhase::AwaitingAuth => event is Frame || event is FrameTimedOut,
        RelayPhase::CheckingHost => {
            ||| event is HostPrefix
            ||| event is HostPrefixFailed
            ||| event is HostPrefixTimedOut
        },
        RelayPhase::OpeningSession | RelayPhase::Forwarding => event is Sent || event is SendFailed,
        RelayPhase::Bridging => {
            ||| event matches EventView::HostRead(bytes) && bytes.len() <= HOST_CHUNK_LEN
            ||| event is HostReadFailed
            ||| event is Frame
            ||| event is ShutdownRequested
        },
        RelayPhase::Delivering => event is Written || event is WriteFailed,
        RelayPhase::Stopped => false,
    }
}

/// The traffic after an event of the bridging phase: host chunks and binary
/// messages count, whether or not they can be delivered.
pub open spec fn counted(traffic: TrafficView, event: EventView) -> TrafficView {
    match event {
        EventView::HostRead(bytes) => if bytes.len() == 0 {
            traffic
        } else {
            TrafficView {
                host_to_sandbox_bytes: traffic.host_to_sandbox_bytes + bytes.len(),
                host_to_sandbox_chunks: traffic.host_to_sandbox_chunks + 1,
                ..traffic
            }
        },
        EventView::Frame(FrameView::Binary(bytes)) => TrafficView {
            sandbox_to_host_bytes: traffic.sandbox_to_host_bytes + bytes.len(),
            sandbox_to_host_chunks: traffic.sandbox_to_host_chunks + 1,
            ..traffic
        },
        _ => traffic,
    }
}

/// Whether the counters can hold `traffic`.
pub open spec fn countable(traffic: TrafficView) -> bool {
    &&& traffic.host_to_sandbox_bytes <= u64::MAX
    &&& traffic.host_to_sandbox_chunks <= u64::MAX
    &&& traffic.sandbox_to_host_bytes <= u64::MAX
    &&& traffic.sandbox_to_host_chunks <= u64::MAX
}

/// The connection that was taken for the sandbox's is not: wait for the next.
pub open spec fn reject_sandbox(close: bool) -> (RelayPhase, Seq<ActionView>) {
    (
        RelayPhase::AwaitingSandbox,
        if close {
            seq![ActionView::CloseSandbox, ActionView::DropSandbox, ActionView::AcceptSandbox]
        } else {
            seq![ActionView::DropSandbox, ActionView::AcceptSandbox]
        },
    )
}

/// The session is over while the sandbox is still there: tell it, and wait for
/// the next host client.
pub open spec fn end_session() -> (RelayPhase, Seq<ActionView>) {
    (
        RelayPhase::AwaitingHost,
        seq![ActionView::SendText(session_end()), ActionView::DropHost, ActionView::AcceptHost],
    )
}

/// The sandbox went away during a session: there is nobody left to relay to.
pub open spec fn lose_sandbox() -> (RelayPhase, Seq<ActionView>) {
    (RelayPhase::Stopped, seq![ActionView::DropHost, ActionView::Stop])
}

/// Where `event` leads from `phase`, and what is to be done about it.
pub open spec fn react(nonce: Seq<u8>, phase: RelayPhase, event: EventView) -> (
    RelayPhase,
    Seq<ActionView>,
) {
    let bridging = (RelayPhase::Bridging, seq![ActionView::Exchange]);
    match phase {
        RelayPhase::AwaitingSandbox => match event {
            EventView::ConnectionAccepted => (
                RelayPhase::Handshaking,
                seq![ActionView::Handshake],
            ),
            _ => (RelayPhase::Stopped, seq![ActionView::Stop]),
        },
        RelayPhase::Handshaking => match event {
            EventView::HandshakeDone => (RelayPhase::AwaitingAuth, seq![ActionView::ReceiveAuth]),
            _ => reject_sandbox(false),
        },
        RelayPhase::AwaitingAuth => match event {
            EventView::Frame(FrameView::Text(t)) => if t == auth_text(nonce) {
                (RelayPhase::AwaitingHost, seq![ActionView::AcceptHost])
            } else {
                reject_sandbox(true)
            },
            EventView::Frame(FrameView::Ended) => reject_sandbox(false),
            EventView::Frame(FrameView::Failed) => reject_sandbox(false),
            _ => reject_sandbox(true),
        },
        RelayPhase::AwaitingHost => match event {
            EventView::ConnectionAccepted => (
                RelayPhase::CheckingHost,
                seq![ActionView::ReadHostPrefix],
            ),
            _ => (RelayPhase::Stopped, seq![ActionView::CloseSandbox, ActionView::Stop]),
        },
        RelayPhase::CheckingHost => if event == EventView::HostPrefix(nonce) {
            (RelayPhase::OpeningSession, seq![ActionView::SendText(session_start())])
        } else {
            (RelayPhase::AwaitingHost, seq![ActionView::DropHost, ActionView::AcceptHost])
        },
        RelayPhase::OpeningSession => match event {
            EventView::Sent => bridging,
            _ => lose_sandbox(),
        },
        RelayPhase::Bridging => match event {
            EventView::HostRead(bytes) => if bytes.len() == 0 {
                end_session()
            } else {
                (RelayPhase::Forwarding, seq![ActionView::SendBinary(bytes)])
            },
            EventView::HostReadFailed => end_session(),
            EventView::Frame(FrameView::Binary(bytes)) => (
                RelayPhase::Delivering,
                seq![ActionView::WriteHost(bytes)],
            ),
            EventView::Frame(FrameView::Text(t)) => if ends_session(t) {
                end_session()
            } else {
                bridging
            },
            EventView::Frame(FrameView::Control) => bridging,
            EventView::Frame(_) => lose_sandbox(),
            _ => (
                RelayPhase::Stopped,
                seq![ActionView::CloseSandbox, ActionView::DropHost, ActionView::Stop],
            ),
        },
        RelayPhase::Forwarding => match event {
            EventView::Sent => bridging,
            _ => lose_sandbox(),
        },
        RelayPhase::Delivering => match event {
            EventView::Written => bridging,
            _ => end_session(),
        },
        RelayPhase::Stopped => (RelayPhase::Stopped, Seq::empty()),
    }
}

/// The state after `event`: each session counts its traffic from nothing.
pub open spec fn next(s: RelayView, event: EventView) -> RelayView {
    let phase = react(s.nonce, s.phase, event).0;
    RelayView {
        nonce: s.nonce,
        phase,
        traffic: match s.phase {
            RelayPhase::OpeningSession => no_traffic(),
            RelayPhase::Bridging => counted(s.traffic, event),
            _ => s.traffic,
        },
    }
}

fn list1(a: RelayAction) -> (actions: Vec<RelayAction>)
    ensures
        action_views(actions@) == seq![a@],
{
    let mut actions: Vec<RelayAction> = Vec::new();
    actions.push(a);
    assert(action_views(actions@) =~= seq![a@]);
    actions
}

fn list2(a: RelayAction, b: RelayAction) -> (actions: Vec<RelayAction>)
    ensures
        action_views(actions@) == seq![a@, b@],
{
    let mut actions: Vec<RelayAction> = Vec::new();
    actions.push(a);
    actions.push(b);
    assert(action_views(actions@) =~= seq![a@, b@]);
    actions
}

fn list3(a: RelayAction, b: RelayAction, c: RelayAction) -> (actions: Vec<RelayAction>)
    ensures
        action_views(actions@) == seq![a@, b@, c@],
{
    let mut actions: Vec<RelayAction> = Vec::new();
    actions.push(a);
    actions.push(b);
    actions.push(c);
    assert(action_views(actions@) =~= seq![a@, b@, c@]);
    actions
}

/// A relay for one forward.
pub struct Relay {
    nonce: [u8; NONCE_LEN],
    expected_auth: String,
    phase: RelayPhase,
    traffic: Traffic,
}

impl View for Relay {
    type V = RelayView;

    closed spec fn view(&self) -> RelayView {
        RelayView { nonce: self.nonce@, phase: self.phase, traffic: self.traffic@ }
    }
}

impl Relay {
    #[verifier::type_invariant]
    spec fn well_formed(&self) -> bool {
        self.expected_auth@ == auth_text(self.nonce@)
    }

    /// Makes a relay whose peers have to present `nonce`, which must be fresh for
    /// each forward. Its first action is [`RelayAction::AcceptSandbox`].
    pub fn new(nonce: [u8; NONCE_LEN]) -> (relay: Relay)
        ensures
            relay@ == initial(nonce@),
    {
        let mut expected_auth = "AUTH:".to_owned();
        let hex = encode_hex(&nonce);
        expected_auth.append(hex.as_str());
        Relay {
            nonce,
            expected_auth,
            phase: RelayPhase::AwaitingSandbox,
            traffic: Traffic {
                host_to_sandbox_bytes: 0,
                host_to_sandbox_chunks: 0,
                sandbox_to_host_bytes: 0,
                sandbox_to_host_chunks: 0,
            },
        }
    }

    /// What the relay waits for.
    pub fn phase(&self) -> (phase: RelayPhase)
        ensures
            phase == self@.phase,
    {
        self.phase
    }

    /// What the current or the last session has carried.
    pub fn traffic(&self) -> (traffic: Traffic)
        ensures
            traffic@ == self@.traffic,
    {
        self.traffic
    }

    /// Whether `event` can come now and the counters can take it.
    pub fn admits(&self, event: &RelayEvent) -> (admitted: bool)
        ensures
            admitted == (expects(self@.phase, event@) && countable(next(self@, event@).traffic)),
    {
        match self.phase {
            RelayPhase::AwaitingSandbox | RelayPhase::AwaitingHost => matches!(
                event,
                RelayEvent::ConnectionAccepted
                    | RelayEvent::ListenerFailed
                    | RelayEvent::ShutdownRequested
            ),
            RelayPhase::Handshaking => matches!(
                event,
                RelayEvent::HandshakeDone
                    | RelayEvent::HandshakeFailed
                    | RelayEvent::HandshakeTimedOut
            ),
            RelayPhase::AwaitingAuth => matches!(
                event,
                RelayEvent::Frame(_) | RelayEvent::FrameTimedOut
            ),
            RelayPhase::CheckingHost => matches!(
                event,
                RelayEvent::HostPrefix(_)
                    | RelayEvent::HostPrefixFailed
                    | RelayEvent::HostPrefixTimedOut
            ),
            RelayPhase::OpeningSession | RelayPhase::Forwarding => matches!(
                event,
                RelayEvent::Sent | RelayEvent::SendFailed
            ),
            RelayPhase::Bridging => match event {
                RelayEvent::HostRead(bytes) => bytes.len() <= HOST_CHUNK_LEN && (bytes.len() == 0
                    || (self.traffic.host_to_sandbox_bytes <= u64::MAX - bytes.len() as u64
                    && self.traffic.host_to_sandbox_chunks < u64::MAX)),
                RelayEvent::Frame(SandboxFrame::Binary(bytes)) =>
                    self.traffic.sandbox_to_host_bytes <= u64::MAX - bytes.len() as u64
                        && self.traffic.sandbox_to_host_chunks < u64::MAX,
                RelayEvent::Frame(_)
                    | RelayEvent::HostReadFailed
                    | RelayEvent::ShutdownRequested => true,
                _ => false,
            },
            RelayPhase::Delivering => matches!(
                event,
                RelayEvent::Written | RelayEvent::WriteFailed
            ),
            RelayPhase::Stopped => false,
        }
    }

    fn reject_sandbox(&mut self, close: bool) -> (actions: Vec<RelayAction>)
        ensures
            (final(self)@.phase, action_views(actions@)) == reject_sandbox(close),
            final(self)@.nonce == old(self)@.nonce,
            final(self)@.traffic == old(self)@.traffic,
    {
        proof {
            use_type_invariant(&*self);
        }
        self.phase = RelayPhase::AwaitingSandbox;
        if close {
            list3(RelayAction::CloseSandbox, RelayAction::DropSandbox, RelayAction::AcceptSandbox)
        } else {
            list2(RelayAction::DropSandbox, RelayAction::AcceptSandbox)
        }
    }

    fn end_session(&mut self) -> (actions: Vec<RelayAction>)
        ensures
            (final(self)@.phase, action_views(actions@)) == end_session(),
            final(self)@.nonce == old(self)@.nonce,
            final(self)@.traffic == old(self)@.traffic,
    {
        proof {
            use_type_invariant(&*self);
        }
        self.phase = RelayPhase::AwaitingHost;
        list3(
            RelayAction::SendText("SESSION_END".to_owned()),
            RelayAction::DropHost,
            RelayAction::AcceptHost,
        )
    }

    fn lose_sandbox(&mut self) -> (actions: Vec<RelayAction>)
        ensures
            (final(self)@.phase, action_views(actions@)) == lose_sandbox(),
            final(self)@.nonce == old(self)@.nonce,
            final(self)@.traffic == old(self)@.traffic,
    {
        proof {
            use_type_invariant(&*self);
        }
        self.phase = RelayPhase::Stopped;
        list2(RelayAction::DropHost, RelayAction::Stop)
    }

    fn exchange(&mut self) -> (actions: Vec<RelayAction>)
        ensures
            final(self)@ == (RelayView { phase: RelayPhase::Bridging, ..old(self)@ }),
            action_views(actions@) == seq![ActionView::Exchange],
    {
        proof {
            use_type_invariant(&*self);
        }
        self.phase = RelayPhase::Bridging;
        list1(RelayAction::Exchange)
    }

    /// Takes note of `event` and says what to do next.
    pub fn step(&mut self, event: RelayEvent) -> (actions: Vec<RelayAction>)
        requires
            expects(old(self)@.phase, event@),
            countable(next(old(self)@, event@).traffic),
        ensures
            final(self)@ == next(old(self)@, event@),
            action_views(actions@) == react(old(self)@.nonce, old(self)@.phase, event@).1,
    {
        proof {
            use_type_invariant(&*self);
        }
        match self.phase {
            RelayPhase::AwaitingSandbox => match event {
                RelayEvent::ConnectionAccepted => {
                    self.phase = RelayPhase::Handshaking;
                    list1(RelayAction::Handshake)
                },
                _ => {
                    self.phase = RelayPhase::Stopped;
                    list1(RelayAction::Stop)
                },
            },
            RelayPhase::Handshaking => match event {
                RelayEvent::HandshakeDone => {
                    self.phase = RelayPhase::AwaitingAuth;
                    list1(RelayAction::ReceiveAuth)
                },
                _ => self.reject_sandbox(false),
            },
            RelayPhase::AwaitingAuth => self.check_sandbox(event),
            RelayPhase::AwaitingHost => match event {
                RelayEvent::ConnectionAccepted => {
                    self.phase = RelayPhase::CheckingHost;
                    list1(RelayAction::ReadHostPrefix)
                },
                _ => {
                    self.phase = RelayPhase::Stopped;
                    list2(RelayAction::CloseSandbox, RelayAction::Stop)
                },
            },
            RelayPhase::CheckingHost => self.check_host(event),
            RelayPhase::OpeningSession => {
                self.traffic = Traffic {
                    host_to_sandbox_bytes: 0,
                    host_to_sandbox_chunks: 0,
                    sandbox_to_host_bytes: 0,
                    sandbox_to_host_chunks: 0,
                };
                match event {
                    RelayEvent::Sent => self.exchange(),
                    _ => self.lose_sandbox(),
                }
            },
            RelayPhase::Bridging => self.bridge(event),
            RelayPhase::Forwarding => match event {
                RelayEvent::Sent => self.exchange(),
                _ => self.lose_sandbox(),
            },
            RelayPhase::Delivering => match event {
                RelayEvent::Written => self.exchange(),
                _ => self.end_session(),
            },
            RelayPhase::Stopped => Vec::new(),
        }
    }

    /// The first message of a connection that may be the sandbox's.
    fn check_sandbox(&mut self, event: RelayEvent) -> (actions: Vec<RelayAction>)
        requires
            old(self)@.phase == RelayPhase::AwaitingAuth,
            expects(old(self)@.phase, event@),
        ensures
            final(self)@ == next(old(self)@, event@),
            action_views(actions@) == react(old(self)@.nonce, old(self)@.phase, event@).1,
    {
        proof {
            use_type_invariant(&*self);
        }
        match event {
            RelayEvent::Frame(SandboxFrame::Text(t)) => {
                proof {
                    crate::text::lemma_utf8_injective(t@, self.expected_auth@);
                }
                if constant_time_eq(t.as_str().as_bytes(), self.expected_auth.as_str().as_bytes()) {
                    self.phase = RelayPhase::AwaitingHost;
                    list1(RelayAction::AcceptHost)
                } else {
                    self.reject_sandbox(true)
                }
            },
            RelayEvent::Frame(SandboxFrame::Ended) => self.reject_sandbox(false),
            RelayEvent::Frame(SandboxFrame::Failed) => self.reject_sandbox(false),
            _ => self.reject_sandbox(true),
        }
    }

    /// The first bytes of a host client.
    fn check_host(&mut self, event: RelayEvent) -> (actions: Vec<RelayAction>)
        requires
            old(self)@.phase == RelayPhase::CheckingHost,
            expects(old(self)@.phase, event@),
        ensures
            final(self)@ == next(old(self)@, event@),
            action_views(actions@) == react(old(self)@.nonce, old(self)@.phase, event@).1,
    {
        proof {
            use_type_invariant(&*self);
        }
        let genuine = match event {
            RelayEvent::HostPrefix(prefix) => constant_time_eq(&prefix, &self.nonce),
            _ => false,
        };
        if genuine {
            self.phase = RelayPhase::OpeningSession;
            list1(RelayAction::SendText("SESSION_START".to_owned()))
        } else {
            self.phase = RelayPhase::AwaitingHost;
            list2(RelayAction::DropHost, RelayAction::AcceptHost)
        }
    }

    /// Traffic in either direction.
    fn bridge(&mut self, event: RelayEvent) -> (actions: Vec<RelayAction>)
        requires
            old(self)@.phase == RelayPhase::Bridging,
            expects(old(self)@.phase, event@),
            countable(next(old(self)@, event@).traffic),
        ensures
            final(self)@ == next(old(self)@, event@),
            action_views(actions@) == react(old(self)@.nonce, old(self)@.phase, event@).1,
    {
        proof {
            use_type_invariant(&*self);
        }
        match event {
            RelayEvent::HostRead(bytes) => if bytes.len() == 0 {
                self.end_session()
            } else {
                self.traffic.host_to_sandbox_chunks = self.traffic.host_to_sandbox_chunks + 1;
                self.traffic.host_to_sandbox_bytes = self.traffic.host_to_sandbox_bytes
                    + bytes.len() as u64;
                self.phase = RelayPhase::Forwarding;
                list1(RelayAction::SendBinary(bytes))
            },
            RelayEvent::HostReadFailed => self.end_session(),
            RelayEvent::Frame(SandboxFrame::Binary(bytes)) => {
                self.traffic.sandbox_to_host_chunks = self.traffic.sandbox_to_host_chunks + 1;
                self.traffic.sandbox_to_host_bytes = self.traffic.sandbox_to_host_bytes
                    + bytes.len() as u64;
                self.phase = RelayPhase::Delivering;
                list1(RelayAction::WriteHost(bytes))
            },
            RelayEvent::Frame(SandboxFrame::Text(t)) => {
                if starts_with(t.as_str(), "SESSION_FAILED:") || same_text(
                    t.as_str(),
                    "SESSION_END",
                ) {
                    self.end_session()
                } else {
                    self.exchange()
                }
            },
            RelayEvent::Frame(SandboxFrame::Control) => self.exchange(),
            RelayEvent::Frame(_) => self.lose_sandbox(),
            _ => {
                self.phase = RelayPhase::Stopped;
                list3(RelayAction::CloseSandbox, RelayAction::DropHost, RelayAction::Stop)
            },
        }
    }
}

} // verus!
