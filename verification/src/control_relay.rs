//! The relay whose sandbox leg runs over the control channel, as a state machine.
//!
//! Host clients connect one at a time and must first write the raw nonce. For each
//! of them a forward is opened over the control channel; host bytes are written to
//! it in base64, and it is polled for the bytes that come back. Every forward that
//! was opened is closed before the next host client is accepted or the relay stops.
//!
//! As in [`crate::relay`], the machine does no I/O: it takes a [`ControlEvent`] and
//! answers with a list of [`ControlAction`]. The last action of a list is the one
//! whose outcome is the next event; the outcome of those before it does not matter.

use crate::control;
use crate::control::{
    control_response_ok, parse_read_reply, ControlChannelError, ControlRequest, ReadReply,
    ReadReplyView, RequestView,
};
use crate::encoding;
use crate::encoding::{decode_base64, encode_base64, random_bytes};
use crate::json::JsonValue;
use crate::octets;
use crate::octets::{constant_time_eq, encode_hex};
use crate::relay::{HOST_CHUNK_LEN, NONCE_LEN};
use vstd::prelude::*;

verus! {

/// What the machine waits for.
#[derive(Clone, Copy, Debug, PartialEq, Eq, Structural)]
pub enum ControlPhase {
    /// A host client's connection.
    AwaitingHost,
    /// The first bytes of a host client.
    CheckingHost,
    /// The response to the opening of a forward.
    Opening,
    /// Traffic in either direction.
    Bridging,
    /// The response to a write.
    Forwarding,
    /// The delivery of bytes to the host client.
    Delivering,
    /// Nothing: the relay is over.
    Stopped,
}

/// What happened.
#[derive(Debug, PartialEq, Eq)]
pub enum ControlEvent {
    /// The listener accepted a connection.
    ConnectionAccepted,
    /// The listener failed.
    ListenerFailed,
    /// The owner of the relay asked it to stop.
    ShutdownRequested,
    /// A host client wrote as many bytes as a nonce has.
    HostPrefix([u8; NONCE_LEN]),
    /// A host client went away before that.
    HostPrefixFailed,
    /// A host client took too long over them.
    HostPrefixTimedOut,
    /// The response to an opening or a write.
    Replied(Result<JsonValue, ControlChannelError>),
    /// The response to a read.
    ReadReplied(Result<JsonValue, ControlChannelError>),
    /// A host client was read; no bytes mean that it has closed its end.
    HostRead(Vec<u8>),
    /// Reading a host client failed.
    HostReadFailed,
    /// Bytes were written to the host client.
    Written,
    /// They could not be written.
    WriteFailed,
}

/// What to do.
#[derive(Debug, PartialEq, Eq)]
pub enum ControlAction {
    /// Wait for a connection, or for a shutdown request.
    AcceptHost,
    /// Read as many bytes as a nonce has from the host client, within the time limit.
    ReadHostPrefix,
    /// Make a request over the control channel.
    Request(ControlRequest),
    /// Wait for host bytes, the response to a read, or a shutdown request.
    Exchange(ControlRequest),
    /// Write bytes to the host client.
    WriteHost(Vec<u8>),
    /// Drop the host client.
    DropHost,
    /// Stop: drop what is open, and release the listener.
    Stop,
}

/// The contents of a [`ControlEvent`].
pub enum ControlEventView {
    ConnectionAccepted,
    ListenerFailed,
    ShutdownRequested,
    HostPrefix(Seq<u8>),
    HostPrefixFailed,
    HostPrefixTimedOut,
    Replied(Result<JsonValue, ControlChannelError>),
    ReadReplied(Result<JsonValue, ControlChannelError>),
    HostRead(Seq<u8>),
    HostReadFailed,
    Written,
    WriteFailed,
}

/// The contents of a [`ControlAction`].
pub enum ControlActionView {
    AcceptHost,
    ReadHostPrefix,
    Request(RequestView),
    Exchange(RequestView),
    WriteHost(Seq<u8>),
    DropHost,
    Stop,
}

impl View for ControlEvent {
    type V = ControlEventView;

    open spec fn view(&self) -> ControlEventView {
        match *self {
            ControlEvent::ConnectionAccepted => ControlEventView::ConnectionAccepted,
            ControlEvent::ListenerFailed => ControlEventView::ListenerFailed,
            ControlEvent::ShutdownRequested => ControlEventView::ShutdownRequested,
            ControlEvent::HostPrefix(p) => ControlEventView::HostPrefix(p@),
            ControlEvent::HostPrefixFailed => ControlEventView::HostPrefixFailed,
            ControlEvent::HostPrefixTimedOut => ControlEventView::HostPrefixTimedOut,
            ControlEvent::Replied(r) => ControlEventView::Replied(r),
            ControlEvent::ReadReplied(r) => ControlEventView::ReadReplied(r),
            ControlEvent::HostRead(b) => ControlEventView::HostRead(b@),
            ControlEvent::HostReadFailed => ControlEventView::HostReadFailed,
            ControlEvent::Written => ControlEventView::Written,
            ControlEvent::WriteFailed => ControlEventView::WriteFailed,
        }
    }
}

impl View for ControlAction {
    type V = ControlActionView;

    open spec fn view(&self) -> ControlActionView {
        match *self {
            ControlAction::AcceptHost => ControlActionView::AcceptHost,
            ControlAction::ReadHostPrefix => ControlActionView::ReadHostPrefix,
            ControlAction::Request(r) => ControlActionView::Request(r@),
            ControlAction::Exchange(r) => ControlActionView::Exchange(r@),
            ControlAction::WriteHost(b) => ControlActionView::WriteHost(b@),
            ControlAction::DropHost => ControlActionView::DropHost,
            ControlAction::Stop => ControlActionView::Stop,
        }
    }
}

/// The contents of a list of actions.
pub open spec fn action_views(actions: Seq<ControlAction>) -> Seq<ControlActionView> {
    actions.map_values(|a: ControlAction| a@)
}

/// The state of a control-channel relay.
pub struct ControlView {
    /// What host clients have to present.
    pub nonce: Seq<u8>,
    /// The port of the sandbox that forwards connect to.
    pub target_port: u16,
    pub phase: ControlPhase,
    /// The current or the last forward.
    pub session_id: Seq<char>,
    /// The length of the chunk whose delivery is not known yet.
    pub pending: nat,
    /// Host bytes that the current or the last forward has taken.
    pub host_to_sandbox_bytes: nat,
    /// Bytes of it that the host client has taken.
    pub sandbox_to_host_bytes: nat,
}

/// A relay that has just been made.
pub open spec fn initial(nonce: Seq<u8>, target_port: u16) -> ControlView {
    ControlView {
        nonce,
        target_port,
        phase: ControlPhase::AwaitingHost,
        session_id: Seq::empty(),
        pending: 0,
        host_to_sandbox_bytes: 0,
        sandbox_to_host_bytes: 0,
    }
}

/// Which events can come while the relay waits in `phase`.
pub open spec fn expects(phase: ControlPhase, event: ControlEventView) -> bool {
    match phase {
        ControlPhase::AwaitingHost => {
            ||| event is ConnectionAccepted
            ||| event is ListenerFailed
            ||| event is ShutdownRequested
        },
        ControlPhase::CheckingHost => {
            ||| event is HostPrefix
            ||| event is HostPrefixFailed
            ||| event is HostPrefixTimedOut
        },
        ControlPhase::Opening | ControlPhase::Forwarding => event is Replied,
        ControlPhase::Bridging => {
            ||| event matches ControlEventView::HostRead(bytes) && bytes.len() <= HOST_CHUNK_LEN
            ||| event is HostReadFailed
            ||| event is ReadReplied
            ||| event is ShutdownRequested
        },
        ControlPhase::Delivering => event is Written || event is WriteFailed,
        ControlPhase::Stopped => false,
    }
}

/// Drop the host client and wait for the next.
pub open spec fn drop_host(s: ControlView) -> (ControlView, Seq<ControlActionView>) {
    (
        ControlView { phase: ControlPhase::AwaitingHost, ..s },
        seq![ControlActionView::DropHost, ControlActionView::AcceptHost],
    )
}

/// Close the forward, drop the host client and wait for the next.
pub open spec fn close_forward(s: ControlView) -> (ControlView, Seq<ControlActionView>) {
    (
        ControlView { phase: ControlPhase::AwaitingHost, ..s },
        seq![
            ControlActionView::Request(RequestView::Close { session_id: s.session_id }),
            ControlActionView::DropHost,
            ControlActionView::AcceptHost,
        ],
    )
}

/// Wait for traffic.
pub open spec fn exchange(s: ControlView) -> (ControlView, Seq<ControlActionView>) {
    (
        ControlView { phase: ControlPhase::Bridging, ..s },
        seq![ControlActionView::Exchange(RequestView::Read { session_id: s.session_id })],
    )
}

/// Pass a host chunk of `len` bytes on, whose base64 text is `encoded`.
pub open spec fn forward(s: ControlView, len: nat, encoded: Seq<char>) -> (
    ControlView,
    Seq<ControlActionView>,
) {
    (
        ControlView { phase: ControlPhase::Forwarding, pending: len, ..s },
        seq![
            ControlActionView::Request(
                RequestView::Write { session_id: s.session_id, bytes: encoded },
            ),
        ],
    )
}

/// Pass on what the sandbox sent, where it was base64.
pub open spec fn deliver(s: ControlView, decoded: Option<Seq<u8>>) -> (
    ControlView,
    Seq<ControlActionView>,
) {
    match decoded {
        Some(bytes) => (
            ControlView { phase: ControlPhase::Delivering, pending: bytes.len(), ..s },
            seq![ControlActionView::WriteHost(bytes)],
        ),
        None => close_forward(s),
    }
}

/// The state after `event`, and what is to be done about it. `drawn` are the
/// random bytes that a new forward is named by.
pub open spec fn react(s: ControlView, event: ControlEventView, drawn: Seq<u8>) -> (
    ControlView,
    Seq<ControlActionView>,
) {
    match s.phase {
        ControlPhase::AwaitingHost => if event is ConnectionAccepted {
            (
                ControlView { phase: ControlPhase::CheckingHost, ..s },
                seq![ControlActionView::ReadHostPrefix],
            )
        } else {
            (ControlView { phase: ControlPhase::Stopped, ..s }, seq![ControlActionView::Stop])
        },
        ControlPhase::CheckingHost => if event == ControlEventView::HostPrefix(s.nonce) {
            (
                ControlView {
                    phase: ControlPhase::Opening,
                    session_id: octets::hex_text(drawn),
                    ..s
                },
                seq![
                    ControlActionView::Request(
                        RequestView::Open {
                            session_id: octets::hex_text(drawn),
                            target_port: s.target_port,
                        },
                    ),
                ],
            )
        } else {
            drop_host(s)
        },
        ControlPhase::Opening => if event matches ControlEventView::Replied(r) && control::is_ok(
            r,
        ) {
            exchange(ControlView { host_to_sandbox_bytes: 0, sandbox_to_host_bytes: 0, ..s })
        } else {
            drop_host(s)
        },
        ControlPhase::Bridging => match event {
            ControlEventView::HostRead(bytes) => if bytes.len() == 0 {
                close_forward(s)
            } else {
                forward(s, bytes.len(), encoding::base64_text(bytes))
            },
            ControlEventView::ReadReplied(r) => match control::read_reply(r) {
                ReadReplyView::Finished => close_forward(s),
                ReadReplyView::Idle => exchange(s),
                ReadReplyView::Encoded(t) => deliver(s, encoding::base64_bytes(t)),
            },
            ControlEventView::ShutdownRequested => (
                ControlView { phase: ControlPhase::Stopped, ..s },
                seq![
                    ControlActionView::Request(RequestView::Close { session_id: s.session_id }),
                    ControlActionView::DropHost,
                    ControlActionView::Stop,
                ],
            ),
            _ => close_forward(s),
        },
        ControlPhase::Forwarding => if event matches ControlEventView::Replied(r) && control::is_ok(
            r,
        ) {
            exchange(
                ControlView { host_to_sandbox_bytes: s.host_to_sandbox_bytes + s.pending, ..s },
            )
        } else {
            close_forward(s)
        },
        ControlPhase::Delivering => if event is Written {
            exchange(
                ControlView { sandbox_to_host_bytes: s.sandbox_to_host_bytes + s.pending, ..s },
            )
        } else {
            close_forward(s)
        },
        ControlPhase::Stopped => (s, Seq::empty()),
    }
}

/// Whether a peer that decodes what `actions` write to a forward gets `chunk`.
pub open spec fn writes_decode_to(actions: Seq<ControlActionView>, chunk: Seq<u8>) -> bool {
    forall|k: int|
        0 <= k < actions.len() ==> (#[trigger] actions[k] matches ControlActionView::Request(
            RequestView::Write { bytes, .. },
        ) ==> encoding::base64_bytes(bytes) == Some(chunk))
}

/// Whether the counters can take what `event` adds to them.
pub open spec fn countable(s: ControlView, event: ControlEventView) -> bool {
    &&& s.phase == ControlPhase::Forwarding ==> (event matches ControlEventView::Replied(r)
        && control::is_ok(r) ==> s.host_to_sandbox_bytes + s.pending <= u64::MAX)
    &&& s.phase == ControlPhase::Delivering ==> (event is Written ==> s.sandbox_to_host_bytes
        + s.pending <= u64::MAX)
}

fn list1(a: ControlAction) -> (actions: Vec<ControlAction>)
    ensures
        action_views(actions@) == seq![a@],
{
    let mut actions: Vec<ControlAction> = Vec::new();
    actions.push(a);
    assert(action_views(actions@) =~= seq![a@]);
    actions
}

fn list2(a: ControlAction, b: ControlAction) -> (actions: Vec<ControlAction>)
    ensures
        action_views(actions@) == seq![a@, b@],
{
    let mut actions: Vec<ControlAction> = Vec::new();
    actions.push(a);
    actions.push(b);
    assert(action_views(actions@) =~= seq![a@, b@]);
    actions
}

fn list3(a: ControlAction, b: ControlAction, c: ControlAction) -> (actions: Vec<ControlAction>)
    ensures
        action_views(actions@) == seq![a@, b@, c@],
{
    let mut actions: Vec<ControlAction> = Vec::new();
    actions.push(a);
    actions.push(b);
    actions.push(c);
    assert(action_views(actions@) =~= seq![a@, b@, c@]);
    actions
}

/// A control-channel relay for one forward request of the host.
pub struct ControlRelay {
    nonce: [u8; NONCE_LEN],
    target_port: u16,
    phase: ControlPhase,
    session_id: String,
    pending: u64,
    host_to_sandbox_bytes: u64,
    sandbox_to_host_bytes: u64,
}

impl View for ControlRelay {
    type V = ControlView;

    closed spec fn view(&self) -> ControlView {
        ControlView {
            nonce: self.nonce@,
            target_port: self.target_port,
            phase: self.phase,
            session_id: self.session_id@,
            pending: self.pending as nat,
            host_to_sandbox_bytes: self.host_to_sandbox_bytes as nat,
            sandbox_to_host_bytes: self.sandbox_to_host_bytes as nat,
        }
    }
}

impl ControlRelay {
    /// Makes a relay whose host clients have to present `nonce`, and which forwards
    /// them to `target_port` of the sandbox. Its first action is
    /// [`ControlAction::AcceptHost`].
    pub fn new(nonce: [u8; NONCE_LEN], target_port: u16) -> (relay: ControlRelay)
        ensures
            relay@ == initial(nonce@, target_port),
    {
        ControlRelay {
            nonce,
            target_port,
            phase: ControlPhase::AwaitingHost,
            session_id: String::new(),
            pending: 0,
            host_to_sandbox_bytes: 0,
            sandbox_to_host_bytes: 0,
        }
    }

    /// What the relay waits for.
    pub fn phase(&self) -> (phase: ControlPhase)
        ensures
            phase == self@.phase,
    {
        self.phase
    }

    /// The name of the current or the last forward; empty before the first.
    pub fn session_id(&self) -> (id: &str)
        ensures
            id@ == self@.session_id,
    {
        self.session_id.as_str()
    }

    /// Host bytes that the current or the last forward has taken.
    pub fn host_to_sandbox_bytes(&self) -> (bytes: u64)
        ensures
            bytes == self@.host_to_sandbox_bytes,
    {
        self.host_to_sandbox_bytes
    }

    /// Bytes of the current or the last forward that the host client has taken.
    pub fn sandbox_to_host_bytes(&self) -> (bytes: u64)
        ensures
            bytes == self@.sandbox_to_host_bytes,
    {
        self.sandbox_to_host_bytes
    }

    /// Whether `event` can come now and the counters can take it.
    pub fn admits(&self, event: &ControlEvent) -> (admitted: bool)
        ensures
            admitted == (expects(self@.phase, event@) && countable(self@, event@)),
    {
        match self.phase {
            ControlPhase::AwaitingHost => matches!(
                event,
                ControlEvent::ConnectionAccepted
                    | ControlEvent::ListenerFailed
                    | ControlEvent::ShutdownRequested
            ),
            ControlPhase::CheckingHost => matches!(
                event,
                ControlEvent::HostPrefix(_)
                    | ControlEvent::HostPrefixFailed
                    | ControlEvent::HostPrefixTimedOut
            ),
            ControlPhase::Opening => matches!(event, ControlEvent::Replied(_)),
            ControlPhase::Forwarding => match event {
                ControlEvent::Replied(response) => self.host_to_sandbox_bytes <= u64::MAX
                    - self.pending || !control_response_ok(response),
                _ => false,
            },
            ControlPhase::Bridging => match event {
                ControlEvent::HostRead(bytes) => bytes.len() <= HOST_CHUNK_LEN,
                ControlEvent::HostReadFailed
                    | ControlEvent::ReadReplied(_)
                    | ControlEvent::ShutdownRequested => true,
                _ => false,
            },
            ControlPhase::Delivering => match event {
                ControlEvent::Written => self.sandbox_to_host_bytes <= u64::MAX - self.pending,
                ControlEvent::WriteFailed => true,
                _ => false,
            },
            ControlPhase::Stopped => false,
        }
    }

    fn drop_host(&mut self) -> (actions: Vec<ControlAction>)
        ensures
            (final(self)@, action_views(actions@)) == drop_host(old(self)@),
    {
        self.phase = ControlPhase::AwaitingHost;
        list2(ControlAction::DropHost, ControlAction::AcceptHost)
    }

    fn close_forward(&mut self) -> (actions: Vec<ControlAction>)
        ensures
            (final(self)@, action_views(actions@)) == close_forward(old(self)@),
    {
        self.phase = ControlPhase::AwaitingHost;
        list3(
            ControlAction::Request(ControlRequest::Close { session_id: self.session_id.clone() }),
            ControlAction::DropHost,
            ControlAction::AcceptHost,
        )
    }

    fn exchange(&mut self) -> (actions: Vec<ControlAction>)
        ensures
            (final(self)@, action_views(actions@)) == exchange(old(self)@),
    {
        self.phase = ControlPhase::Bridging;
        list1(
            ControlAction::Exchange(ControlRequest::Read { session_id: self.session_id.clone() }),
        )
    }

    /// Passes a host chunk of `len` bytes on, whose base64 text is `encoded`.
    pub fn forward(&mut self, len: usize, encoded: String) -> (actions: Vec<ControlAction>)
        requires
            old(self)@.phase == ControlPhase::Bridging,
        ensures
            (final(self)@, action_views(actions@)) == forward(old(self)@, len as nat, encoded@),
    {
        self.phase = ControlPhase::Forwarding;
        self.pending = len as u64;
        list1(
            ControlAction::Request(
                ControlRequest::Write { session_id: self.session_id.clone(), bytes: encoded },
            ),
        )
    }

    /// Passes on what the sandbox sent, where it was base64, and closes the forward
    /// where it was not.
    pub fn deliver(&mut self, decoded: Option<Vec<u8>>) -> (actions: Vec<ControlAction>)
        requires
            old(self)@.phase == ControlPhase::Bridging,
        ensures
            (final(self)@, action_views(actions@)) == deliver(
                old(self)@,
                match decoded {
                    Some(bytes) => Some(bytes@),
                    None => None,
                },
            ),
    {
        match decoded {
            Some(bytes) => {
                self.phase = ControlPhase::Delivering;
                self.pending = bytes.len() as u64;
                list1(ControlAction::WriteHost(bytes))
            },
            None => self.close_forward(),
        }
    }

    /// Traffic in either direction.
    fn bridge(&mut self, event: ControlEvent) -> (actions: Vec<ControlAction>)
        requires
            old(self)@.phase == ControlPhase::Bridging,
            expects(old(self)@.phase, event@),
        ensures
            forall|drawn: Seq<u8>|
                (final(self)@, action_views(actions@)) == #[trigger] react(
                    old(self)@,
                    event@,
                    drawn,
                ),
            event matches ControlEvent::HostRead(chunk) ==> writes_decode_to(
                action_views(actions@),
                chunk@,
            ),
    {
        match event {
            ControlEvent::HostRead(bytes) => if bytes.len() == 0 {
                self.close_forward()
            } else {
                let encoded = encode_base64(bytes.as_slice());
                self.forward(bytes.len(), encoded)
            },
            ControlEvent::ReadReplied(response) => match parse_read_reply(&response) {
                ReadReply::Finished => self.close_forward(),
                ReadReply::Idle => self.exchange(),
                ReadReply::Encoded(encoded) => {
                    let decoded = match decode_base64(encoded.as_str()) {
                        Ok(bytes) => Some(bytes),
                        Err(_) => None,
                    };
                    self.deliver(decoded)
                },
            },
            ControlEvent::ShutdownRequested => {
                self.phase = ControlPhase::Stopped;
                list3(
                    ControlAction::Request(
                        ControlRequest::Close { session_id: self.session_id.clone() },
                    ),
                    ControlAction::DropHost,
                    ControlAction::Stop,
                )
            },
            _ => self.close_forward(),
        }
    }

    /// Takes note of `event` and says what to do next. A forward that is opened is
    /// named by `drawn`.
    pub fn step_with(&mut self, event: ControlEvent, drawn: &[u8; NONCE_LEN]) -> (actions: Vec<
        ControlAction,
    >)
        requires
            expects(old(self)@.phase, event@),
            countable(old(self)@, event@),
        ensures
            (final(self)@, action_views(actions@)) == react(old(self)@, event@, drawn@),
            event matches ControlEvent::HostRead(chunk) ==> writes_decode_to(
                action_views(actions@),
                chunk@,
            ),
    {
        match self.phase {
            ControlPhase::AwaitingHost => match event {
                ControlEvent::ConnectionAccepted => {
                    self.phase = ControlPhase::CheckingHost;
                    list1(ControlAction::ReadHostPrefix)
                },
                _ => {
                    self.phase = ControlPhase::Stopped;
                    list1(ControlAction::Stop)
                },
            },
            ControlPhase::CheckingHost => {
                let genuine = match event {
                    ControlEvent::HostPrefix(prefix) => constant_time_eq(&prefix, &self.nonce),
                    _ => false,
                };
                if genuine {
                    self.session_id = encode_hex(drawn);
                    self.phase = ControlPhase::Opening;
                    list1(
                        ControlAction::Request(
                            ControlRequest::Open {
                                session_id: self.session_id.clone(),
                                target_port: self.target_port,
                            },
                        ),
                    )
                } else {
                    self.drop_host()
                }
            },
            ControlPhase::Opening => match event {
                ControlEvent::Replied(response) => if control_response_ok(&response) {
                    self.host_to_sandbox_bytes = 0;
                    self.sandbox_to_host_bytes = 0;
                    self.exchange()
                } else {
                    self.drop_host()
                },
                _ => self.drop_host(),
            },
            ControlPhase::Bridging => self.bridge(event),
            ControlPhase::Forwarding => match event {
                ControlEvent::Replied(response) => if control_response_ok(&response) {
                    self.host_to_sandbox_bytes = self.host_to_sandbox_bytes + self.pending;
                    self.exchange()
                } else {
                    self.close_forward()
                },
                _ => self.close_forward(),
            },
            ControlPhase::Delivering => match event {
                ControlEvent::Written => {
                    self.sandbox_to_host_bytes = self.sandbox_to_host_bytes + self.pending;
                    self.exchange()
                },
                _ => self.close_forward(),
            },
            ControlPhase::Stopped => Vec::new(),
        }
    }

    /// Takes note of `event` and says what to do next. A forward that is opened is
    /// named by fresh random bytes, whatever they are.
    pub fn step(&mut self, event: ControlEvent) -> (actions: Vec<ControlAction>)
        requires
            expects(old(self)@.phase, event@),
            countable(old(self)@, event@),
        ensures
            exists|drawn: Seq<u8>|
                drawn.len() == NONCE_LEN && (final(self)@, action_views(actions@))
                    == #[trigger] react(old(self)@, event@, drawn),
            event matches ControlEvent::HostRead(chunk) ==> writes_decode_to(
                action_views(actions@),
                chunk@,
            ),
    {
        let drawn: [u8; NONCE_LEN] = match self.phase {
            ControlPhase::CheckingHost => random_bytes(),
            _ => [0; NONCE_LEN],
        };
        self.step_with(event, &drawn)
    }
}

} // verus!
