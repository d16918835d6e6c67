//! What holds of every run of a [`crate::relay::Relay`].
//!
//! A run is the list of events that the relay has been told of since it was made.

use crate::relay;
use crate::relay::{
    ActionView, EventView, FrameView, RelayAction, RelayEvent, RelayPhase, RelayView, SandboxFrame,
};
use vstd::prelude::*;

verus! {

/// The state of the relay after `events`.
pub open spec fn run(nonce: Seq<u8>, events: Seq<EventView>) -> RelayView
    decreases events.len(),
{
    if events.len() == 0 {
        relay::initial(nonce)
    } else {
        relay::next(run(nonce, events.drop_last()), events.last())
    }
}

/// What the relay does about the last of `events`.
pub open spec fn last_actions(nonce: Seq<u8>, events: Seq<EventView>) -> Seq<ActionView> {
    relay::react(nonce, run(nonce, events.drop_last()).phase, events.last()).1
}

/// All that the relay has done by the end of `events`.
pub open spec fn emitted(nonce: Seq<u8>, events: Seq<EventView>) -> Seq<ActionView>
    decreases events.len(),
{
    if events.len() == 0 {
        seq![ActionView::AcceptSandbox]
    } else {
        emitted(nonce, events.drop_last()) + last_actions(nonce, events)
    }
}

/// Whether each of `events` can come when it comes.
pub open spec fn admissible(nonce: Seq<u8>, events: Seq<EventView>) -> bool
    decreases events.len(),
{
    events.len() == 0 || {
        &&& admissible(nonce, events.drop_last())
        &&& relay::expects(run(nonce, events.drop_last()).phase, events.last())
    }
}

/// Whether a session is open in `phase`.
pub open spec fn in_session(phase: RelayPhase) -> bool {
    ||| phase == RelayPhase::OpeningSession
    ||| phase == RelayPhase::Bridging
    ||| phase == RelayPhase::Forwarding
    ||| phase == RelayPhase::Delivering
}

/// Whether the sandbox has been accepted in `phase`.
pub open spec fn has_sandbox(phase: RelayPhase) -> bool {
    ||| phase == RelayPhase::AwaitingHost
    ||| phase == RelayPhase::CheckingHost
    ||| in_session(phase)
}

/// The nonce never changes.
proof fn lemma_nonce_is_kept(nonce: Seq<u8>, events: Seq<EventView>)
    ensures
        run(nonce, events).nonce == nonce,
    decreases events.len(),
{
    if events.len() > 0 {
        lemma_nonce_is_kept(nonce, events.drop_last());
    }
}

/// Whether `events[i]` is the current sandbox presenting the nonce as its first
/// message: its handshake has just been done, and no other since.
pub open spec fn sandbox_proof_at(nonce: Seq<u8>, events: Seq<EventView>, i: int) -> bool {
    &&& 1 <= i < events.len()
    &&& events[i - 1] == EventView::HandshakeDone
    &&& events[i] == EventView::Frame(FrameView::Text(relay::auth_text(nonce)))
    &&& forall|k: int| i < k < events.len() ==> events[k] != EventView::HandshakeDone
}

/// Whether `events[j]` is the current host client presenting the nonce as its first
/// bytes: its connection has just been accepted, and no other since.
pub open spec fn host_proof_at(nonce: Seq<u8>, events: Seq<EventView>, j: int) -> bool {
    &&& 1 <= j < events.len()
    &&& events[j - 1] == EventView::ConnectionAccepted
    &&& events[j] == EventView::HostPrefix(nonce)
    &&& forall|k: int| j < k < events.len() ==> events[k] != EventView::ConnectionAccepted
}

/// Whether the sandbox and then the current host client have presented the nonce.
pub open spec fn both_proved(nonce: Seq<u8>, events: Seq<EventView>) -> bool {
    exists|i: int, j: int|
        i < j && #[trigger] sandbox_proof_at(nonce, events, i) && #[trigger] host_proof_at(
            nonce,
            events,
            j,
        )
}

proof fn lemma_proofs(nonce: Seq<u8>, events: Seq<EventView>)
    requires
        admissible(nonce, events),
    ensures
        has_sandbox(run(nonce, events).phase) ==> exists|i: int|
            sandbox_proof_at(nonce, events, i),
        in_session(run(nonce, events).phase) ==> both_proved(nonce, events),
    decreases events.len(),
{
    if events.len() > 0 {
        let before = events.drop_last();
        let n = before.len() as int;
        let phase = run(nonce, before).phase;
        let now = run(nonce, events).phase;
        lemma_proofs(nonce, before);
        lemma_nonce_is_kept(nonce, before);
        assert(events[n] == events.last());
        if n > 0 {
            assert(before.last() == events[n - 1]);
        }
        assert forall|i: int|
            has_sandbox(phase) && #[trigger] sandbox_proof_at(nonce, before, i) implies
            sandbox_proof_at(nonce, events, i) by {
            assert(before[i] == events[i] && before[i - 1] == events[i - 1]);
            assert forall|k: int| i < k < events.len() implies events[k]
                != EventView::HandshakeDone by {
                if k < n {
                    assert(before[k] == events[k]);
                }
            }
        }
        if has_sandbox(now) {
            if has_sandbox(phase) {
                let i = choose|i: int| sandbox_proof_at(nonce, before, i);
                assert(sandbox_proof_at(nonce, events, i));
            } else {
                assert(sandbox_proof_at(nonce, events, n));
            }
        }
        if in_session(now) {
            if in_session(phase) {
                let (i, j) = choose|i: int, j: int|
                    i < j && #[trigger] sandbox_proof_at(nonce, before, i)
                        && #[trigger] host_proof_at(nonce, before, j);
                assert(sandbox_proof_at(nonce, events, i));
                assert(before[j] == events[j] && before[j - 1] == events[j - 1]);
                assert forall|k: int| j < k < events.len() implies events[k]
                    != EventView::ConnectionAccepted by {
                    if k < n {
                        assert(before[k] == events[k]);
                    }
                }
                assert(host_proof_at(nonce, events, j));
            } else {
                let i = choose|i: int| sandbox_proof_at(nonce, before, i);
                assert(sandbox_proof_at(nonce, events, i));
                assert(host_proof_at(nonce, events, n));
            }
        }
    }
}

/// Whether `action` announces a session or carries bytes from one peer to the other.
pub open spec fn tunnels(action: ActionView) -> bool {
    ||| action == ActionView::SendText(relay::session_start())
    ||| action is SendBinary
    ||| action is WriteHost
}

/// No stranger's traffic is tunnelled: whenever the relay announces a session, or
/// passes bytes on in either direction, the sandbox has presented the nonce as its
/// first message, and after that the host client that is connected now has
/// presented it as its first bytes.
pub proof fn law_only_proved_peers_are_tunnelled(nonce: Seq<u8>, events: Seq<EventView>, k: int)
    requires
        admissible(nonce, events),
        events.len() > 0,
        0 <= k < last_actions(nonce, events).len(),
        tunnels(last_actions(nonce, events)[k]),
    ensures
        both_proved(nonce, events),
{
    lemma_nonce_is_kept(nonce, events.drop_last());
    lemma_proofs(nonce, events);
    reveal_strlit("SESSION_START");
    reveal_strlit("SESSION_END");
    assert(relay::session_start().len() != relay::session_end().len());
}

/// The message by which the sandbox proves itself fits one nonce alone.
pub proof fn law_auth_text_is_injective(a: Seq<u8>, b: Seq<u8>)
    ensures
        relay::auth_text(a) == relay::auth_text(b) <==> a == b,
{
    if relay::auth_text(a) == relay::auth_text(b) {
        let n = "AUTH:"@.len() as int;
        assert(crate::octets::hex_text(a) =~= relay::auth_text(a).skip(n));
        assert(crate::octets::hex_text(b) =~= relay::auth_text(b).skip(n));
        crate::octets::law_hex_is_injective(a, b);
    }
}

/// A failed check denies nothing to the real peer: whatever a fresh connection
/// does, or fails to do in time, the relay does not stop over it; and unless the
/// connection proves itself, it is dropped and the relay waits for the next one as
/// it did before.
pub proof fn law_failed_check_keeps_waiting(nonce: Seq<u8>, phase: RelayPhase, event: EventView)
    requires
        relay::expects(phase, event),
    ensures
        phase == RelayPhase::Handshaking && !(event is HandshakeDone) ==> relay::react(
            nonce,
            phase,
            event,
        ) == (
            RelayPhase::AwaitingSandbox,
            seq![ActionView::DropSandbox, ActionView::AcceptSandbox],
        ),
        phase == RelayPhase::AwaitingAuth && event != EventView::Frame(
            FrameView::Text(relay::auth_text(nonce)),
        ) ==> {
            let (then, actions) = relay::react(nonce, phase, event);
            &&& then == RelayPhase::AwaitingSandbox
            &&& actions.len() >= 2
            &&& actions[actions.len() - 2] == ActionView::DropSandbox
            &&& actions.last() == ActionView::AcceptSandbox
        },
        phase == RelayPhase::CheckingHost && event != EventView::HostPrefix(nonce) ==> relay::react(
            nonce,
            phase,
            event,
        ) == (RelayPhase::AwaitingHost, seq![ActionView::DropHost, ActionView::AcceptHost]),
        phase == RelayPhase::Handshaking || phase == RelayPhase::AwaitingAuth || phase
            == RelayPhase::CheckingHost ==> relay::react(nonce, phase, event).0
            != RelayPhase::Stopped,
{
}

/// Whether `event` tells a relay in session that the sandbox is gone.
pub open spec fn sandbox_is_gone(phase: RelayPhase, event: EventView) -> bool {
    ||| event is SendFailed
    ||| phase == RelayPhase::Bridging && (event == EventView::Frame(FrameView::Close) || event
        == EventView::Frame(FrameView::Ended) || event == EventView::Frame(FrameView::Failed))
}

/// A relay stops when its listener fails, when it is asked to, or when the sandbox
/// is gone, and for no other reason.
pub proof fn law_stops_only_for_cause(nonce: Seq<u8>, phase: RelayPhase, event: EventView)
    requires
        relay::expects(phase, event),
    ensures
        relay::react(nonce, phase, event).0 == RelayPhase::Stopped <==> (event is ListenerFailed
            || event is ShutdownRequested || sandbox_is_gone(phase, event)),
{
}

/// A shutdown request is heeded in each phase that waits without a time limit for
/// a peer; the sandbox, where it is connected, is sent a close message first.
pub proof fn law_shutdown_closes_the_sandbox(nonce: Seq<u8>, phase: RelayPhase)
    ensures
        relay::expects(phase, EventView::ShutdownRequested) <==> (phase
            == RelayPhase::AwaitingSandbox || phase == RelayPhase::AwaitingHost || phase
            == RelayPhase::Bridging),
        relay::expects(phase, EventView::ShutdownRequested) ==> {
            let (then, actions) = relay::react(nonce, phase, EventView::ShutdownRequested);
            &&& then == RelayPhase::Stopped
            &&& actions.len() > 0
            &&& actions.last() == ActionView::Stop
            &&& has_sandbox(phase) <==> actions[0] == ActionView::CloseSandbox
        },
{
}

/// A relay that stops while its sandbox is still there, whether it was asked to or
/// its listener failed, sends the sandbox a close message first.
pub proof fn law_stopping_closes_the_sandbox(nonce: Seq<u8>, phase: RelayPhase, event: EventView)
    requires
        relay::expects(phase, event),
        has_sandbox(phase),
        relay::react(nonce, phase, event).0 == RelayPhase::Stopped,
        !sandbox_is_gone(phase, event),
    ensures
        relay::react(nonce, phase, event).1.len() > 0,
        relay::react(nonce, phase, event).1[0] == ActionView::CloseSandbox,
        relay::react(nonce, phase, event).1.last() == ActionView::Stop,
{
}

/// Whether `action` is the one whose outcome a relay in `phase` waits for.
pub open spec fn awaits(phase: RelayPhase, action: ActionView) -> bool {
    match phase {
        RelayPhase::AwaitingSandbox => action is AcceptSandbox,
        RelayPhase::Handshaking => action is Handshake,
        RelayPhase::AwaitingAuth => action is ReceiveAuth,
        RelayPhase::AwaitingHost => action is AcceptHost,
        RelayPhase::CheckingHost => action is ReadHostPrefix,
        RelayPhase::OpeningSession => action == ActionView::SendText(relay::session_start()),
        RelayPhase::Bridging => action is Exchange,
        RelayPhase::Forwarding => action is SendBinary,
        RelayPhase::Delivering => action is WriteHost,
        RelayPhase::Stopped => action is Stop,
    }
}

/// The relay never waits for something that nobody does: the last action of a run
/// is the one whose outcome it waits for.
pub proof fn law_last_action_is_awaited(nonce: Seq<u8>, events: Seq<EventView>)
    requires
        admissible(nonce, events),
    ensures
        emitted(nonce, events).len() > 0,
        awaits(run(nonce, events).phase, emitted(nonce, events).last()),
{
    if events.len() > 0 {
        lemma_nonce_is_kept(nonce, events.drop_last());
        let before = emitted(nonce, events.drop_last());
        let actions = last_actions(nonce, events);
        assert(actions.len() > 0);
        assert((before + actions).last() == actions.last());
    }
}

/// The bytes that `actions` send to the sandbox, in order.
pub open spec fn sent_bytes(actions: Seq<ActionView>) -> Seq<u8>
    decreases actions.len(),
{
    if actions.len() == 0 {
        Seq::empty()
    } else {
        sent_bytes(actions.drop_last()) + match actions.last() {
            ActionView::SendBinary(bytes) => bytes,
            _ => Seq::empty(),
        }
    }
}

/// The bytes that `actions` write to host clients, in order.
pub open spec fn written_bytes(actions: Seq<ActionView>) -> Seq<u8>
    decreases actions.len(),
{
    if actions.len() == 0 {
        Seq::empty()
    } else {
        written_bytes(actions.drop_last()) + match actions.last() {
            ActionView::WriteHost(bytes) => bytes,
            _ => Seq::empty(),
        }
    }
}

/// The text messages that `actions` send to the sandbox, in order.
pub open spec fn sent_texts(actions: Seq<ActionView>) -> Seq<Seq<char>>
    decreases actions.len(),
{
    if actions.len() == 0 {
        Seq::empty()
    } else {
        sent_texts(actions.drop_last()) + match actions.last() {
            ActionView::SendText(text) => seq![text],
            _ => Seq::empty(),
        }
    }
}

proof fn lemma_parts_of_sum(a: Seq<ActionView>, b: Seq<ActionView>)
    ensures
        sent_bytes(a + b) == sent_bytes(a) + sent_bytes(b),
        written_bytes(a + b) == written_bytes(a) + written_bytes(b),
        sent_texts(a + b) == sent_texts(a) + sent_texts(b),
    decreases b.len(),
{
    if b.len() == 0 {
        assert(a + b =~= a);
        assert(sent_bytes(a) + sent_bytes(b) =~= sent_bytes(a));
        assert(written_bytes(a) + written_bytes(b) =~= written_bytes(a));
        assert(sent_texts(a) + sent_texts(b) =~= sent_texts(a));
    } else {
        lemma_parts_of_sum(a, b.drop_last());
        assert((a + b).drop_last() =~= a + b.drop_last());
        assert((a + b).last() == b.last());
        assert(sent_bytes(a + b) =~= sent_bytes(a) + sent_bytes(b));
        assert(written_bytes(a + b) =~= written_bytes(a) + written_bytes(b));
        assert(sent_texts(a + b) =~= sent_texts(a) + sent_texts(b));
    }
}

/// What the sandbox is told on the way from `phase` to `then`.
spec fn bracket(phase: RelayPhase, then: RelayPhase) -> Seq<Seq<char>> {
    if then == RelayPhase::OpeningSession {
        seq![relay::session_start()]
    } else if in_session(phase) && then == RelayPhase::AwaitingHost {
        seq![relay::session_end()]
    } else {
        Seq::empty()
    }
}

proof fn lemma_parts_of_reaction(nonce: Seq<u8>, phase: RelayPhase, event: EventView)
    requires
        relay::expects(phase, event),
    ensures
        ({
            let actions = relay::react(nonce, phase, event).1;
            &&& sent_bytes(actions) == match event {
                EventView::HostRead(bytes) => bytes,
                _ => Seq::empty(),
            }
            &&& written_bytes(actions) == match (phase, event) {
                (RelayPhase::Bridging, EventView::Frame(FrameView::Binary(bytes))) => bytes,
                _ => Seq::empty(),
            }
            &&& sent_texts(actions) == bracket(phase, relay::react(nonce, phase, event).0)
        }),
{
    reveal_with_fuel(sent_bytes, 4);
    reveal_with_fuel(written_bytes, 4);
    reveal_with_fuel(sent_texts, 4);
    let actions = relay::react(nonce, phase, event).1;
    assert(actions.len() <= 3);
    match event {
        EventView::HostRead(bytes) => {
            assert(Seq::<u8>::empty() + bytes =~= bytes);
            assert(sent_bytes(actions) =~= bytes);
        },
        EventView::Frame(FrameView::Binary(bytes)) => {
            assert(Seq::<u8>::empty() + bytes =~= bytes);
            assert(sent_bytes(actions) =~= Seq::<u8>::empty());
        },
        _ => {
            assert(sent_bytes(actions) =~= Seq::<u8>::empty());
            assert(written_bytes(actions) =~= Seq::<u8>::empty());
        },
    }
    assert(sent_texts(actions) =~= bracket(phase, relay::react(nonce, phase, event).0));
}

/// The bytes that host clients sent after their nonces, in order.
pub open spec fn host_bytes(events: Seq<EventView>) -> Seq<u8>
    decreases events.len(),
{
    if events.len() == 0 {
        Seq::empty()
    } else {
        host_bytes(events.drop_last()) + match events.last() {
            EventView::HostRead(bytes) => bytes,
            _ => Seq::empty(),
        }
    }
}

/// The bytes of the binary messages that the sandbox sent while a session was
/// open, in order.
pub open spec fn sandbox_bytes(nonce: Seq<u8>, events: Seq<EventView>) -> Seq<u8>
    decreases events.len(),
{
    if events.len() == 0 {
        Seq::empty()
    } else {
        sandbox_bytes(nonce, events.drop_last()) + match (
            run(nonce, events.drop_last()).phase,
            events.last(),
        ) {
            (RelayPhase::Bridging, EventView::Frame(FrameView::Binary(bytes))) => bytes,
            _ => Seq::empty(),
        }
    }
}

/// The tunnel is transparent: what the relay sends to the sandbox in binary
/// messages is what host clients wrote after their nonces, and what it writes to
/// host clients is what the sandbox sent in binary messages during sessions: all
/// of it, in the same order, and nothing else.
pub proof fn law_tunnel_is_transparent(nonce: Seq<u8>, events: Seq<EventView>)
    requires
        admissible(nonce, events),
    ensures
        sent_bytes(emitted(nonce, events)) == host_bytes(events),
        written_bytes(emitted(nonce, events)) == sandbox_bytes(nonce, events),
    decreases events.len(),
{
    if events.len() == 0 {
        reveal_with_fuel(sent_bytes, 2);
        reveal_with_fuel(written_bytes, 2);
        assert(sent_bytes(emitted(nonce, events)) =~= host_bytes(events));
        assert(written_bytes(emitted(nonce, events)) =~= sandbox_bytes(nonce, events));
    } else {
        let before = events.drop_last();
        law_tunnel_is_transparent(nonce, before);
        lemma_nonce_is_kept(nonce, before);
        lemma_parts_of_sum(emitted(nonce, before), last_actions(nonce, events));
        lemma_parts_of_reaction(nonce, run(nonce, before).phase, events.last());
    }
}

/// `n` text messages by turns: a session's start, its end, the next one's start.
pub open spec fn brackets(n: nat) -> Seq<Seq<char>>
    decreases n,
{
    if n == 0 {
        Seq::empty()
    } else {
        brackets((n - 1) as nat).push(
            if n % 2 == 1 {
                relay::session_start()
            } else {
                relay::session_end()
            },
        )
    }
}

/// The text messages to the sandbox bracket the sessions: starts and ends take
/// turns, beginning with a start. The last one is a start while a session is open,
/// and an end, or none, while the relay waits for a host client.
pub proof fn law_sessions_are_bracketed(nonce: Seq<u8>, events: Seq<EventView>)
    requires
        admissible(nonce, events),
    ensures
        sent_texts(emitted(nonce, events)) == brackets(sent_texts(emitted(nonce, events)).len()),
        in_session(run(nonce, events).phase) ==> sent_texts(emitted(nonce, events)).len() % 2 == 1,
        !in_session(run(nonce, events).phase) && run(nonce, events).phase != RelayPhase::Stopped
            ==> sent_texts(emitted(nonce, events)).len() % 2 == 0,
    decreases events.len(),
{
    if events.len() == 0 {
        reveal_with_fuel(sent_texts, 2);
        assert(sent_texts(emitted(nonce, events)) =~= brackets(0));
    } else {
        let before = events.drop_last();
        let phase = run(nonce, before).phase;
        let told = sent_texts(emitted(nonce, before));
        law_sessions_are_bracketed(nonce, before);
        lemma_nonce_is_kept(nonce, before);
        lemma_parts_of_sum(emitted(nonce, before), last_actions(nonce, events));
        lemma_parts_of_reaction(nonce, phase, events.last());
        let now = sent_texts(emitted(nonce, events));
        if sent_texts(last_actions(nonce, events)).len() == 0 {
            assert(now =~= told);
        } else {
            let text = sent_texts(last_actions(nonce, events))[0];
            assert(now =~= told.push(text));
            assert(brackets(now.len()) =~= brackets(told.len()).push(text));
        }
    }
}

/// Whether the last text message among `actions` is a session's start.
pub open spec fn session_announced(actions: Seq<ActionView>) -> bool
    decreases actions.len(),
{
    if actions.len() == 0 {
        false
    } else {
        match actions.last() {
            ActionView::SendText(text) => text == relay::session_start(),
            _ => session_announced(actions.drop_last()),
        }
    }
}

proof fn lemma_announced_of_sum(a: Seq<ActionView>, b: Seq<ActionView>)
    ensures
        session_announced(a + b) == if sent_texts(b).len() == 0 {
            session_announced(a)
        } else {
            session_announced(b)
        },
    decreases b.len(),
{
    if b.len() == 0 {
        assert(a + b =~= a);
    } else {
        lemma_announced_of_sum(a, b.drop_last());
        assert((a + b).drop_last() =~= a + b.drop_last());
        assert((a + b).last() == b.last());
    }
}

proof fn lemma_announced_in_session(nonce: Seq<u8>, events: Seq<EventView>)
    requires
        admissible(nonce, events),
    ensures
        run(nonce, events).phase != RelayPhase::Stopped ==> session_announced(
            emitted(nonce, events),
        ) == in_session(run(nonce, events).phase),
    decreases events.len(),
{
    reveal_with_fuel(session_announced, 4);
    if events.len() > 0 {
        let before = events.drop_last();
        let phase = run(nonce, before).phase;
        let actions = last_actions(nonce, events);
        lemma_announced_in_session(nonce, before);
        lemma_nonce_is_kept(nonce, before);
        lemma_announced_of_sum(emitted(nonce, before), actions);
        lemma_parts_of_reaction(nonce, phase, events.last());
        reveal_strlit("SESSION_START");
        reveal_strlit("SESSION_END");
        assert(relay::session_start().len() != relay::session_end().len());
        assert(actions.len() <= 3);
    }
}

/// Binary messages come only between a session's start and its end: whenever the
/// relay sends one, the last text message before it was a start.
pub proof fn law_binary_messages_are_bracketed(nonce: Seq<u8>, events: Seq<EventView>, k: int)
    requires
        admissible(nonce, events),
        0 <= k < emitted(nonce, events).len(),
        emitted(nonce, events)[k] is SendBinary,
    ensures
        session_announced(emitted(nonce, events).take(k)),
    decreases events.len(),
{
    if events.len() > 0 {
        let before = events.drop_last();
        let done = emitted(nonce, before);
        let all = emitted(nonce, events);
        if k < done.len() {
            law_binary_messages_are_bracketed(nonce, before, k);
            assert(all.take(k) =~= done.take(k));
        } else {
            lemma_announced_in_session(nonce, before);
            assert(last_actions(nonce, events)[k - done.len()] is SendBinary);
            assert(all.take(k) =~= done);
        }
    }
}

/// Whether `action` sends the sandbox a text or a binary message.
pub open spec fn sends(action: ActionView) -> bool {
    action is SendText || action is SendBinary
}

/// Whether the last close message among `actions` went to a connection that has not
/// been dropped since.
pub open spec fn close_pending(actions: Seq<ActionView>) -> bool
    decreases actions.len(),
{
    if actions.len() == 0 {
        false
    } else {
        match actions.last() {
            ActionView::CloseSandbox => true,
            ActionView::DropSandbox => false,
            _ => close_pending(actions.drop_last()),
        }
    }
}

/// Whether `actions[d]` drops a connection taken for the sandbox's, after
/// `actions[k]` and before `actions[m]`.
pub open spec fn dropped_between(actions: Seq<ActionView>, k: int, d: int, m: int) -> bool {
    k < d < m && actions[d] == ActionView::DropSandbox
}

proof fn lemma_close_pending_of_sum(a: Seq<ActionView>, b: Seq<ActionView>)
    requires
        !close_pending(a),
    ensures
        close_pending(a + b) == close_pending(b),
    decreases b.len(),
{
    if b.len() == 0 {
        assert(a + b =~= a);
    } else {
        lemma_close_pending_of_sum(a, b.drop_last());
        assert((a + b).drop_last() =~= a + b.drop_last());
        assert((a + b).last() == b.last());
    }
}

proof fn lemma_no_close_pending(nonce: Seq<u8>, events: Seq<EventView>)
    requires
        admissible(nonce, events),
    ensures
        run(nonce, events).phase != RelayPhase::Stopped ==> !close_pending(emitted(nonce, events)),
    decreases events.len(),
{
    reveal_with_fuel(close_pending, 4);
    if events.len() > 0 {
        let before = events.drop_last();
        lemma_no_close_pending(nonce, before);
        lemma_nonce_is_kept(nonce, before);
        lemma_close_pending_of_sum(emitted(nonce, before), last_actions(nonce, events));
        assert(last_actions(nonce, events).len() <= 3);
    }
}

proof fn lemma_closed_is_dropped(actions: Seq<ActionView>, k: int)
    requires
        0 <= k < actions.len(),
        actions[k] == ActionView::CloseSandbox,
        !close_pending(actions),
    ensures
        exists|d: int| dropped_between(actions, k, d, actions.len() as int),
    decreases actions.len(),
{
    let n = actions.len() as int;
    if actions.last() == ActionView::DropSandbox {
        assert(dropped_between(actions, k, n - 1, n));
    } else {
        let before = actions.drop_last();
        assert(before[k] == actions[k]);
        lemma_closed_is_dropped(before, k);
        let end = before.len() as int;
        let d = choose|d: int| dropped_between(before, k, d, end);
        assert(dropped_between(actions, k, d, n));
    }
}

/// Nothing follows a close message: a message that the relay sends later goes to
/// another connection, the one that was closed having been dropped in between.
pub proof fn law_nothing_follows_a_close(
    nonce: Seq<u8>,
    events: Seq<EventView>,
    k: int,
    m: int,
)
    requires
        admissible(nonce, events),
        0 <= k < m < emitted(nonce, events).len(),
        emitted(nonce, events)[k] == ActionView::CloseSandbox,
        sends(emitted(nonce, events)[m]),
    ensures
        exists|d: int| dropped_between(emitted(nonce, events), k, d, m),
    decreases events.len(),
{
    if events.len() > 0 {
        let before = events.drop_last();
        let done = emitted(nonce, before);
        let all = emitted(nonce, events);
        if m < done.len() {
            law_nothing_follows_a_close(nonce, before, k, m);
            let d = choose|d: int| dropped_between(done, k, d, m);
            assert(dropped_between(all, k, d, m));
        } else {
            assert(sends(last_actions(nonce, events)[m - done.len()]));
            assert(m == done.len());
            lemma_no_close_pending(nonce, before);
            assert(done[k] == all[k]);
            lemma_closed_is_dropped(done, k);
            let d = choose|d: int| dropped_between(done, k, d, done.len() as int);
            assert(dropped_between(all, k, d, m));
        }
    }
}

/// The bytes that the host client of the current session has sent since the
/// session was opened.
pub open spec fn session_host_bytes(nonce: Seq<u8>, events: Seq<EventView>) -> Seq<u8>
    decreases events.len(),
{
    if events.len() == 0 || run(nonce, events.drop_last()).phase == RelayPhase::OpeningSession {
        Seq::empty()
    } else {
        session_host_bytes(nonce, events.drop_last()) + match events.last() {
            EventView::HostRead(bytes) => bytes,
            _ => Seq::empty(),
        }
    }
}

/// The bytes that the sandbox has sent in binary messages since the current
/// session was opened.
pub open spec fn session_sandbox_bytes(nonce: Seq<u8>, events: Seq<EventView>) -> Seq<u8>
    decreases events.len(),
{
    if events.len() == 0 || run(nonce, events.drop_last()).phase == RelayPhase::OpeningSession {
        Seq::empty()
    } else {
        session_sandbox_bytes(nonce, events.drop_last()) + match (
            run(nonce, events.drop_last()).phase,
            events.last(),
        ) {
            (RelayPhase::Bridging, EventView::Frame(FrameView::Binary(bytes))) => bytes,
            _ => Seq::empty(),
        }
    }
}

/// How many chunks the host client of the current session has sent since the
/// session was opened.
pub open spec fn session_host_chunks(nonce: Seq<u8>, events: Seq<EventView>) -> nat
    decreases events.len(),
{
    if events.len() == 0 || run(nonce, events.drop_last()).phase == RelayPhase::OpeningSession {
        0
    } else {
        session_host_chunks(nonce, events.drop_last()) + match events.last() {
            EventView::HostRead(bytes) if bytes.len() > 0 => 1nat,
            _ => 0,
        }
    }
}

/// How many binary messages the sandbox has sent since the current session was
/// opened.
pub open spec fn session_sandbox_chunks(nonce: Seq<u8>, events: Seq<EventView>) -> nat
    decreases events.len(),
{
    if events.len() == 0 || run(nonce, events.drop_last()).phase == RelayPhase::OpeningSession {
        0
    } else {
        session_sandbox_chunks(nonce, events.drop_last()) + match (
            run(nonce, events.drop_last()).phase,
            events.last(),
        ) {
            (RelayPhase::Bridging, EventView::Frame(FrameView::Binary(_))) => 1nat,
            _ => 0,
        }
    }
}

/// The counters hold how much, and in how many pieces, the current or the last
/// session has carried each way; a piece is counted whether or not it could be
/// delivered.
pub proof fn law_traffic_is_counted(nonce: Seq<u8>, events: Seq<EventView>)
    requires
        admissible(nonce, events),
    ensures
        run(nonce, events).traffic.host_to_sandbox_bytes == session_host_bytes(nonce, events).len(),
        run(nonce, events).traffic.host_to_sandbox_chunks == session_host_chunks(nonce, events),
        run(nonce, events).traffic.sandbox_to_host_bytes == session_sandbox_bytes(
            nonce,
            events,
        ).len(),
        run(nonce, events).traffic.sandbox_to_host_chunks == session_sandbox_chunks(nonce, events),
    decreases events.len(),
{
    if events.len() > 0 {
        law_traffic_is_counted(nonce, events.drop_last());
    }
}

/// A message of the sandbox that it could not reach its target, or that the
/// target has closed its end, ends the session at once: the host client is
/// dropped, and does not wait in vain. Other text messages change nothing.
pub proof fn law_sandbox_ends_session(nonce: Seq<u8>, text: Seq<char>)
    ensures
        ({
            let (then, actions) = relay::react(
                nonce,
                RelayPhase::Bridging,
                EventView::Frame(FrameView::Text(text)),
            );
            if relay::ends_session(text) {
                &&& then == RelayPhase::AwaitingHost
                &&& actions.contains(ActionView::DropHost)
            } else {
                then == RelayPhase::Bridging && actions == seq![ActionView::Exchange]
            }
        }),
{
    if relay::ends_session(text) {
        let actions = relay::react(
            nonce,
            RelayPhase::Bridging,
            EventView::Frame(FrameView::Text(text)),
        ).1;
        assert(actions[1] == ActionView::DropHost);
    }
}

/// The real sandbox is always accepted, whatever the nonce: its first message is
/// `AUTH:` and the hexadecimal digits that spell the nonce, and the relay goes on to
/// wait for a host client. Any other text is closed, dropped and waited past.
pub proof fn law_real_sandbox_is_accepted(nonce: Seq<u8>, digits: Seq<char>, other: Seq<char>)
    requires
        crate::octets::spells(digits, nonce),
    ensures
        relay::react(
            nonce,
            RelayPhase::AwaitingAuth,
            EventView::Frame(FrameView::Text("AUTH:"@ + digits)),
        ) == (RelayPhase::AwaitingHost, seq![ActionView::AcceptHost]),
        other != "AUTH:"@ + digits ==> relay::react(
            nonce,
            RelayPhase::AwaitingAuth,
            EventView::Frame(FrameView::Text(other)),
        ) == (
            RelayPhase::AwaitingSandbox,
            seq![ActionView::CloseSandbox, ActionView::DropSandbox, ActionView::AcceptSandbox],
        ),
{
    crate::octets::law_hex_spells_the_bytes(nonce, digits);
}

/// The real host client is always accepted, whatever the nonce: as many bytes as the
/// nonce has, and the same, make the relay announce a session. Any others are dropped
/// and waited past.
pub proof fn law_real_host_is_accepted(nonce: Seq<u8>, other: Seq<u8>)
    ensures
        relay::react(nonce, RelayPhase::CheckingHost, EventView::HostPrefix(nonce)) == (
            RelayPhase::OpeningSession,
            seq![ActionView::SendText("SESSION_START"@)],
        ),
        other != nonce ==> relay::react(
            nonce,
            RelayPhase::CheckingHost,
            EventView::HostPrefix(other),
        ) == (RelayPhase::AwaitingHost, seq![ActionView::DropHost, ActionView::AcceptHost]),
{
}

/// A connection that is no WebSocket in time, or says something else than a text first,
/// is dropped and waited past; it is sent a close message where it can still be
/// reached, that is, unless its stream ended or failed.
pub proof fn law_strangers_are_waited_past(nonce: Seq<u8>, bytes: Seq<u8>)
    ensures
        ({
            let dropped = (
                RelayPhase::AwaitingSandbox,
                seq![ActionView::DropSandbox, ActionView::AcceptSandbox],
            );
            let closed = (
                RelayPhase::AwaitingSandbox,
                seq![ActionView::CloseSandbox, ActionView::DropSandbox, ActionView::AcceptSandbox],
            );
            let first = |event: EventView| relay::react(nonce, RelayPhase::AwaitingAuth, event);
            let shake = |event: EventView| relay::react(nonce, RelayPhase::Handshaking, event);
            &&& shake(EventView::HandshakeFailed) == dropped
            &&& shake(EventView::HandshakeTimedOut) == dropped
            &&& first(EventView::Frame(FrameView::Ended)) == dropped
            &&& first(EventView::Frame(FrameView::Failed)) == dropped
            &&& first(EventView::Frame(FrameView::Binary(bytes))) == closed
            &&& first(EventView::Frame(FrameView::Close)) == closed
            &&& first(EventView::Frame(FrameView::Control)) == closed
            &&& first(EventView::FrameTimedOut) == closed
        }),
        ({
            let dropped = (
                RelayPhase::AwaitingHost,
                seq![ActionView::DropHost, ActionView::AcceptHost],
            );
            let prefix = |event: EventView| relay::react(nonce, RelayPhase::CheckingHost, event);
            &&& prefix(EventView::HostPrefixFailed) == dropped
            &&& prefix(EventView::HostPrefixTimedOut) == dropped
        }),
{
}

/// Every connection is heard: the relay asks a fresh connection for its handshake and
/// then its first message while it has no sandbox, and for its first bytes afterwards.
pub proof fn law_connections_are_heard(nonce: Seq<u8>)
    ensures
        relay::react(nonce, RelayPhase::AwaitingSandbox, EventView::ConnectionAccepted) == (
            RelayPhase::Handshaking,
            seq![ActionView::Handshake],
        ),
        relay::react(nonce, RelayPhase::Handshaking, EventView::HandshakeDone) == (
            RelayPhase::AwaitingAuth,
            seq![ActionView::ReceiveAuth],
        ),
        relay::react(nonce, RelayPhase::AwaitingHost, EventView::ConnectionAccepted) == (
            RelayPhase::CheckingHost,
            seq![ActionView::ReadHostPrefix],
        ),
{
}

/// Every chunk of a session is passed on as it is, however long: host bytes to the
/// sandbox and binary messages to the host client; and once it has been passed on, or
/// the session has been announced, the relay waits for more.
pub proof fn law_every_chunk_is_passed_on(nonce: Seq<u8>, bytes: Seq<u8>)
    ensures
        bytes.len() > 0 ==> relay::react(nonce, RelayPhase::Bridging, EventView::HostRead(bytes))
            == (RelayPhase::Forwarding, seq![ActionView::SendBinary(bytes)]),
        relay::react(nonce, RelayPhase::Bridging, EventView::Frame(FrameView::Binary(bytes))) == (
            RelayPhase::Delivering,
            seq![ActionView::WriteHost(bytes)],
        ),
        relay::react(nonce, RelayPhase::OpeningSession, EventView::Sent) == (
            RelayPhase::Bridging,
            seq![ActionView::Exchange],
        ),
        relay::react(nonce, RelayPhase::Forwarding, EventView::Sent) == (
            RelayPhase::Bridging,
            seq![ActionView::Exchange],
        ),
        relay::react(nonce, RelayPhase::Delivering, EventView::Written) == (
            RelayPhase::Bridging,
            seq![ActionView::Exchange],
        ),
        relay::react(nonce, RelayPhase::Bridging, EventView::Frame(FrameView::Control)) == (
            RelayPhase::Bridging,
            seq![ActionView::Exchange],
        ),
{
}

/// A text of the sandbox ends the session where it is `SESSION_END`, or where it is
/// `SESSION_FAILED:` with any reason behind it, an empty one too; no other text does.
pub proof fn law_texts_that_end_a_session(nonce: Seq<u8>, reason: Seq<char>, other: Seq<char>)
    ensures
        ({
            let told = |text: Seq<char>|
                relay::react(nonce, RelayPhase::Bridging, EventView::Frame(FrameView::Text(text)));
            let ended = (
                RelayPhase::AwaitingHost,
                seq![
                    ActionView::SendText("SESSION_END"@),
                    ActionView::DropHost,
                    ActionView::AcceptHost,
                ],
            );
            &&& told("SESSION_FAILED:"@ + reason) == ended
            &&& told("SESSION_END"@) == ended
            &&& other != "SESSION_END"@ && (forall|r: Seq<char>|
                other != #[trigger] ("SESSION_FAILED:"@ + r)) ==> told(other) == (
                RelayPhase::Bridging,
                seq![ActionView::Exchange],
            )
        }),
{
    crate::text::law_prefix_is_a_beginning("SESSION_FAILED:"@ + reason, "SESSION_FAILED:"@);
    crate::text::law_prefix_is_a_beginning(other, "SESSION_FAILED:"@);
}

/// A session that ends on the host's side is ended towards the sandbox, and the relay
/// waits for the next host client: that is so where the host client has closed its
/// end, or can be read or written no more.
pub proof fn law_host_ends_a_session(nonce: Seq<u8>)
    ensures
        ({
            let ended = (
                RelayPhase::AwaitingHost,
                seq![
                    ActionView::SendText("SESSION_END"@),
                    ActionView::DropHost,
                    ActionView::AcceptHost,
                ],
            );
            &&& relay::react(nonce, RelayPhase::Bridging, EventView::HostRead(Seq::empty()))
                == ended
            &&& relay::react(nonce, RelayPhase::Bridging, EventView::HostReadFailed) == ended
            &&& relay::react(nonce, RelayPhase::Delivering, EventView::WriteFailed) == ended
        }),
{
}

/// Where the sandbox is gone in a session, the host client is dropped and the relay
/// stops, with no message to the sandbox.
pub proof fn law_lost_sandbox_stops_the_relay(nonce: Seq<u8>)
    ensures
        ({
            let lost = (RelayPhase::Stopped, seq![ActionView::DropHost, ActionView::Stop]);
            let heard = |frame: FrameView|
                relay::react(nonce, RelayPhase::Bridging, EventView::Frame(frame));
            &&& heard(FrameView::Close) == lost
            &&& heard(FrameView::Ended) == lost
            &&& heard(FrameView::Failed) == lost
            &&& relay::react(nonce, RelayPhase::OpeningSession, EventView::SendFailed) == lost
            &&& relay::react(nonce, RelayPhase::Forwarding, EventView::SendFailed) == lost
        }),
{
}

/// How a relay stops: at once while it has no sandbox; with a close message to its
/// sandbox otherwise; and without its host client, where it has one.
pub proof fn law_how_a_relay_stops(nonce: Seq<u8>, event: EventView)
    requires
        event == EventView::ListenerFailed || event == EventView::ShutdownRequested,
    ensures
        relay::react(nonce, RelayPhase::AwaitingSandbox, event) == (
            RelayPhase::Stopped,
            seq![ActionView::Stop],
        ),
        relay::react(nonce, RelayPhase::AwaitingHost, event) == (
            RelayPhase::Stopped,
            seq![ActionView::CloseSandbox, ActionView::Stop],
        ),
        relay::react(nonce, RelayPhase::Bridging, EventView::ShutdownRequested) == (
            RelayPhase::Stopped,
            seq![ActionView::CloseSandbox, ActionView::DropHost, ActionView::Stop],
        ),
{
}

/// Whether a session goes on in `phase` once it has been announced.
pub open spec fn carries_traffic(phase: RelayPhase) -> bool {
    ||| phase == RelayPhase::Bridging
    ||| phase == RelayPhase::Forwarding
    ||| phase == RelayPhase::Delivering
}

/// A session ends only for cause: the host client has closed its end, or cannot be
/// read or written; the sandbox says that its target is gone, or is gone itself; or a
/// shutdown is requested. How much the session has carried is no cause.
pub proof fn law_sessions_end_only_for_cause(nonce: Seq<u8>, phase: RelayPhase, event: EventView)
    requires
        carries_traffic(phase),
        relay::expects(phase, event),
    ensures
        carries_traffic(relay::react(nonce, phase, event).0) <==> match event {
            EventView::HostRead(bytes) => bytes.len() > 0,
            EventView::Frame(FrameView::Binary(_)) => true,
            EventView::Frame(FrameView::Control) => true,
            EventView::Frame(FrameView::Text(text)) => {
                &&& text != "SESSION_END"@
                &&& forall|r: Seq<char>| text != #[trigger] ("SESSION_FAILED:"@ + r)
            },
            EventView::Sent => true,
            EventView::Written => true,
            _ => false,
        },
{
    if let EventView::Frame(FrameView::Text(text)) = event {
        crate::text::law_prefix_is_a_beginning(text, "SESSION_FAILED:"@);
    }
}

/// Whether `event` can be the outcome of performing `action`.
pub open spec fn is_outcome(action: ActionView, event: EventView) -> bool {
    match action {
        ActionView::AcceptSandbox | ActionView::AcceptHost => {
            ||| event is ConnectionAccepted
            ||| event is ListenerFailed
            ||| event is ShutdownRequested
        },
        ActionView::Handshake => {
            ||| event is HandshakeDone
            ||| event is HandshakeFailed
            ||| event is HandshakeTimedOut
        },
        ActionView::ReceiveAuth => event is Frame || event is FrameTimedOut,
        ActionView::ReadHostPrefix => {
            ||| event is HostPrefix
            ||| event is HostPrefixFailed
            ||| event is HostPrefixTimedOut
        },
        ActionView::SendText(_) => event is Sent || event is SendFailed,
        ActionView::SendBinary(_) => event is Sent || event is SendFailed,
        ActionView::Exchange => {
            ||| event matches EventView::HostRead(bytes) && bytes.len() <= 8192
            ||| event is HostReadFailed
            ||| event is Frame
            ||| event is ShutdownRequested
        },
        ActionView::WriteHost(_) => event is Written || event is WriteFailed,
        _ => false,
    }
}

/// The relay takes every outcome of the action that it asked for last, and nothing
/// else.
pub proof fn law_every_outcome_is_expected(nonce: Seq<u8>, events: Seq<EventView>, event: EventView)
    requires
        admissible(nonce, events),
    ensures
        emitted(nonce, events).len() > 0,
        relay::expects(run(nonce, events).phase, event) <==> is_outcome(
            emitted(nonce, events).last(),
            event,
        ),
{
    law_last_action_is_awaited(nonce, events);
}

/// A relay begins with its nonce, without a sandbox and with nothing carried. What it
/// is told moves it as it reacts, and never changes its nonce.
pub proof fn law_state_follows_the_reaction(s: RelayView, event: EventView)
    ensures
        relay::initial(s.nonce).nonce == s.nonce,
        relay::initial(s.nonce).phase == RelayPhase::AwaitingSandbox,
        relay::initial(s.nonce).traffic.host_to_sandbox_bytes == 0,
        relay::initial(s.nonce).traffic.host_to_sandbox_chunks == 0,
        relay::initial(s.nonce).traffic.sandbox_to_host_bytes == 0,
        relay::initial(s.nonce).traffic.sandbox_to_host_chunks == 0,
        relay::next(s, event).nonce == s.nonce,
        relay::next(s, event).phase == relay::react(s.nonce, s.phase, event).0,
{
}

/// The counters refuse nothing that 64 bits can hold.
pub proof fn law_counters_hold_64_bits(traffic: relay::TrafficView)
    ensures
        relay::countable(traffic) <==> {
            &&& traffic.host_to_sandbox_bytes <= 0xffff_ffff_ffff_ffff
            &&& traffic.host_to_sandbox_chunks <= 0xffff_ffff_ffff_ffff
            &&& traffic.sandbox_to_host_bytes <= 0xffff_ffff_ffff_ffff
            &&& traffic.sandbox_to_host_chunks <= 0xffff_ffff_ffff_ffff
        },
{
}

/// The views of events hold the bytes and texts of the events.
pub proof fn law_event_views_are_faithful(event: RelayEvent)
    ensures
        event matches RelayEvent::HostRead(bytes) ==> event@ == EventView::HostRead(bytes@),
        event matches RelayEvent::HostPrefix(bytes) ==> event@ == EventView::HostPrefix(bytes@),
        event matches RelayEvent::Frame(SandboxFrame::Text(text)) ==> event@ == EventView::Frame(
            FrameView::Text(text@),
        ),
        event matches RelayEvent::Frame(SandboxFrame::Binary(bytes)) ==> event@
            == EventView::Frame(FrameView::Binary(bytes@)),
        event == RelayEvent::Frame(SandboxFrame::Close) <==> event@ == EventView::Frame(
            FrameView::Close,
        ),
        event == RelayEvent::Frame(SandboxFrame::Control) <==> event@ == EventView::Frame(
            FrameView::Control,
        ),
        event == RelayEvent::Frame(SandboxFrame::Ended) <==> event@ == EventView::Frame(
            FrameView::Ended,
        ),
        event == RelayEvent::Frame(SandboxFrame::Failed) <==> event@ == EventView::Frame(
            FrameView::Failed,
        ),
        event is ConnectionAccepted <==> event@ is ConnectionAccepted,
        event is ListenerFailed <==> event@ is ListenerFailed,
        event is ShutdownRequested <==> event@ is ShutdownRequested,
        event is HandshakeDone <==> event@ is HandshakeDone,
        event is HandshakeFailed <==> event@ is HandshakeFailed,
        event is HandshakeTimedOut <==> event@ is HandshakeTimedOut,
        event is FrameTimedOut <==> event@ is FrameTimedOut,
        event is HostPrefixFailed <==> event@ is HostPrefixFailed,
        event is HostPrefixTimedOut <==> event@ is HostPrefixTimedOut,
        event is Sent <==> event@ is Sent,
        event is SendFailed <==> event@ is SendFailed,
        event is HostReadFailed <==> event@ is HostReadFailed,
        event is Written <==> event@ is Written,
        event is WriteFailed <==> event@ is WriteFailed,
{
}

/// The views of actions hold the bytes and texts of the actions, each action in its
/// place.
pub proof fn law_action_views_are_faithful(actions: Seq<RelayAction>, k: int)
    requires
        0 <= k < actions.len(),
    ensures
        relay::action_views(actions).len() == actions.len(),
        ({
            let action = actions[k];
            let seen = relay::action_views(actions)[k];
            &&& action matches RelayAction::SendText(text) ==> seen == ActionView::SendText(text@)
            &&& action matches RelayAction::SendBinary(bytes) ==> seen == ActionView::SendBinary(
                bytes@,
            )
            &&& action matches RelayAction::WriteHost(bytes) ==> seen == ActionView::WriteHost(
                bytes@,
            )
            &&& action is AcceptSandbox <==> seen is AcceptSandbox
            &&& action is Handshake <==> seen is Handshake
            &&& action is ReceiveAuth <==> seen is ReceiveAuth
            &&& action is CloseSandbox <==> seen is CloseSandbox
            &&& action is DropSandbox <==> seen is DropSandbox
            &&& action is AcceptHost <==> seen is AcceptHost
            &&& action is ReadHostPrefix <==> seen is ReadHostPrefix
            &&& action is Exchange <==> seen is Exchange
            &&& action is DropHost <==> seen is DropHost
            &&& action is Stop <==> seen is Stop
        }),
{
}

/// The view of the counters holds the counters.
pub proof fn law_traffic_view_is_faithful(traffic: relay::Traffic)
    ensures
        traffic@.host_to_sandbox_bytes == traffic.host_to_sandbox_bytes,
        traffic@.host_to_sandbox_chunks == traffic.host_to_sandbox_chunks,
        traffic@.sandbox_to_host_bytes == traffic.sandbox_to_host_bytes,
        traffic@.sandbox_to_host_chunks == traffic.sandbox_to_host_chunks,
{
}

} // verus!
