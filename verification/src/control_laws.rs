//! What holds of every run of a [`crate::control_relay::ControlRelay`].
//!
//! A run is the list of what the relay has been told since it was made, each event
//! with the random bytes that were at hand when it came.

use crate::control;
use crate::control::{ControlChannelError, ReadReplyView, RequestView};
use crate::control_relay as machine;
use crate::control_relay::{
    ControlAction, ControlActionView, ControlEvent, ControlEventView, ControlPhase, ControlView,
};
use crate::encoding;
use crate::json::JsonValue;
use crate::octets;
use crate::relay::HOST_CHUNK_LEN;
use vstd::prelude::*;

verus! {

/// An event, and the random bytes that a forward opened over it is named by.
pub struct ControlInput {
    pub event: ControlEventView,
    pub drawn: Seq<u8>,
}

/// The state of the relay after `inputs`.
pub open spec fn run(nonce: Seq<u8>, port: u16, inputs: Seq<ControlInput>) -> ControlView
    decreases inputs.len(),
{
    if inputs.len() == 0 {
        machine::initial(nonce, port)
    } else {
        machine::react(
            run(nonce, port, inputs.drop_last()),
            inputs.last().event,
            inputs.last().drawn,
        ).0
    }
}

/// What the relay does about the last of `inputs`.
pub open spec fn last_actions(nonce: Seq<u8>, port: u16, inputs: Seq<ControlInput>) -> Seq<
    ControlActionView,
> {
    machine::react(
        run(nonce, port, inputs.drop_last()),
        inputs.last().event,
        inputs.last().drawn,
    ).1
}

/// All that the relay has done by the end of `inputs`.
pub open spec fn emitted(nonce: Seq<u8>, port: u16, inputs: Seq<ControlInput>) -> Seq<
    ControlActionView,
>
    decreases inputs.len(),
{
    if inputs.len() == 0 {
        seq![ControlActionView::AcceptHost]
    } else {
        emitted(nonce, port, inputs.drop_last()) + last_actions(nonce, port, inputs)
    }
}

/// Whether each of `inputs` can come when it comes.
pub open spec fn admissible(nonce: Seq<u8>, port: u16, inputs: Seq<ControlInput>) -> bool
    decreases inputs.len(),
{
    inputs.len() == 0 || {
        &&& admissible(nonce, port, inputs.drop_last())
        &&& machine::expects(run(nonce, port, inputs.drop_last()).phase, inputs.last().event)
    }
}

/// Whether a forward is open in `phase`.
pub open spec fn is_forwarding(phase: ControlPhase) -> bool {
    ||| phase == ControlPhase::Bridging
    ||| phase == ControlPhase::Forwarding
    ||| phase == ControlPhase::Delivering
}

/// The nonce and the target port never change.
proof fn lemma_settings_are_kept(nonce: Seq<u8>, port: u16, inputs: Seq<ControlInput>)
    ensures
        run(nonce, port, inputs).nonce == nonce,
        run(nonce, port, inputs).target_port == port,
    decreases inputs.len(),
{
    if inputs.len() > 0 {
        lemma_settings_are_kept(nonce, port, inputs.drop_last());
    }
}

/// Whether `inputs[j]` is the current host client presenting the nonce as its first
/// bytes: its connection has just been accepted, and no other since.
pub open spec fn host_proof_at(nonce: Seq<u8>, inputs: Seq<ControlInput>, j: int) -> bool {
    &&& 1 <= j < inputs.len()
    &&& inputs[j - 1].event == ControlEventView::ConnectionAccepted
    &&& inputs[j].event == ControlEventView::HostPrefix(nonce)
    &&& forall|k: int|
        j < k < inputs.len() ==> (#[trigger] inputs[k]).event
            != ControlEventView::ConnectionAccepted
}

/// Whether the current host client has presented the nonce.
pub open spec fn host_proved(nonce: Seq<u8>, inputs: Seq<ControlInput>) -> bool {
    exists|j: int| host_proof_at(nonce, inputs, j)
}

proof fn lemma_host_proved(nonce: Seq<u8>, port: u16, inputs: Seq<ControlInput>)
    requires
        admissible(nonce, port, inputs),
    ensures
        run(nonce, port, inputs).phase == ControlPhase::Opening || is_forwarding(
            run(nonce, port, inputs).phase,
        ) ==> host_proved(nonce, inputs),
    decreases inputs.len(),
{
    if inputs.len() > 0 {
        let before = inputs.drop_last();
        let n = before.len() as int;
        let phase = run(nonce, port, before).phase;
        lemma_host_proved(nonce, port, before);
        lemma_settings_are_kept(nonce, port, before);
        assert(inputs[n] == inputs.last());
        if n > 0 {
            assert(before.last() == inputs[n - 1]);
        }
        if phase == ControlPhase::CheckingHost {
            if inputs.last().event == ControlEventView::HostPrefix(nonce) {
                assert(host_proof_at(nonce, inputs, n));
            }
        } else if phase == ControlPhase::Opening || is_forwarding(phase) {
            let j = choose|j: int| host_proof_at(nonce, before, j);
            assert(before[j] == inputs[j] && before[j - 1] == inputs[j - 1]);
            assert forall|k: int| j < k < inputs.len() implies (#[trigger] inputs[k]).event
                != ControlEventView::ConnectionAccepted by {
                if k < n {
                    assert(before[k] == inputs[k]);
                }
            }
            assert(host_proof_at(nonce, inputs, j));
        }
    }
}

proof fn lemma_still_proved(nonce: Seq<u8>, inputs: Seq<ControlInput>)
    requires
        inputs.len() > 0,
        host_proved(nonce, inputs.drop_last()),
        inputs.last().event != ControlEventView::ConnectionAccepted,
    ensures
        host_proved(nonce, inputs),
{
    let before = inputs.drop_last();
    let n = before.len() as int;
    let j = choose|j: int| host_proof_at(nonce, before, j);
    assert(before[j] == inputs[j] && before[j - 1] == inputs[j - 1]);
    assert(inputs[n] == inputs.last());
    assert forall|k: int| j < k < inputs.len() implies (#[trigger] inputs[k]).event
        != ControlEventView::ConnectionAccepted by {
        if k < n {
            assert(before[k] == inputs[k]);
        }
    }
    assert(host_proof_at(nonce, inputs, j));
}

/// No stranger's traffic is forwarded: whenever the relay makes a request over the
/// control channel, or writes to a host client, the host client that is connected
/// now has presented the nonce as its first bytes.
pub proof fn law_only_proved_hosts_are_forwarded(
    nonce: Seq<u8>,
    port: u16,
    inputs: Seq<ControlInput>,
    k: int,
)
    requires
        admissible(nonce, port, inputs),
        inputs.len() > 0,
        0 <= k < last_actions(nonce, port, inputs).len(),
        ({
            let action = last_actions(nonce, port, inputs)[k];
            action is Request || action is Exchange || action is WriteHost
        }),
    ensures
        host_proved(nonce, inputs),
{
    let before = inputs.drop_last();
    let phase = run(nonce, port, before).phase;
    lemma_settings_are_kept(nonce, port, before);
    lemma_host_proved(nonce, port, inputs);
    lemma_host_proved(nonce, port, before);
    if phase == ControlPhase::Opening || is_forwarding(phase) {
        lemma_still_proved(nonce, inputs);
    }
}

/// A failed check denies nothing to the real host client: whatever a fresh
/// connection does, or fails to do in time, the relay does not stop over it; and
/// unless the connection proves itself, it is dropped and the relay waits for the
/// next one.
pub proof fn law_failed_check_keeps_waiting(s: ControlView, event: ControlEventView, drawn: Seq<u8>)
    requires
        s.phase == ControlPhase::CheckingHost,
        machine::expects(s.phase, event),
    ensures
        event != ControlEventView::HostPrefix(s.nonce) ==> machine::react(s, event, drawn) == (
            ControlView { phase: ControlPhase::AwaitingHost, ..s },
            seq![ControlActionView::DropHost, ControlActionView::AcceptHost],
        ),
        event == ControlEventView::HostPrefix(s.nonce) ==> machine::react(s, event, drawn).0.phase
            == ControlPhase::Opening,
{
}

/// The relay stops when its listener fails or when it is asked to, and for no
/// other reason: a host client or a sandbox that goes away ends one forward alone.
pub proof fn law_stops_only_for_cause(s: ControlView, event: ControlEventView, drawn: Seq<u8>)
    requires
        machine::expects(s.phase, event),
    ensures
        machine::react(s, event, drawn).0.phase == ControlPhase::Stopped <==> (
        event is ListenerFailed || event is ShutdownRequested),
{
}

/// A shutdown request while a forward is open closes the forward before the relay
/// stops.
pub proof fn law_shutdown_closes_the_forward(s: ControlView, drawn: Seq<u8>)
    requires
        s.phase == ControlPhase::Bridging,
    ensures
        machine::react(s, ControlEventView::ShutdownRequested, drawn) == (
            ControlView { phase: ControlPhase::Stopped, ..s },
            seq![
                ControlActionView::Request(RequestView::Close { session_id: s.session_id }),
                ControlActionView::DropHost,
                ControlActionView::Stop,
            ],
        ),
{
}

/// Whether `action` is the one whose outcome the relay in state `s` waits for.
pub open spec fn awaits(s: ControlView, action: ControlActionView) -> bool {
    match s.phase {
        ControlPhase::AwaitingHost => action is AcceptHost,
        ControlPhase::CheckingHost => action is ReadHostPrefix,
        ControlPhase::Opening => action == ControlActionView::Request(
            RequestView::Open { session_id: s.session_id, target_port: s.target_port },
        ),
        ControlPhase::Bridging => action == ControlActionView::Exchange(
            RequestView::Read { session_id: s.session_id },
        ),
        ControlPhase::Forwarding => action matches ControlActionView::Request(
            RequestView::Write { session_id, .. },
        ) && session_id == s.session_id,
        ControlPhase::Delivering => action is WriteHost,
        ControlPhase::Stopped => action is Stop,
    }
}

/// The relay never waits for something that nobody does: the last action of a run
/// is the one whose outcome it waits for.
pub proof fn law_last_action_is_awaited(nonce: Seq<u8>, port: u16, inputs: Seq<ControlInput>)
    requires
        admissible(nonce, port, inputs),
    ensures
        emitted(nonce, port, inputs).len() > 0,
        awaits(run(nonce, port, inputs), emitted(nonce, port, inputs).last()),
{
    if inputs.len() > 0 {
        let before = emitted(nonce, port, inputs.drop_last());
        let actions = last_actions(nonce, port, inputs);
        assert(actions.len() > 0);
        assert((before + actions).last() == actions.last());
    }
}

/// The forwards that `actions` close, in order.
pub open spec fn closed_forwards(actions: Seq<ControlActionView>) -> Seq<Seq<char>>
    decreases actions.len(),
{
    if actions.len() == 0 {
        Seq::empty()
    } else {
        closed_forwards(actions.drop_last()) + match actions.last() {
            ControlActionView::Request(RequestView::Close { session_id }) => seq![session_id],
            _ => Seq::empty(),
        }
    }
}

/// The texts that `actions` write to forwards, in order.
pub open spec fn written_texts(actions: Seq<ControlActionView>) -> Seq<Seq<char>>
    decreases actions.len(),
{
    if actions.len() == 0 {
        Seq::empty()
    } else {
        written_texts(actions.drop_last()) + match actions.last() {
            ControlActionView::Request(RequestView::Write { bytes, .. }) => seq![bytes],
            _ => Seq::empty(),
        }
    }
}

/// The bytes that `actions` write to host clients, in order.
pub open spec fn written_bytes(actions: Seq<ControlActionView>) -> Seq<u8>
    decreases actions.len(),
{
    if actions.len() == 0 {
        Seq::empty()
    } else {
        written_bytes(actions.drop_last()) + match actions.last() {
            ControlActionView::WriteHost(bytes) => bytes,
            _ => Seq::empty(),
        }
    }
}

proof fn lemma_parts_of_sum(a: Seq<ControlActionView>, b: Seq<ControlActionView>)
    ensures
        closed_forwards(a + b) == closed_forwards(a) + closed_forwards(b),
        written_texts(a + b) == written_texts(a) + written_texts(b),
        written_bytes(a + b) == written_bytes(a) + written_bytes(b),
    decreases b.len(),
{
    if b.len() == 0 {
        assert(a + b =~= a);
        assert(closed_forwards(a) + closed_forwards(b) =~= closed_forwards(a));
        assert(written_texts(a) + written_texts(b) =~= written_texts(a));
        assert(written_bytes(a) + written_bytes(b) =~= written_bytes(a));
    } else {
        lemma_parts_of_sum(a, b.drop_last());
        assert((a + b).drop_last() =~= a + b.drop_last());
        assert((a + b).last() == b.last());
        assert(closed_forwards(a + b) =~= closed_forwards(a) + closed_forwards(b));
        assert(written_texts(a + b) =~= written_texts(a) + written_texts(b));
        assert(written_bytes(a + b) =~= written_bytes(a) + written_bytes(b));
    }
}

/// The bytes that a response to a read carries.
pub open spec fn reply_bytes(event: ControlEventView) -> Seq<u8> {
    match event {
        ControlEventView::ReadReplied(r) => match control::read_reply(r) {
            ReadReplyView::Encoded(t) => match encoding::base64_bytes(t) {
                Some(bytes) => bytes,
                None => Seq::empty(),
            },
            _ => Seq::empty(),
        },
        _ => Seq::empty(),
    }
}

/// The chunk that a host client sent, where it sent one.
pub open spec fn host_chunk(event: ControlEventView) -> Seq<Seq<u8>> {
    match event {
        ControlEventView::HostRead(bytes) => if bytes.len() == 0 {
            Seq::empty()
        } else {
            seq![bytes]
        },
        _ => Seq::empty(),
    }
}

proof fn lemma_parts_of_reaction(s: ControlView, event: ControlEventView, drawn: Seq<u8>)
    requires
        machine::expects(s.phase, event),
    ensures
        ({
            let (after, actions) = machine::react(s, event, drawn);
            &&& closed_forwards(actions) == if is_forwarding(s.phase) && !is_forwarding(
                after.phase,
            ) {
                seq![s.session_id]
            } else {
                Seq::empty()
            }
            &&& written_texts(actions) == host_chunk(event).map_values(
                |c: Seq<u8>| encoding::base64_text(c),
            )
            &&& written_bytes(actions) == reply_bytes(event)
        }),
{
    reveal_with_fuel(closed_forwards, 4);
    reveal_with_fuel(written_texts, 4);
    reveal_with_fuel(written_bytes, 4);
    let (after, actions) = machine::react(s, event, drawn);
    assert(actions.len() <= 3);
    assert(closed_forwards(actions) =~= if is_forwarding(s.phase) && !is_forwarding(after.phase) {
        seq![s.session_id]
    } else {
        Seq::empty()
    });
    assert(written_texts(actions) =~= host_chunk(event).map_values(
        |c: Seq<u8>| encoding::base64_text(c),
    ));
    assert(written_bytes(actions) =~= reply_bytes(event));
}

/// The forwards whose opening the sandbox confirmed, in order.
pub open spec fn opened_forwards(nonce: Seq<u8>, port: u16, inputs: Seq<ControlInput>) -> Seq<
    Seq<char>,
>
    decreases inputs.len(),
{
    if inputs.len() == 0 {
        Seq::empty()
    } else {
        let s = run(nonce, port, inputs.drop_last());
        opened_forwards(nonce, port, inputs.drop_last()) + match inputs.last().event {
            ControlEventView::Replied(r) => if s.phase == ControlPhase::Opening && control::is_ok(
                r,
            ) {
                seq![s.session_id]
            } else {
                Seq::empty()
            },
            _ => Seq::empty(),
        }
    }
}

/// The forward that is open in state `s`, where one is.
pub open spec fn open_forward(s: ControlView) -> Seq<Seq<char>> {
    if is_forwarding(s.phase) {
        seq![s.session_id]
    } else {
        Seq::empty()
    }
}

/// Every forward that was opened is closed, once, in order and under its own name:
/// the forwards closed so far are those opened so far, but for the one that is
/// open now. So none is open while the relay waits for a host client, and none
/// when it has stopped.
pub proof fn law_opened_forwards_are_closed(nonce: Seq<u8>, port: u16, inputs: Seq<ControlInput>)
    requires
        admissible(nonce, port, inputs),
    ensures
        opened_forwards(nonce, port, inputs) == closed_forwards(emitted(nonce, port, inputs))
            + open_forward(run(nonce, port, inputs)),
    decreases inputs.len(),
{
    let closed = closed_forwards(emitted(nonce, port, inputs));
    if inputs.len() == 0 {
        reveal_with_fuel(closed_forwards, 2);
        assert(opened_forwards(nonce, port, inputs) =~= closed);
    } else {
        let before = inputs.drop_last();
        let s = run(nonce, port, before);
        law_opened_forwards_are_closed(nonce, port, before);
        lemma_parts_of_sum(emitted(nonce, port, before), last_actions(nonce, port, inputs));
        lemma_parts_of_reaction(s, inputs.last().event, inputs.last().drawn);
        assert(opened_forwards(nonce, port, inputs) =~= closed + open_forward(
            run(nonce, port, inputs),
        ));
    }
}

/// The forward that `request` names.
pub open spec fn forward_of(request: RequestView) -> Seq<char> {
    match request {
        RequestView::Open { session_id, .. } => session_id,
        RequestView::Write { session_id, .. } => session_id,
        RequestView::Read { session_id } => session_id,
        RequestView::Close { session_id } => session_id,
    }
}

/// The requests that `actions` make over the control channel, in order.
pub open spec fn requests(actions: Seq<ControlActionView>) -> Seq<RequestView>
    decreases actions.len(),
{
    if actions.len() == 0 {
        Seq::empty()
    } else {
        requests(actions.drop_last()) + match actions.last() {
            ControlActionView::Request(request) => seq![request],
            ControlActionView::Exchange(request) => seq![request],
            _ => Seq::empty(),
        }
    }
}

/// Whether the request at `j` belongs to the forward whose opening is requested at
/// `o`: all of the requests between them name that forward, and none of those
/// before `j` closes it.
pub open spec fn belongs_to(made: Seq<RequestView>, o: int, j: int) -> bool {
    &&& 0 <= o <= j < made.len()
    &&& made[o] is Open
    &&& forall|t: int|
        o <= t <= j ==> forward_of(#[trigger] made[t]) == forward_of(made[o]) && (t > o ==> !(
        made[t] is Open)) && (t < j ==> !(made[t] is Close))
}

/// Whether the request at `j` belongs to a forward.
pub open spec fn has_forward(made: Seq<RequestView>, j: int) -> bool {
    exists|o: int| belongs_to(made, o, j)
}

/// Whether every request belongs to a forward.
spec fn in_forwards(made: Seq<RequestView>) -> bool {
    forall|j: int| 0 <= j < made.len() ==> #[trigger] has_forward(made, j)
}

proof fn lemma_requests_of_sum(a: Seq<ControlActionView>, b: Seq<ControlActionView>)
    ensures
        requests(a + b) == requests(a) + requests(b),
    decreases b.len(),
{
    if b.len() == 0 {
        assert(a + b =~= a);
        assert(requests(a) + requests(b) =~= requests(a));
    } else {
        lemma_requests_of_sum(a, b.drop_last());
        assert((a + b).drop_last() =~= a + b.drop_last());
        assert((a + b).last() == b.last());
        assert(requests(a + b) =~= requests(a) + requests(b));
    }
}

/// One more request keeps all of them in forwards where it opens one, or goes on
/// with the one that is not closed yet.
proof fn lemma_one_more_request(made: Seq<RequestView>, request: RequestView)
    requires
        in_forwards(made),
        request is Open || (made.len() > 0 && !(made.last() is Close) && forward_of(request)
            == forward_of(made.last())),
    ensures
        in_forwards(made.push(request)),
{
    let more = made.push(request);
    let n = made.len() as int;
    assert forall|j: int| 0 <= j < more.len() implies #[trigger] has_forward(more, j) by {
        if j < n {
            assert(has_forward(made, j));
            let o = choose|o: int| belongs_to(made, o, j);
            assert forall|t: int| o <= t <= j implies forward_of(#[trigger] more[t]) == forward_of(
                more[o],
            ) && (t > o ==> !(more[t] is Open)) && (t < j ==> !(more[t] is Close)) by {
                assert(more[t] == made[t]);
            }
            assert(belongs_to(more, o, j));
        } else if request is Open {
            assert(belongs_to(more, n, n));
        } else {
            let last = n - 1;
            assert(has_forward(made, last));
            let o = choose|o: int| belongs_to(made, o, last);
            assert(made.last() == made[last]);
            assert forall|t: int| o <= t <= n implies forward_of(#[trigger] more[t]) == forward_of(
                more[o],
            ) && (t > o ==> !(more[t] is Open)) && (t < n ==> !(more[t] is Close)) by {
                if t < n {
                    assert(more[t] == made[t]);
                }
            }
            assert(belongs_to(more, o, n));
        }
    }
}

proof fn lemma_requests_of_reaction(s: ControlView, event: ControlEventView, drawn: Seq<u8>)
    requires
        machine::expects(s.phase, event),
    ensures
        ({
            let (after, actions) = machine::react(s, event, drawn);
            let made = requests(actions);
            &&& made.len() <= 1
            &&& after.phase == ControlPhase::Opening ==> made.len() == 1
            &&& made.len() == 1 ==> {
                &&& made[0] is Open <==> after.phase == ControlPhase::Opening
                &&& made[0] is Close <==> !is_forwarding(after.phase) && after.phase
                    != ControlPhase::Opening
                &&& forward_of(made[0]) == after.session_id
                &&& made[0] is Open || (after.session_id == s.session_id && (is_forwarding(s.phase)
                    || s.phase == ControlPhase::Opening))
            }
            &&& made.len() == 0 && is_forwarding(after.phase) ==> is_forwarding(s.phase)
                && after.session_id == s.session_id
        }),
{
    reveal_with_fuel(requests, 4);
    let actions = machine::react(s, event, drawn).1;
    assert(actions.len() <= 3);
    assert(requests(actions) =~= if actions.len() == 0 {
        Seq::empty()
    } else {
        match actions[0] {
            ControlActionView::Request(request) => seq![request],
            ControlActionView::Exchange(request) => seq![request],
            _ => Seq::empty(),
        }
    });
}

proof fn lemma_in_forwards(nonce: Seq<u8>, port: u16, inputs: Seq<ControlInput>)
    requires
        admissible(nonce, port, inputs),
    ensures
        in_forwards(requests(emitted(nonce, port, inputs))),
        ({
            let s = run(nonce, port, inputs);
            let made = requests(emitted(nonce, port, inputs));
            is_forwarding(s.phase) || s.phase == ControlPhase::Opening ==> made.len() > 0 && !(
            made.last() is Close) && forward_of(made.last()) == s.session_id
        }),
    decreases inputs.len(),
{
    if inputs.len() == 0 {
        reveal_with_fuel(requests, 2);
        assert(requests(emitted(nonce, port, inputs)) =~= Seq::empty());
    } else {
        let before = inputs.drop_last();
        let s = run(nonce, port, before);
        let actions = last_actions(nonce, port, inputs);
        let made = requests(emitted(nonce, port, before));
        lemma_in_forwards(nonce, port, before);
        lemma_requests_of_sum(emitted(nonce, port, before), actions);
        lemma_requests_of_reaction(s, inputs.last().event, inputs.last().drawn);
        if requests(actions).len() == 0 {
            assert(made + requests(actions) =~= made);
        } else {
            assert(made + requests(actions) =~= made.push(requests(actions)[0]));
            lemma_one_more_request(made, requests(actions)[0]);
        }
    }
}

/// Every request over the control channel belongs to the forward whose opening was
/// requested last, and comes before that forward is closed.
pub proof fn law_requests_belong_to_the_last_forward(
    nonce: Seq<u8>,
    port: u16,
    inputs: Seq<ControlInput>,
    j: int,
)
    requires
        admissible(nonce, port, inputs),
        0 <= j < requests(emitted(nonce, port, inputs)).len(),
    ensures
        has_forward(requests(emitted(nonce, port, inputs)), j),
{
    lemma_in_forwards(nonce, port, inputs);
}

/// Whether `made[o]` requests the opening of a forward named `id`.
pub open spec fn opens_at(made: Seq<RequestView>, id: Seq<char>, o: int) -> bool {
    0 <= o < made.len() && made[o] is Open && forward_of(made[o]) == id
}

/// The close is the last request to name its forward: a later request under the
/// same name is of another forward, which has been opened under it since.
pub proof fn law_close_is_the_last_request(
    nonce: Seq<u8>,
    port: u16,
    inputs: Seq<ControlInput>,
    i: int,
    j: int,
)
    requires
        admissible(nonce, port, inputs),
        0 <= i < j < requests(emitted(nonce, port, inputs)).len(),
        requests(emitted(nonce, port, inputs))[i] is Close,
    ensures
        ({
            let made = requests(emitted(nonce, port, inputs));
            forward_of(made[j]) == forward_of(made[i]) ==> exists|o: int|
                i < o <= j && #[trigger] opens_at(made, forward_of(made[i]), o)
        }),
{
    let made = requests(emitted(nonce, port, inputs));
    lemma_in_forwards(nonce, port, inputs);
    assert(has_forward(made, j));
    let o = choose|o: int| belongs_to(made, o, j);
    assert(made[i] is Close && forward_of(made[j]) == forward_of(made[o]));
    assert(i < o);
    if forward_of(made[j]) == forward_of(made[i]) {
        assert(opens_at(made, forward_of(made[i]), o));
    }
}

/// The requests of two forwards never interleave: where a request of another
/// forward stands between two under one name, the later of these is of a forward
/// that has been opened under that name since.
pub proof fn law_forwards_do_not_interleave(
    nonce: Seq<u8>,
    port: u16,
    inputs: Seq<ControlInput>,
    j: int,
    m: int,
)
    requires
        admissible(nonce, port, inputs),
        0 <= j < m < requests(emitted(nonce, port, inputs)).len(),
    ensures
        ({
            let made = requests(emitted(nonce, port, inputs));
            forward_of(made[j]) != forward_of(made[m]) ==> exists|o: int|
                j < o <= m && #[trigger] opens_at(made, forward_of(made[m]), o)
        }),
{
    let made = requests(emitted(nonce, port, inputs));
    lemma_in_forwards(nonce, port, inputs);
    assert(has_forward(made, m));
    let o = choose|o: int| belongs_to(made, o, m);
    assert(forward_of(made[m]) == forward_of(made[o]));
    if forward_of(made[j]) != forward_of(made[m]) {
        assert(j < o) by {
            if o <= j {
                assert(forward_of(made[j]) == forward_of(made[o]));
            }
        }
        assert(opens_at(made, forward_of(made[m]), o));
    }
}

/// The non-empty chunks that host clients sent after their nonces, in order.
pub open spec fn host_chunks(inputs: Seq<ControlInput>) -> Seq<Seq<u8>>
    decreases inputs.len(),
{
    if inputs.len() == 0 {
        Seq::empty()
    } else {
        host_chunks(inputs.drop_last()) + host_chunk(inputs.last().event)
    }
}

/// The bytes that responses to reads carry, in order.
pub open spec fn sandbox_bytes(inputs: Seq<ControlInput>) -> Seq<u8>
    decreases inputs.len(),
{
    if inputs.len() == 0 {
        Seq::empty()
    } else {
        sandbox_bytes(inputs.drop_last()) + reply_bytes(inputs.last().event)
    }
}

/// The forward is transparent: what the relay writes to forwards is the base64 of
/// the chunks that host clients sent after their nonces, and what it writes to
/// host clients is what the responses to reads carry in base64: all of it, in the
/// same order, and nothing else.
pub proof fn law_forward_is_transparent(nonce: Seq<u8>, port: u16, inputs: Seq<ControlInput>)
    requires
        admissible(nonce, port, inputs),
    ensures
        written_texts(emitted(nonce, port, inputs)) == host_chunks(inputs).map_values(
            |c: Seq<u8>| encoding::base64_text(c),
        ),
        written_bytes(emitted(nonce, port, inputs)) == sandbox_bytes(inputs),
    decreases inputs.len(),
{
    let text = |c: Seq<u8>| encoding::base64_text(c);
    if inputs.len() == 0 {
        reveal_with_fuel(written_texts, 2);
        reveal_with_fuel(written_bytes, 2);
        assert(written_texts(emitted(nonce, port, inputs)) =~= host_chunks(inputs).map_values(
            text,
        ));
        assert(written_bytes(emitted(nonce, port, inputs)) =~= sandbox_bytes(inputs));
    } else {
        let before = inputs.drop_last();
        law_forward_is_transparent(nonce, port, before);
        lemma_parts_of_sum(emitted(nonce, port, before), last_actions(nonce, port, inputs));
        lemma_parts_of_reaction(
            run(nonce, port, before),
            inputs.last().event,
            inputs.last().drawn,
        );
        assert(host_chunks(inputs).map_values(text) =~= host_chunks(before).map_values(text)
            + host_chunk(inputs.last().event).map_values(text));
    }
}

/// The host bytes that the current or the last forward has confirmed.
pub open spec fn confirmed_host_bytes(nonce: Seq<u8>, port: u16, inputs: Seq<ControlInput>) -> nat
    decreases inputs.len(),
{
    if inputs.len() == 0 {
        0
    } else {
        let before = inputs.drop_last();
        let s = run(nonce, port, before);
        match inputs.last().event {
            ControlEventView::Replied(r) if control::is_ok(r) => if s.phase
                == ControlPhase::Opening {
                0
            } else {
                confirmed_host_bytes(nonce, port, before) + last_chunk_len(before)
            },
            _ => confirmed_host_bytes(nonce, port, before),
        }
    }
}

/// The length of the chunk that came with the last of `inputs`.
pub open spec fn last_chunk_len(inputs: Seq<ControlInput>) -> nat {
    match inputs.last().event {
        ControlEventView::HostRead(bytes) => bytes.len(),
        _ => 0,
    }
}

/// The bytes that the host client of the current or the last forward has taken.
pub open spec fn delivered_sandbox_bytes(
    nonce: Seq<u8>,
    port: u16,
    inputs: Seq<ControlInput>,
) -> nat
    decreases inputs.len(),
{
    if inputs.len() == 0 {
        0
    } else {
        let before = inputs.drop_last();
        match inputs.last().event {
            ControlEventView::Replied(r) if control::is_ok(r) && run(nonce, port, before).phase
                == ControlPhase::Opening => 0,
            ControlEventView::Written => delivered_sandbox_bytes(nonce, port, before)
                + reply_bytes(before.last().event).len(),
            _ => delivered_sandbox_bytes(nonce, port, before),
        }
    }
}

/// Bytes are counted once they have arrived, and from nothing for each forward:
/// host bytes when the sandbox has confirmed them, bytes of the sandbox when they
/// have been written to the host client.
pub proof fn law_arrived_bytes_are_counted(nonce: Seq<u8>, port: u16, inputs: Seq<ControlInput>)
    requires
        admissible(nonce, port, inputs),
    ensures
        run(nonce, port, inputs).host_to_sandbox_bytes == confirmed_host_bytes(nonce, port, inputs),
        run(nonce, port, inputs).phase == ControlPhase::Forwarding ==> {
            &&& inputs.len() > 0
            &&& run(nonce, port, inputs).pending == last_chunk_len(inputs)
            &&& 0 < last_chunk_len(inputs) <= HOST_CHUNK_LEN
        },
        run(nonce, port, inputs).sandbox_to_host_bytes == delivered_sandbox_bytes(
            nonce,
            port,
            inputs,
        ),
        run(nonce, port, inputs).phase == ControlPhase::Delivering ==> {
            &&& inputs.len() > 0
            &&& run(nonce, port, inputs).pending == reply_bytes(inputs.last().event).len()
        },
    decreases inputs.len(),
{
    if inputs.len() > 0 {
        law_arrived_bytes_are_counted(nonce, port, inputs.drop_last());
    }
}

/// Whether `actions` do nothing but wait for traffic of the forward `id`: one read is
/// asked for.
pub open spec fn only_reads(actions: Seq<ControlActionView>, id: Seq<char>) -> bool {
    actions == seq![ControlActionView::Exchange(RequestView::Read { session_id: id })]
}

/// Whether `actions` close the forward `id`, drop its host client and then do `rest`.
pub open spec fn only_closes(
    actions: Seq<ControlActionView>,
    id: Seq<char>,
    rest: ControlActionView,
) -> bool {
    actions == seq![
        ControlActionView::Request(RequestView::Close { session_id: id }),
        ControlActionView::DropHost,
        rest,
    ]
}

/// The real host client is always accepted, whatever the nonce and whatever went
/// before: a forward to the target port is asked for, under a name that spells the
/// random bytes. Any other first bytes are dropped and waited past.
pub proof fn law_real_host_opens_a_forward(
    s: ControlView,
    drawn: Seq<u8>,
    digits: Seq<char>,
    other: Seq<u8>,
)
    requires
        s.phase == ControlPhase::CheckingHost,
        octets::spells(digits, drawn),
    ensures
        ({
            let (after, actions) = machine::react(s, ControlEventView::HostPrefix(s.nonce), drawn);
            &&& after.phase == ControlPhase::Opening
            &&& after.session_id == digits
            &&& after.nonce == s.nonce
            &&& after.target_port == s.target_port
            &&& actions == seq![
                ControlActionView::Request(
                    RequestView::Open { session_id: digits, target_port: s.target_port },
                ),
            ]
        }),
        other != s.nonce ==> {
            let (after, actions) = machine::react(s, ControlEventView::HostPrefix(other), drawn);
            &&& after.phase == ControlPhase::AwaitingHost
            &&& actions == seq![ControlActionView::DropHost, ControlActionView::AcceptHost]
        },
{
    octets::law_hex_spells_the_bytes(drawn, digits);
}

/// A host client is heard when it connects, and waited past when it fails to present
/// its first bytes; without one, the relay stops where its listener fails or it is
/// asked to.
pub proof fn law_hosts_are_heard(s: ControlView, event: ControlEventView, drawn: Seq<u8>)
    requires
        machine::expects(s.phase, event),
    ensures
        ({
            let (after, actions) = machine::react(s, event, drawn);
            &&& s.phase == ControlPhase::AwaitingHost && event is ConnectionAccepted ==> {
                &&& after.phase == ControlPhase::CheckingHost
                &&& actions == seq![ControlActionView::ReadHostPrefix]
            }
            &&& s.phase == ControlPhase::AwaitingHost && (event is ListenerFailed
                || event is ShutdownRequested) ==> {
                &&& after.phase == ControlPhase::Stopped
                &&& actions == seq![ControlActionView::Stop]
            }
            &&& s.phase == ControlPhase::CheckingHost && (event is HostPrefixFailed
                || event is HostPrefixTimedOut) ==> {
                &&& after.phase == ControlPhase::AwaitingHost
                &&& actions == seq![ControlActionView::DropHost, ControlActionView::AcceptHost]
            }
        }),
{
}

/// A forward is open exactly where its opening is confirmed: it is then read, and
/// counts from nothing. Where it is not confirmed the host client is dropped, and
/// nothing is closed.
pub proof fn law_forward_opens_when_confirmed(
    s: ControlView,
    response: Result<JsonValue, ControlChannelError>,
    drawn: Seq<u8>,
)
    requires
        s.phase == ControlPhase::Opening,
    ensures
        ({
            let (after, actions) = machine::react(s, ControlEventView::Replied(response), drawn);
            if control::is_ok(response) {
                &&& after.phase == ControlPhase::Bridging
                &&& after.session_id == s.session_id
                &&& after.host_to_sandbox_bytes == 0
                &&& after.sandbox_to_host_bytes == 0
                &&& only_reads(actions, s.session_id)
            } else {
                &&& after.phase == ControlPhase::AwaitingHost
                &&& actions == seq![ControlActionView::DropHost, ControlActionView::AcceptHost]
            }
        }),
{
}

/// However many bytes a forward has carried, it goes on where a chunk has been
/// passed on: a write that is confirmed and bytes that the host client has taken are
/// counted, and the forward is read again. A read that has nothing yet is followed by
/// the next.
pub proof fn law_forward_goes_on_after_each_chunk(
    s: ControlView,
    response: Result<JsonValue, ControlChannelError>,
    drawn: Seq<u8>,
)
    ensures
        s.phase == ControlPhase::Delivering ==> {
            let (after, actions) = machine::react(s, ControlEventView::Written, drawn);
            &&& after == (ControlView {
                phase: ControlPhase::Bridging,
                sandbox_to_host_bytes: s.sandbox_to_host_bytes + s.pending,
                ..s
            })
            &&& only_reads(actions, s.session_id)
        },
        s.phase == ControlPhase::Forwarding && control::is_ok(response) ==> {
            let (after, actions) = machine::react(s, ControlEventView::Replied(response), drawn);
            &&& after == (ControlView {
                phase: ControlPhase::Bridging,
                host_to_sandbox_bytes: s.host_to_sandbox_bytes + s.pending,
                ..s
            })
            &&& only_reads(actions, s.session_id)
        },
        s.phase == ControlPhase::Bridging && control::carries(response, Seq::empty()) ==> {
            let event = ControlEventView::ReadReplied(response);
            let (after, actions) = machine::react(s, event, drawn);
            &&& after == s
            &&& only_reads(actions, s.session_id)
        },
{
    control::law_read_reply_is_what_is_carried(response, Seq::empty());
}

/// Every chunk is passed on whole, however long: host bytes are written to the
/// forward in base64, and what a read carries in base64 is written to the host client.
pub proof fn law_every_chunk_is_passed_on(
    s: ControlView,
    chunk: Seq<u8>,
    response: Result<JsonValue, ControlChannelError>,
    text: Seq<char>,
    drawn: Seq<u8>,
)
    requires
        s.phase == ControlPhase::Bridging,
    ensures
        chunk.len() > 0 ==> {
            let (after, actions) = machine::react(s, ControlEventView::HostRead(chunk), drawn);
            &&& after == (ControlView {
                phase: ControlPhase::Forwarding,
                pending: chunk.len(),
                ..s
            })
            &&& actions == seq![
                ControlActionView::Request(
                    RequestView::Write {
                        session_id: s.session_id,
                        bytes: encoding::base64_text(chunk),
                    },
                ),
            ]
        },
        text.len() > 0 && control::carries(response, text) ==> {
            let event = ControlEventView::ReadReplied(response);
            let (after, actions) = machine::react(s, event, drawn);
            match encoding::base64_bytes(text) {
                Some(bytes) => {
                    &&& after == (ControlView {
                        phase: ControlPhase::Delivering,
                        pending: bytes.len(),
                        ..s
                    })
                    &&& actions == seq![ControlActionView::WriteHost(bytes)]
                },
                None => after.phase == ControlPhase::AwaitingHost && only_closes(
                    actions,
                    s.session_id,
                    ControlActionView::AcceptHost,
                ),
            }
        },
{
    control::law_read_reply_is_what_is_carried(response, text);
}

/// What the two halves of passing a chunk on do with a chunk that has been encoded or
/// decoded already: it is handed on as it is.
pub proof fn law_encoded_chunks_are_handed_on(
    s: ControlView,
    len: nat,
    encoded: Seq<char>,
    bytes: Seq<u8>,
)
    ensures
        machine::forward(s, len, encoded) == (
            ControlView { phase: ControlPhase::Forwarding, pending: len, ..s },
            seq![
                ControlActionView::Request(
                    RequestView::Write { session_id: s.session_id, bytes: encoded },
                ),
            ],
        ),
        machine::deliver(s, Some(bytes)) == (
            ControlView { phase: ControlPhase::Delivering, pending: bytes.len(), ..s },
            seq![ControlActionView::WriteHost(bytes)],
        ),
        ({
            let (after, actions) = machine::deliver(s, None);
            &&& after == (ControlView { phase: ControlPhase::AwaitingHost, ..s })
            &&& only_closes(actions, s.session_id, ControlActionView::AcceptHost)
        }),
{
}

/// Whether a response to a read carries nothing, or base64.
pub open spec fn is_readable(response: Result<JsonValue, ControlChannelError>) -> bool {
    exists|text: Seq<char>| #[trigger]
        control::carries(response, text) && (text.len() == 0 || encoding::base64_bytes(
            text,
        ) is Some)
}

/// A forward ends only for cause: the host client has closed its end, or cannot be
/// read or written; a write is not confirmed; a read fails, ends, or carries no
/// base64; or a shutdown is requested. How much it has carried is no cause. Where it
/// ends it is closed and its host client dropped, and the relay stops where it was
/// asked to, else waits for the next host client.
pub proof fn law_forwards_end_only_for_cause(
    s: ControlView,
    event: ControlEventView,
    drawn: Seq<u8>,
)
    requires
        s.phase == ControlPhase::Bridging || s.phase == ControlPhase::Forwarding || s.phase
            == ControlPhase::Delivering,
        machine::expects(s.phase, event),
    ensures
        ({
            let (after, actions) = machine::react(s, event, drawn);
            let goes_on = match event {
                ControlEventView::HostRead(bytes) => bytes.len() > 0,
                ControlEventView::ReadReplied(response) => is_readable(response),
                ControlEventView::Replied(response) => control::is_ok(response),
                ControlEventView::Written => true,
                _ => false,
            };
            if goes_on {
                ||| after.phase == ControlPhase::Bridging
                ||| after.phase == ControlPhase::Forwarding
                ||| after.phase == ControlPhase::Delivering
            } else if event is ShutdownRequested {
                &&& after == (ControlView { phase: ControlPhase::Stopped, ..s })
                &&& only_closes(actions, s.session_id, ControlActionView::Stop)
            } else {
                &&& after == (ControlView { phase: ControlPhase::AwaitingHost, ..s })
                &&& only_closes(actions, s.session_id, ControlActionView::AcceptHost)
            }
        }),
{
    if let ControlEventView::ReadReplied(response) = event {
        match control::read_reply(response) {
            ReadReplyView::Encoded(text) => {
                control::law_read_reply_is_what_is_carried(response, text);
                if is_readable(response) {
                    let t = choose|t: Seq<char>| #[trigger]
                        control::carries(response, t) && (t.len() == 0 || encoding::base64_bytes(
                            t,
                        ) is Some);
                    assert(t == text);
                }
            },
            _ => {
                control::law_read_reply_is_what_is_carried(response, Seq::empty());
            },
        }
    }
}

/// Whether `event` can be the outcome of performing `action`.
pub open spec fn is_outcome(action: ControlActionView, event: ControlEventView) -> bool {
    match action {
        ControlActionView::AcceptHost => {
            ||| event is ConnectionAccepted
            ||| event is ListenerFailed
            ||| event is ShutdownRequested
        },
        ControlActionView::ReadHostPrefix => {
            ||| event is HostPrefix
            ||| event is HostPrefixFailed
            ||| event is HostPrefixTimedOut
        },
        ControlActionView::Request(_) => event is Replied,
        ControlActionView::Exchange(_) => {
            ||| event matches ControlEventView::HostRead(bytes) && bytes.len() <= 8192
            ||| event is HostReadFailed
            ||| event is ReadReplied
            ||| event is ShutdownRequested
        },
        ControlActionView::WriteHost(_) => event is Written || event is WriteFailed,
        _ => false,
    }
}

/// The relay takes every outcome of the action that it asked for last, and nothing
/// else.
pub proof fn law_every_outcome_is_expected(
    nonce: Seq<u8>,
    port: u16,
    inputs: Seq<ControlInput>,
    event: ControlEventView,
)
    requires
        admissible(nonce, port, inputs),
    ensures
        emitted(nonce, port, inputs).len() > 0,
        machine::expects(run(nonce, port, inputs).phase, event) <==> is_outcome(
            emitted(nonce, port, inputs).last(),
            event,
        ),
{
    law_last_action_is_awaited(nonce, port, inputs);
}

/// A relay begins with its nonce and its port, without a host client and with nothing
/// carried; and whatever it is told, it keeps its nonce and its port, and the name of
/// its forward until the next is asked for.
pub proof fn law_settings_are_kept(s: ControlView, event: ControlEventView, drawn: Seq<u8>)
    ensures
        ({
            let first = machine::initial(s.nonce, s.target_port);
            &&& first.nonce == s.nonce
            &&& first.target_port == s.target_port
            &&& first.phase == ControlPhase::AwaitingHost
            &&& first.session_id.len() == 0
            &&& first.host_to_sandbox_bytes == 0
            &&& first.sandbox_to_host_bytes == 0
        }),
        ({
            let after = machine::react(s, event, drawn).0;
            &&& after.nonce == s.nonce
            &&& after.target_port == s.target_port
            &&& s.phase != ControlPhase::CheckingHost ==> after.session_id == s.session_id
        }),
{
}

/// The counters refuse nothing that 64 bits can hold.
pub proof fn law_counters_hold_64_bits(s: ControlView, event: ControlEventView)
    ensures
        machine::countable(s, event) <==> {
            let counts_host = s.phase == ControlPhase::Forwarding && (
            event matches ControlEventView::Replied(response) && control::is_ok(response));
            let counts_sandbox = s.phase == ControlPhase::Delivering && event is Written;
            &&& counts_host ==> s.host_to_sandbox_bytes + s.pending <= 0xffff_ffff_ffff_ffff
            &&& counts_sandbox ==> s.sandbox_to_host_bytes + s.pending <= 0xffff_ffff_ffff_ffff
        },
{
}

/// The views of events hold the bytes and responses of the events.
pub proof fn law_event_views_are_faithful(event: ControlEvent)
    ensures
        event matches ControlEvent::HostRead(bytes) ==> event@ == ControlEventView::HostRead(
            bytes@,
        ),
        event matches ControlEvent::HostPrefix(bytes) ==> event@ == ControlEventView::HostPrefix(
            bytes@,
        ),
        event matches ControlEvent::Replied(response) ==> event@ == ControlEventView::Replied(
            response,
        ),
        event matches ControlEvent::ReadReplied(response) ==> event@
            == ControlEventView::ReadReplied(response),
        event is ConnectionAccepted <==> event@ is ConnectionAccepted,
        event is ListenerFailed <==> event@ is ListenerFailed,
        event is ShutdownRequested <==> event@ is ShutdownRequested,
        event is HostPrefixFailed <==> event@ is HostPrefixFailed,
        event is HostPrefixTimedOut <==> event@ is HostPrefixTimedOut,
        event is HostReadFailed <==> event@ is HostReadFailed,
        event is Written <==> event@ is Written,
        event is WriteFailed <==> event@ is WriteFailed,
{
}

/// The views of actions hold the requests and bytes of the actions, each action in its
/// place.
pub proof fn law_action_views_are_faithful(actions: Seq<ControlAction>, k: int)
    requires
        0 <= k < actions.len(),
    ensures
        machine::action_views(actions).len() == actions.len(),
        ({
            let action = actions[k];
            let seen = machine::action_views(actions)[k];
            &&& action matches ControlAction::Request(request) ==> seen
                == ControlActionView::Request(request@)
            &&& action matches ControlAction::Exchange(request) ==> seen
                == ControlActionView::Exchange(request@)
            &&& action matches ControlAction::WriteHost(bytes) ==> seen
                == ControlActionView::WriteHost(bytes@)
            &&& action is AcceptHost <==> seen is AcceptHost
            &&& action is ReadHostPrefix <==> seen is ReadHostPrefix
            &&& action is DropHost <==> seen is DropHost
            &&& action is Stop <==> seen is Stop
        }),
{
}

/// A peer that decodes any write among actions that decode to a chunk gets the chunk.
pub proof fn law_written_chunks_decode(
    actions: Seq<ControlActionView>,
    chunk: Seq<u8>,
    id: Seq<char>,
    text: Seq<char>,
)
    requires
        machine::writes_decode_to(actions, chunk),
        actions.contains(
            ControlActionView::Request(RequestView::Write { session_id: id, bytes: text }),
        ),
    ensures
        encoding::base64_bytes(text) == Some(chunk),
{
}

} // verus!
