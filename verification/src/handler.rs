//! The connection handler: sniff, then reject and close, or replay the
//! prefix and forward.
//!
//! The handler owns the decisions of one connection pair. Its driver reads
//! the prefix, performs each action on the streams and reports what came of
//! it.

use crate::forwarder::{bytes_read, copy_state_after, copy_written, running_task_wrote_all,
    written_is_prefix_of_read, CopyEventView};
use crate::sniffer::{sniff, verdict_on, PrefixBuffer, Verdict};
use vstd::prelude::*;
use vstd::slice::slice_to_vec;
use vstd::string::*;

verus! {

/// An error that is fatal to one connection, and to nothing else.
#[derive(Clone, Copy, Debug, PartialEq, Eq, Structural)]
pub enum Fault {
    /// The first read from the client failed.
    SniffRead,
    /// The write of the prefix to upstream failed.
    ReplayWrite,
}

/// How the handling of a connection ended.
#[derive(Clone, Copy, Debug, PartialEq, Eq, Structural)]
pub enum Outcome {
    /// The client carried the marker and was shut out.
    Rejected,
    /// The client was admitted and both directions have ended.
    Relayed,
    /// The connection was given up.
    Failed(Fault),
}

/// Where the handling of a connection stands.
#[derive(Clone, Copy, Debug, PartialEq, Eq, Structural)]
pub enum Phase {
    /// The first read from the client is awaited.
    Sniffing,
    /// The prefix is being written to upstream.
    Replaying,
    /// The two directions are being copied.
    Forwarding,
    /// Nothing more will be done.
    Done(Outcome),
}

/// What the driver of a connection reports.
#[derive(Debug)]
pub enum Event {
    /// The first read from the client returned this prefix.
    PrefixRead(PrefixBuffer),
    /// The first read from the client failed.
    PrefixReadFailed,
    /// The prefix has been written to upstream in full.
    Replayed,
    /// The write of the prefix to upstream failed.
    ReplayFailed,
    /// The forwarder has returned: both directions have ended.
    Forwarded,
}

/// What the driver of a connection is told to do.
#[derive(Debug, PartialEq, Eq)]
pub enum Action {
    /// Shut the client's stream down for reading and writing. Upstream was
    /// not used and is left as it is.
    ShutdownClient,
    /// Write all of these bytes to upstream.
    Replay(Vec<u8>),
    /// Copy both directions until each has ended.
    Forward,
    /// The connection has been handled.
    Finish,
    /// Give the connection up and report the fault.
    Abort(Fault),
}

/// An `Event` with its bytes as a sequence.
pub enum EventView {
    PrefixRead(Seq<u8>),
    PrefixReadFailed,
    Replayed,
    ReplayFailed,
    Forwarded,
}

/// An `Action` with its bytes as a sequence.
pub enum ActionView {
    ShutdownClient,
    Replay(Seq<u8>),
    Forward,
    Finish,
    Abort(Fault),
}

impl View for Event {
    type V = EventView;

    open spec fn view(&self) -> EventView {
        match *self {
            Event::PrefixRead(prefix) => EventView::PrefixRead(prefix@),
            Event::PrefixReadFailed => EventView::PrefixReadFailed,
            Event::Replayed => EventView::Replayed,
            Event::ReplayFailed => EventView::ReplayFailed,
            Event::Forwarded => EventView::Forwarded,
        }
    }
}

impl View for Action {
    type V = ActionView;

    open spec fn view(&self) -> ActionView {
        match *self {
            Action::ShutdownClient => ActionView::ShutdownClient,
            Action::Replay(bytes) => ActionView::Replay(bytes@),
            Action::Forward => ActionView::Forward,
            Action::Finish => ActionView::Finish,
            Action::Abort(fault) => ActionView::Abort(fault),
        }
    }
}

impl ActionView {
    /// The bytes that the action sends to upstream.
    pub open spec fn replayed(self) -> Seq<u8> {
        match self {
            ActionView::Replay(bytes) => bytes,
            _ => Seq::empty(),
        }
    }
}

impl Phase {
    /// The verdict that the phase stands for, `None` where none was reached.
    pub open spec fn spec_verdict(self) -> Option<Verdict> {
        match self {
            Phase::Sniffing => None,
            Phase::Replaying => Some(Verdict::Admit),
            Phase::Forwarding => Some(Verdict::Admit),
            Phase::Done(Outcome::Rejected) => Some(Verdict::Reject),
            Phase::Done(Outcome::Relayed) => Some(Verdict::Admit),
            Phase::Done(Outcome::Failed(Fault::SniffRead)) => None,
            Phase::Done(Outcome::Failed(Fault::ReplayWrite)) => Some(Verdict::Admit),
        }
    }

    /// The verdict that the phase stands for, `None` where none was reached.
    #[verifier::when_used_as_spec(spec_verdict)]
    pub fn verdict(self) -> (verdict: Option<Verdict>)
        ensures
            verdict == self.spec_verdict(),
    {
        match self {
            Phase::Sniffing => None,
            Phase::Replaying => Some(Verdict::Admit),
            Phase::Forwarding => Some(Verdict::Admit),
            Phase::Done(Outcome::Rejected) => Some(Verdict::Reject),
            Phase::Done(Outcome::Relayed) => Some(Verdict::Admit),
            Phase::Done(Outcome::Failed(Fault::SniffRead)) => None,
            Phase::Done(Outcome::Failed(Fault::ReplayWrite)) => Some(Verdict::Admit),
        }
    }
}

/// One step of the handler under a marker: from a phase and an event to the
/// next phase and the action, or `None` where the event does not belong to
/// the phase.
///
/// The prefix decides once: a prefix that carries the marker closes the
/// client and ends the handling, any other is replayed as it was read. A
/// failed read or a failed replay gives the connection up. After the replay
/// comes the forwarding, and after the forwarding the end.
pub open spec fn handler_step(marker: Seq<char>, phase: Phase, event: EventView) -> Option<
    (Phase, ActionView),
> {
    match (phase, event) {
        (Phase::Sniffing, EventView::PrefixRead(bytes)) => match verdict_on(bytes, marker) {
            Verdict::Reject => Some((Phase::Done(Outcome::Rejected), ActionView::ShutdownClient)),
            Verdict::Admit => Some((Phase::Replaying, ActionView::Replay(bytes))),
        },
        (Phase::Sniffing, EventView::PrefixReadFailed) => Some(
            (Phase::Done(Outcome::Failed(Fault::SniffRead)), ActionView::Abort(Fault::SniffRead)),
        ),
        (Phase::Replaying, EventView::Replayed) => Some((Phase::Forwarding, ActionView::Forward)),
        (Phase::Replaying, EventView::ReplayFailed) => Some(
            (
                Phase::Done(Outcome::Failed(Fault::ReplayWrite)),
                ActionView::Abort(Fault::ReplayWrite),
            ),
        ),
        (Phase::Forwarding, EventView::Forwarded) => Some(
            (Phase::Done(Outcome::Relayed), ActionView::Finish),
        ),
        _ => None,
    }
}

/// The phase after a run of events. An event that does not belong to the
/// phase in which it comes is passed over.
pub open spec fn phase_after(marker: Seq<char>, phase: Phase, events: Seq<EventView>) -> Phase
    decreases events.len(),
{
    if events.len() == 0 {
        phase
    } else {
        match handler_step(marker, phase, events[0]) {
            Some((next, _)) => phase_after(marker, next, events.drop_first()),
            None => phase_after(marker, phase, events.drop_first()),
        }
    }
}

/// The actions that a run of events draws from the handler, in order.
pub open spec fn actions_of(marker: Seq<char>, phase: Phase, events: Seq<EventView>) -> Seq<
    ActionView,
>
    decreases events.len(),
{
    if events.len() == 0 {
        Seq::empty()
    } else {
        match handler_step(marker, phase, events[0]) {
            Some((next, action)) => seq![action] + actions_of(marker, next, events.drop_first()),
            None => actions_of(marker, phase, events.drop_first()),
        }
    }
}

/// All bytes that a run of actions sends to upstream, in order.
pub open spec fn upstream_bytes(actions: Seq<ActionView>) -> Seq<u8>
    decreases actions.len(),
{
    if actions.len() == 0 {
        Seq::empty()
    } else {
        actions[0].replayed() + upstream_bytes(actions.drop_first())
    }
}

/// The handler of one connection pair.
#[derive(Debug)]
pub struct Handler {
    marker: String,
    phase: Phase,
}

impl Handler {
    /// The marker that a prefix is matched against.
    pub closed spec fn marker(&self) -> Seq<char> {
        self.marker@
    }

    /// Where the handling stands.
    pub closed spec fn spec_phase(&self) -> Phase {
        self.phase
    }

    /// A handler that awaits the first read, with the marker that shuts a
    /// client out.
    pub fn new(marker: &str) -> (handler: Handler)
        ensures
            handler.marker() == marker@,
            handler.phase() == Phase::Sniffing,
    {
        Handler { marker: String::from_str(marker), phase: Phase::Sniffing }
    }

    /// Where the handling stands.
    #[verifier::when_used_as_spec(spec_phase)]
    pub fn phase(&self) -> (phase: Phase)
        ensures
            phase == self.spec_phase(),
    {
        self.phase
    }

    /// Takes what the driver reports and says what to do next, as
    /// `handler_step` has it. An event that does not belong to the phase
    /// gives `None` and changes nothing. The marker never changes, and a
    /// verdict, once reached, stays.
    pub fn step(&mut self, event: Event) -> (action: Option<Action>)
        ensures
            final(self).marker() == old(self).marker(),
            match handler_step(old(self).marker(), old(self).phase(), event@) {
                Some((next, act)) => final(self).phase() == next && action.is_some()
                    && action.unwrap()@ == act,
                None => final(self).phase() == old(self).phase() && action.is_none(),
            },
            old(self).phase().verdict().is_some() ==> final(self).phase().verdict() == old(
                self,
            ).phase().verdict(),
    {
        match self.phase {
            Phase::Sniffing => match event {
                Event::PrefixRead(prefix) => match sniff(&prefix, self.marker.as_str()) {
                    Verdict::Reject => {
                        self.phase = Phase::Done(Outcome::Rejected);
                        Some(Action::ShutdownClient)
                    },
                    Verdict::Admit => {
                        self.phase = Phase::Replaying;
                        Some(Action::Replay(slice_to_vec(prefix.consumed())))
                    },
                },
                Event::PrefixReadFailed => {
                    self.phase = Phase::Done(Outcome::Failed(Fault::SniffRead));
                    Some(Action::Abort(Fault::SniffRead))
                },
                _ => None,
            },
            Phase::Replaying => match event {
                Event::Replayed => {
                    self.phase = Phase::Forwarding;
                    Some(Action::Forward)
                },
                Event::ReplayFailed => {
                    self.phase = Phase::Done(Outcome::Failed(Fault::ReplayWrite));
                    Some(Action::Abort(Fault::ReplayWrite))
                },
                _ => None,
            },
            Phase::Forwarding => match event {
                Event::Forwarded => {
                    self.phase = Phase::Done(Outcome::Relayed);
                    Some(Action::Finish)
                },
                _ => None,
            },
            Phase::Done(_) => None,
        }
    }
}

/// The bytes sent to upstream by an action followed by more actions are the
/// action's bytes followed by those of the rest.
proof fn upstream_bytes_of_first(action: ActionView, rest: Seq<ActionView>)
    ensures
        upstream_bytes(seq![action] + rest) == action.replayed() + upstream_bytes(rest),
{
    let all = seq![action] + rest;
    assert(all.drop_first() =~= rest);
    assert(all[0] == action);
}

/// A handler that is done stays as it is and asks for nothing more, whatever
/// is reported to it.
pub proof fn done_handler_is_silent(marker: Seq<char>, outcome: Outcome, events: Seq<EventView>)
    ensures
        phase_after(marker, Phase::Done(outcome), events) == Phase::Done(outcome),
        actions_of(marker, Phase::Done(outcome), events) == Seq::<ActionView>::empty(),
    decreases events.len(),
{
    if events.len() > 0 {
        done_handler_is_silent(marker, outcome, events.drop_first());
    }
}

/// Once the first read has been dealt with, the handler itself sends nothing
/// to upstream: the prefix is replayed at most once.
pub proof fn prefix_is_not_replayed_again(marker: Seq<char>, phase: Phase, events: Seq<EventView>)
    requires
        phase != Phase::Sniffing,
    ensures
        upstream_bytes(actions_of(marker, phase, events)) == Seq::<u8>::empty(),
    decreases events.len(),
{
    if events.len() > 0 {
        let rest = events.drop_first();
        match handler_step(marker, phase, events[0]) {
            Some((next, action)) => {
                prefix_is_not_replayed_again(marker, next, rest);
                upstream_bytes_of_first(action, actions_of(marker, next, rest));
                assert(action.replayed() + Seq::<u8>::empty() =~= Seq::<u8>::empty());
            },
            None => {
                prefix_is_not_replayed_again(marker, phase, rest);
            },
        }
    }
}

/// A verdict, once reached, is never changed by anything that follows.
pub proof fn verdict_is_final(marker: Seq<char>, phase: Phase, events: Seq<EventView>)
    requires
        phase.verdict().is_some(),
    ensures
        phase_after(marker, phase, events).verdict() == phase.verdict(),
    decreases events.len(),
{
    if events.len() > 0 {
        let rest = events.drop_first();
        match handler_step(marker, phase, events[0]) {
            Some((next, _)) => {
                verdict_is_final(marker, next, rest);
            },
            None => {
                verdict_is_final(marker, phase, rest);
            },
        }
    }
}

/// The verdict of a connection is the verdict on its prefix, whatever is
/// reported afterwards.
pub proof fn verdict_is_that_of_the_prefix(
    marker: Seq<char>,
    prefix: Seq<u8>,
    later: Seq<EventView>,
)
    ensures
        phase_after(
            marker,
            Phase::Sniffing,
            seq![EventView::PrefixRead(prefix)] + later,
        ).verdict() == Some(verdict_on(prefix, marker)),
{
    let events = seq![EventView::PrefixRead(prefix)] + later;
    assert(events.drop_first() =~= later);
    assert(events[0] == EventView::PrefixRead(prefix));
    let next = handler_step(marker, Phase::Sniffing, events[0]).unwrap().0;
    verdict_is_final(marker, next, later);
}

/// A client whose prefix carries the marker is shut down and that is all:
/// whatever is reported afterwards, the handler asks for no write to upstream
/// and for no forwarding, so no byte of the client crosses.
pub proof fn rejected_client_reaches_nothing(
    marker: Seq<char>,
    prefix: Seq<u8>,
    later: Seq<EventView>,
)
    requires
        verdict_on(prefix, marker) == Verdict::Reject,
    ensures
        actions_of(marker, Phase::Sniffing, seq![EventView::PrefixRead(prefix)] + later)
            == seq![ActionView::ShutdownClient],
        phase_after(marker, Phase::Sniffing, seq![EventView::PrefixRead(prefix)] + later)
            == Phase::Done(Outcome::Rejected),
        upstream_bytes(
            actions_of(marker, Phase::Sniffing, seq![EventView::PrefixRead(prefix)] + later),
        ) == Seq::<u8>::empty(),
{
    let events = seq![EventView::PrefixRead(prefix)] + later;
    assert(events.drop_first() =~= later);
    assert(events[0] == EventView::PrefixRead(prefix));
    done_handler_is_silent(marker, Outcome::Rejected, later);
    assert(seq![ActionView::ShutdownClient] + Seq::<ActionView>::empty()
        =~= seq![ActionView::ShutdownClient]);
    upstream_bytes_of_first(ActionView::ShutdownClient, Seq::<ActionView>::empty());
    assert(ActionView::ShutdownClient.replayed() + Seq::<u8>::empty() =~= Seq::<u8>::empty());
}

/// A client whose first read fails is given up: nothing is sent to upstream
/// and nothing is forwarded.
pub proof fn failed_sniff_reaches_nothing(marker: Seq<char>, later: Seq<EventView>)
    ensures
        actions_of(marker, Phase::Sniffing, seq![EventView::PrefixReadFailed] + later)
            == seq![ActionView::Abort(Fault::SniffRead)],
        phase_after(marker, Phase::Sniffing, seq![EventView::PrefixReadFailed] + later)
            == Phase::Done(Outcome::Failed(Fault::SniffRead)),
{
    let events = seq![EventView::PrefixReadFailed] + later;
    assert(events.drop_first() =~= later);
    assert(events[0] == EventView::PrefixReadFailed);
    done_handler_is_silent(marker, Outcome::Failed(Fault::SniffRead), later);
    assert(seq![ActionView::Abort(Fault::SniffRead)] + Seq::<ActionView>::empty()
        =~= seq![ActionView::Abort(Fault::SniffRead)]);
}

/// For a client whose prefix does not carry the marker, the handler sends to
/// upstream exactly the bytes that the sniffing consumed, once, whatever is
/// reported afterwards.
pub proof fn admitted_prefix_is_replayed_once(
    marker: Seq<char>,
    prefix: Seq<u8>,
    later: Seq<EventView>,
)
    requires
        verdict_on(prefix, marker) == Verdict::Admit,
    ensures
        upstream_bytes(
            actions_of(marker, Phase::Sniffing, seq![EventView::PrefixRead(prefix)] + later),
        ) == prefix,
{
    let events = seq![EventView::PrefixRead(prefix)] + later;
    assert(events.drop_first() =~= later);
    assert(events[0] == EventView::PrefixRead(prefix));
    prefix_is_not_replayed_again(marker, Phase::Replaying, later);
    upstream_bytes_of_first(
        ActionView::Replay(prefix),
        actions_of(marker, Phase::Replaying, later),
    );
    assert(prefix + Seq::<u8>::empty() =~= prefix);
}

/// An admitted client whose replay succeeds is forwarded, and the handling
/// ends when the forwarder returns: replay, forward, finish, in this order.
pub proof fn admitted_client_is_relayed(marker: Seq<char>, prefix: Seq<u8>)
    requires
        verdict_on(prefix, marker) == Verdict::Admit,
    ensures
        actions_of(
            marker,
            Phase::Sniffing,
            seq![EventView::PrefixRead(prefix), EventView::Replayed, EventView::Forwarded],
        ) == seq![ActionView::Replay(prefix), ActionView::Forward, ActionView::Finish],
        phase_after(
            marker,
            Phase::Sniffing,
            seq![EventView::PrefixRead(prefix), EventView::Replayed, EventView::Forwarded],
        ) == Phase::Done(Outcome::Relayed),
{
    let e0 = seq![EventView::PrefixRead(prefix), EventView::Replayed, EventView::Forwarded];
    let e1 = seq![EventView::Replayed, EventView::Forwarded];
    let e2 = seq![EventView::Forwarded];
    let e3 = Seq::<EventView>::empty();
    assert(e0.drop_first() =~= e1);
    assert(e1.drop_first() =~= e2);
    assert(e2.drop_first() =~= e3);
    assert(actions_of(marker, Phase::Done(Outcome::Relayed), e3) == Seq::<ActionView>::empty());
    assert(actions_of(marker, Phase::Forwarding, e2) =~= seq![ActionView::Finish]);
    assert(actions_of(marker, Phase::Replaying, e1) =~= seq![
        ActionView::Forward,
        ActionView::Finish,
    ]);
    assert(actions_of(marker, Phase::Sniffing, e0) =~= seq![
        ActionView::Replay(prefix),
        ActionView::Forward,
        ActionView::Finish,
    ]);
    assert(phase_after(marker, Phase::Done(Outcome::Relayed), e3) == Phase::Done(
        Outcome::Relayed,
    ));
    assert(phase_after(marker, Phase::Forwarding, e2) == Phase::Done(Outcome::Relayed));
    assert(phase_after(marker, Phase::Replaying, e1) == Phase::Done(Outcome::Relayed));
}

/// What upstream is sent from an admitted client, by the replay and then by
/// the task that copies from the client, is an initial part of what was read
/// from the client, the prefix first: byte for byte, in order, nothing twice.
/// While that task runs, it is all of it.
pub proof fn client_stream_reaches_upstream(
    marker: Seq<char>,
    prefix: Seq<u8>,
    later: Seq<EventView>,
    copied: Seq<CopyEventView>,
)
    requires
        verdict_on(prefix, marker) == Verdict::Admit,
    ensures
        (upstream_bytes(
            actions_of(marker, Phase::Sniffing, seq![EventView::PrefixRead(prefix)] + later),
        ) + copy_written(None, copied)).is_prefix_of(prefix + bytes_read(copied)),
        copy_state_after(None, copied) is None ==> upstream_bytes(
            actions_of(marker, Phase::Sniffing, seq![EventView::PrefixRead(prefix)] + later),
        ) + copy_written(None, copied) == prefix + bytes_read(copied),
{
    admitted_prefix_is_replayed_once(marker, prefix, later);
    written_is_prefix_of_read(copied);
    let w = copy_written(None, copied);
    let r = bytes_read(copied);
    assert((prefix + w) =~= (prefix + r).subrange(0, (prefix + w).len() as int));
    if copy_state_after(None, copied) is None {
        running_task_wrote_all(copied);
    }
}

} // verus!
