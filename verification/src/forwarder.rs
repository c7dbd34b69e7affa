//! The duplex forwarder: two copying tasks, one per direction, and the wait
//! for both.
//!
//! A task reads a chunk from its source and writes it whole to its sink, again
//! and again, until the source ends or one of the two calls fails. `Copier` is
//! the state of one task. `Duplex` is the state of the wait.

use vstd::prelude::*;

verus! {

/// One of the two directions of a connection pair.
#[derive(Clone, Copy, Debug, PartialEq, Eq, Structural)]
pub enum Flow {
    ClientToUpstream,
    UpstreamToClient,
}

impl Flow {
    /// The opposite direction.
    pub open spec fn spec_reverse(self) -> Flow {
        match self {
            Flow::ClientToUpstream => Flow::UpstreamToClient,
            Flow::UpstreamToClient => Flow::ClientToUpstream,
        }
    }

    /// The opposite direction.
    #[verifier::when_used_as_spec(spec_reverse)]
    pub fn reverse(self) -> (other: Flow)
        ensures
            other == self.spec_reverse(),
    {
        match self {
            Flow::ClientToUpstream => Flow::UpstreamToClient,
            Flow::UpstreamToClient => Flow::ClientToUpstream,
        }
    }
}

/// Why a direction stopped. Each of these is final for the direction and
/// touches no other.
#[derive(Clone, Copy, Debug, PartialEq, Eq, Structural)]
pub enum End {
    /// The source returned zero bytes.
    Eof,
    /// A read from the source failed.
    ReadFailed,
    /// A write to the sink failed.
    WriteFailed,
}

/// What the driver of a task reports.
#[derive(Debug, PartialEq, Eq)]
pub enum CopyEvent {
    /// A read returned these bytes; none means end of stream.
    Chunk(Vec<u8>),
    /// A read failed.
    ReadFailed,
    /// The write of the last chunk failed.
    WriteFailed,
}

/// What the driver of a task is told to do.
#[derive(Debug, PartialEq, Eq)]
pub enum CopyAction {
    /// Write all of these bytes to the sink, then read again.
    Write(Vec<u8>),
    /// The direction has ended: read and write no more.
    Stop(End),
}

/// A `CopyEvent` with its bytes as a sequence.
pub enum CopyEventView {
    Chunk(Seq<u8>),
    ReadFailed,
    WriteFailed,
}

/// A `CopyAction` with its bytes as a sequence.
pub enum CopyActionView {
    Write(Seq<u8>),
    Stop(End),
}

impl View for CopyEvent {
    type V = CopyEventView;

    open spec fn view(&self) -> CopyEventView {
        match *self {
            CopyEvent::Chunk(bytes) => CopyEventView::Chunk(bytes@),
            CopyEvent::ReadFailed => CopyEventView::ReadFailed,
            CopyEvent::WriteFailed => CopyEventView::WriteFailed,
        }
    }
}

impl View for CopyAction {
    type V = CopyActionView;

    open spec fn view(&self) -> CopyActionView {
        match *self {
            CopyAction::Write(bytes) => CopyActionView::Write(bytes@),
            CopyAction::Stop(end) => CopyActionView::Stop(end),
        }
    }
}

impl CopyEventView {
    /// The bytes that the event says were read.
    pub open spec fn read(self) -> Seq<u8> {
        match self {
            CopyEventView::Chunk(bytes) => bytes,
            _ => Seq::empty(),
        }
    }
}

impl CopyActionView {
    /// The bytes that the action hands to the sink.
    pub open spec fn written(self) -> Seq<u8> {
        match self {
            CopyActionView::Write(bytes) => bytes,
            CopyActionView::Stop(_) => Seq::empty(),
        }
    }
}

/// One step of a copying task, from how it stands (`None` while it runs) and
/// what was reported, to how it stands next and what to do.
///
/// A task that has ended stays as it ended and hands out nothing. A running
/// task passes a chunk on as it came, ends on an empty chunk, and ends on a
/// failure.
pub open spec fn copy_step(ended: Option<End>, event: CopyEventView) -> (Option<End>, CopyActionView) {
    match ended {
        Some(end) => (Some(end), CopyActionView::Stop(end)),
        None => match event {
            CopyEventView::Chunk(bytes) => if bytes.len() == 0 {
                (Some(End::Eof), CopyActionView::Stop(End::Eof))
            } else {
                (None, CopyActionView::Write(bytes))
            },
            CopyEventView::ReadFailed => (Some(End::ReadFailed), CopyActionView::Stop(End::ReadFailed)),
            CopyEventView::WriteFailed => (
                Some(End::WriteFailed),
                CopyActionView::Stop(End::WriteFailed),
            ),
        },
    }
}

/// How a task stands after a run of events.
pub open spec fn copy_state_after(ended: Option<End>, events: Seq<CopyEventView>) -> Option<End>
    decreases events.len(),
{
    if events.len() == 0 {
        ended
    } else {
        copy_state_after(copy_step(ended, events[0]).0, events.drop_first())
    }
}

/// All bytes that a task hands to its sink over a run of events, in order.
pub open spec fn copy_written(ended: Option<End>, events: Seq<CopyEventView>) -> Seq<u8>
    decreases events.len(),
{
    if events.len() == 0 {
        Seq::empty()
    } else {
        let (next, action) = copy_step(ended, events[0]);
        action.written() + copy_written(next, events.drop_first())
    }
}

/// All bytes that a run of events says were read from the source, in order.
pub open spec fn bytes_read(events: Seq<CopyEventView>) -> Seq<u8>
    decreases events.len(),
{
    if events.len() == 0 {
        Seq::empty()
    } else {
        events[0].read() + bytes_read(events.drop_first())
    }
}

/// The state of one copying task.
#[derive(Clone, Copy, Debug)]
pub struct Copier {
    ended: Option<End>,
}

impl Copier {
    /// Why the task has ended, `None` while it runs.
    pub closed spec fn spec_ended(&self) -> Option<End> {
        self.ended
    }

    /// A task that runs and has copied nothing yet.
    pub fn new() -> (copier: Copier)
        ensures
            copier.ended() is None,
    {
        Copier { ended: None }
    }

    /// Why the task has ended, `None` while it runs.
    #[verifier::when_used_as_spec(spec_ended)]
    pub fn ended(&self) -> (ended: Option<End>)
        ensures
            ended == self.spec_ended(),
    {
        self.ended
    }

    /// Takes what the driver reports and says what to do next, as `copy_step`
    /// has it.
    pub fn step(&mut self, event: CopyEvent) -> (action: CopyAction)
        ensures
            (final(self).ended(), action@) == copy_step(old(self).ended(), event@),
    {
        match self.ended {
            Some(end) => CopyAction::Stop(end),
            None => match event {
                CopyEvent::Chunk(bytes) => {
                    if bytes.len() == 0 {
                        self.ended = Some(End::Eof);
                        CopyAction::Stop(End::Eof)
                    } else {
                        CopyAction::Write(bytes)
                    }
                },
                CopyEvent::ReadFailed => {
                    self.ended = Some(End::ReadFailed);
                    CopyAction::Stop(End::ReadFailed)
                },
                CopyEvent::WriteFailed => {
                    self.ended = Some(End::WriteFailed);
                    CopyAction::Stop(End::WriteFailed)
                },
            },
        }
    }
}

/// A task that has ended stays ended, for the same reason, and writes nothing
/// more, whatever is reported to it.
pub proof fn ended_task_stays_silent(end: End, events: Seq<CopyEventView>)
    ensures
        copy_state_after(Some(end), events) == Some(end),
        copy_written(Some(end), events) == Seq::<u8>::empty(),
    decreases events.len(),
{
    if events.len() > 0 {
        ended_task_stays_silent(end, events.drop_first());
        assert(copy_written(Some(end), events) =~= Seq::<u8>::empty());
    }
}

/// What a task writes is an initial part of what was read, byte for byte:
/// nothing is altered, reordered, duplicated or made up.
pub proof fn written_is_prefix_of_read(events: Seq<CopyEventView>)
    ensures
        copy_written(None, events).is_prefix_of(bytes_read(events)),
    decreases events.len(),
{
    if events.len() == 0 {
        assert(copy_written(None, events) =~= bytes_read(events).subrange(0, 0));
    } else {
        let rest = events.drop_first();
        let (next, action) = copy_step(None, events[0]);
        match next {
            None => {
                written_is_prefix_of_read(rest);
                let head = events[0].read();
                let w = copy_written(None, rest);
                let r = bytes_read(rest);
                assert(action.written() == head);
                assert((head + w) =~= (head + r).subrange(0, (head + w).len() as int));
            },
            Some(end) => {
                ended_task_stays_silent(end, rest);
                assert(copy_written(None, events) =~= bytes_read(events).subrange(0, 0));
            },
        }
    }
}

/// While a task runs, everything that was read has been handed to the sink:
/// nothing is lost or held back.
pub proof fn running_task_wrote_all(events: Seq<CopyEventView>)
    requires
        copy_state_after(None, events) is None,
    ensures
        copy_written(None, events) == bytes_read(events),
    decreases events.len(),
{
    if events.len() > 0 {
        let rest = events.drop_first();
        let (next, action) = copy_step(None, events[0]);
        match next {
            None => {
                running_task_wrote_all(rest);
            },
            Some(end) => {
                ended_task_stays_silent(end, rest);
            },
        }
    }
}

/// A task that ends on its source, by end of stream or by a failed read, has
/// handed to the sink everything that was read before.
pub proof fn task_ended_by_source_wrote_all(events: Seq<CopyEventView>, last: CopyEventView)
    requires
        copy_state_after(None, events) is None,
        last == CopyEventView::Chunk(Seq::<u8>::empty()) || last == CopyEventView::ReadFailed,
    ensures
        copy_state_after(None, events.push(last)) == if last == CopyEventView::ReadFailed {
            Some(End::ReadFailed)
        } else {
            Some(End::Eof)
        },
        copy_written(None, events.push(last)) == bytes_read(events.push(last)),
        bytes_read(events.push(last)) == bytes_read(events),
    decreases events.len(),
{
    let all = events.push(last);
    if events.len() == 0 {
        let after = copy_step(None, last).0;
        assert(all.drop_first() =~= Seq::<CopyEventView>::empty());
        assert(copy_state_after(after, all.drop_first()) == after);
        assert(copy_written(after, all.drop_first()) =~= Seq::<u8>::empty());
        assert(bytes_read(all.drop_first()) =~= Seq::<u8>::empty());
        assert(copy_written(None, all) =~= Seq::<u8>::empty());
        assert(bytes_read(all) =~= Seq::<u8>::empty());
        assert(bytes_read(events) =~= Seq::<u8>::empty());
    } else {
        let rest = events.drop_first();
        assert(all.drop_first() =~= rest.push(last));
        assert(all[0] == events[0]);
        let (next, action) = copy_step(None, events[0]);
        match next {
            None => {
                task_ended_by_source_wrote_all(rest, last);
            },
            Some(end) => {
                ended_task_stays_silent(end, rest);
            },
        }
    }
}

/// The ended directions after one more report: the first report of a
/// direction is kept, a later one for the same direction changes nothing, and
/// the other direction is never touched.
pub open spec fn duplex_report(ended: Map<Flow, End>, flow: Flow, end: End) -> Map<Flow, End> {
    if ended.contains_key(flow) {
        ended
    } else {
        ended.insert(flow, end)
    }
}

/// The ended directions after a run of reports.
pub open spec fn duplex_after(ended: Map<Flow, End>, reports: Seq<(Flow, End)>) -> Map<Flow, End>
    decreases reports.len(),
{
    if reports.len() == 0 {
        ended
    } else {
        duplex_after(duplex_report(ended, reports[0].0, reports[0].1), reports.drop_first())
    }
}

/// Whether both directions have ended.
pub open spec fn both_ended(ended: Map<Flow, End>) -> bool {
    ended.contains_key(Flow::ClientToUpstream) && ended.contains_key(Flow::UpstreamToClient)
}

/// Whether a run of reports holds one for the direction.
pub open spec fn reported(reports: Seq<(Flow, End)>, flow: Flow) -> bool {
    exists|i: int| 0 <= i < reports.len() && (#[trigger] reports[i]).0 == flow
}

/// The state of the wait for the two tasks of one connection pair.
#[derive(Clone, Copy, Debug)]
pub struct Duplex {
    client_to_upstream: Option<End>,
    upstream_to_client: Option<End>,
}

impl View for Duplex {
    type V = Map<Flow, End>;

    /// The directions that have ended, each with its reason.
    closed spec fn view(&self) -> Map<Flow, End> {
        let first = match self.client_to_upstream {
            Some(end) => Map::<Flow, End>::empty().insert(Flow::ClientToUpstream, end),
            None => Map::<Flow, End>::empty(),
        };
        match self.upstream_to_client {
            Some(end) => first.insert(Flow::UpstreamToClient, end),
            None => first,
        }
    }
}

impl Duplex {
    /// Why the direction has ended, `None` while it runs.
    pub open spec fn spec_end_of(&self, flow: Flow) -> Option<End> {
        if self@.contains_key(flow) {
            Some(self@[flow])
        } else {
            None
        }
    }

    /// Whether the wait is over: both directions have ended.
    pub open spec fn spec_is_done(&self) -> bool {
        both_ended(self@)
    }

    /// The wait at its start: both tasks run.
    pub fn new() -> (duplex: Duplex)
        ensures
            duplex@ == Map::<Flow, End>::empty(),
    {
        let duplex = Duplex { client_to_upstream: None, upstream_to_client: None };
        assert(duplex@ =~= Map::<Flow, End>::empty());
        duplex
    }

    /// Why the direction has ended, `None` while it runs.
    #[verifier::when_used_as_spec(spec_end_of)]
    pub fn end_of(&self, flow: Flow) -> (end: Option<End>)
        ensures
            end == self.spec_end_of(flow),
    {
        match flow {
            Flow::ClientToUpstream => self.client_to_upstream,
            Flow::UpstreamToClient => self.upstream_to_client,
        }
    }

    /// Whether the wait is over: both directions have ended.
    #[verifier::when_used_as_spec(spec_is_done)]
    pub fn is_done(&self) -> (done: bool)
        ensures
            done == self.spec_is_done(),
    {
        self.client_to_upstream.is_some() && self.upstream_to_client.is_some()
    }

    /// Records that the task of `flow` has ended, and says whether the wait is
    /// over. The end of one direction leaves the other as it was.
    pub fn task_ended(&mut self, flow: Flow, end: End) -> (done: bool)
        ensures
            final(self)@ == duplex_report(old(self)@, flow, end),
            done == both_ended(final(self)@),
    {
        match flow {
            Flow::ClientToUpstream => {
                if self.client_to_upstream.is_none() {
                    self.client_to_upstream = Some(end);
                }
            },
            Flow::UpstreamToClient => {
                if self.upstream_to_client.is_none() {
                    self.upstream_to_client = Some(end);
                }
            },
        }
        assert(self@ =~= duplex_report(old(self)@, flow, end));
        self.is_done()
    }
}

/// After a run of reports, the directions that have ended are those that
/// ended before and those that were reported.
pub proof fn ended_are_the_reported(ended: Map<Flow, End>, reports: Seq<(Flow, End)>, flow: Flow)
    ensures
        duplex_after(ended, reports).contains_key(flow) <==> ended.contains_key(flow) || reported(
            reports,
            flow,
        ),
    decreases reports.len(),
{
    if reports.len() > 0 {
        let rest = reports.drop_first();
        let next = duplex_report(ended, reports[0].0, reports[0].1);
        ended_are_the_reported(next, rest, flow);
        if reported(rest, flow) {
            let i = choose|i: int| 0 <= i < rest.len() && (#[trigger] rest[i]).0 == flow;
            assert(reports[i + 1] == rest[i]);
        }
        if reported(reports, flow) {
            let i = choose|i: int| 0 <= i < reports.len() && (#[trigger] reports[i]).0 == flow;
            if i > 0 {
                assert(rest[i - 1] == reports[i]);
            }
        }
    }
}

/// The wait is over exactly when both directions have reported their end: a
/// pair of which one direction has ended is kept until the other ends too, in
/// whatever order and for whatever reason they end.
pub proof fn wait_is_over_when_both_ended(reports: Seq<(Flow, End)>)
    ensures
        both_ended(duplex_after(Map::<Flow, End>::empty(), reports)) <==> reported(
            reports,
            Flow::ClientToUpstream,
        ) && reported(reports, Flow::UpstreamToClient),
{
    ended_are_the_reported(Map::<Flow, End>::empty(), reports, Flow::ClientToUpstream);
    ended_are_the_reported(Map::<Flow, End>::empty(), reports, Flow::UpstreamToClient);
}

/// A direction keeps the reason of its first report.
pub proof fn first_report_is_kept(ended: Map<Flow, End>, reports: Seq<(Flow, End)>, flow: Flow)
    requires
        ended.contains_key(flow),
    ensures
        duplex_after(ended, reports).contains_key(flow),
        duplex_after(ended, reports)[flow] == ended[flow],
    decreases reports.len(),
{
    if reports.len() > 0 {
        first_report_is_kept(
            duplex_report(ended, reports[0].0, reports[0].1),
            reports.drop_first(),
            flow,
        );
    }
}

} // verus!
