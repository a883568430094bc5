//! The scheduler's decisions: a state machine that is told what happened
//! (a file was opened, a line was read, the primitive answered) and says
//! what to do next. It never asks for a verification while one is awaited.

use vstd::prelude::*;
use crate::error::HarnessError;
use crate::reader::{
    block_after, empty_block, fed, flushed, read_lines, Block, BlockView, Step, StepView,
};
use crate::registry::Registration;
use crate::text::same_bytes;
use crate::vector::{TestVector, TestVectorView};

verus! {

/// Where a run stands.
#[derive(Clone, Copy, Debug, PartialEq, Eq, Structural)]
pub enum Phase {
    /// The vector file of the current registration is to be opened.
    Opening,
    /// The file is open and its next line is awaited.
    Reading,
    /// The primitive's answer on a record is awaited. `last` says that the
    /// record came with the end of the stream.
    Verifying { last: bool },
    /// Every registration was verified.
    Finished,
    /// The run was given up.
    Failed(HarnessError),
}

/// What happened outside.
#[derive(Clone, Debug, PartialEq, Eq)]
pub enum Event {
    /// The vector file was opened.
    Opened,
    /// The vector file could not be opened.
    Missing,
    /// The next line of the file, without its line feed.
    Line(Vec<u8>),
    /// The file has no further line.
    EndOfStream,
    /// Reading the file failed.
    ReadFailed,
    /// The primitive returned `status` and recovered this message.
    Verified { status: i32, recovered: Vec<u8> },
}

/// What an `Event` holds, as mathematical values.
pub ghost enum EventView {
    Opened,
    Missing,
    Line(Seq<u8>),
    EndOfStream,
    ReadFailed,
    Verified { status: i32, recovered: Seq<u8> },
}

impl View for Event {
    type V = EventView;

    open spec fn view(&self) -> EventView {
        match self {
            Event::Opened => EventView::Opened,
            Event::Missing => EventView::Missing,
            Event::Line(l) => EventView::Line(l@),
            Event::EndOfStream => EventView::EndOfStream,
            Event::ReadFailed => EventView::ReadFailed,
            Event::Verified { status, recovered } => EventView::Verified {
                status: *status,
                recovered: recovered@,
            },
        }
    }
}

/// What is to be done next.
#[derive(Clone, Copy, Debug, PartialEq, Eq, Structural)]
pub enum Action {
    /// Open the vector file of this registration.
    Open { registration: usize },
    /// Read the next line.
    ReadLine,
    /// Hand the pending record to the primitive.
    Verify,
    /// Nothing is left to do.
    Finish,
    /// Give the run up with this error.
    Abort(HarnessError),
    /// The event is not one that the phase awaits: nothing changed.
    Ignored,
}

/// The state of a run, as mathematical values.
pub ghost struct SchedulerView {
    pub registry: Seq<Registration>,
    pub at: usize,
    pub phase: Phase,
    pub block: BlockView,
    pub line: usize,
    pub pending: Option<TestVectorView>,
}

/// Whether the primitive's answer confirms a record: the status is zero
/// and the recovered message is the record's message.
pub open spec fn confirms(v: TestVectorView, status: i32, recovered: Seq<u8>) -> bool {
    status == 0 && recovered == v.sig.msg
}

/// The line count after one more line; it stops at the machine's limit.
pub open spec fn bumped(line: usize) -> usize {
    if line < usize::MAX {
        (line + 1) as usize
    } else {
        line
    }
}

/// Whether a state awaits an event. A state whose current registration
/// is not one of the registry awaits none.
pub open spec fn awaits(s: SchedulerView, e: EventView) -> bool {
    s.at < s.registry.len() && match s.phase {
        Phase::Opening => e is Opened || e is Missing,
        Phase::Reading => e is Line || e is EndOfStream || e is ReadFailed,
        Phase::Verifying { .. } => e is Verified,
        Phase::Finished => false,
        Phase::Failed(_) => false,
    }
}

/// The state once the current registration is done: the next one is to
/// be opened, or the run is finished.
pub open spec fn advanced(s: SchedulerView) -> SchedulerView {
    if s.at + 1 < s.registry.len() {
        SchedulerView {
            at: (s.at + 1) as usize,
            phase: Phase::Opening,
            block: empty_block(),
            line: 0,
            pending: None,
            ..s
        }
    } else {
        SchedulerView { phase: Phase::Finished, block: empty_block(), pending: None, ..s }
    }
}

/// The state with the run given up.
pub open spec fn failed(s: SchedulerView, e: HarnessError) -> SchedulerView {
    SchedulerView { phase: Phase::Failed(e), block: empty_block(), pending: None, ..s }
}

/// The state after a reader step in the current file.
pub open spec fn after_step(s: SchedulerView, step: StepView, last: bool) -> SchedulerView {
    match step {
        StepView::Pending => if last {
            advanced(s)
        } else {
            s
        },
        StepView::Yield(v) => SchedulerView {
            phase: Phase::Verifying { last },
            pending: Some(v),
            ..s
        },
        StepView::Malformed => failed(s, HarnessError::MalformedVectorFile { line: s.line }),
    }
}

/// The state after an event. An event that the state does not await
/// changes nothing.
pub open spec fn next(s: SchedulerView, e: EventView) -> SchedulerView {
    if awaits(s, e) {
        taken(s, e)
    } else {
        s
    }
}

/// The state after an event that the state awaits.
pub open spec fn taken(s: SchedulerView, e: EventView) -> SchedulerView {
    let reg = s.registry[s.at as int];
    match (s.phase, e) {
        (Phase::Opening, EventView::Opened) => SchedulerView {
            phase: Phase::Reading,
            block: empty_block(),
            line: 0,
            ..s
        },
        (Phase::Opening, EventView::Missing) => failed(s, HarnessError::VectorFileNotFound),
        (Phase::Reading, EventView::Line(l)) => {
            let step = fed(reg.scheme_type, reg.scheme_id, s.block, l);
            let moved = SchedulerView {
                block: block_after(reg.scheme_type, s.block, l),
                line: if step is Malformed {
                    s.line
                } else {
                    bumped(s.line)
                },
                ..s
            };
            after_step(moved, step, false)
        },
        (Phase::Reading, EventView::EndOfStream) => after_step(
            SchedulerView { block: empty_block(), ..s },
            flushed(reg.scheme_type, reg.scheme_id, s.block),
            true,
        ),
        (Phase::Reading, EventView::ReadFailed) => failed(s, HarnessError::VectorFileUnreadable),
        (Phase::Verifying { last }, EventView::Verified { status, recovered }) => {
            if s.pending is Some && confirms(s.pending->0, status, recovered) {
                if last {
                    advanced(s)
                } else {
                    SchedulerView { phase: Phase::Reading, pending: None, ..s }
                }
            } else {
                failed(
                    s,
                    HarnessError::VerificationFailed {
                        count: if s.pending is Some {
                            s.pending->0.sig.count
                        } else {
                            0
                        },
                    },
                )
            }
        },
        _ => s,
    }
}

/// What a state asks for.
pub open spec fn request(s: SchedulerView) -> Action {
    match s.phase {
        Phase::Opening => Action::Open { registration: s.at },
        Phase::Reading => Action::ReadLine,
        Phase::Verifying { .. } => Action::Verify,
        Phase::Finished => Action::Finish,
        Phase::Failed(e) => Action::Abort(e),
    }
}

/// What an event is answered with.
pub open spec fn answer(s: SchedulerView, e: EventView) -> Action {
    if awaits(s, e) {
        request(next(s, e))
    } else {
        Action::Ignored
    }
}

/// The state in which a run over `registry` starts.
pub open spec fn initial(registry: Seq<Registration>) -> SchedulerView {
    SchedulerView {
        registry,
        at: 0,
        phase: if registry.len() > 0 {
            Phase::Opening
        } else {
            Phase::Finished
        },
        block: empty_block(),
        line: 0,
        pending: None,
    }
}

/// Decides on the primitive's answer for one record.
pub fn check_signature(v: &TestVector, status: i32, recovered: &[u8]) -> (r: Result<
    (),
    HarnessError,
>)
    ensures
        r == if confirms(v@, status, recovered@) {
            Ok::<(), HarnessError>(())
        } else {
            Err::<(), HarnessError>(HarnessError::VerificationFailed { count: v.sig.count })
        },
{
    if status == 0 && same_bytes(recovered, v.sig.msg.as_slice()) {
        Ok(())
    } else {
        Err(HarnessError::VerificationFailed { count: v.sig.count })
    }
}

/// A run over a registry.
#[derive(Debug)]
pub struct Scheduler {
    pub registry: Vec<Registration>,
    pub at: usize,
    pub phase: Phase,
    pub block: Block,
    pub line: usize,
    pub pending: Option<TestVector>,
}

impl View for Scheduler {
    type V = SchedulerView;

    open spec fn view(&self) -> SchedulerView {
        SchedulerView {
            registry: self.registry@,
            at: self.at,
            phase: self.phase,
            block: self.block@,
            line: self.line,
            pending: match self.pending {
                Some(v) => Some(v@),
                None => None,
            },
        }
    }
}

/// Whether a state is one that a run reaches: while work is left the
/// current registration is one of the registry, a record is pending
/// exactly while its verification is awaited, and fields are held only
/// while a file is read.
pub open spec fn coherent(s: SchedulerView) -> bool {
    &&& (s.phase is Opening || s.phase is Reading || s.phase is Verifying) ==> s.at
        < s.registry.len()
    &&& s.phase is Verifying <==> s.pending is Some
    &&& !(s.phase is Reading) ==> s.block == empty_block()
}

/// A run starts in a coherent state, and every event leaves it in one.
pub proof fn lemma_coherent(registry: Seq<Registration>, s: SchedulerView, e: EventView)
    requires
        coherent(s),
    ensures
        coherent(initial(registry)),
        coherent(next(s, e)),
{
}

impl Scheduler {
    /// Starts a run. The first request is `self.request()`.
    pub fn new(registry: Vec<Registration>) -> (r: Scheduler)
        ensures
            r@ == initial(registry@),
    {
        let phase = if registry.len() > 0 {
            Phase::Opening
        } else {
            Phase::Finished
        };
        Scheduler { registry, at: 0, phase, block: Block::new(), line: 0, pending: None }
    }

    /// What the run asks for now.
    pub fn request(&self) -> (r: Action)
        ensures
            r == request(self@),
    {
        match self.phase {
            Phase::Opening => Action::Open { registration: self.at },
            Phase::Reading => Action::ReadLine,
            Phase::Verifying { .. } => Action::Verify,
            Phase::Finished => Action::Finish,
            Phase::Failed(e) => Action::Abort(e),
        }
    }

    /// The record whose verification is awaited.
    pub fn pending_record(&self) -> (r: Option<&TestVector>)
        ensures
            r.is_some() == self.pending.is_some(),
            r.is_some() ==> *r.unwrap() == self.pending.unwrap(),
    {
        self.pending.as_ref()
    }

    fn fail(&mut self, e: HarnessError)
        ensures
            final(self)@ == failed(old(self)@, e),
    {
        self.phase = Phase::Failed(e);
        self.pending = None;
        self.block = Block::new();
    }

    fn advance(&mut self)
        requires
            old(self).at < old(self).registry@.len(),
        ensures
            final(self)@ == advanced(old(self)@),
    {
        self.pending = None;
        let n: usize = self.registry.len();
        if self.at + 1 < n {
            self.at = self.at + 1;
            self.phase = Phase::Opening;
            self.line = 0;
            self.block = Block::new();
        } else {
            self.phase = Phase::Finished;
            self.block = Block::new();
        }
    }

    fn settle(&mut self, step: Step, last: bool)
        requires
            old(self).at < old(self).registry@.len(),
        ensures
            final(self)@ == after_step(old(self)@, step@, last),
    {
        match step {
            Step::Pending => {
                if last {
                    self.advance();
                }
            },
            Step::Yield(v) => {
                self.phase = Phase::Verifying { last };
                self.pending = Some(v);
            },
            Step::Malformed => {
                let line = self.line;
                self.fail(HarnessError::MalformedVectorFile { line });
            },
        }
    }

    /// Takes an event and says what to do next.
    pub fn step(&mut self, event: Event) -> (r: Action)
        ensures
            final(self)@ == next(old(self)@, event@),
            r == answer(old(self)@, event@),
    {
        if self.at >= self.registry.len() {
            return Action::Ignored;
        }
        match (self.phase, event) {
            (Phase::Opening, Event::Opened) => {
                self.phase = Phase::Reading;
                self.line = 0;
                self.block = Block::new();
            },
            (Phase::Opening, Event::Missing) => {
                self.fail(HarnessError::VectorFileNotFound);
            },
            (Phase::Reading, Event::Line(l)) => {
                let family = self.registry[self.at].scheme_type;
                let id: u32 = self.registry[self.at].scheme_id;
                let step = self.block.feed(family, id, l.as_slice());
                match step {
                    Step::Malformed => {},
                    _ => {
                        if self.line < usize::MAX {
                            self.line = self.line + 1;
                        }
                    },
                }
                self.settle(step, false);
            },
            (Phase::Reading, Event::EndOfStream) => {
                let family = self.registry[self.at].scheme_type;
                let id: u32 = self.registry[self.at].scheme_id;
                let step = self.block.end(family, id);
                self.settle(step, true);
            },
            (Phase::Reading, Event::ReadFailed) => {
                self.fail(HarnessError::VectorFileUnreadable);
            },
            (Phase::Verifying { last }, Event::Verified { status, recovered }) => {
                match self.pending.take() {
                    Some(v) => {
                        match check_signature(&v, status, recovered.as_slice()) {
                            Ok(_) => {
                                if last {
                                    self.advance();
                                } else {
                                    self.phase = Phase::Reading;
                                }
                            },
                            Err(e) => {
                                self.fail(e);
                            },
                        }
                    },
                    None => {
                        self.fail(HarnessError::VerificationFailed { count: 0 });
                    },
                }
            },
            _ => {
                return Action::Ignored;
            },
        }
        self.request()
    }
}

/// The state after a sequence of events.
pub open spec fn after(s: SchedulerView, events: Seq<EventView>) -> SchedulerView
    decreases events.len(),
{
    if events.len() == 0 {
        s
    } else {
        after(next(s, events[0]), events.skip(1))
    }
}

/// The verifications that a state awaits: one in phase `Verifying`, none
/// otherwise.
pub open spec fn in_flight(s: SchedulerView) -> int {
    if s.phase is Verifying {
        1
    } else {
        0
    }
}

/// The verifications that the answer to an event asks for.
pub open spec fn started(s: SchedulerView, e: EventView) -> int {
    if answer(s, e) == Action::Verify {
        1
    } else {
        0
    }
}

/// The verifications whose result an event brings: one where a
/// verification is awaited and the event is taken.
pub open spec fn ended(s: SchedulerView, e: EventView) -> int {
    if s.phase is Verifying && awaits(s, e) {
        1
    } else {
        0
    }
}

/// Verifications asked for less verifications answered, over a sequence
/// of events.
pub open spec fn outstanding(s: SchedulerView, events: Seq<EventView>) -> int
    decreases events.len(),
{
    if events.len() == 0 {
        0
    } else {
        started(s, events[0]) - ended(s, events[0]) + outstanding(
            next(s, events[0]),
            events.skip(1),
        )
    }
}

/// A run that is finished or was given up stays as it is: every event
/// is ignored.
pub proof fn lemma_end_is_final(s: SchedulerView, events: Seq<EventView>)
    requires
        s.phase is Finished || s.phase is Failed,
    ensures
        after(s, events) == s,
        outstanding(s, events) == 0,
        forall|e: EventView| answer(s, e) == Action::Ignored,
    decreases events.len(),
{
    if events.len() > 0 {
        lemma_end_is_final(s, events.skip(1));
    }
}

/// A vector file that cannot be opened ends the run with
/// `VectorFileNotFound`: no record is pending, and whatever events
/// follow, no verification is asked for.
pub proof fn lemma_missing_file_is_fatal(s: SchedulerView, later: Seq<EventView>)
    requires
        s.phase is Opening,
        s.at < s.registry.len(),
    ensures
        answer(s, EventView::Missing) == Action::Abort(HarnessError::VectorFileNotFound),
        next(s, EventView::Missing).phase == Phase::Failed(HarnessError::VectorFileNotFound),
        next(s, EventView::Missing).pending is None,
        after(next(s, EventView::Missing), later) == next(s, EventView::Missing),
        outstanding(next(s, EventView::Missing), later) == 0,
{
    lemma_end_is_final(next(s, EventView::Missing), later);
}

/// An answer of the primitive that does not confirm the pending record,
/// a status other than zero among them, ends the run with
/// `VerificationFailed` and the record's `count`; whatever events
/// follow, the run stays there.
pub proof fn lemma_rejection_is_fatal(
    s: SchedulerView,
    status: i32,
    recovered: Seq<u8>,
    later: Seq<EventView>,
)
    requires
        s.phase is Verifying,
        s.at < s.registry.len(),
        s.pending is Some,
        !confirms(s.pending->0, status, recovered),
    ensures
        answer(s, EventView::Verified { status, recovered }) == Action::Abort(
            HarnessError::VerificationFailed { count: s.pending->0.sig.count },
        ),
        after(next(s, EventView::Verified { status, recovered }), later) == next(
            s,
            EventView::Verified { status, recovered },
        ),
        outstanding(next(s, EventView::Verified { status, recovered }), later) == 0,
{
    lemma_end_is_final(next(s, EventView::Verified { status, recovered }), later);
}

/// A verification is asked for only while none is awaited, and while
/// one is awaited only the primitive's answer is taken.
pub proof fn lemma_verify_only_when_idle(s: SchedulerView, e: EventView)
    ensures
        answer(s, e) == Action::Verify ==> in_flight(s) == 0 && in_flight(next(s, e)) == 1,
        in_flight(s) == 1 && !(e is Verified) ==> next(s, e) == s && answer(s, e)
            == Action::Ignored,
        in_flight(next(s, e)) == in_flight(s) + started(s, e) - ended(s, e),
{
}

/// At no point of a run is more than one verification outstanding:
/// over any sequence of events, the verifications asked for exceed those
/// answered by at most one, and by none where the run began while one
/// was awaited.
pub proof fn lemma_one_verification_at_a_time(s: SchedulerView, events: Seq<EventView>)
    ensures
        in_flight(after(s, events)) == in_flight(s) + outstanding(s, events),
        0 <= in_flight(s) + outstanding(s, events) <= 1,
    decreases events.len(),
{
    if events.len() > 0 {
        lemma_verify_only_when_idle(s, events[0]);
        lemma_one_verification_at_a_time(next(s, events[0]), events.skip(1));
    }
}

/// The state after the primitive has answered a pending verification
/// with what `oracle` gives for the record.
pub open spec fn settled(
    s: SchedulerView,
    oracle: spec_fn(TestVectorView) -> (i32, Seq<u8>),
) -> SchedulerView {
    if s.phase is Verifying && s.pending is Some {
        next(
            s,
            EventView::Verified {
                status: oracle(s.pending->0).0,
                recovered: oracle(s.pending->0).1,
            },
        )
    } else {
        s
    }
}

/// The record that a state hands to the primitive, if any.
pub open spec fn asked(s: SchedulerView) -> Seq<TestVectorView> {
    if s.phase is Verifying && s.pending is Some {
        seq![s.pending->0]
    } else {
        Seq::empty()
    }
}

/// The state after an opened file was run through: its lines were handed
/// over one by one and then the end of the stream, and each request for
/// a verification was answered by `oracle`. Nothing more is handed over
/// once the run has left the file.
pub open spec fn file_run(
    s: SchedulerView,
    lines: Seq<Seq<u8>>,
    oracle: spec_fn(TestVectorView) -> (i32, Seq<u8>),
) -> SchedulerView
    decreases lines.len(),
{
    if !(s.phase is Reading) {
        s
    } else if lines.len() == 0 {
        settled(next(s, EventView::EndOfStream), oracle)
    } else {
        file_run(settled(next(s, EventView::Line(lines[0])), oracle), lines.skip(1), oracle)
    }
}

/// The records handed to the primitive while a file is run through, in
/// the order in which they were handed over.
pub open spec fn file_checked(
    s: SchedulerView,
    lines: Seq<Seq<u8>>,
    oracle: spec_fn(TestVectorView) -> (i32, Seq<u8>),
) -> Seq<TestVectorView>
    decreases lines.len(),
{
    if !(s.phase is Reading) {
        Seq::empty()
    } else if lines.len() == 0 {
        asked(next(s, EventView::EndOfStream))
    } else {
        asked(next(s, EventView::Line(lines[0]))) + file_checked(
            settled(next(s, EventView::Line(lines[0])), oracle),
            lines.skip(1),
            oracle,
        )
    }
}

/// Running a file through with a primitive that confirms every record:
/// where the file reads without fault, exactly its records are handed to
/// the primitive, each once and in file order, and the run moves on to
/// the next registration; where it does not, the run is given up at
/// this registration as malformed at the line of the fault.
pub proof fn lemma_file_run(
    s: SchedulerView,
    lines: Seq<Seq<u8>>,
    oracle: spec_fn(TestVectorView) -> (i32, Seq<u8>),
)
    requires
        s.phase is Reading,
        s.at < s.registry.len(),
        s.line + lines.len() <= usize::MAX,
        forall|v: TestVectorView| confirms(v, (#[trigger] oracle(v)).0, oracle(v).1),
    ensures
        match read_lines(
            s.registry[s.at as int].scheme_type,
            s.registry[s.at as int].scheme_id,
            lines,
            s.line as int,
            s.block,
        ) {
            Ok(records) => {
                &&& file_checked(s, lines, oracle) == records
                &&& file_run(s, lines, oracle) == advanced(
                    SchedulerView {
                        line: (s.line + lines.len()) as usize,
                        block: empty_block(),
                        pending: None,
                        ..s
                    },
                )
            },
            Err(at) => {
                &&& file_run(s, lines, oracle).phase == Phase::Failed(
                    HarnessError::MalformedVectorFile { line: at as usize },
                )
                &&& file_run(s, lines, oracle).registry == s.registry
                &&& file_run(s, lines, oracle).at == s.at
            },
        },
    decreases lines.len(),
{
    let reg = s.registry[s.at as int];
    if lines.len() == 0 {
        let t = next(s, EventView::EndOfStream);
        match flushed(reg.scheme_type, reg.scheme_id, s.block) {
            StepView::Pending => {},
            StepView::Yield(v) => {
                assert(t.pending == Some(v));
                assert(confirms(v, oracle(v).0, oracle(v).1));
            },
            StepView::Malformed => {},
        }
    } else {
        let t = next(s, EventView::Line(lines[0]));
        let u = settled(t, oracle);
        match fed(reg.scheme_type, reg.scheme_id, s.block, lines[0]) {
            StepView::Pending => {
                assert(u == t);
                lemma_file_run(u, lines.skip(1), oracle);
                assert(file_checked(s, lines, oracle) =~= file_checked(u, lines.skip(1), oracle));
            },
            StepView::Yield(v) => {
                assert(t.pending == Some(v));
                assert(confirms(v, oracle(v).0, oracle(v).1));
                assert(u == SchedulerView { phase: Phase::Reading, pending: None, ..t });
                lemma_file_run(u, lines.skip(1), oracle);
            },
            StepView::Malformed => {},
        }
    }
}

/// What reading the file of registration `k` gives, where `files` holds
/// the lines of each registration's file and `None` for a file that is
/// not there.
pub open spec fn file_result(
    registry: Seq<Registration>,
    files: Seq<Option<Seq<Seq<u8>>>>,
    k: int,
) -> Result<Seq<TestVectorView>, int> {
    read_lines(registry[k].scheme_type, registry[k].scheme_id, files[k]->0, 0, empty_block())
}

/// The state after a whole run from a state that is about to open a
/// file: each file in registry order is opened and run through, until
/// the run is finished or given up.
pub open spec fn whole_run(
    s: SchedulerView,
    files: Seq<Option<Seq<Seq<u8>>>>,
    oracle: spec_fn(TestVectorView) -> (i32, Seq<u8>),
) -> SchedulerView
    decreases s.registry.len() - s.at,
{
    if !(s.phase is Opening) || s.at >= s.registry.len() || s.at >= files.len() {
        s
    } else if files[s.at as int] is None {
        next(s, EventView::Missing)
    } else {
        let t = file_run(next(s, EventView::Opened), files[s.at as int]->0, oracle);
        if t.phase is Opening && t.at == s.at + 1 && t.registry == s.registry {
            whole_run(t, files, oracle)
        } else {
            t
        }
    }
}

/// A whole run with a primitive that confirms every record. Let `bad`
/// be the first registration whose file is not there or does not read
/// without fault. Where there is none, the run finishes. Where the file
/// is not there, the run is given up at that registration with
/// `VectorFileNotFound`; where it is malformed, with
/// `MalformedVectorFile` and the line of the fault.
pub proof fn lemma_whole_run(
    s: SchedulerView,
    files: Seq<Option<Seq<Seq<u8>>>>,
    oracle: spec_fn(TestVectorView) -> (i32, Seq<u8>),
    bad: int,
)
    requires
        s.phase is Opening,
        s.at < s.registry.len() <= usize::MAX,
        files.len() == s.registry.len(),
        s.at <= bad <= s.registry.len(),
        forall|v: TestVectorView| confirms(v, (#[trigger] oracle(v)).0, oracle(v).1),
        forall|k: int|
            0 <= k < files.len() && files[k] is Some ==> (#[trigger] files[k])->0.len()
                <= usize::MAX,
        forall|k: int|
            s.at <= k < bad ==> (#[trigger] files[k]) is Some && file_result(
                s.registry,
                files,
                k,
            ) is Ok,
        bad < s.registry.len() ==> files[bad] is None || file_result(s.registry, files, bad)
            is Err,
    ensures
        whole_run(s, files, oracle).registry == s.registry,
        bad == s.registry.len() ==> whole_run(s, files, oracle).phase == Phase::Finished,
        bad < s.registry.len() ==> whole_run(s, files, oracle).at == bad,
        bad < s.registry.len() && files[bad] is None ==> whole_run(s, files, oracle).phase
            == Phase::Failed(HarnessError::VectorFileNotFound),
        bad < s.registry.len() && files[bad] is Some ==> whole_run(s, files, oracle).phase
            == Phase::Failed(
            HarnessError::MalformedVectorFile {
                line: file_result(s.registry, files, bad)->Err_0 as usize,
            },
        ),
    decreases s.registry.len() - s.at,
{
    if files[s.at as int] is Some {
        let opened = next(s, EventView::Opened);
        let lines = files[s.at as int]->0;
        assert(opened == SchedulerView {
            phase: Phase::Reading,
            block: empty_block(),
            line: 0,
            ..s
        });
        lemma_file_run(opened, lines, oracle);
        let t = file_run(opened, lines, oracle);
        if s.at < bad {
            assert(file_result(s.registry, files, s.at as int) is Ok);
            assert(t.registry == s.registry);
            if s.at + 1 < s.registry.len() {
                assert(t.phase is Opening && t.at == s.at + 1);
                lemma_whole_run(t, files, oracle, bad);
            }
        } else {
            assert(file_result(s.registry, files, bad) is Err);
        }
    }
}

} // verus!
