//! The runner and the sink as one state machine.
//!
//! Records are pulled from a source, judged, and the survivors handed over
//! as complete lines. The machine decides when the next record may be
//! pulled, keeps the lines that wait for the single writer in a bounded
//! queue, and holds back the producers that find the queue full. The caller
//! does the waiting and the work: a reader pulls when
//! [`Pipeline::reader_step`] says so, a writer writes what
//! [`Pipeline::next_write`] hands out when [`Pipeline::writer_step`] says
//! so, and both report what happened.

use std::collections::VecDeque;
use vstd::prelude::*;
use crate::error::FindError;
use crate::line::{
    all_complete, is_complete_line, lemma_stream_determines_lines, lemma_stream_grows_by_lines,
    stream_of, Line,
};

verus! {

/// The number of lines the queue in front of the writer holds by default.
pub const QUEUE_CAPACITY: usize = 100;

/// The number of records that may be in flight by default.
pub const DEFAULT_CONCURRENCY: usize = 128;

/// What can happen to a running pipeline.
pub enum Event {
    /// A surviving record arrived as this line.
    Offer(Seq<u8>),
    /// The source has no more records.
    SourceEnded,
    /// The source, or a unit working on a record, failed.
    Failed(FindError),
    /// The writer took the oldest queued line.
    Released,
    /// The output destination was found closed.
    OutputClosed,
}

/// What one of the two parties of a pipeline, the reader that pulls records
/// and the writer that writes lines, is to do next.
#[derive(Debug, Clone, Copy, PartialEq, Eq, Structural)]
pub enum Step {
    /// Act: pull the next record, or write the next line.
    Go,
    /// Nothing to do for now. The other party will change that.
    Wait,
    /// Nothing to do ever again.
    Stop,
}

/// The state of a pipeline.
pub struct PipelineView {
    /// Most records in flight at once.
    pub limit: nat,
    /// Most lines queued for the writer at once.
    pub capacity: nat,
    /// The lines queued for the writer, oldest first.
    pub queue: Seq<Seq<u8>>,
    /// The lines of the records in flight: their producers wait for room in
    /// the queue, oldest first.
    pub blocked: Seq<Seq<u8>>,
    /// The source may still yield records.
    pub source_open: bool,
    /// The output destination still takes lines.
    pub output_open: bool,
    /// The first fault met, if any.
    pub failure: Option<FindError>,
    /// Every line taken in so far, the header first.
    pub accepted: Seq<Seq<u8>>,
    /// Every line handed to the writer so far, in the order handed out.
    pub released: Seq<Seq<u8>>,
}

impl PipelineView {
    /// The state before anything has happened: the header is queued as the
    /// first line to write. A limit of zero asks for no limit at all.
    pub open spec fn start(header: Seq<u8>, limit: usize, capacity: usize) -> PipelineView {
        PipelineView {
            limit: if limit == 0 {
                usize::MAX as nat
            } else {
                limit as nat
            },
            capacity: capacity as nat,
            queue: seq![header],
            blocked: Seq::empty(),
            source_open: true,
            output_open: true,
            failure: None,
            accepted: seq![header],
            released: Seq::empty(),
        }
    }

    /// The bytes handed to the writer so far.
    pub open spec fn output(self) -> Seq<u8> {
        stream_of(self.released)
    }

    /// The number of lines held for the writer, queued or in flight.
    pub open spec fn buffered(self) -> nat {
        self.queue.len() + self.blocked.len()
    }

    /// Whether the next record may be pulled from the source: the source
    /// has more, nothing has gone wrong, and fewer records than the limit
    /// are in flight.
    pub open spec fn may_pull(self) -> bool {
        &&& self.source_open
        &&& self.output_open
        &&& self.failure is None
        &&& self.blocked.len() < self.limit
    }

    /// What the reader is to do: pull while it may, wait while the limit is
    /// reached, and stop once the source is exhausted, a fault was met or
    /// the output is closed.
    pub open spec fn reader_step(self) -> Step {
        if self.may_pull() {
            Step::Go
        } else if self.source_open && self.output_open && self.failure is None {
            Step::Wait
        } else {
            Step::Stop
        }
    }

    /// What the writer is to do: write while lines are queued, wait while
    /// more may come, and stop once the run is over.
    pub open spec fn writer_step(self) -> Step {
        if self.queue.len() > 0 {
            Step::Go
        } else if self.may_pull() {
            Step::Wait
        } else {
            Step::Stop
        }
    }

    /// Nothing is left to write and nothing more will be pulled.
    pub open spec fn finished(self) -> bool {
        self.queue.len() == 0 && !self.may_pull()
    }

    /// How the run ends: with the first fault if there was one, else with
    /// `BrokenOutput` if the output was closed, else normally.
    pub open spec fn outcome(self) -> Option<FindError> {
        match self.failure {
            Some(e) => Some(e),
            None => if self.output_open {
                None
            } else {
                Some(FindError::BrokenOutput)
            },
        }
    }

    /// The state after `event`.
    pub open spec fn next(self, event: Event) -> PipelineView {
        match event {
            Event::Offer(line) => if !self.may_pull() {
                self
            } else if self.queue.len() < self.capacity {
                PipelineView {
                    queue: self.queue.push(line),
                    accepted: self.accepted.push(line),
                    ..self
                }
            } else {
                PipelineView {
                    blocked: self.blocked.push(line),
                    accepted: self.accepted.push(line),
                    ..self
                }
            },
            Event::SourceEnded => PipelineView { source_open: false, ..self },
            Event::Failed(error) => if error.is_benign() {
                self.closed()
            } else if self.failure is None {
                PipelineView { source_open: false, failure: Some(error), ..self }
            } else {
                self
            },
            Event::Released => if self.queue.len() == 0 {
                self
            } else if self.blocked.len() == 0 {
                PipelineView {
                    queue: self.queue.drop_first(),
                    released: self.released.push(self.queue[0]),
                    ..self
                }
            } else {
                PipelineView {
                    queue: self.queue.drop_first().push(self.blocked[0]),
                    blocked: self.blocked.drop_first(),
                    released: self.released.push(self.queue[0]),
                    ..self
                }
            },
            Event::OutputClosed => self.closed(),
        }
    }

    /// The state once the output is closed: what was not yet written is
    /// dropped.
    pub open spec fn closed(self) -> PipelineView {
        PipelineView { queue: Seq::empty(), blocked: Seq::empty(), output_open: false, ..self }
    }

    /// What holds of every state a pipeline can reach.
    pub open spec fn wf(self) -> bool {
        &&& self.limit >= 1
        &&& self.capacity >= 1
        &&& self.queue.len() <= self.capacity
        &&& self.blocked.len() <= self.limit
        &&& self.blocked.len() > 0 ==> self.queue.len() == self.capacity
        &&& self.output_open ==> self.accepted == self.released + self.queue + self.blocked
        &&& !self.output_open ==> self.buffered() == 0 && self.released.is_prefix_of(self.accepted)
        &&& self.accepted.len() >= 1
        &&& forall|i: int| 0 <= i < self.accepted.len() ==> is_complete_line(#[trigger] self.accepted[i])
        &&& self.failure matches Some(e) ==> !e.is_benign()
    }
}

/// The lines held by a queue.
pub open spec fn lines_of(queue: Seq<Line>) -> Seq<Seq<u8>> {
    queue.map_values(|line: Line| line@)
}

/// A running pipeline.
pub struct Pipeline {
    limit: usize,
    capacity: usize,
    queue: VecDeque<Line>,
    blocked: VecDeque<Line>,
    source_open: bool,
    output_open: bool,
    failure: Option<FindError>,
    accepted: Ghost<Seq<Seq<u8>>>,
    released: Ghost<Seq<Seq<u8>>>,
}

impl View for Pipeline {
    type V = PipelineView;

    closed spec fn view(&self) -> PipelineView {
        PipelineView {
            limit: self.limit as nat,
            capacity: self.capacity as nat,
            queue: lines_of(self.queue@),
            blocked: lines_of(self.blocked@),
            source_open: self.source_open,
            output_open: self.output_open,
            failure: self.failure,
            accepted: self.accepted@,
            released: self.released@,
        }
    }
}

impl Pipeline {
    /// A pipeline that lets at most `limit` records be in flight at once
    /// and queues at most `capacity` lines for the writer. A limit of zero
    /// sets no limit. `header` is the first line the writer will get.
    pub fn start(header: Line, limit: usize, capacity: usize) -> (pipeline: Pipeline)
        requires
            capacity >= 1,
        ensures
            pipeline@ == PipelineView::start(header@, limit, capacity),
            pipeline@.wf(),
    {
        let ghost first = header@;
        header.recall_complete();
        let mut queue: VecDeque<Line> = VecDeque::new();
        queue.push_back(header);
        let accepted: Ghost<Seq<Seq<u8>>> = Ghost(Seq::empty().push(first));
        let released: Ghost<Seq<Seq<u8>>> = Ghost(Seq::empty());
        let pipeline = Pipeline {
            limit: if limit == 0 {
                usize::MAX
            } else {
                limit
            },
            capacity,
            queue,
            blocked: VecDeque::new(),
            source_open: true,
            output_open: true,
            failure: None,
            accepted,
            released,
        };
        proof {
            assert(pipeline@.queue =~= seq![first]);
            assert(pipeline@.accepted =~= seq![first]);
            assert(pipeline@.blocked =~= Seq::<Seq<u8>>::empty());
            assert(pipeline@.accepted =~= pipeline@.released + pipeline@.queue + pipeline@.blocked);
        }
        pipeline
    }

    /// Whether the next record may be pulled from the source.
    pub fn may_pull(&self) -> (b: bool)
        ensures
            b == self@.may_pull(),
    {
        self.source_open && self.output_open && self.failure.is_none() && self.blocked.len()
            < self.limit
    }

    /// What the reader is to do next.
    pub fn reader_step(&self) -> (step: Step)
        ensures
            step == self@.reader_step(),
    {
        if self.may_pull() {
            Step::Go
        } else if self.source_open && self.output_open && self.failure.is_none() {
            Step::Wait
        } else {
            Step::Stop
        }
    }

    /// What the writer is to do next. On `Go`, [`Pipeline::next_write`]
    /// hands out the line to write.
    pub fn writer_step(&self) -> (step: Step)
        ensures
            step == self@.writer_step(),
    {
        if self.queue.len() > 0 {
            Step::Go
        } else if self.may_pull() {
            Step::Wait
        } else {
            Step::Stop
        }
    }

    /// The number of records in flight: those whose line waits for room in
    /// the queue.
    pub fn in_flight(&self) -> (n: usize)
        ensures
            n == self@.blocked.len(),
    {
        self.blocked.len()
    }

    /// The number of lines queued for the writer.
    pub fn queued(&self) -> (n: usize)
        ensures
            n == self@.queue.len(),
    {
        self.queue.len()
    }

    /// Takes in the line of a surviving record. The line joins the queue if
    /// there is room and waits in flight otherwise. A line that arrives
    /// when none may be pulled is handed back and changes nothing.
    pub fn offer(&mut self, line: Line) -> (r: Result<(), Line>)
        requires
            old(self)@.wf(),
        ensures
            final(self)@ == old(self)@.next(Event::Offer(line@)),
            final(self)@.wf(),
            r is Ok <==> old(self)@.may_pull(),
            r matches Err(refused) ==> refused@ == line@,
    {
        if !self.may_pull() {
            return Err(line);
        }
        let ghost bytes = line@;
        line.recall_complete();
        if self.queue.len() < self.capacity {
            self.queue.push_back(line);
            proof {
                assert(lines_of(self.queue@) =~= old(self)@.queue.push(bytes));
            }
        } else {
            self.blocked.push_back(line);
            proof {
                assert(lines_of(self.blocked@) =~= old(self)@.blocked.push(bytes));
            }
        }
        proof {
            self.accepted@ = self.accepted@.push(bytes);
            lemma_next_preserves_wf(old(self)@, Event::Offer(bytes));
        }
        Ok(())
    }

    /// Records that the source has no more records.
    pub fn source_ended(&mut self)
        requires
            old(self)@.wf(),
        ensures
            final(self)@ == old(self)@.next(Event::SourceEnded),
            final(self)@.wf(),
    {
        self.source_open = false;
        proof {
            lemma_next_preserves_wf(old(self)@, Event::SourceEnded);
        }
    }

    /// Records that the source or a unit failed with `error`. The first
    /// fault is kept and ends the pulling; lines already taken in are still
    /// written. A `BrokenOutput` is no fault: it closes the output.
    pub fn fail(&mut self, error: FindError)
        requires
            old(self)@.wf(),
        ensures
            final(self)@ == old(self)@.next(Event::Failed(error)),
            final(self)@.wf(),
    {
        if error.benign() {
            self.output_closed();
        } else if self.failure.is_none() {
            self.source_open = false;
            self.failure = Some(error);
        }
        proof {
            lemma_next_preserves_wf(old(self)@, Event::Failed(error));
        }
    }

    /// Hands the oldest queued line to the writer, and lets the oldest
    /// record in flight take the freed place. `None` when nothing is queued.
    pub fn next_write(&mut self) -> (line: Option<Line>)
        requires
            old(self)@.wf(),
        ensures
            final(self)@ == old(self)@.next(Event::Released),
            final(self)@.wf(),
            line is Some <==> old(self)@.queue.len() > 0,
            line matches Some(l) ==> l@ == old(self)@.queue[0] && is_complete_line(l@),
            line matches Some(l) ==> final(self)@.output() == old(self)@.output() + l@,
            line is None ==> final(self)@.output() == old(self)@.output(),
    {
        match self.queue.pop_front() {
            None => None,
            Some(line) => {
                let ghost bytes = line@;
                line.recall_complete();
                proof {
                    assert(bytes == old(self)@.queue[0]);
                    assert(lines_of(self.queue@) =~= old(self)@.queue.drop_first());
                }
                match self.blocked.pop_front() {
                    None => {},
                    Some(waiting) => {
                        proof {
                            assert(waiting@ == old(self)@.blocked[0]);
                            assert(lines_of(self.blocked@) =~= old(self)@.blocked.drop_first());
                        }
                        self.queue.push_back(waiting);
                        proof {
                            assert(lines_of(self.queue@) =~= old(self)@.queue.drop_first().push(
                                old(self)@.blocked[0],
                            ));
                        }
                    },
                }
                proof {
                    self.released@ = self.released@.push(bytes);
                    lemma_next_preserves_wf(old(self)@, Event::Released);
                    lemma_stream_grows_by_lines(old(self)@.released, bytes);
                }
                Some(line)
            },
        }
    }

    /// Records that the output destination was found closed. Lines not yet
    /// written are dropped and no further record is pulled; the run ends
    /// without this counting as a fault.
    pub fn output_closed(&mut self)
        requires
            old(self)@.wf(),
        ensures
            final(self)@ == old(self)@.next(Event::OutputClosed),
            final(self)@.wf(),
    {
        self.queue.clear();
        self.blocked.clear();
        self.output_open = false;
        proof {
            assert(lines_of(self.queue@) =~= Seq::<Seq<u8>>::empty());
            assert(lines_of(self.blocked@) =~= Seq::<Seq<u8>>::empty());
            lemma_next_preserves_wf(old(self)@, Event::OutputClosed);
        }
    }

    /// Whether the run is over: nothing is left to write and nothing more
    /// will be pulled.
    pub fn is_finished(&self) -> (b: bool)
        ensures
            b == self@.finished(),
    {
        self.queue.len() == 0 && !self.may_pull()
    }

    /// How the run ends: with the first fault, with `BrokenOutput` after a
    /// closed output, or normally.
    pub fn outcome(&self) -> (outcome: Option<FindError>)
        ensures
            outcome == self@.outcome(),
    {
        match self.failure {
            Some(e) => Some(e),
            None => if self.output_open {
                None
            } else {
                Some(FindError::BrokenOutput)
            },
        }
    }
}

/// Every event leaves a well-formed pipeline well-formed.
pub proof fn lemma_next_preserves_wf(state: PipelineView, event: Event)
    requires
        state.wf(),
        event matches Event::Offer(line) ==> is_complete_line(line),
    ensures
        state.next(event).wf(),
{
    let after = state.next(event);
    match event {
        Event::Offer(line) => {
            if state.may_pull() {
                assert(after.accepted =~= after.released + after.queue + after.blocked);
            }
        },
        Event::SourceEnded => {},
        Event::Failed(error) => {
            if error.is_benign() && state.output_open {
                assert(state.released =~= state.accepted.subrange(0, state.released.len() as int));
            }
        },
        Event::Released => {
            if state.queue.len() > 0 {
                assert(state.output_open);
                assert(after.accepted =~= after.released + after.queue + after.blocked);
            }
        },
        Event::OutputClosed => {
            if state.output_open {
                assert(state.released =~= state.accepted.subrange(0, state.released.len() as int));
            }
        },
    }
}

/// A pipeline starts out well-formed.
pub proof fn lemma_start_is_wf(header: Seq<u8>, limit: usize, capacity: usize)
    requires
        is_complete_line(header),
        capacity >= 1,
    ensures
        PipelineView::start(header, limit, capacity).wf(),
{
    let state = PipelineView::start(header, limit, capacity);
    assert(state.accepted =~= state.released + state.queue + state.blocked);
}

/// The lines held for the writer never number more than the queue's
/// capacity plus the concurrency limit: a producer that finds the queue
/// full is held back, and no record is pulled while the limit is reached.
pub proof fn lemma_buffer_is_bounded(state: PipelineView)
    requires
        state.wf(),
    ensures
        state.queue.len() <= state.capacity,
        state.blocked.len() <= state.limit,
        state.buffered() <= state.capacity + state.limit,
        state.blocked.len() == state.limit ==> !state.may_pull(),
{
}

/// The two parties never wait for each other. When the reader has to
/// wait, the queue is full, so the writer has a line to write; when the
/// writer has to wait, the reader may pull. And when the writer stops the
/// run is over: the reader has stopped too.
pub proof fn lemma_no_deadlock(state: PipelineView)
    requires
        state.wf(),
    ensures
        state.reader_step() is Wait ==> state.writer_step() is Go,
        state.writer_step() is Wait ==> state.reader_step() is Go,
        state.writer_step() is Stop <==> state.finished(),
        state.writer_step() is Stop ==> state.reader_step() is Stop,
{
}

/// The first fault is kept, and once there is one no record is pulled
/// again, whatever happens next.
pub proof fn lemma_fault_ends_pulling(state: PipelineView, event: Event)
    ensures
        state.failure is Some ==> state.next(event).failure == state.failure,
        state.failure is Some ==> !state.next(event).may_pull(),
        event matches Event::Failed(error) ==> (state.failure is None && !error.is_benign()
            ==> state.next(event).failure == Some(error)),
{
}

/// A closed output ends the run at once and without fault, however many
/// lines were still waiting, and nothing that happens later reopens it.
pub proof fn lemma_closed_output_ends_quietly(state: PipelineView, later: Event)
    ensures
        state.next(Event::OutputClosed).finished(),
        state.failure is None ==> state.next(Event::OutputClosed).outcome() == Some(
            FindError::BrokenOutput,
        ),
        state.failure is None ==> FindError::spec_exit_code(
            state.next(Event::OutputClosed).outcome(),
        ) == 0,
        state.next(Event::OutputClosed).next(later).finished(),
        state.next(Event::OutputClosed).next(later).released == state.released,
{
}

/// A run ends with a nonzero exit status exactly when it met a fault. A
/// closed output is none.
pub proof fn lemma_exit_status_tells_faults(state: PipelineView)
    requires
        state.wf(),
    ensures
        FindError::spec_exit_code(state.outcome()) != 0 <==> state.failure is Some,
        FindError::spec_exit_code(state.outcome()) == 0 || FindError::spec_exit_code(
            state.outcome(),
        ) == 1,
{
}

/// What the writer is handed is what was taken in, in the same order and
/// line by line: the header first, every line complete, none twice. When a
/// run finishes with its output open, every line taken in was handed out.
pub proof fn lemma_writes_follow_input(state: PipelineView)
    requires
        state.wf(),
    ensures
        state.released.is_prefix_of(state.accepted),
        state.released.len() > 0 ==> state.released[0] == state.accepted[0],
        forall|i: int| 0 <= i < state.released.len() ==> is_complete_line(#[trigger] state.released[i]),
        state.finished() && state.output_open ==> state.released == state.accepted,
{
    if state.output_open {
        assert(state.released =~= state.accepted.subrange(0, state.released.len() as int));
        if state.finished() {
            assert(state.released =~= state.accepted);
        }
    }
    assert forall|i: int| 0 <= i < state.released.len() implies is_complete_line(
        #[trigger] state.released[i],
    ) by {
        assert(state.released[i] == state.accepted[i]);
    }
}

/// The output can be read back in one way only: whoever splits the bytes
/// handed to the writer into complete lines finds the lines that were
/// handed out, which are the first of those taken in.
pub proof fn lemma_output_reads_back(state: PipelineView, lines: Seq<Seq<u8>>)
    requires
        state.wf(),
        all_complete(lines),
        stream_of(lines) == state.output(),
    ensures
        lines == state.released,
        lines.is_prefix_of(state.accepted),
{
    lemma_writes_follow_input(state);
    lemma_stream_determines_lines(lines, state.released);
}

/// Nothing taken in or handed out is ever taken back.
pub proof fn lemma_history_grows(state: PipelineView, event: Event)
    ensures
        state.accepted.is_prefix_of(state.next(event).accepted),
        state.released.is_prefix_of(state.next(event).released),
{
    let after = state.next(event);
    assert(state.accepted =~= after.accepted.subrange(0, state.accepted.len() as int));
    assert(state.released =~= after.released.subrange(0, state.released.len() as int));
}

} // verus!
