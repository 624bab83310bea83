//! The actor in front of one worker process.
//!
//! A worker answers one line at a time, so the actor keeps the requests in a
//! queue and lets exactly one of them, the oldest, be in flight. It performs
//! no input or output itself: each step tells the driver what to do with the
//! process next, and the driver reports back what the process did.

use std::collections::VecDeque;
use vstd::prelude::*;
use crate::codec::{GramcheckOutput, GramcheckRequest, encode_request, first_line, resolve_response, resolves, texts};
use crate::error::{ApiError, ErrorKind, unavailable_message};

verus! {

/// The queue of one worker.
pub struct GramcheckExecutor {
    alive: bool,
    /// The encoded lines of the unanswered requests, oldest first. The first
    /// one has been handed out for writing; the others wait.
    pending: VecDeque<String>,
}

/// The mathematical value of an actor.
pub ghost struct ExecutorView {
    /// Whether the worker process is still believed to run.
    pub alive: bool,
    /// The lines of the unanswered requests in the order of their submission.
    pub pending: Seq<Seq<char>>,
}

/// What the driver does with the worker process next.
#[derive(Debug)]
pub enum Directive {
    /// Write this line, terminated by a newline, then read one line back.
    Write(String),
    /// Nothing: either a line is still in flight, or nothing is pending.
    Wait,
}

/// The outcome of reading a response line.
#[derive(Debug)]
pub struct Completion {
    /// The result for the caller of the oldest request.
    pub result: Result<GramcheckOutput, ApiError>,
    /// What to do next.
    pub next: Directive,
}

/// An actor as it starts out: alive, nothing pending.
pub open spec fn fresh() -> ExecutorView {
    ExecutorView { alive: true, pending: Seq::empty() }
}

/// The request in flight: the oldest unanswered one. It is the only one whose
/// line has been handed out for writing.
pub open spec fn in_flight(state: ExecutorView) -> Option<Seq<char>> {
    if state.pending.len() > 0 {
        Some(state.pending[0])
    } else {
        None
    }
}

/// The state after a request with the encoded line `line` was submitted. A
/// dead actor takes no requests.
pub open spec fn submitted(state: ExecutorView, line: Seq<char>) -> ExecutorView {
    if state.alive {
        ExecutorView { alive: true, pending: state.pending.push(line) }
    } else {
        state
    }
}

/// The state after the response to the request in flight was read.
pub open spec fn completed(state: ExecutorView) -> ExecutorView {
    if state.pending.len() > 0 {
        ExecutorView { alive: state.alive, pending: state.pending.drop_first() }
    } else {
        state
    }
}

/// The state after the worker process died.
pub open spec fn failed(state: ExecutorView) -> ExecutorView {
    ExecutorView { alive: false, pending: Seq::empty() }
}

/// What can happen to an actor.
pub ghost enum Event {
    /// A request with this encoded line is submitted.
    Submit(Seq<char>),
    /// A response line is read.
    Response,
    /// The worker process dies.
    Died,
}

/// The state after one event.
pub open spec fn step(state: ExecutorView, event: Event) -> ExecutorView {
    match event {
        Event::Submit(line) => submitted(state, line),
        Event::Response => completed(state),
        Event::Died => failed(state),
    }
}

/// The state after a run of events.
pub open spec fn run(state: ExecutorView, events: Seq<Event>) -> ExecutorView
    decreases events.len(),
{
    if events.len() == 0 {
        state
    } else {
        step(run(state, events.drop_last()), events.last())
    }
}

/// The requests that one event adds to the queue.
pub open spec fn accepted_by(state: ExecutorView, event: Event) -> Seq<Seq<char>> {
    match event {
        Event::Submit(line) => if state.alive {
            seq![line]
        } else {
            Seq::empty()
        },
        _ => Seq::empty(),
    }
}

/// The requests that one event resolves, with an answer or with an error: a
/// response resolves the request in flight, a death all that are pending.
pub open spec fn resolved_by(state: ExecutorView, event: Event) -> Seq<Seq<char>> {
    match event {
        Event::Submit(_) => Seq::empty(),
        Event::Response => if state.pending.len() > 0 {
            seq![state.pending[0]]
        } else {
            Seq::empty()
        },
        Event::Died => state.pending,
    }
}

/// The number of lines that one event hands out for writing: one where a
/// request is submitted to an idle actor, and one where a response leaves
/// another request waiting.
pub open spec fn written_by(state: ExecutorView, event: Event) -> int {
    match event {
        Event::Submit(_) => if state.alive && state.pending.len() == 0 {
            1
        } else {
            0
        },
        Event::Response => if state.pending.len() > 1 {
            1
        } else {
            0
        },
        Event::Died => 0,
    }
}

/// The number of written lines that one event settles: a response settles
/// the line in flight, and a death gives it up.
pub open spec fn settled_by(state: ExecutorView, event: Event) -> int {
    match event {
        Event::Submit(_) => 0,
        _ => if state.pending.len() > 0 {
            1
        } else {
            0
        },
    }
}

/// The requests accepted over a run, in the order of their submission.
pub open spec fn accepted(state: ExecutorView, events: Seq<Event>) -> Seq<Seq<char>>
    decreases events.len(),
{
    if events.len() == 0 {
        Seq::empty()
    } else {
        accepted(state, events.drop_last()) + accepted_by(
            run(state, events.drop_last()),
            events.last(),
        )
    }
}

/// The requests resolved over a run, in the order of their resolution.
pub open spec fn resolved(state: ExecutorView, events: Seq<Event>) -> Seq<Seq<char>>
    decreases events.len(),
{
    if events.len() == 0 {
        Seq::empty()
    } else {
        resolved(state, events.drop_last()) + resolved_by(
            run(state, events.drop_last()),
            events.last(),
        )
    }
}

/// The number of lines written and not yet settled after a run that began
/// with nothing pending.
pub open spec fn outstanding(events: Seq<Event>) -> int
    decreases events.len(),
{
    if events.len() == 0 {
        0
    } else {
        let before = run(fresh(), events.drop_last());
        outstanding(events.drop_last()) + written_by(before, events.last()) - settled_by(
            before,
            events.last(),
        )
    }
}

/// First in, first out: over any run of events, the requests are resolved in
/// exactly the order in which they were accepted. What was pending at the
/// start, followed by what was accepted, is what was resolved, followed by
/// what is still pending.
pub proof fn lemma_first_in_first_out(state: ExecutorView, events: Seq<Event>)
    requires
        !state.alive ==> state.pending.len() == 0,
    ensures
        state.pending + accepted(state, events) == resolved(state, events) + run(
            state,
            events,
        ).pending,
        !run(state, events).alive ==> run(state, events).pending.len() == 0,
    decreases events.len(),
{
    if events.len() > 0 {
        let front = events.drop_last();
        lemma_first_in_first_out(state, front);
        assert(state.pending + accepted(state, events) =~= state.pending + accepted(state, front)
            + accepted_by(run(state, front), events.last()));
    }
}

/// One at a time: after any run of events that began with nothing pending,
/// at most one line has been written without being settled, and that is the
/// line of the request in flight.
pub proof fn lemma_one_in_flight(events: Seq<Event>)
    ensures
        outstanding(events) == if run(fresh(), events).pending.len() > 0 {
            1int
        } else {
            0int
        },
        0 <= outstanding(events) <= 1,
    decreases events.len(),
{
    if events.len() > 0 {
        lemma_one_in_flight(events.drop_last());
        lemma_first_in_first_out(fresh(), events.drop_last());
    }
}

/// A death resolves every pending request and leaves the actor dead: from
/// then on nothing is accepted, written or pending, whatever happens.
pub proof fn lemma_dead_stays_dead(state: ExecutorView, events: Seq<Event>)
    ensures
        run(failed(state), events) == failed(state),
        accepted(failed(state), events).len() == 0,
        resolved(failed(state), events).len() == 0,
    decreases events.len(),
{
    if events.len() > 0 {
        lemma_dead_stays_dead(state, events.drop_last());
    }
}

/// Whether a directive says to write exactly the line in flight, or to wait
/// because there is none.
pub open spec fn directs(directive: Directive, head: Option<Seq<char>>) -> bool {
    match directive {
        Directive::Write(line) => head == Some(line@),
        Directive::Wait => head is None,
    }
}

impl View for GramcheckExecutor {
    type V = ExecutorView;

    closed spec fn view(&self) -> ExecutorView {
        ExecutorView { alive: self.alive, pending: texts(self.pending@) }
    }
}

impl GramcheckExecutor {
    /// The invariant of an actor: a dead one has nothing pending.
    pub open spec fn wf(&self) -> bool {
        !self@.alive ==> self@.pending.len() == 0
    }

    /// An actor for a worker that has just been started.
    pub fn new() -> (actor: GramcheckExecutor)
        ensures
            actor@ == fresh(),
            actor.wf(),
    {
        let actor = GramcheckExecutor { alive: true, pending: VecDeque::new() };
        assert(actor@.pending =~= Seq::empty());
        actor
    }

    /// Takes a request. The request joins the end of the queue. Its line is
    /// handed out for writing only if nothing else is pending; otherwise it
    /// waits its turn. A dead actor refuses with `WorkerUnavailable`.
    pub fn submit(&mut self, request: &GramcheckRequest) -> (r: Result<Directive, ApiError>)
        requires
            old(self).wf(),
        ensures
            final(self).wf(),
            final(self)@ == submitted(old(self)@, first_line(request.text_view())),
            match r {
                Ok(directive) => {
                    &&& old(self)@.alive
                    &&& old(self)@.pending.len() == 0 ==> directs(
                        directive,
                        Some(first_line(request.text_view())),
                    )
                    &&& old(self)@.pending.len() > 0 ==> directive is Wait
                },
                Err(error) => {
                    &&& !old(self)@.alive
                    &&& error.kind == ErrorKind::WorkerUnavailable
                    &&& error.message@ == unavailable_message()
                },
            },
    {
        if !self.alive {
            return Err(ApiError::worker_unavailable());
        }
        let line = encode_request(request);
        let idle = self.pending.len() == 0;
        let ghost before = self.pending@;
        if idle {
            self.pending.push_back(line.clone());
            assert(texts(self.pending@) =~= texts(before).push(line@));
            Ok(Directive::Write(line))
        } else {
            self.pending.push_back(line);
            assert(texts(self.pending@) =~= texts(before).push(line@));
            Ok(Directive::Wait)
        }
    }

    /// Takes the response line that was read for the request in flight. That
    /// request is resolved and leaves the queue; the next one, if any, is
    /// handed out for writing. A line that cannot be decoded fails that one
    /// request and nothing else. A line that arrives while nothing is in
    /// flight is dropped.
    pub fn complete(&mut self, raw_line: &str) -> (done: Option<Completion>)
        requires
            old(self).wf(),
        ensures
            final(self).wf(),
            final(self)@ == completed(old(self)@),
            match done {
                Some(completion) => {
                    &&& old(self)@.pending.len() > 0
                    &&& resolves(completion.result, raw_line@)
                    &&& directs(completion.next, in_flight(final(self)@))
                },
                None => old(self)@.pending.len() == 0,
            },
    {
        let ghost before = self.pending@;
        match self.pending.pop_front() {
            Some(_) => {
                assert(texts(self.pending@) =~= texts(before).drop_first());
                let result = resolve_response(raw_line);
                let next = if self.pending.len() > 0 {
                    Directive::Write(self.pending[0].clone())
                } else {
                    Directive::Wait
                };
                Some(Completion { result, next })
            },
            None => None,
        }
    }

    /// Takes the news that the worker process died: its pipe closed or broke
    /// on a write or a read. Every unanswered request, the one in flight and
    /// those waiting behind it, fails with `WorkerUnavailable`; the errors
    /// come back in the order of the requests. The actor is dead from then on.
    pub fn fail(&mut self) -> (errors: Vec<ApiError>)
        requires
            old(self).wf(),
        ensures
            final(self).wf(),
            final(self)@ == failed(old(self)@),
            errors@.len() == old(self)@.pending.len(),
            forall|i: int|
                0 <= i < errors@.len() ==> (#[trigger] errors@[i]).kind
                    == ErrorKind::WorkerUnavailable && errors@[i].message@ == unavailable_message(),
    {
        let mut errors: Vec<ApiError> = Vec::new();
        let ghost total = self.pending@.len();
        while self.pending.len() > 0
            invariant
                errors@.len() + self.pending@.len() == total,
                forall|i: int|
                    0 <= i < errors@.len() ==> (#[trigger] errors@[i]).kind
                        == ErrorKind::WorkerUnavailable && errors@[i].message@
                        == unavailable_message(),
            decreases self.pending@.len(),
        {
            let _ = self.pending.pop_front();
            errors.push(ApiError::worker_unavailable());
        }
        self.alive = false;
        assert(texts(self.pending@) =~= Seq::empty());
        errors
    }

    /// Whether the worker process is still believed to run.
    pub fn is_alive(&self) -> (alive: bool)
        ensures
            alive == self@.alive,
    {
        self.alive
    }

    /// The number of unanswered requests, the one in flight included.
    pub fn pending(&self) -> (count: usize)
        ensures
            count == self@.pending.len(),
    {
        self.pending.len()
    }
}

} // verus!
