//! The protocol of the task that copies the child's output into the log:
//! read a chunk, write it, and go on until the output ends.

use vstd::prelude::*;

verus! {

/// Size of the buffer for one chunk of output.
pub const CHUNK_SIZE: usize = 1024;

/// Why the task ended.
#[derive(Debug, Clone, Copy, PartialEq, Eq, Structural)]
pub enum DrainEnd {
    /// The child closed its output.
    EndOfStream,
    /// Reading the child's output failed.
    ReadFailed,
}

/// Where the task stands.
#[derive(Debug, Clone, Copy, PartialEq, Eq, Structural)]
pub enum DrainState {
    /// It waits for a chunk of output.
    Reading,
    /// It holds a chunk of `len` bytes that goes to the log.
    Writing { len: usize },
    /// It has ended.
    Finished(DrainEnd),
}

/// What the task has to do next.
#[derive(Debug, Clone, Copy, PartialEq, Eq, Structural)]
pub enum DrainAction {
    /// Read the next chunk from the child's output.
    Read,
    /// Write the first `len` bytes of the buffer to the log.
    Write { len: usize },
    /// Stop.
    Stop,
}

/// The outcome of what the task did last.
#[derive(Debug)]
pub enum DrainEvent<E> {
    /// A read gave this many bytes, or failed.
    Read(Result<usize, E>),
    /// A write of the chunk succeeded, or failed.
    Written(Result<(), E>),
}

/// A failure to report on the supervisor's own channel.
#[derive(Debug)]
pub enum Diagnostic<E> {
    /// The child's output could not be read.
    ReadFailed(E),
    /// The chunk could not be written to the log.
    WriteFailed(E),
}

/// The state after an event. A read of no bytes or a failed read ends the
/// task; a read of some bytes makes them the chunk to write; a write,
/// failed or not, leads back to reading. An event that does not answer
/// what the task was doing changes nothing.
pub open spec fn next_state<E>(state: DrainState, event: DrainEvent<E>) -> DrainState {
    match (state, event) {
        (DrainState::Reading, DrainEvent::Read(Ok(len))) => if len == 0 {
            DrainState::Finished(DrainEnd::EndOfStream)
        } else {
            DrainState::Writing { len }
        },
        (DrainState::Reading, DrainEvent::Read(Err(_))) => DrainState::Finished(
            DrainEnd::ReadFailed,
        ),
        (DrainState::Writing { .. }, DrainEvent::Written(_)) => DrainState::Reading,
        _ => state,
    }
}

/// What a state asks for.
pub open spec fn action_of(state: DrainState) -> DrainAction {
    match state {
        DrainState::Reading => DrainAction::Read,
        DrainState::Writing { len } => DrainAction::Write { len },
        DrainState::Finished(_) => DrainAction::Stop,
    }
}

/// The failure that an event carries, if any.
pub open spec fn diagnostic_of<E>(event: DrainEvent<E>) -> Option<Diagnostic<E>> {
    match event {
        DrainEvent::Read(Err(e)) => Some(Diagnostic::ReadFailed(e)),
        DrainEvent::Written(Err(e)) => Some(Diagnostic::WriteFailed(e)),
        _ => None,
    }
}

/// The task that drains the child's output.
#[derive(Debug)]
pub struct Drain {
    state: DrainState,
}

impl View for Drain {
    type V = DrainState;

    closed spec fn view(&self) -> DrainState {
        self.state
    }
}

impl Drain {
    /// A task that has not read anything yet.
    pub fn new() -> (drain: Drain)
        ensures
            drain@ == DrainState::Reading,
    {
        Drain { state: DrainState::Reading }
    }

    /// Where the task stands.
    pub fn state(&self) -> (r: DrainState)
        ensures
            r == self@,
    {
        self.state
    }

    /// What the task has to do now.
    pub fn action(&self) -> (r: DrainAction)
        ensures
            r == action_of(self@),
    {
        match self.state {
            DrainState::Reading => DrainAction::Read,
            DrainState::Writing { len } => DrainAction::Write { len },
            DrainState::Finished(_) => DrainAction::Stop,
        }
    }

    /// Takes the outcome of the last action. Gives the next action, and the
    /// failure to report if the event carries one.
    pub fn step<E>(&mut self, event: DrainEvent<E>) -> (r: (DrainAction, Option<Diagnostic<E>>))
        ensures
            final(self)@ == next_state(old(self)@, event),
            r.0 == action_of(final(self)@),
            r.1 == diagnostic_of(event),
    {
        let diagnostic = match event {
            DrainEvent::Read(outcome) => {
                match outcome {
                    Ok(len) => {
                        if let DrainState::Reading = self.state {
                            if len == 0 {
                                self.state = DrainState::Finished(DrainEnd::EndOfStream);
                            } else {
                                self.state = DrainState::Writing { len };
                            }
                        }
                        None
                    },
                    Err(e) => {
                        if let DrainState::Reading = self.state {
                            self.state = DrainState::Finished(DrainEnd::ReadFailed);
                        }
                        Some(Diagnostic::ReadFailed(e))
                    },
                }
            },
            DrainEvent::Written(outcome) => {
                if let DrainState::Writing { .. } = self.state {
                    self.state = DrainState::Reading;
                }
                match outcome {
                    Ok(_) => None,
                    Err(e) => Some(Diagnostic::WriteFailed(e)),
                }
            },
        };
        (self.action(), diagnostic)
    }
}

/// The state after a history of events, oldest first.
pub open spec fn run<E>(state: DrainState, events: Seq<DrainEvent<E>>) -> DrainState
    decreases events.len(),
{
    if events.len() == 0 {
        state
    } else {
        next_state(run(state, events.drop_last()), events.last())
    }
}

/// Whether an event is a read that found the output closed, or that failed.
pub open spec fn ends_output<E>(event: DrainEvent<E>) -> bool {
    match event {
        DrainEvent::Read(Ok(len)) => len == 0,
        DrainEvent::Read(Err(_)) => true,
        _ => false,
    }
}

/// A task that has ended stays ended, for the same reason.
pub proof fn law_finished_is_final<E>(end: DrainEnd, events: Seq<DrainEvent<E>>)
    ensures
        run(DrainState::Finished(end), events) == DrainState::Finished(end),
    decreases events.len(),
{
    if events.len() > 0 {
        law_finished_is_final(end, events.drop_last());
    }
}

/// A failed write never ends the task: after any write the task reads again.
pub proof fn law_write_failure_is_survived<E>(len: usize, outcome: Result<(), E>)
    ensures
        next_state(DrainState::Writing { len }, DrainEvent::Written(outcome)) == DrainState::Reading,
{
}

/// Only the end of the output or a failed read ends the task: a task that
/// has not ended is still at work after any history without such a read.
pub proof fn law_only_reads_end_the_task<E>(state: DrainState, events: Seq<DrainEvent<E>>)
    requires
        !(state is Finished),
        forall|i: int| 0 <= i < events.len() ==> !ends_output(#[trigger] events[i]),
    ensures
        !(run(state, events) is Finished),
    decreases events.len(),
{
    if events.len() > 0 {
        let earlier = events.drop_last();
        assert forall|i: int| 0 <= i < earlier.len() implies !ends_output(#[trigger] earlier[i]) by {
            assert(earlier[i] == events[i]);
        }
        law_only_reads_end_the_task(state, earlier);
    }
}

/// Every chunk that was read goes to the log whole: a read of `len` bytes
/// is answered by a write of exactly `len` bytes, and nothing else is
/// written before the next read.
pub proof fn law_chunk_is_forwarded_whole<E>(len: usize, outcome: Result<(), E>)
    requires
        len > 0,
    ensures
        action_of(next_state::<E>(DrainState::Reading, DrainEvent::Read(Ok(len))))
            == (DrainAction::Write { len }),
        action_of(
            next_state(
                next_state::<E>(DrainState::Reading, DrainEvent::Read(Ok(len))),
                DrainEvent::Written(outcome),
            ),
        ) == DrainAction::Read,
{
}

} // verus!
