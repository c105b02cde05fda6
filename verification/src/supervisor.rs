//! The supervisor's view of its child: what is known of the child's life,
//! and how each answer of the operating system changes it.

use vstd::prelude::*;
use crate::launch::{LaunchDescriptor, LaunchPlan};

verus! {

/// How a process ended.
#[derive(Debug, Clone, Copy, PartialEq, Eq, Structural)]
pub enum ExitStatus {
    /// It exited with this code.
    Exited(u32),
    /// A signal with this number ended it.
    Signaled(u8),
    /// It ended in a way that the two cases above do not describe.
    Other(i32),
    /// It ended, and how is not known.
    Undetermined,
}

/// What the supervisor knows of its child.
#[derive(Debug, Clone, Copy, PartialEq, Eq, Structural)]
pub enum ProcessState {
    /// Started; no exit was seen and no termination was asked for.
    Running,
    /// Termination was asked for; no exit was seen yet.
    Terminated,
    /// The child was seen to have ended, with this status.
    Exited(ExitStatus),
}

/// The state after the operating system reported `status` for the child:
/// the first exit seen is final.
pub open spec fn observed(state: ProcessState, status: Option<ExitStatus>) -> ProcessState {
    match state {
        ProcessState::Exited(_) => state,
        _ => match status {
            Some(s) => ProcessState::Exited(s),
            None => state,
        },
    }
}

/// The state after a termination request reached the child.
pub open spec fn requested(state: ProcessState) -> ProcessState {
    match state {
        ProcessState::Running => ProcessState::Terminated,
        _ => state,
    }
}

/// The exit status that a state holds.
pub open spec fn status_of(state: ProcessState) -> Option<ExitStatus> {
    match state {
        ProcessState::Exited(s) => Some(s),
        _ => None,
    }
}

/// Supervisor of one child process. It is made when the child has been
/// started and follows that one child to its end; it never starts another.
#[derive(Debug)]
pub struct CodeChainProcess {
    descriptor: LaunchDescriptor,
    state: ProcessState,
}

impl CodeChainProcess {
    /// The state of the child as far as it is known.
    pub closed spec fn state_spec(&self) -> ProcessState {
        self.state
    }

    /// The descriptor the child was started from.
    pub closed spec fn plan(&self) -> LaunchPlan {
        self.descriptor@
    }

    /// Takes charge of the child that was just started from `descriptor`.
    pub fn new(descriptor: LaunchDescriptor) -> (process: CodeChainProcess)
        ensures
            process.state_spec() == ProcessState::Running,
            process.plan() == descriptor@,
    {
        CodeChainProcess { descriptor, state: ProcessState::Running }
    }

    /// The state of the child as far as it is known.
    #[verifier::when_used_as_spec(state_spec)]
    pub fn state(&self) -> (r: ProcessState)
        ensures
            r == self.state_spec(),
    {
        self.state
    }

    /// The descriptor the child was started from.
    pub fn descriptor(&self) -> (r: &LaunchDescriptor)
        ensures
            r@ == self.plan(),
    {
        &self.descriptor
    }

    /// The exit status, once an exit was seen.
    pub fn exit_status(&self) -> (r: Option<ExitStatus>)
        ensures
            r == status_of(self.state()),
    {
        match self.state {
            ProcessState::Exited(s) => Some(s),
            _ => None,
        }
    }

    /// Records the answer of a poll that did not block: `None` while the
    /// child lives, else its exit status. Tells whether the child is still
    /// running, which it never is again once an exit was seen.
    pub fn is_running(&mut self, polled: Option<ExitStatus>) -> (r: bool)
        ensures
            final(self).state() == observed(old(self).state(), polled),
            final(self).plan() == old(self).plan(),
            r == (status_of(final(self).state()) is None),
    {
        self.observe(polled);
        self.exit_status().is_none()
    }

    /// Records the outcome of asking the operating system to end the child.
    /// A request that went out marks a running child as terminated; it does
    /// not wait for the exit. A failure is handed back as it came and leaves
    /// the state as it was.
    pub fn terminate<E>(&mut self, delivery: Result<(), E>) -> (r: Result<(), E>)
        ensures
            r == delivery,
            final(self).plan() == old(self).plan(),
            final(self).state() == (if delivery is Ok {
                requested(old(self).state())
            } else {
                old(self).state()
            }),
    {
        if delivery.is_ok() {
            if let ProcessState::Running = self.state {
                self.state = ProcessState::Terminated;
            }
        }
        delivery
    }

    /// Records the outcome of a bounded wait: `Ok(None)` if the time ran
    /// out first, `Ok(Some(..))` with the exit status if the child ended.
    /// Gives the exit status once one is known and `Ok(None)` while the
    /// child still runs; a failure of the wait is handed back as it came and
    /// leaves the state as it was.
    pub fn wait_timeout<E>(&mut self, waited: Result<Option<ExitStatus>, E>) -> (r: Result<
        Option<ExitStatus>,
        E,
    >)
        ensures
            final(self).plan() == old(self).plan(),
            match waited {
                Ok(status) => {
                    &&& final(self).state() == observed(old(self).state(), status)
                    &&& r == Ok::<Option<ExitStatus>, E>(status_of(final(self).state()))
                },
                Err(e) => final(self).state() == old(self).state() && r == Err::<
                    Option<ExitStatus>,
                    E,
                >(e),
            },
    {
        match waited {
            Ok(status) => {
                self.observe(status);
                Ok(self.exit_status())
            },
            Err(e) => Err(e),
        }
    }

    fn observe(&mut self, status: Option<ExitStatus>)
        ensures
            final(self).state() == observed(old(self).state(), status),
            final(self).plan() == old(self).plan(),
    {
        if let ProcessState::Exited(_) = self.state {
        } else if let Some(s) = status {
            self.state = ProcessState::Exited(s);
        }
    }
}

/// One answer of the operating system, as an operation records it.
pub ghost enum Event {
    /// `is_running` polled and got this.
    Polled(Option<ExitStatus>),
    /// `terminate` sent its request.
    TerminateSent,
    /// `terminate` could not send its request.
    TerminateFailed,
    /// `wait_timeout` waited and got this.
    Waited(Option<ExitStatus>),
    /// `wait_timeout` failed.
    WaitFailed,
}

/// The state after one event.
pub open spec fn step(state: ProcessState, event: Event) -> ProcessState {
    match event {
        Event::Polled(status) => observed(state, status),
        Event::Waited(status) => observed(state, status),
        Event::TerminateSent => requested(state),
        Event::TerminateFailed => state,
        Event::WaitFailed => state,
    }
}

/// The state after a history of events, oldest first.
pub open spec fn run(state: ProcessState, events: Seq<Event>) -> ProcessState
    decreases events.len(),
{
    if events.len() == 0 {
        state
    } else {
        step(run(state, events.drop_last()), events.last())
    }
}

/// Whether an event reports that the child has ended.
pub open spec fn reports_exit(event: Event) -> bool {
    match event {
        Event::Polled(Some(_)) => true,
        Event::Waited(Some(_)) => true,
        _ => false,
    }
}

/// An exit, once seen, is final: no later event changes the state or the
/// status, so the child is never taken to run again.
pub proof fn law_exit_is_final(status: ExitStatus, events: Seq<Event>)
    ensures
        run(ProcessState::Exited(status), events) == ProcessState::Exited(status),
    decreases events.len(),
{
    if events.len() > 0 {
        law_exit_is_final(status, events.drop_last());
    }
}

/// A child that was not seen to end counts as running for as long as
/// nothing reports its exit, and as ended from the first report on. This
/// holds of a child that was just started.
pub proof fn law_running_until_exit_is_seen(state: ProcessState, events: Seq<Event>)
    requires
        status_of(state) is None,
    ensures
        status_of(run(state, events)) is None <==> forall|i: int|
            0 <= i < events.len() ==> !reports_exit(#[trigger] events[i]),
    decreases events.len(),
{
    if events.len() > 0 {
        let earlier = events.drop_last();
        law_running_until_exit_is_seen(state, earlier);
        if forall|i: int| 0 <= i < earlier.len() ==> !reports_exit(#[trigger] earlier[i]) {
            if !reports_exit(events.last()) {
                assert forall|i: int| 0 <= i < events.len() implies !reports_exit(
                    #[trigger] events[i],
                ) by {
                    if i < earlier.len() {
                        assert(events[i] == earlier[i]);
                    }
                }
            }
        } else {
            let i = choose|i: int| 0 <= i < earlier.len() && reports_exit(#[trigger] earlier[i]);
            assert(reports_exit(events[i]));
        }
    }
}

/// After a termination request, the first wait that sees the child end
/// yields the status it saw, whatever came in between without reporting
/// an exit.
pub proof fn law_terminate_then_wait(between: Seq<Event>, status: ExitStatus)
    requires
        forall|i: int| 0 <= i < between.len() ==> !reports_exit(#[trigger] between[i]),
    ensures
        run(
            ProcessState::Running,
            seq![Event::TerminateSent] + between + seq![Event::Waited(Some(status))],
        ) == ProcessState::Exited(status),
{
    let before = seq![Event::TerminateSent] + between;
    let events = before + seq![Event::Waited(Some(status))];
    assert(events.drop_last() == before);
    assert forall|i: int| 0 <= i < before.len() implies !reports_exit(#[trigger] before[i]) by {
        if i > 0 {
            assert(before[i] == between[i - 1]);
        }
    }
    law_running_until_exit_is_seen(ProcessState::Running, before);
}

/// Callers that reach the child in either order leave the same state, as
/// long as they do not both report an exit.
pub proof fn law_order_of_callers_is_immaterial(state: ProcessState, a: Event, b: Event)
    requires
        !(reports_exit(a) && reports_exit(b)),
    ensures
        step(step(state, a), b) == step(step(state, b), a),
{
}

/// A wait whose time runs out, or a poll that finds the child alive, leaves
/// every state as it was.
pub proof fn law_timeout_changes_nothing(state: ProcessState)
    ensures
        step(state, Event::Waited(None)) == state,
        step(state, Event::Polled(None)) == state,
        step(state, Event::WaitFailed) == state,
        step(state, Event::TerminateFailed) == state,
{
}

} // verus!
