//! The bounded fan-out schedule.
//!
//! The roster is polled with a fixed maximum number of fetches in flight at
//! once; as each completes, the next queued instance is dispatched at once,
//! until every instance has answered exactly once. The waiting itself
//! happens outside the library; this state machine makes the decisions and
//! carries the proofs: completions never outnumber dispatches, at most
//! `bound` fetches are ever outstanding, and the schedule always either
//! makes progress or is finished.
use vstd::prelude::*;

verus! {

/// What the fan-out loop should do next: start the fetch of the given
/// roster index, wait for an in-flight fetch to finish, or stop because
/// every outcome is in.
#[derive(Clone, Copy, Debug, PartialEq, Eq, Structural)]
pub enum SchedulerStep {
    Dispatch(usize),
    AwaitCompletion,
    Finished,
}

/// The state of a bounded fan-out run over `total` instances with at most
/// `bound` fetches in flight at once. Instances are dispatched in roster
/// order; completions arrive in whatever order the fetches finish.
pub struct Scheduler {
    pub total: usize,
    pub bound: usize,
    pub started: usize,
    pub completed: usize,
}

impl Scheduler {
    /// Counters never run backwards: completions never outnumber starts,
    /// starts never outnumber instances, and at most `bound` fetches are in
    /// flight.
    pub open spec fn wf(&self) -> bool {
        self.completed <= self.started <= self.total && self.started - self.completed
            <= self.bound && self.bound >= 1
    }

    /// How many fetches are outstanding: started but not yet completed.
    pub open spec fn in_flight(&self) -> int {
        self.started - self.completed
    }

    /// The decision the schedule owes in a given state: dispatch while a
    /// slot is free and instances remain, then wait for stragglers, and
    /// finish only when every instance has answered.
    pub open spec fn spec_next_step(&self) -> SchedulerStep {
        if self.started < self.total && self.started - self.completed < self.bound {
            SchedulerStep::Dispatch(self.started)
        } else if self.completed < self.total {
            SchedulerStep::AwaitCompletion
        } else {
            SchedulerStep::Finished
        }
    }

    pub fn new(total: usize, bound: usize) -> (s: Scheduler)
        requires
            1 <= bound,
        ensures
            s.wf(),
            s.total == total,
            s.bound == bound,
            s.started == 0,
            s.completed == 0,
    {
        Scheduler { total, bound, started: 0, completed: 0 }
    }

    /// What to do next; `Dispatch(i)` asks for the fetch of roster index `i`.
    pub fn next_step(&self) -> (step: SchedulerStep)
        requires
            self.wf(),
        ensures
            step == self.spec_next_step(),
    {
        if self.started < self.total && self.started - self.completed < self.bound {
            SchedulerStep::Dispatch(self.started)
        } else if self.completed < self.total {
            SchedulerStep::AwaitCompletion
        } else {
            SchedulerStep::Finished
        }
    }

    /// Records that the next instance's fetch has been started.
    pub fn note_dispatched(&mut self)
        requires
            old(self).wf(),
            old(self).started < old(self).total,
            old(self).in_flight() < old(self).bound,
        ensures
            final(self).wf(),
            final(self).started == old(self).started + 1,
            final(self).completed == old(self).completed,
            final(self).total == old(self).total,
            final(self).bound == old(self).bound,
    {
        self.started = self.started + 1;
    }

    /// Records that one in-flight fetch has delivered its outcome.
    pub fn note_completed(&mut self)
        requires
            old(self).wf(),
            old(self).completed < old(self).started,
        ensures
            final(self).wf(),
            final(self).completed == old(self).completed + 1,
            final(self).started == old(self).started,
            final(self).total == old(self).total,
            final(self).bound == old(self).bound,
    {
        self.completed = self.completed + 1;
    }

    /// Whether every instance has answered.
    pub fn is_finished(&self) -> (r: bool)
        ensures
            r == (self.completed == self.total),
    {
        self.completed == self.total
    }
}

/// In a well-formed schedule, at most `bound` fetches are ever outstanding.
pub proof fn lemma_bounded_in_flight(s: Scheduler)
    requires
        s.wf(),
    ensures
        s.in_flight() <= s.bound,
{
}

/// The schedule never stalls: until every outcome is in, it either has a
/// fresh instance to dispatch or a fetch in flight to wait for.
pub proof fn lemma_no_stall(s: Scheduler)
    requires
        s.wf(),
        s.completed < s.total,
    ensures
        s.spec_next_step() is Dispatch || s.in_flight() > 0,
{
}

/// The schedule finishes only once every instance has answered exactly
/// once: `completed` then equals the roster size, with nothing in flight.
pub proof fn lemma_finished_exact(s: Scheduler)
    requires
        s.wf(),
        s.spec_next_step() is Finished,
    ensures
        s.completed == s.total,
        s.started == s.total,
        s.in_flight() == 0,
{
}

/// Drives a schedule to the end: dispatch whenever a slot is free and
/// instances remain, otherwise retire an in-flight fetch. The loop
/// terminates with exactly `total` outcomes delivered, which is the
/// schedule's liveness argument in executable form.
pub fn run_to_completion(total: usize, bound: usize) -> (outcomes: usize)
    requires
        1 <= bound,
    ensures
        outcomes == total,
{
    let mut s = Scheduler::new(total, bound);
    let mut outcomes: usize = 0;
    loop
        invariant
            s.wf(),
            s.total == total,
            s.bound == bound,
            outcomes == s.completed,
        decreases 2 * s.total - s.started - s.completed,
    {
        match s.next_step() {
            SchedulerStep::Dispatch(_) => {
                s.note_dispatched();
            },
            SchedulerStep::AwaitCompletion => {
                s.note_completed();
                outcomes = outcomes + 1;
            },
            SchedulerStep::Finished => {
                return outcomes;
            },
        }
    }
}

} // verus!
