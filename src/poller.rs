use vstd::prelude::*;

use crate::keyed::list_of;
use crate::monitor::{
    ActionFunc, ActionFuncInternal, DispatchTable, Event, Failure, PollingFunc, PollingFuncInternal,
};
use crate::schedule::PollingSchedule;

verus! {

/// What one iteration of a poll loop did.
pub enum IterationOutcome<E> {
    /// The poll failed: the sample was discarded and no action ran.
    PollFailed { failure: Failure },
    /// The poll produced `event` and all `actions_run` actions registered for it ran, in order.
    Dispatched { event: E, actions_run: usize },
    /// The poll produced `event`; its actions ran in order up to the one at
    /// `index`, which failed, and none after it ran.
    ActionFailed { event: E, index: usize, failure: Failure },
}

/// What a poll loop does after an iteration.
pub enum LoopStep {
    /// Sleep for the schedule's interval, then poll again.
    Sleep { millis: u64 },
    /// The run flag was cleared: the loop ends.
    Stop,
    /// An action failed: the loop ends with its failure.
    Abort { failure: Failure },
}

/// Runs `actions` one after the other, stopping at the first that fails.
/// `Ok(n)`: all `n` actions ran. `Err((i, f))`: the action at `i` failed with `f`.
pub fn run_actions<A: ActionFuncInternal>(actions: &Vec<ActionFunc<A>>) -> (r: Result<
    usize,
    (usize, Failure),
>)
    ensures
        match r {
            Ok(n) => n == actions@.len(),
            Err((i, _)) => i < actions@.len(),
        },
{
    let mut i: usize = 0;
    while i < actions.len()
        invariant
            i <= actions@.len(),
        decreases actions@.len() - i,
    {
        match actions[i].func.act() {
            Ok(()) => {},
            Err(failure) => {
                return Err((i, failure));
            },
        }
        i = i + 1;
    }
    Ok(i)
}

/// Dispatches one polled `event`: looks up its actions and runs them in
/// registration order. An event without actions runs nothing.
pub fn dispatch_event<E: Event, A: ActionFuncInternal>(table: &DispatchTable<E, A>, event: E) -> (r:
    IterationOutcome<E>)
    requires
        table.wf(),
    ensures
        match r {
            IterationOutcome::Dispatched { event: e, actions_run } => e == event && actions_run
                == list_of(table@, event).len(),
            IterationOutcome::ActionFailed { event: e, index, .. } => e == event && index < list_of(
                table@,
                event,
            ).len(),
            IterationOutcome::PollFailed { .. } => false,
        },
{
    match table.actions_for(&event) {
        None => IterationOutcome::Dispatched { event, actions_run: 0 },
        Some(actions) => match run_actions(actions) {
            Ok(n) => IterationOutcome::Dispatched { event, actions_run: n },
            Err((index, failure)) => IterationOutcome::ActionFailed { event, index, failure },
        },
    }
}

/// One iteration of a poll loop: poll once, then dispatch the event on
/// success. A failed poll is discarded.
pub fn run_iteration<E: Event, P: PollingFuncInternal<E>, A: ActionFuncInternal>(
    polling_func: &PollingFunc<P>,
    table: &DispatchTable<E, A>,
) -> (r: IterationOutcome<E>)
    requires
        table.wf(),
    ensures
        match r {
            IterationOutcome::Dispatched { event, actions_run } => actions_run == list_of(
                table@,
                event,
            ).len(),
            IterationOutcome::ActionFailed { event, index, .. } => index < list_of(
                table@,
                event,
            ).len(),
            IterationOutcome::PollFailed { .. } => true,
        },
{
    match polling_func.func.poll() {
        Ok(event) => dispatch_event(table, event),
        Err(failure) => IterationOutcome::PollFailed { failure },
    }
}

/// The step after an iteration: a failed action ends the loop with its
/// failure; otherwise a cleared run flag stops it, and a set one sends it to
/// sleep for the interval.
pub open spec fn step_after<E>(outcome: IterationOutcome<E>, running: bool, interval_ms: u64) -> LoopStep {
    match outcome {
        IterationOutcome::ActionFailed { failure, .. } => LoopStep::Abort { failure },
        _ => if running {
            LoopStep::Sleep { millis: interval_ms }
        } else {
            LoopStep::Stop
        },
    }
}

/// Decides what a poll loop on `schedule` does after an iteration, given the
/// run flag as read after it.
pub fn next_step<E>(outcome: IterationOutcome<E>, running: bool, schedule: PollingSchedule) -> (r:
    LoopStep)
    ensures
        r == step_after(outcome, running, schedule.interval_ms),
{
    match outcome {
        IterationOutcome::ActionFailed { failure, .. } => LoopStep::Abort { failure },
        _ => if running {
            LoopStep::Sleep { millis: schedule.interval_ms }
        } else {
            LoopStep::Stop
        },
    }
}

/// The run flag shared by the loops of one monitor and its handle. It starts
/// set and can only be cleared.
pub struct RunState {
    running: bool,
}

impl View for RunState {
    type V = bool;

    closed spec fn view(&self) -> bool {
        self.running
    }
}

impl RunState {
    /// A run flag that is set.
    pub fn new() -> (r: Self)
        ensures
            r@,
    {
        RunState { running: true }
    }

    /// Whether the loops are still meant to run.
    pub fn is_running(&self) -> (r: bool)
        ensures
            r == self@,
    {
        self.running
    }

    /// Clears the flag; clearing a cleared flag changes nothing.
    pub fn stop(&mut self)
        ensures
            !final(self)@,
    {
        self.running = false;
    }
}

/// Once the run flag is cleared, a loop never goes back to sleep: after the
/// iteration that reads the cleared flag it stops, or ends on a failed action.
pub proof fn lemma_cleared_flag_ends_loop<E>(outcome: IterationOutcome<E>, interval_ms: u64)
    ensures
        step_after(outcome, false, interval_ms) is Stop || step_after(
            outcome,
            false,
            interval_ms,
        ) is Abort,
{
}

} // verus!
