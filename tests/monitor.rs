use std::cell::RefCell;
use std::rc::Rc;

use monitoring_service::monitor::{
    ActionFunc, ActionFuncInternal, Event, Failure, PollingFunc, PollingFuncInternal,
    PollingMonitor,
};
use monitoring_service::poller::{
    dispatch_event, next_step, run_actions, run_iteration, IterationOutcome, LoopStep, RunState,
};
use monitoring_service::schedule::PollingSchedule;

struct ConstPoll(u64);

impl PollingFuncInternal<u64> for ConstPoll {
    fn poll(&self) -> Result<u64, Failure> {
        Ok(self.0)
    }
}

struct FailingPoll;

impl PollingFuncInternal<u64> for FailingPoll {
    fn poll(&self) -> Result<u64, Failure> {
        Err(Failure { message: "unreachable".to_string() })
    }
}

struct LogAction {
    id: usize,
    log: Rc<RefCell<Vec<usize>>>,
    fail: bool,
}

impl ActionFuncInternal for LogAction {
    fn act(&self) -> Result<(), Failure> {
        self.log.borrow_mut().push(self.id);
        if self.fail {
            Err(Failure { message: format!("action {} failed", self.id) })
        } else {
            Ok(())
        }
    }
}

fn action(id: usize, log: &Rc<RefCell<Vec<usize>>>, fail: bool) -> ActionFunc<LogAction> {
    ActionFunc::new(LogAction { id, log: Rc::clone(log), fail })
}

fn schedule(ms: u64) -> PollingSchedule {
    *PollingSchedule::default().interval(ms)
}

#[test]
fn default_schedule_is_one_second() {
    assert_eq!(PollingSchedule::default().interval_ms, 1000);
    assert_eq!(schedule(25).interval_ms, 25);
    assert_eq!(schedule(25), schedule(25));
    assert_ne!(schedule(25), schedule(50));
}

#[test]
fn same_schedule_twice_keeps_last_poll_function() {
    let mut m: PollingMonitor<u64, ConstPoll, LogAction> = PollingMonitor::new();
    m.schedule_polling(schedule(100), PollingFunc::new(ConstPoll(1)))
        .schedule_polling(schedule(200), PollingFunc::new(ConstPoll(2)))
        .schedule_polling(schedule(100), PollingFunc::new(ConstPoll(3)));
    let (loops, table) = m.into_parts();
    assert_eq!(loops.len(), 2);
    assert_eq!(loops[0].schedule, schedule(100));
    assert_eq!(loops[0].polling_func.func.0, 3);
    assert_eq!(loops[1].schedule, schedule(200));
    assert_eq!(loops[1].polling_func.func.0, 2);
    assert_eq!(table.len(), 0);
}

#[test]
fn actions_run_in_registration_order() {
    let log = Rc::new(RefCell::new(Vec::new()));
    let mut m: PollingMonitor<u64, ConstPoll, LogAction> = PollingMonitor::new();
    m.schedule_polling(schedule(10), PollingFunc::new(ConstPoll(7)));
    m.register_action(7, action(1, &log, false))
        .register_action(8, action(9, &log, false))
        .register_action(7, action(2, &log, false))
        .register_action(7, action(3, &log, false));
    let (loops, table) = m.into_parts();
    assert_eq!(table.len(), 2);
    assert_eq!(table.actions_for(&7).map(|v| v.len()), Some(3));
    match run_iteration(&loops[0].polling_func, &table) {
        IterationOutcome::Dispatched { event, actions_run } => {
            assert_eq!(event, 7);
            assert_eq!(actions_run, 3);
        }
        _ => panic!("expected the actions of event 7 to run"),
    }
    assert_eq!(*log.borrow(), vec![1, 2, 3]);
}

#[test]
fn event_without_actions_does_nothing() {
    let log = Rc::new(RefCell::new(Vec::new()));
    let mut m: PollingMonitor<u64, ConstPoll, LogAction> = PollingMonitor::new();
    m.register_action(1, action(1, &log, false));
    let (_, table) = m.into_parts();
    assert!(table.actions_for(&5).is_none());
    match dispatch_event(&table, 5) {
        IterationOutcome::Dispatched { event, actions_run } => {
            assert_eq!(event, 5);
            assert_eq!(actions_run, 0);
        }
        _ => panic!("expected an empty dispatch"),
    }
    assert!(log.borrow().is_empty());
}

#[test]
fn failed_poll_runs_no_action() {
    let log = Rc::new(RefCell::new(Vec::new()));
    let mut m: PollingMonitor<u64, FailingPoll, LogAction> = PollingMonitor::new();
    m.schedule_polling(schedule(10), PollingFunc::new(FailingPoll));
    m.register_action(0, action(1, &log, false));
    let (loops, table) = m.into_parts();
    let outcome = run_iteration(&loops[0].polling_func, &table);
    assert!(matches!(outcome, IterationOutcome::PollFailed { .. }));
    assert!(log.borrow().is_empty());
    match next_step(outcome, true, loops[0].schedule) {
        LoopStep::Sleep { millis } => assert_eq!(millis, 10),
        _ => panic!("a failed poll must not end the loop"),
    }
}

#[test]
fn failing_action_stops_the_list_and_aborts_the_loop() {
    let log = Rc::new(RefCell::new(Vec::new()));
    let actions = vec![action(1, &log, false), action(2, &log, true), action(3, &log, false)];
    match run_actions(&actions) {
        Err((index, failure)) => {
            assert_eq!(index, 1);
            assert_eq!(failure.message, "action 2 failed");
        }
        Ok(_) => panic!("expected the second action to fail"),
    }
    assert_eq!(*log.borrow(), vec![1, 2]);

    let mut m: PollingMonitor<u64, ConstPoll, LogAction> = PollingMonitor::new();
    m.register_action(4, action(5, &log, true));
    let (_, table) = m.into_parts();
    let outcome = dispatch_event(&table, 4);
    assert!(matches!(outcome, IterationOutcome::ActionFailed { event: 4, index: 0, .. }));
    match next_step(outcome, true, schedule(10)) {
        LoopStep::Abort { failure } => assert_eq!(failure.message, "action 5 failed"),
        _ => panic!("a failed action ends the loop"),
    }
}

#[test]
fn cleared_flag_stops_the_loop() {
    let mut state = RunState::new();
    assert!(state.is_running());
    state.stop();
    assert!(!state.is_running());
    state.stop();
    assert!(!state.is_running());
    let outcome: IterationOutcome<u64> = IterationOutcome::Dispatched { event: 1, actions_run: 0 };
    assert!(matches!(next_step(outcome, state.is_running(), schedule(5)), LoopStep::Stop));
    let failed: IterationOutcome<u64> =
        IterationOutcome::PollFailed { failure: Failure { message: String::new() } };
    assert!(matches!(next_step(failed, false, schedule(5)), LoopStep::Stop));
}

#[test]
fn events_compare_by_value() {
    assert!(7u64.same_event(&7));
    assert!(!7u64.same_event(&8));
    assert!('a'.same_event(&'a'));
    assert!(!true.same_event(&false));
}
