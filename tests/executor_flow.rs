use swissarmyhammer::abort::AbortSignal;
use swissarmyhammer::action::{ActionResult, ContextValue};
use swissarmyhammer::entries::Entry;
use swissarmyhammer::executor::{apply_result, execute, observe_abort, AbortProbe, ActionDispatch};
use swissarmyhammer::ids::RunIdGenerator;
use swissarmyhammer::run::{WorkflowRun, WorkflowRunStatus};
use swissarmyhammer::workflow::{State, TransitionCondition, Workflow, WorkflowError};

struct SetsCompleted {
    calls: Vec<String>,
}

impl ActionDispatch for SetsCompleted {
    fn dispatch(&mut self, action: &str, _context: &Vec<Entry<ContextValue>>) -> ActionResult {
        self.calls.push(action.to_string());
        ActionResult::Success(vec![Entry {
            key: "completed".to_string(),
            value: ContextValue::Bool(true),
        }])
    }
}

struct Fixed(Option<ActionResult>);

impl ActionDispatch for Fixed {
    fn dispatch(&mut self, _action: &str, _context: &Vec<Entry<ContextValue>>) -> ActionResult {
        self.0.take().unwrap_or(ActionResult::Success(Vec::new()))
    }
}

struct NoAbort;

impl AbortProbe for NoAbort {
    fn poll(&mut self) -> Option<String> {
        None
    }
}

struct AbortAfter(usize);

impl AbortProbe for AbortAfter {
    fn poll(&mut self) -> Option<String> {
        if self.0 == 0 {
            Some("user requested".to_string())
        } else {
            self.0 -= 1;
            None
        }
    }
}

fn three_state_workflow() -> Workflow {
    let mut w = Workflow::new("flow", "start, work, finish", "start");
    w.add_state(State::new("start", "Start", false).with_action("work"));
    w.add_state(State::new("working", "Working", false).with_action("work"));
    w.add_state(State::new("done", "Done", true));
    w.add_transition("start", "working", TransitionCondition::Always);
    w.add_transition(
        "working",
        "done",
        TransitionCondition::ContextFlag { key: "completed".to_string(), expected: true },
    );
    w
}

fn history_names(run: &WorkflowRun) -> Vec<String> {
    run.history.iter().map(|(s, _)| s.as_str().to_string()).collect()
}

fn last_message(run: &WorkflowRun) -> Option<String> {
    run.metadata.iter().rev().find(|e| e.key == "last_message").map(|e| e.value.clone())
}

#[test]
fn end_to_end_run_completes_through_working_to_done() {
    let w = three_state_workflow();
    assert_eq!(w.validate(), Ok(()));
    let mut ids = RunIdGenerator::new();
    let mut run = WorkflowRun::new(w, &mut ids);
    let mut actions = SetsCompleted { calls: Vec::new() };
    let status = execute(&mut run, &mut actions, &mut NoAbort, 100);
    assert_eq!(status, WorkflowRunStatus::Completed);
    assert_eq!(run.status, WorkflowRunStatus::Completed);
    assert_eq!(history_names(&run), vec!["start", "working", "done"]);
    assert_eq!(actions.calls, vec!["work", "work"]);
    assert!(run.completed_at.is_some());
}

#[test]
fn abort_observed_before_the_next_step_cancels() {
    let w = three_state_workflow();
    let mut ids = RunIdGenerator::new();
    let mut run = WorkflowRun::new(w, &mut ids);
    let mut actions = SetsCompleted { calls: Vec::new() };
    let status = execute(&mut run, &mut actions, &mut AbortAfter(1), 100);
    assert_eq!(status, WorkflowRunStatus::Cancelled);
    assert_eq!(history_names(&run), vec!["start", "working"]);
    assert_eq!(last_message(&run), Some("Workflow aborted: user requested".to_string()));
}

#[test]
fn fatal_action_result_fails_the_run() {
    let w = three_state_workflow();
    let mut ids = RunIdGenerator::new();
    let mut run = WorkflowRun::new(w, &mut ids);
    let mut actions = Fixed(Some(ActionResult::Fatal {
        message: "Merge failed".to_string(),
        reason: "CONFLICT".to_string(),
    }));
    let status = execute(&mut run, &mut actions, &mut NoAbort, 100);
    assert_eq!(status, WorkflowRunStatus::Failed);
    assert_eq!(history_names(&run), vec!["start"]);
    assert_eq!(last_message(&run), Some("Merge failed".to_string()));
}

#[test]
fn abort_result_cancels_rather_than_fails() {
    let w = three_state_workflow();
    let mut ids = RunIdGenerator::new();
    let mut run = WorkflowRun::new(w, &mut ids);
    let mut actions = Fixed(Some(ActionResult::Abort("stop".to_string())));
    assert_eq!(execute(&mut run, &mut actions, &mut NoAbort, 100), WorkflowRunStatus::Cancelled);
}

#[test]
fn no_applicable_transition_fails_the_run() {
    let mut w = Workflow::new("flow", "", "start");
    w.add_state(State::new("start", "Start", false));
    w.add_state(State::new("done", "Done", true));
    w.add_transition("start", "done", TransitionCondition::OnFailure);
    let mut ids = RunIdGenerator::new();
    let mut run = WorkflowRun::new(w, &mut ids);
    let status = execute(&mut run, &mut NoAbort2, &mut NoAbort, 10);
    assert_eq!(status, WorkflowRunStatus::Failed);
    assert_eq!(
        last_message(&run),
        Some("No applicable transition from state 'start'".to_string())
    );
}

struct NoAbort2;

impl ActionDispatch for NoAbort2 {
    fn dispatch(&mut self, _action: &str, _context: &Vec<Entry<ContextValue>>) -> ActionResult {
        ActionResult::Success(Vec::new())
    }
}

#[test]
fn recoverable_failure_follows_the_failure_transition() {
    let mut w = Workflow::new("flow", "", "try");
    w.add_state(State::new("try", "Try", false).with_action("merge"));
    w.add_state(State::new("ok", "Ok", true));
    w.add_state(State::new("report", "Report", true));
    w.add_transition("try", "ok", TransitionCondition::OnSuccess);
    w.add_transition("try", "report", TransitionCondition::OnFailure);
    let mut ids = RunIdGenerator::new();
    let mut run = WorkflowRun::new(w, &mut ids);
    let mut actions = Fixed(Some(ActionResult::Recoverable("Issue not completed".to_string())));
    assert_eq!(execute(&mut run, &mut actions, &mut NoAbort, 10), WorkflowRunStatus::Completed);
    assert_eq!(history_names(&run), vec!["try", "report"]);
    assert_eq!(last_message(&run), Some("Issue not completed".to_string()));
}

#[test]
fn a_cycle_stops_at_the_transition_limit() {
    let mut w = Workflow::new("loop", "", "a");
    w.add_state(State::new("a", "A", false));
    w.add_state(State::new("b", "B", false));
    w.add_transition("a", "b", TransitionCondition::Always);
    w.add_transition("b", "a", TransitionCondition::Always);
    let mut ids = RunIdGenerator::new();
    let mut run = WorkflowRun::new(w, &mut ids);
    assert_eq!(execute(&mut run, &mut NoAbort2, &mut NoAbort, 5), WorkflowRunStatus::Failed);
    assert_eq!(run.history.len(), 6);
}

#[test]
fn single_steps_apply_context_and_observe_abort() {
    let w = three_state_workflow();
    let mut ids = RunIdGenerator::new();
    let mut run = WorkflowRun::new(w, &mut ids);
    assert!(!observe_abort(&mut run, None));
    let t0 = run.history[0].1;
    let go_on = apply_result(
        &mut run,
        ActionResult::Success(vec![Entry { key: "n".to_string(), value: ContextValue::Integer(3) }]),
        t0,
    );
    assert!(go_on);
    assert_eq!(run.current_state.as_str(), "working");
    assert_eq!(run.context[0].value, ContextValue::Integer(3));
    assert!(observe_abort(&mut run, Some("why".to_string())));
    assert_eq!(run.status, WorkflowRunStatus::Cancelled);
}

#[test]
fn validation_reports_each_kind_of_error() {
    let w = Workflow::new("w", "", "missing");
    assert_eq!(w.validate(), Err(WorkflowError::MissingInitialState("missing".to_string())));

    let mut w = Workflow::new("w", "", "a");
    w.add_state(State::new("a", "", false));
    w.add_transition("a", "nowhere", TransitionCondition::Always);
    assert_eq!(w.validate(), Err(WorkflowError::UnknownTransitionState("nowhere".to_string())));

    let mut w = Workflow::new("w", "", "a");
    w.add_state(State::new("a", "", false));
    w.states.push(State::new("a", "again", false));
    assert_eq!(w.validate(), Err(WorkflowError::DuplicateState("a".to_string())));
}

#[test]
fn adding_a_state_twice_replaces_it() {
    let mut w = Workflow::new("w", "", "a");
    w.add_state(State::new("a", "first", false));
    w.add_state(State::new("a", "second", true));
    assert_eq!(w.states.len(), 1);
    assert_eq!(w.states[0].description, "second");
    assert!(w.is_terminal(&w.initial_state.clone()));
}

#[test]
fn in_memory_abort_signal_cancels_before_the_first_step() {
    let mut signal = AbortSignal::new();
    assert_eq!(signal.is_raised(), None);
    signal.raise("stop now");
    assert_eq!(signal.is_raised(), Some("stop now".to_string()));
    let mut ids = RunIdGenerator::new();
    let mut run = WorkflowRun::new(three_state_workflow(), &mut ids);
    let mut actions = SetsCompleted { calls: Vec::new() };
    assert_eq!(execute(&mut run, &mut actions, &mut signal, 10), WorkflowRunStatus::Cancelled);
    assert!(actions.calls.is_empty());
    assert_eq!(history_names(&run), vec!["start"]);
    signal.clear();
    assert_eq!(signal.is_raised(), None);
}

#[test]
fn unreachable_states_are_listed() {
    let mut w = Workflow::new("w", "", "a");
    for id in ["a", "b", "c", "d"] {
        w.add_state(State::new(id, "", false));
    }
    w.add_transition("a", "b", TransitionCondition::Always);
    w.add_transition("b", "a", TransitionCondition::OnFailure);
    w.add_transition("c", "d", TransitionCondition::Always);
    assert_eq!(w.validate(), Ok(()));
    let names: Vec<String> = w.unreachable_states().iter().map(|s| s.as_str().to_string()).collect();
    assert_eq!(names, vec!["c", "d"]);
    assert!(three_state_workflow().unreachable_states().is_empty());
}

#[test]
fn a_run_already_in_a_terminal_state_completes_at_once() {
    let mut w = Workflow::new("w", "", "done");
    w.add_state(State::new("done", "Done", true).with_action("work"));
    let mut ids = RunIdGenerator::new();
    let mut run = WorkflowRun::new(w, &mut ids);
    let mut actions = SetsCompleted { calls: Vec::new() };
    assert_eq!(execute(&mut run, &mut actions, &mut AbortAfter(0), 10), WorkflowRunStatus::Completed);
    assert!(actions.calls.is_empty());
    assert_eq!(history_names(&run), vec!["done"]);
}

#[test]
fn a_zero_transition_limit_fails_a_non_terminal_run() {
    let mut ids = RunIdGenerator::new();
    let mut run = WorkflowRun::new(three_state_workflow(), &mut ids);
    let mut actions = SetsCompleted { calls: Vec::new() };
    assert_eq!(execute(&mut run, &mut actions, &mut NoAbort, 0), WorkflowRunStatus::Failed);
    assert_eq!(history_names(&run), vec!["start"]);
    assert_eq!(last_message(&run), Some("Transition limit reached".to_string()));
}
