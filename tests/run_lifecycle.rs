use swissarmyhammer::abort::{cleanup_note, MarkerRemoval};
use swissarmyhammer::ids::{RunIdGenerator, WorkflowRunId};
use swissarmyhammer::run::{WorkflowRun, WorkflowRunStatus};
use swissarmyhammer::workflow::{State, StateId, Workflow};

fn create_workflow(name: &str, description: &str, initial: &str) -> Workflow {
    Workflow::new(name, description, initial)
}

fn create_state(id: &str, description: &str, is_terminal: bool) -> State {
    State::new(id, description, is_terminal)
}

#[test]
fn test_workflow_run_id_creation() {
    let mut ids = RunIdGenerator::new();
    let id1 = WorkflowRunId::new(&mut ids);
    let id2 = WorkflowRunId::new(&mut ids);
    assert_ne!(id1, id2);
}

#[test]
fn test_workflow_run_id_parse_and_to_string() {
    let mut ids = RunIdGenerator::new();
    let id = WorkflowRunId::new(&mut ids);
    let id_str = id.to_string();

    let parsed_id = WorkflowRunId::parse(&id_str).unwrap();
    assert_eq!(id, parsed_id);
    assert_eq!(id_str, parsed_id.to_string());
}

#[test]
fn test_workflow_run_id_parse_invalid() {
    let invalid_id = "invalid-ulid";
    let result = WorkflowRunId::parse(invalid_id);
    assert!(result.is_err());
    assert!(result.unwrap_err().contains("Invalid workflow run ID"));
}

#[test]
fn test_workflow_run_id_parse_valid_ulid() {
    let mut ids = RunIdGenerator::new();
    let ulid_str = WorkflowRunId::new(&mut ids).to_string();

    let parsed_id = WorkflowRunId::parse(&ulid_str).unwrap();
    assert_eq!(parsed_id.to_string(), ulid_str);
}

#[test]
fn test_workflow_run_creation() {
    let mut workflow = create_workflow("Test Workflow", "A test workflow", "start");
    workflow.add_state(create_state("start", "Start state", false));

    let mut ids = RunIdGenerator::new();
    let run = WorkflowRun::new(workflow, &mut ids);

    assert_eq!(run.workflow.name.as_str(), "Test Workflow");
    assert_eq!(run.current_state.as_str(), "start");
    assert_eq!(run.status, WorkflowRunStatus::Running);
    assert_eq!(run.history.len(), 1);
    assert_eq!(run.history[0].0.as_str(), "start");
}

#[test]
fn test_workflow_run_transition() {
    let mut workflow = create_workflow("Test Workflow", "A test workflow", "start");
    workflow.add_state(create_state("start", "Start state", false));
    workflow.add_state(create_state("processing", "Processing state", false));

    let mut ids = RunIdGenerator::new();
    let mut run = WorkflowRun::new(workflow, &mut ids);

    run.transition_to(StateId::new("processing"));

    assert_eq!(run.current_state.as_str(), "processing");
    assert_eq!(run.history.len(), 2);
    assert_eq!(run.history[1].0.as_str(), "processing");
}

#[test]
fn test_workflow_run_completion() {
    let mut workflow = create_workflow("Test Workflow", "A test workflow", "start");
    workflow.add_state(create_state("start", "Start state", false));

    let mut ids = RunIdGenerator::new();
    let mut run = WorkflowRun::new(workflow, &mut ids);

    run.complete();

    assert_eq!(run.status, WorkflowRunStatus::Completed);
    assert!(run.completed_at.is_some());
}

#[test]
fn test_workflow_run_id_monotonic_generation() {
    let mut ids = RunIdGenerator::new();
    let id1 = WorkflowRunId::new(&mut ids);
    let id2 = WorkflowRunId::new(&mut ids);
    let id3 = WorkflowRunId::new(&mut ids);

    assert!(id1 < id2);
    assert!(id2 < id3);
    assert!(id1 < id3);

    assert!(id1.to_string() < id2.to_string());
    assert!(id2.to_string() < id3.to_string());
    assert!(id1.to_string() < id3.to_string());
}

#[test]
fn test_abort_file_cleanup_continues_on_permission_error() {
    let mut workflow = create_workflow("Test Workflow", "A test workflow", "start");
    workflow.add_state(create_state("start", "Start state", false));

    let note = cleanup_note(&MarkerRemoval::Failed("Permission denied (os error 13)".to_string()));
    assert_eq!(
        note,
        Some("Failed to clean up abort file: Permission denied (os error 13)".to_string())
    );

    let mut ids = RunIdGenerator::new();
    let run = WorkflowRun::new(workflow, &mut ids);

    assert_eq!(run.workflow.name.as_str(), "Test Workflow");
    assert_eq!(run.status, WorkflowRunStatus::Running);
    assert_eq!(run.current_state.as_str(), "start");
    assert_eq!(run.history.len(), 1);
    assert!(run.metadata.is_empty());
}

#[test]
fn marker_outcomes_give_log_notes_and_runs_start_clean() {
    assert_eq!(
        cleanup_note(&MarkerRemoval::Removed),
        Some("Cleaned up existing abort file".to_string())
    );
    assert_eq!(cleanup_note(&MarkerRemoval::NotFound), None);
    let workflow = create_workflow("W", "d", "start");
    let mut ids = RunIdGenerator::new();
    let run = WorkflowRun::new(workflow, &mut ids);
    assert!(run.metadata.is_empty());
    assert!(run.context.is_empty());
    assert_eq!(run.status, WorkflowRunStatus::Running);
    assert!(run.completed_at.is_none());
    assert_eq!(run.history[0].1, run.started_at);
}

#[test]
fn completion_time_is_not_before_the_last_entry() {
    let workflow = create_workflow("W", "d", "a");
    let mut ids = RunIdGenerator::new();
    let mut run = WorkflowRun::new(workflow, &mut ids);
    let far = run.started_at + 10_000_000;
    run.transition_to_at(StateId::new("b"), far);
    run.complete();
    assert_eq!(run.completed_at, Some(far));
    assert!(run.completed_at.unwrap() >= run.started_at);
}

#[test]
fn generator_steps_past_stale_or_equal_fresh_values() {
    let mut ids = RunIdGenerator::new();
    let a = ids.issue(1000);
    assert_eq!(a.as_u128(), 1000);
    let b = ids.issue(5);
    assert_eq!(b.as_u128(), 1001);
    let c = ids.issue(1001);
    assert_eq!(c.as_u128(), 1002);
    let d = ids.issue(4000);
    assert_eq!(d.as_u128(), 4000);
    assert!(a.to_string() < b.to_string() && b.to_string() < c.to_string());
}

#[test]
fn ulid_text_is_canonical_base32() {
    let id = WorkflowRunId::from_u128(0x41414141414141414141414141414141);
    assert_eq!(id.to_string(), "21850M2GA1850M2GA1850M2GA1");
    assert_eq!(WorkflowRunId::from_u128(0).to_string(), "00000000000000000000000000");
    assert_eq!(WorkflowRunId::from_u128(u128::MAX).to_string(), "7ZZZZZZZZZZZZZZZZZZZZZZZZZ");
}

#[test]
fn parse_accepts_lower_case_and_rejects_bad_text() {
    let id = WorkflowRunId::parse("2d9rw50ma499cmaghm6dd42dtp").unwrap();
    assert_eq!(id.as_u128(), 0x4d4e385051444a59454234335a413756);
    assert_eq!(
        WorkflowRunId::parse("short").unwrap_err(),
        "Invalid workflow run ID 'short': invalid length"
    );
    assert_eq!(
        WorkflowRunId::parse("0000000000000000000000000U").unwrap_err(),
        "Invalid workflow run ID '0000000000000000000000000U': invalid character"
    );
}

#[test]
fn transition_timestamps_never_go_back() {
    let workflow = create_workflow("W", "d", "a");
    let mut ids = RunIdGenerator::new();
    let mut run = WorkflowRun::new(workflow, &mut ids);
    let t0 = run.history[0].1;
    run.transition_to_at(StateId::new("b"), t0 - 10_000);
    assert_eq!(run.history[1].1, t0);
    run.transition_to_at(StateId::new("c"), t0 + 5);
    assert_eq!(run.history[2].1, t0 + 5);
    run.transition_to(StateId::new("d"));
    assert!(run.history[3].1 >= t0 + 5);
    assert_eq!(run.history[0].0.as_str(), "a");
    assert_eq!(run.current_state.as_str(), "d");
}

#[test]
fn terminal_transitions_set_completion_time_once_and_resume_clears_it() {
    let workflow = create_workflow("W", "d", "a");
    let mut ids = RunIdGenerator::new();
    let mut run = WorkflowRun::new(workflow.clone(), &mut ids);
    assert!(run.completed_at.is_none());
    run.pause();
    assert_eq!(run.status, WorkflowRunStatus::Paused);
    assert!(run.completed_at.is_some());
    run.resume();
    assert_eq!(run.status, WorkflowRunStatus::Running);
    assert!(run.completed_at.is_none());
    run.fail();
    assert_eq!(run.status, WorkflowRunStatus::Failed);
    let mut run2 = WorkflowRun::new(workflow, &mut ids);
    run2.cancel();
    assert_eq!(run2.status, WorkflowRunStatus::Cancelled);
    assert!(run2.completed_at.is_some());
}
