use swissarmyhammer::action::ActionResult;
use swissarmyhammer::merge::{
    classify_merge_error, format_commit_info, merge_failure_result, merge_target_label,
    resolve_merge_target, split_text, BranchCandidate, DeletionOutcome, MergeFailure,
    MergeIssueTool,
};

fn candidate(name: &str, distance: u64) -> BranchCandidate {
    BranchCandidate { name: name.to_string(), distance }
}

#[test]
fn merge_target_is_the_non_trunk_parent() {
    let candidates = vec![
        candidate("main", 7),
        candidate("release/2", 1),
        candidate("issue/007_fix", 0),
        candidate("issue/006_other", 1),
    ];
    assert_eq!(
        resolve_merge_target("issue/007_fix", &candidates),
        Some("release/2".to_string())
    );
}

#[test]
fn merge_target_ties_go_to_the_first_and_none_without_candidates() {
    let candidates = vec![candidate("develop", 2), candidate("main", 2)];
    assert_eq!(resolve_merge_target("issue/x", &candidates), Some("develop".to_string()));
    assert_eq!(resolve_merge_target("issue/x", &vec![candidate("issue/x", 0)]), None);
    assert_eq!(merge_target_label(&None), "main");
    assert_eq!(merge_target_label(&Some("release/2".to_string())), "release/2");
}

#[test]
fn each_marker_classifies_as_irrecoverable() {
    for msg in [
        "error: branch 'issue/x' does not exist",
        "the branch was deleted",
        "CONFLICT (content): Merge conflict in src/lib.rs",
        "Automatic merge failed; fix conflicts and then commit the result.",
    ] {
        assert_eq!(classify_merge_error(msg), MergeFailure::Irrecoverable, "{msg}");
    }
}

#[test]
fn unrelated_error_text_classifies_as_transient() {
    assert_eq!(classify_merge_error("index.lock: resource temporarily unavailable"), MergeFailure::Transient);
    assert_eq!(classify_merge_error("conflict"), MergeFailure::Transient);
    assert_eq!(classify_merge_error(""), MergeFailure::Transient);
}

#[test]
fn conflict_is_fatal_and_transient_is_recoverable() {
    match merge_failure_result("007_fix", "CONFLICT in a.rs") {
        ActionResult::Fatal { message, reason } => {
            assert_eq!(message, "Merge failed for issue '007_fix': CONFLICT in a.rs");
            assert_eq!(reason, "CONFLICT in a.rs");
        }
        other => panic!("unexpected {other:?}"),
    }
    match merge_failure_result("007_fix", "timed out") {
        ActionResult::Recoverable(m) => assert_eq!(m, "Failed to merge branch: timed out"),
        other => panic!("unexpected {other:?}"),
    }
}

#[test]
fn commit_info_is_formatted_from_its_parts() {
    let info = Some("0123456789abcdef|Merge issue|Ann Author|2024-01-02".to_string());
    assert_eq!(
        format_commit_info(&info),
        "\n\nMerge commit: 01234567\nMessage: Merge issue\nAuthor: Ann Author\nDate: 2024-01-02"
    );
    assert_eq!(format_commit_info(&Some("abc|only".to_string())), "\n\nMerge commit: abc|only");
    assert_eq!(format_commit_info(&None), "");
    assert_eq!(
        format_commit_info(&Some("abc|m|a|d|extra".to_string())),
        "\n\nMerge commit: abc\nMessage: m\nAuthor: a\nDate: d"
    );
}

#[test]
fn split_keeps_empty_pieces() {
    assert_eq!(split_text("a||b|", '|'), vec!["a", "", "b", ""]);
    assert_eq!(split_text("", '|'), vec![""]);
}

#[test]
fn success_message_reports_target_deletion_and_commit() {
    let m = MergeIssueTool::success_message("007_fix", "release/2", &DeletionOutcome::Deleted, "\n\nMerge commit: x");
    assert_eq!(
        m,
        "Merged work branch for issue 007_fix to release/2 (determined by git merge-base) and deleted branch issue/007_fix\n\nMerge commit: x"
    );
    let m = MergeIssueTool::success_message(
        "a",
        "main",
        &DeletionOutcome::Failed("busy".to_string()),
        "",
    );
    assert_eq!(m, "Merged work branch for issue a to main (determined by git merge-base) but failed to delete branch: busy");
    let m = MergeIssueTool::success_message("a", "main", &DeletionOutcome::NotRequested, "");
    assert_eq!(m, "Merged work branch for issue a to main (determined by git merge-base)");
}

#[test]
fn preconditions_gate_the_merge() {
    assert!(MergeIssueTool::check_preconditions("a", true, true).is_none());
    match MergeIssueTool::check_preconditions("a", false, true) {
        Some(ActionResult::Recoverable(m)) => assert_eq!(m, "Issue 'a' must be completed before merging"),
        other => panic!("unexpected {other:?}"),
    }
    match MergeIssueTool::check_preconditions("a", true, false) {
        Some(ActionResult::Recoverable(m)) => assert_eq!(m, "Git operations not available"),
        other => panic!("unexpected {other:?}"),
    }
}

#[test]
fn tool_name_and_branch_name() {
    let tool = MergeIssueTool::new();
    assert_eq!(tool.name(), "issue_merge");
    assert_eq!(MergeIssueTool::format_issue_branch_name("007_fix"), "issue/007_fix");
}
