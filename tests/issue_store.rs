use std::sync::Arc;
use swissarmyhammer::handlers::{
    issue_error_message, validate_issue_name, IssueNameError,
    current_issue_message, format_decimal, format_issue_number, issue_not_found_message,
    issue_updated_message, work_issue_name,
};
use swissarmyhammer::issues::{IssueError, IssueStore};

#[test]
fn concurrent_updates_never_interleave() {
    let mut store = IssueStore::new();
    let n = store.create("shared", "initial").unwrap();
    let store = Arc::new(tokio::sync::RwLock::new(store));
    let runtime = tokio::runtime::Builder::new_multi_thread()
        .worker_threads(4)
        .build()
        .unwrap();
    let payloads: Vec<String> = (0..16).map(|i| format!("payload-{i}-").repeat(50)).collect();
    runtime.block_on(async {
        let mut handles = Vec::new();
        for p in payloads.clone() {
            let store = store.clone();
            handles.push(tokio::spawn(async move {
                let mut guard = store.write().await;
                guard.update(n, p).unwrap();
            }));
        }
        for h in handles {
            h.await.unwrap();
        }
    });
    let guard = runtime.block_on(store.read());
    let content = guard.get(n).unwrap().content.clone();
    assert!(payloads.contains(&content));
    assert_eq!(guard.list().len(), 1);
}

#[test]
fn store_operations() {
    let mut store = IssueStore::new();
    assert_eq!(store.create("a", "x"), Ok(1));
    assert_eq!(store.create("b", "y"), Ok(2));
    assert_eq!(store.pending_count(), 2);
    assert_eq!(store.mark_complete(1), Ok(()));
    assert_eq!(store.pending_count(), 1);
    assert!(store.get(1).unwrap().completed);
    assert_eq!(store.update(9, "z".to_string()), Err(IssueError::NotFound(9)));
    assert_eq!(store.mark_complete(9), Err(IssueError::NotFound(9)));
    assert_eq!(store.update(2, "z".to_string()), Ok(()));
    assert_eq!(store.get(2).unwrap().content, "z");
    assert!(store.get(3).is_none());
}

#[test]
fn exhausted_numbers_are_reported() {
    let mut store = IssueStore::new();
    store.next_number = u32::MAX;
    assert_eq!(store.create("a", "x"), Err(IssueError::NumbersExhausted));
}

#[test]
fn issue_numbers_are_zero_padded() {
    assert_eq!(format_issue_number(7), "000007");
    assert_eq!(format_issue_number(0), "000000");
    assert_eq!(format_issue_number(123456), "123456");
    assert_eq!(format_issue_number(1234567), "1234567");
    assert_eq!(format_decimal(4_294_967_295), "4294967295");
    assert_eq!(work_issue_name(7, "fix"), "000007_fix");
    assert_eq!(issue_not_found_message(42), "Issue #000042 not found");
    assert_eq!(issue_updated_message(3, "x"), "Updated issue 3 (x)");
}

#[test]
fn current_issue_comes_from_the_branch_name() {
    assert_eq!(current_issue_message("issue/007_fix"), "Currently working on issue: 007_fix");
    assert_eq!(current_issue_message("main"), "Not on an issue branch. Current branch: main");
    assert_eq!(current_issue_message("issue"), "Not on an issue branch. Current branch: issue");
}

#[test]
fn issue_names_are_trimmed_and_checked() {
    assert_eq!(validate_issue_name("  fix login  "), Ok("fix login".to_string()));
    assert_eq!(validate_issue_name("   "), Err(IssueNameError::Empty));
    assert_eq!(validate_issue_name(""), Err(IssueNameError::Empty));
    assert_eq!(validate_issue_name(&"a".repeat(101)), Err(IssueNameError::TooLong));
    assert_eq!(validate_issue_name(&"a".repeat(100)), Ok("a".repeat(100)));
    assert_eq!(validate_issue_name("a/b"), Err(IssueNameError::InvalidCharacter));
    assert_eq!(validate_issue_name("tab\there"), Err(IssueNameError::InvalidCharacter));
    assert_eq!(IssueNameError::Empty.message(), "Issue name cannot be empty");
}

#[test]
fn issue_errors_have_messages() {
    assert_eq!(issue_error_message(&IssueError::NotFound(5)), "Issue #000005 not found");
    assert_eq!(issue_error_message(&IssueError::NumbersExhausted), "No issue numbers are left");
}
