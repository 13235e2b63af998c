use batch_transfer::keys::{FolderPrefix, ObjectKey, Target};
use batch_transfer::outcome::{
    overall_status, BatchResult, FailureReason, ItemOutcome, ItemResult, OverallStatus,
};
use batch_transfer::remote::{ErrorClass, RemoteError};

fn outcome(key: &str, result: ItemResult) -> ItemOutcome {
    ItemOutcome { target: Target::Object(ObjectKey::new("b", key)), result }
}

fn failed() -> ItemResult {
    ItemResult::Failed(FailureReason::Remote(RemoteError::new(ErrorClass::Denied, "no")))
}

#[test]
fn no_outcomes_is_all_succeeded() {
    assert_eq!(overall_status(&Vec::new()), OverallStatus::AllSucceeded);
}

#[test]
fn only_successes_is_all_succeeded() {
    let o = vec![outcome("a", ItemResult::Success), outcome("b", ItemResult::Success)];
    assert_eq!(overall_status(&o), OverallStatus::AllSucceeded);
}

#[test]
fn only_failures_is_all_failed() {
    let o = vec![outcome("a", failed()), outcome("b", ItemResult::Failed(FailureReason::NotFound))];
    assert_eq!(overall_status(&o), OverallStatus::AllFailed);
    assert_eq!(overall_status(&vec![outcome("a", failed())]), OverallStatus::AllFailed);
}

#[test]
fn a_mix_is_partial_failure() {
    let o = vec![outcome("a", ItemResult::Success), outcome("b", failed())];
    assert_eq!(overall_status(&o), OverallStatus::PartialFailure);
    let o = vec![outcome("a", failed()), outcome("b", ItemResult::Success)];
    assert_eq!(overall_status(&o), OverallStatus::PartialFailure);
}

#[test]
fn cancelled_is_neither_success_nor_failure() {
    let o = vec![outcome("a", ItemResult::Cancelled)];
    assert_eq!(overall_status(&o), OverallStatus::PartialFailure);
    let o = vec![outcome("a", ItemResult::Success), outcome("b", ItemResult::Cancelled)];
    assert_eq!(overall_status(&o), OverallStatus::PartialFailure);
    let o = vec![outcome("a", failed()), outcome("b", ItemResult::Cancelled)];
    assert_eq!(overall_status(&o), OverallStatus::PartialFailure);
}

#[test]
fn result_kinds_are_told_apart() {
    assert!(ItemResult::Success.is_success());
    assert!(!ItemResult::Success.is_failed());
    assert!(failed().is_failed());
    assert!(!failed().is_success());
    assert!(ItemResult::Cancelled.is_cancelled());
    assert!(!ItemResult::Cancelled.is_failed());
}

#[test]
fn collect_keeps_the_outcomes_and_computes_the_status() {
    let o = vec![
        outcome("a", ItemResult::Success),
        ItemOutcome {
            target: Target::Folder(FolderPrefix::new("b", "dir/")),
            result: ItemResult::Failed(FailureReason::Unresolved(RemoteError::new(
                ErrorClass::Network,
                "timeout",
            ))),
        },
    ];
    let r = BatchResult::collect(o.clone());
    assert_eq!(r.outcomes, o);
    assert_eq!(r.status, OverallStatus::PartialFailure);
}

#[test]
fn clones_are_equal() {
    let r = failed();
    assert_eq!(r.clone(), r);
    let o = outcome("k", ItemResult::Failed(FailureReason::SourceNotRemoved(RemoteError::new(
        ErrorClass::Other,
        "x",
    ))));
    assert_eq!(o.clone(), o);
    assert_eq!(FailureReason::NoDestination.clone(), FailureReason::NoDestination);
}
