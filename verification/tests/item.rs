use batch_transfer::item::{advance, start, Effect, ItemState, Plan, Stage};
use batch_transfer::outcome::{FailureReason, ItemResult};
use batch_transfer::remote::{Call, ErrorClass, RemoteError, Reply};
use batch_transfer::retry::RetryPolicy;

fn s(text: &str) -> String {
    text.to_string()
}

fn relocate() -> Plan {
    Plan::Relocate { bucket: s("b"), from: s("src/a"), to: s("dst/a") }
}

fn remove() -> Plan {
    Plan::Remove { bucket: s("b"), key: s("k") }
}

fn fault(class: ErrorClass) -> RemoteError {
    RemoteError::new(class, "store says no")
}

#[test]
fn each_plan_starts_with_its_call() {
    let (state, call) = start(&Plan::Fetch { bucket: s("b"), key: s("k") });
    assert_eq!(state, ItemState::Running { stage: Stage::Calling, attempt: 0 });
    assert_eq!(call, Call::Get { bucket: s("b"), key: s("k") });
    let (_, call) = start(&Plan::Store { bucket: s("b"), key: s("k") });
    assert_eq!(call, Call::Put { bucket: s("b"), key: s("k") });
    let (_, call) = start(&Plan::Mark { bucket: s("b"), key: s("dir/") });
    assert_eq!(call, Call::PutEmpty { bucket: s("b"), key: s("dir/") });
    let (_, call) = start(&remove());
    assert_eq!(call, Call::Delete { bucket: s("b"), key: s("k") });
}

#[test]
fn a_move_starts_by_copying() {
    let (state, call) = start(&relocate());
    assert_eq!(state, ItemState::Running { stage: Stage::Copying, attempt: 0 });
    assert_eq!(call, Call::Copy { bucket: s("b"), from: s("src/a"), to: s("dst/a") });
}

#[test]
fn a_move_deletes_the_source_after_the_copy() {
    let (state, effect) = advance(&relocate(), Stage::Copying, 0, Reply::Done, &RetryPolicy::none());
    assert_eq!(state, ItemState::Running { stage: Stage::Deleting, attempt: 0 });
    assert_eq!(effect, Effect::Issue(Call::Delete { bucket: s("b"), key: s("src/a") }));
}

#[test]
fn a_move_succeeds_after_the_delete() {
    let (state, effect) = advance(&relocate(), Stage::Deleting, 0, Reply::Done, &RetryPolicy::none());
    assert_eq!(state, ItemState::Done(ItemResult::Success));
    assert_eq!(effect, Effect::Record(ItemResult::Success));
}

#[test]
fn a_failed_copy_ends_the_move_without_a_delete() {
    let (state, effect) = advance(
        &relocate(),
        Stage::Copying,
        0,
        Reply::Failed(fault(ErrorClass::Denied)),
        &RetryPolicy::none(),
    );
    let failed = ItemResult::Failed(FailureReason::Remote(fault(ErrorClass::Denied)));
    assert_eq!(state, ItemState::Done(failed.clone()));
    assert_eq!(effect, Effect::Record(failed));
}

#[test]
fn a_copy_of_a_missing_source_fails_as_not_found() {
    let (state, _) = advance(&relocate(), Stage::Copying, 0, Reply::NotFound, &RetryPolicy::none());
    assert_eq!(state, ItemState::Done(ItemResult::Failed(FailureReason::NotFound)));
}

#[test]
fn a_failed_delete_of_a_move_is_told_apart() {
    let (state, effect) = advance(
        &relocate(),
        Stage::Deleting,
        0,
        Reply::Failed(fault(ErrorClass::Denied)),
        &RetryPolicy::none(),
    );
    let failed = ItemResult::Failed(FailureReason::SourceNotRemoved(fault(ErrorClass::Denied)));
    assert_eq!(state, ItemState::Done(failed.clone()));
    assert_eq!(effect, Effect::Record(failed));
}

#[test]
fn deleting_a_missing_key_succeeds() {
    let (state, effect) = advance(&remove(), Stage::Calling, 0, Reply::NotFound, &RetryPolicy::none());
    assert_eq!(state, ItemState::Done(ItemResult::Success));
    assert_eq!(effect, Effect::Record(ItemResult::Success));
    let (state, _) = advance(&relocate(), Stage::Deleting, 0, Reply::NotFound, &RetryPolicy::none());
    assert_eq!(state, ItemState::Done(ItemResult::Success));
}

#[test]
fn reading_a_missing_key_fails() {
    let plan = Plan::Fetch { bucket: s("b"), key: s("k") };
    let (state, effect) = advance(&plan, Stage::Calling, 0, Reply::NotFound, &RetryPolicy::none());
    assert_eq!(state, ItemState::Done(ItemResult::Failed(FailureReason::NotFound)));
    assert_eq!(effect, Effect::Record(ItemResult::Failed(FailureReason::NotFound)));
}

#[test]
fn writing_to_a_missing_bucket_fails() {
    let plan = Plan::Store { bucket: s("b"), key: s("k") };
    let (state, _) = advance(&plan, Stage::Calling, 0, Reply::NotFound, &RetryPolicy::none());
    assert_eq!(state, ItemState::Done(ItemResult::Failed(FailureReason::NotFound)));
    let plan = Plan::Mark { bucket: s("b"), key: s("k/") };
    let (state, _) = advance(&plan, Stage::Calling, 0, Reply::NotFound, &RetryPolicy::none());
    assert_eq!(state, ItemState::Done(ItemResult::Failed(FailureReason::NotFound)));
}

#[test]
fn a_transient_failure_is_tried_again_within_the_budget() {
    let policy = RetryPolicy { budget: 2, base_delay_ms: 100, max_delay_ms: 5000 };
    let (state, effect) = advance(
        &remove(),
        Stage::Calling,
        0,
        Reply::Failed(fault(ErrorClass::Throttled)),
        &policy,
    );
    assert_eq!(state, ItemState::Running { stage: Stage::Calling, attempt: 1 });
    assert_eq!(effect, Effect::RetryAfter(Call::Delete { bucket: s("b"), key: s("k") }, 100));
    let (state, effect) = advance(
        &remove(),
        Stage::Calling,
        1,
        Reply::Failed(fault(ErrorClass::Network)),
        &policy,
    );
    assert_eq!(state, ItemState::Running { stage: Stage::Calling, attempt: 2 });
    assert_eq!(effect, Effect::RetryAfter(Call::Delete { bucket: s("b"), key: s("k") }, 200));
    let (state, _) = advance(
        &remove(),
        Stage::Calling,
        2,
        Reply::Failed(fault(ErrorClass::Throttled)),
        &policy,
    );
    assert_eq!(
        state,
        ItemState::Done(ItemResult::Failed(FailureReason::Remote(fault(ErrorClass::Throttled))))
    );
}

#[test]
fn a_retried_copy_stays_a_copy() {
    let policy = RetryPolicy { budget: 1, base_delay_ms: 10, max_delay_ms: 10 };
    let (state, effect) = advance(
        &relocate(),
        Stage::Copying,
        0,
        Reply::Failed(fault(ErrorClass::Throttled)),
        &policy,
    );
    assert_eq!(state, ItemState::Running { stage: Stage::Copying, attempt: 1 });
    assert_eq!(
        effect,
        Effect::RetryAfter(Call::Copy { bucket: s("b"), from: s("src/a"), to: s("dst/a") }, 10)
    );
}

#[test]
fn a_permission_failure_is_not_tried_again() {
    let policy = RetryPolicy { budget: 5, base_delay_ms: 100, max_delay_ms: 5000 };
    let (state, _) = advance(
        &remove(),
        Stage::Calling,
        0,
        Reply::Failed(fault(ErrorClass::Denied)),
        &policy,
    );
    assert_eq!(
        state,
        ItemState::Done(ItemResult::Failed(FailureReason::Remote(fault(ErrorClass::Denied))))
    );
}

#[test]
fn plan_knows_its_stages_and_calls() {
    assert_eq!(relocate().first_stage(), Stage::Copying);
    assert_eq!(remove().first_stage(), Stage::Calling);
    assert_eq!(
        relocate().call_at(Stage::Deleting),
        Call::Delete { bucket: s("b"), key: s("src/a") }
    );
    assert_eq!(relocate().clone(), relocate());
}
