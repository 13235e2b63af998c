use batch_transfer::batch::{Action, Batch, Progress, Step};
use batch_transfer::keys::{FolderPrefix, ObjectKey, Target};
use batch_transfer::lister::{Listing, Page};
use batch_transfer::model::Phase;
use batch_transfer::outcome::{BatchResult, FailureReason, ItemOutcome, ItemResult, OverallStatus};
use batch_transfer::remote::{Call, ErrorClass, RemoteError, Reply};
use batch_transfer::request::{BatchConfig, BatchRequest, Destination, OperationKind};
use batch_transfer::retry::RetryPolicy;
use std::collections::{BTreeMap, BTreeSet};

/// A store of one bucket that answers as it is told to.
struct Store {
    objects: BTreeMap<String, Vec<u8>>,
    deny_delete: BTreeSet<String>,
    deny_copy: BTreeSet<String>,
    deny_list: BTreeSet<String>,
    throttle: u32,
    calls: Vec<Call>,
    page_size: usize,
}

fn store(keys: &[&str]) -> Store {
    Store {
        objects: keys.iter().map(|k| (k.to_string(), k.as_bytes().to_vec())).collect(),
        deny_delete: BTreeSet::new(),
        deny_copy: BTreeSet::new(),
        deny_list: BTreeSet::new(),
        throttle: 0,
        calls: Vec::new(),
        page_size: 2,
    }
}

fn denied() -> RemoteError {
    RemoteError::new(ErrorClass::Denied, "access denied")
}

fn perform(store: &mut Store, call: Call) -> Reply {
    store.calls.push(call.clone());
    if store.throttle > 0 {
        store.throttle -= 1;
        return Reply::Failed(RemoteError::new(ErrorClass::Throttled, "slow down"));
    }
    match call {
        Call::Get { key, .. } => {
            if store.objects.contains_key(&key) {
                Reply::Done
            } else {
                Reply::NotFound
            }
        }
        Call::Put { key, .. } => {
            store.objects.insert(key, b"body".to_vec());
            Reply::Done
        }
        Call::PutEmpty { key, .. } => {
            store.objects.insert(key, Vec::new());
            Reply::Done
        }
        Call::Copy { from, to, .. } => {
            if store.deny_copy.contains(&from) {
                return Reply::Failed(denied());
            }
            match store.objects.get(&from).cloned() {
                Some(body) => {
                    store.objects.insert(to, body);
                    Reply::Done
                }
                None => Reply::NotFound,
            }
        }
        Call::Delete { key, .. } => {
            if store.deny_delete.contains(&key) {
                return Reply::Failed(denied());
            }
            match store.objects.remove(&key) {
                Some(_) => Reply::Done,
                None => Reply::NotFound,
            }
        }
    }
}

fn list(store: &Store, folder: FolderPrefix) -> Result<Vec<ObjectKey>, RemoteError> {
    let prefix = folder.prefix.clone();
    let bucket = folder.bucket.clone();
    let mut listing = Listing::start(folder);
    let keys: Vec<String> =
        store.objects.keys().filter(|k| k.starts_with(prefix.as_str())).cloned().collect();
    while let Some(call) = listing.request() {
        if store.deny_list.contains(&call.prefix) {
            listing.accept(Err(denied()));
            continue;
        }
        let from: usize = match call.continuation {
            Some(t) => t.parse().unwrap(),
            None => 0,
        };
        let to = (from + store.page_size).min(keys.len());
        let next = if to < keys.len() { Some(to.to_string()) } else { None };
        let objects = keys[from..to].iter().map(|k| ObjectKey::new(&bucket, k)).collect();
        listing.accept(Ok(Page { objects, next }));
    }
    listing.finish().unwrap()
}

/// Runs one item's calls to its end and returns its outcome.
fn finish_item(batch: &mut Batch, store: &mut Store, item: usize, call: Call) -> ItemOutcome {
    let mut call = call;
    loop {
        let reply = perform(store, call);
        match batch.completed(item, reply) {
            Step::Issue { item: again, call: next } => {
                assert_eq!(again, item);
                call = next;
            }
            Step::RetryAfter { item: again, call: next, .. } => {
                assert_eq!(again, item);
                call = next;
            }
            Step::Record { item: ended, outcome } => {
                assert_eq!(ended, item);
                return outcome;
            }
            Step::Ignored => panic!("the answer of a running item was ignored"),
        }
    }
}

/// Drives a batch to its end, one item at a time; returns the outcomes in the
/// order in which they were reported.
fn drive(batch: &mut Batch, store: &mut Store) -> Vec<ItemOutcome> {
    let mut events = Vec::new();
    loop {
        match batch.poll() {
            Action::Resolve(folder) => {
                let answer = list(store, folder);
                batch.resolved(answer);
            }
            Action::Perform { item, call } => {
                events.push(finish_item(batch, store, item, call));
            }
            Action::Report { outcome, .. } => events.push(outcome),
            Action::Wait => panic!("nothing runs, and the batch waits"),
            Action::Finished => return events,
        }
    }
}

fn object(key: &str) -> Target {
    Target::Object(ObjectKey::new("bucket", key))
}

fn folder(prefix: &str) -> Target {
    Target::Folder(FolderPrefix::new("bucket", prefix))
}

fn request(kind: OperationKind, targets: Vec<Target>) -> BatchRequest {
    BatchRequest { connection: "7".to_string(), kind, targets, destination: None }
}

fn config(concurrency: usize) -> BatchConfig {
    BatchConfig { concurrency, retry: RetryPolicy::none() }
}

fn submit(kind: OperationKind, targets: Vec<Target>) -> Batch {
    Batch::submit(request(kind, targets), config(4)).expect("four workers are some workers")
}

fn conclude(batch: Batch) -> BatchResult {
    match batch.conclude() {
        Ok(result) => result,
        Err(_) => panic!("the batch is not completed"),
    }
}

fn results(result: &BatchResult) -> Vec<(String, ItemResult)> {
    result.outcomes.iter().map(|o| (o.target.path().to_string(), o.result.clone())).collect()
}

#[test]
fn a_pool_without_workers_is_refused() {
    assert!(Batch::submit(request(OperationKind::Delete, vec![object("a")]), config(0)).is_none());
    assert!(Batch::submit(request(OperationKind::Delete, vec![object("a")]), config(1)).is_some());
}

#[test]
fn a_batch_starts_as_submitted() {
    let batch = submit(OperationKind::Delete, vec![object("a")]);
    assert_eq!(batch.phase(), Phase::Submitted);
    assert_eq!(batch.connection(), "7");
    assert_eq!(batch.len(), 0);
    assert_eq!(batch.in_flight(), 0);
    assert_eq!(batch.dispatched(), 0);
    assert!(!batch.is_cancelled());
}

#[test]
fn batch_delete_of_three_keys_where_one_does_not_exist() {
    let mut s = store(&["a", "c"]);
    let mut batch = submit(OperationKind::Delete, vec![object("a"), object("b"), object("c")]);
    let events = drive(&mut batch, &mut s);
    assert_eq!(events.len(), 3);
    let result = conclude(batch);
    assert_eq!(
        results(&result),
        vec![
            ("a".to_string(), ItemResult::Success),
            ("b".to_string(), ItemResult::Success),
            ("c".to_string(), ItemResult::Success),
        ]
    );
    assert_eq!(result.status, OverallStatus::AllSucceeded);
    assert!(s.objects.is_empty());
}

#[test]
fn download_folder_on_a_prefix_without_objects() {
    let mut s = store(&["other/x"]);
    let mut batch = submit(OperationKind::Download, vec![folder("photos/")]);
    let events = drive(&mut batch, &mut s);
    assert!(events.is_empty());
    assert!(s.calls.is_empty());
    let result = conclude(batch);
    assert_eq!(result.outcomes.len(), 0);
    assert_eq!(result.status, OverallStatus::AllSucceeded);
}

#[test]
fn move_where_the_source_delete_fails_for_one_of_five() {
    let mut s = store(&["in/1", "in/2", "in/3", "in/4", "in/5"]);
    s.deny_delete.insert("in/3".to_string());
    let targets = vec![object("in/1"), object("in/2"), object("in/3"), object("in/4"), object("in/5")];
    let mut req = request(OperationKind::Move, targets);
    req.destination = Some(Destination::new("in/", "out/"));
    let mut batch = Batch::submit(req, config(2)).unwrap();
    drive(&mut batch, &mut s);
    let result = conclude(batch);
    assert_eq!(result.status, OverallStatus::PartialFailure);
    assert_eq!(
        results(&result),
        vec![
            ("in/1".to_string(), ItemResult::Success),
            ("in/2".to_string(), ItemResult::Success),
            ("in/3".to_string(), ItemResult::Failed(FailureReason::SourceNotRemoved(denied()))),
            ("in/4".to_string(), ItemResult::Success),
            ("in/5".to_string(), ItemResult::Success),
        ]
    );
    let left: Vec<&str> = s.objects.keys().map(|k| k.as_str()).collect();
    assert_eq!(left, vec!["in/3", "out/1", "out/2", "out/3", "out/4", "out/5"]);
}

#[test]
fn a_moved_object_is_at_its_destination_and_not_at_its_source() {
    let mut s = store(&["in/a"]);
    let mut req = request(OperationKind::Move, vec![object("in/a")]);
    req.destination = Some(Destination::new("in/", "out/"));
    let mut batch = Batch::submit(req, config(1)).unwrap();
    drive(&mut batch, &mut s);
    assert_eq!(results(&conclude(batch)), vec![("in/a".to_string(), ItemResult::Success)]);
    assert_eq!(s.objects.get("out/a"), Some(&b"in/a".to_vec()));
    assert_eq!(s.objects.get("in/a"), None);
    assert_eq!(
        s.calls,
        vec![
            Call::Copy {
                bucket: "bucket".to_string(),
                from: "in/a".to_string(),
                to: "out/a".to_string()
            },
            Call::Delete { bucket: "bucket".to_string(), key: "in/a".to_string() },
        ]
    );
}

#[test]
fn a_failed_copy_leaves_the_source_and_makes_no_delete() {
    let mut s = store(&["in/a", "in/b"]);
    s.deny_copy.insert("in/a".to_string());
    let mut req = request(OperationKind::Move, vec![object("in/a"), object("in/b")]);
    req.destination = Some(Destination::new("in/", "out/"));
    let mut batch = Batch::submit(req, config(1)).unwrap();
    drive(&mut batch, &mut s);
    let result = conclude(batch);
    assert_eq!(
        results(&result),
        vec![
            ("in/a".to_string(), ItemResult::Failed(FailureReason::Remote(denied()))),
            ("in/b".to_string(), ItemResult::Success),
        ]
    );
    assert_eq!(result.status, OverallStatus::PartialFailure);
    assert_eq!(s.objects.get("in/a"), Some(&b"in/a".to_vec()));
    assert_eq!(s.objects.get("out/a"), None);
    assert!(!s.calls.contains(&Call::Delete {
        bucket: "bucket".to_string(),
        key: "in/a".to_string()
    }));
}

#[test]
fn one_outcome_for_each_resolved_object() {
    let mut s = store(&["docs/1", "docs/2", "docs/3", "x", "y", "z"]);
    let mut batch =
        submit(OperationKind::Download, vec![object("x"), folder("docs/"), object("y")]);
    drive(&mut batch, &mut s);
    assert_eq!(batch.len(), 5);
    let result = conclude(batch);
    assert_eq!(
        results(&result),
        vec![
            ("x".to_string(), ItemResult::Success),
            ("docs/1".to_string(), ItemResult::Success),
            ("docs/2".to_string(), ItemResult::Success),
            ("docs/3".to_string(), ItemResult::Success),
            ("y".to_string(), ItemResult::Success),
        ]
    );
}

#[test]
fn delete_folder_deletes_every_object_under_it() {
    let mut s = store(&["docs/", "docs/1", "docs/sub/2", "keep"]);
    let mut batch = submit(OperationKind::Delete, vec![folder("docs/")]);
    drive(&mut batch, &mut s);
    let result = conclude(batch);
    assert_eq!(result.outcomes.len(), 3);
    assert_eq!(result.status, OverallStatus::AllSucceeded);
    let left: Vec<&str> = s.objects.keys().map(|k| k.as_str()).collect();
    assert_eq!(left, vec!["keep"]);
}

#[test]
fn a_folder_that_cannot_be_listed_is_one_failed_outcome() {
    let mut s = store(&["a", "docs/1", "z"]);
    s.deny_list.insert("docs/".to_string());
    let mut batch = submit(OperationKind::Delete, vec![object("a"), folder("docs/"), object("z")]);
    drive(&mut batch, &mut s);
    let result = conclude(batch);
    assert_eq!(
        result.outcomes,
        vec![
            ItemOutcome { target: object("a"), result: ItemResult::Success },
            ItemOutcome {
                target: folder("docs/"),
                result: ItemResult::Failed(FailureReason::Unresolved(denied())),
            },
            ItemOutcome { target: object("z"), result: ItemResult::Success },
        ]
    );
    assert_eq!(result.status, OverallStatus::PartialFailure);
    assert!(s.objects.contains_key("docs/1"));
}

#[test]
fn every_item_failing_is_all_failed() {
    let mut s = store(&[]);
    let mut batch = submit(OperationKind::Download, vec![object("a"), object("b")]);
    drive(&mut batch, &mut s);
    let result = conclude(batch);
    assert_eq!(
        results(&result),
        vec![
            ("a".to_string(), ItemResult::Failed(FailureReason::NotFound)),
            ("b".to_string(), ItemResult::Failed(FailureReason::NotFound)),
        ]
    );
    assert_eq!(result.status, OverallStatus::AllFailed);
}

#[test]
fn an_empty_request_is_all_succeeded() {
    let mut batch = submit(OperationKind::Delete, Vec::new());
    assert!(matches!(batch.poll(), Action::Finished));
    assert_eq!(batch.phase(), Phase::Completed);
    let result = conclude(batch);
    assert!(result.outcomes.is_empty());
    assert_eq!(result.status, OverallStatus::AllSucceeded);
}

#[test]
fn create_folder_puts_one_empty_marker() {
    let mut s = store(&[]);
    let mut batch = submit(OperationKind::CreateFolder, vec![folder("new"), folder("other/")]);
    drive(&mut batch, &mut s);
    assert_eq!(
        s.calls,
        vec![
            Call::PutEmpty { bucket: "bucket".to_string(), key: "new/".to_string() },
            Call::PutEmpty { bucket: "bucket".to_string(), key: "other/".to_string() },
        ]
    );
    assert_eq!(s.objects.get("new/"), Some(&Vec::new()));
    let result = conclude(batch);
    assert_eq!(result.outcomes.len(), 2);
    assert_eq!(result.status, OverallStatus::AllSucceeded);
}

#[test]
fn upload_writes_under_the_destination() {
    let mut s = store(&[]);
    let mut req = request(OperationKind::Upload, vec![object("a.txt"), object("dir/b.txt")]);
    req.destination = Some(Destination::new("", "docs/"));
    let mut batch = Batch::submit(req, config(2)).unwrap();
    drive(&mut batch, &mut s);
    let keys: Vec<&str> = s.objects.keys().map(|k| k.as_str()).collect();
    assert_eq!(keys, vec!["docs/a.txt", "docs/dir/b.txt"]);
    assert_eq!(conclude(batch).status, OverallStatus::AllSucceeded);
}

#[test]
fn upload_without_destination_writes_the_key_itself() {
    let mut s = store(&[]);
    let mut batch = submit(OperationKind::Upload, vec![object("a.txt")]);
    drive(&mut batch, &mut s);
    assert_eq!(s.calls, vec![Call::Put { bucket: "bucket".to_string(), key: "a.txt".to_string() }]);
    assert_eq!(conclude(batch).status, OverallStatus::AllSucceeded);
}

#[test]
fn a_key_outside_the_source_prefix_fails_without_a_call() {
    let mut s = store(&["in/a", "elsewhere/b"]);
    let mut req = request(OperationKind::Move, vec![object("elsewhere/b"), object("in/a")]);
    req.destination = Some(Destination::new("in/", "out/"));
    let mut batch = Batch::submit(req, config(1)).unwrap();
    let first = batch.poll();
    assert_eq!(
        first,
        Action::Report {
            item: 0,
            outcome: ItemOutcome {
                target: object("elsewhere/b"),
                result: ItemResult::Failed(FailureReason::NoDestination),
            },
        }
    );
    assert_eq!(batch.in_flight(), 0);
    drive(&mut batch, &mut s);
    let result = conclude(batch);
    assert_eq!(
        results(&result),
        vec![
            ("elsewhere/b".to_string(), ItemResult::Failed(FailureReason::NoDestination)),
            ("in/a".to_string(), ItemResult::Success),
        ]
    );
    assert!(s.objects.contains_key("elsewhere/b"));
}

#[test]
fn a_move_without_destination_fails_every_item() {
    let mut s = store(&["a"]);
    let mut batch = submit(OperationKind::Move, vec![object("a")]);
    drive(&mut batch, &mut s);
    assert!(s.calls.is_empty());
    let result = conclude(batch);
    assert_eq!(results(&result), vec![("a".to_string(), ItemResult::Failed(FailureReason::NoDestination))]);
    assert_eq!(result.status, OverallStatus::AllFailed);
}

#[test]
fn no_more_items_run_than_the_limit_allows() {
    let targets = vec![object("a"), object("b"), object("c"), object("d")];
    let mut batch = Batch::submit(request(OperationKind::Delete, targets), config(2)).unwrap();
    assert!(matches!(batch.poll(), Action::Perform { item: 0, .. }));
    assert_eq!(batch.phase(), Phase::Dispatching);
    assert!(matches!(batch.poll(), Action::Perform { item: 1, .. }));
    assert_eq!(batch.in_flight(), 2);
    assert_eq!(batch.poll(), Action::Wait);
    assert_eq!(batch.poll(), Action::Wait);
    assert_eq!(batch.in_flight(), 2);
    assert!(matches!(batch.completed(0, Reply::Done), Step::Record { item: 0, .. }));
    assert_eq!(batch.in_flight(), 1);
    assert!(matches!(batch.poll(), Action::Perform { item: 2, .. }));
    assert_eq!(batch.poll(), Action::Wait);
    assert!(matches!(batch.completed(2, Reply::Done), Step::Record { item: 2, .. }));
    assert!(matches!(batch.completed(1, Reply::Done), Step::Record { item: 1, .. }));
    assert!(matches!(batch.poll(), Action::Perform { item: 3, .. }));
    assert_eq!(batch.poll(), Action::Wait);
    assert!(matches!(batch.completed(3, Reply::Done), Step::Record { item: 3, .. }));
    assert_eq!(batch.phase(), Phase::Completed);
    assert_eq!(batch.poll(), Action::Finished);
}

#[test]
fn the_batch_asks_for_a_listing_until_it_gets_one() {
    let mut batch = submit(OperationKind::Download, vec![object("a"), folder("docs/")]);
    assert_eq!(batch.poll(), Action::Resolve(FolderPrefix::new("bucket", "docs/")));
    assert_eq!(batch.phase(), Phase::Resolving);
    assert_eq!(batch.len(), 1);
    assert_eq!(batch.poll(), Action::Resolve(FolderPrefix::new("bucket", "docs/")));
    batch.resolved(Ok(vec![ObjectKey::new("bucket", "docs/1")]));
    assert_eq!(batch.phase(), Phase::Dispatching);
    assert_eq!(batch.len(), 2);
    assert!(matches!(batch.poll(), Action::Perform { item: 0, .. }));
}

#[test]
fn an_unasked_listing_changes_nothing() {
    let mut batch = submit(OperationKind::Download, vec![object("a")]);
    batch.resolved(Ok(vec![ObjectKey::new("bucket", "docs/1")]));
    assert_eq!(batch.phase(), Phase::Submitted);
    assert_eq!(batch.len(), 0);
    assert!(matches!(batch.poll(), Action::Perform { item: 0, .. }));
    batch.resolved(Ok(vec![ObjectKey::new("bucket", "docs/1")]));
    assert_eq!(batch.len(), 1);
}

#[test]
fn answers_for_items_that_do_not_run_are_ignored() {
    let mut batch = submit(OperationKind::Delete, vec![object("a"), object("b")]);
    assert_eq!(batch.completed(0, Reply::Done), Step::Ignored);
    assert!(matches!(batch.poll(), Action::Perform { item: 0, .. }));
    assert_eq!(batch.completed(1, Reply::Done), Step::Ignored);
    assert_eq!(batch.completed(2, Reply::Done), Step::Ignored);
    assert!(matches!(batch.completed(0, Reply::Done), Step::Record { item: 0, .. }));
    assert_eq!(batch.completed(0, Reply::Done), Step::Ignored);
    assert_eq!(batch.in_flight(), 0);
    assert_eq!(batch.phase(), Phase::Dispatching);
}

#[test]
fn an_unfinished_batch_has_no_result() {
    let mut batch = submit(OperationKind::Delete, vec![object("a")]);
    batch = match batch.conclude() {
        Err(back) => back,
        Ok(_) => panic!("a submitted batch gave a result"),
    };
    assert_eq!(batch.phase(), Phase::Submitted);
    assert!(matches!(batch.poll(), Action::Perform { item: 0, .. }));
    batch = match batch.conclude() {
        Err(back) => back,
        Ok(_) => panic!("a running batch gave a result"),
    };
    assert!(matches!(batch.completed(0, Reply::Done), Step::Record { .. }));
    assert!(batch.conclude().is_ok());
}

#[test]
fn a_throttled_call_is_made_again_within_the_budget() {
    let mut s = store(&["a"]);
    s.throttle = 2;
    let retry = RetryPolicy { budget: 2, base_delay_ms: 100, max_delay_ms: 1000 };
    let mut batch = Batch::submit(
        request(OperationKind::Delete, vec![object("a")]),
        BatchConfig { concurrency: 1, retry },
    )
    .unwrap();
    let call = match batch.poll() {
        Action::Perform { item: 0, call } => call,
        other => panic!("unexpected action {:?}", other),
    };
    let first = perform(&mut s, call);
    let call = match batch.completed(0, first) {
        Step::RetryAfter { item: 0, call, wait: 100 } => call,
        other => panic!("unexpected step {:?}", other),
    };
    assert_eq!(batch.in_flight(), 1);
    let second = perform(&mut s, call);
    let call = match batch.completed(0, second) {
        Step::RetryAfter { item: 0, call, wait: 200 } => call,
        other => panic!("unexpected step {:?}", other),
    };
    let third = perform(&mut s, call);
    assert_eq!(
        batch.completed(0, third),
        Step::Record {
            item: 0,
            outcome: ItemOutcome { target: object("a"), result: ItemResult::Success }
        }
    );
    assert_eq!(s.calls.len(), 3);
}

#[test]
fn a_throttled_call_fails_when_the_budget_is_spent() {
    let mut s = store(&["a"]);
    s.throttle = 5;
    let retry = RetryPolicy { budget: 1, base_delay_ms: 100, max_delay_ms: 1000 };
    let mut batch = Batch::submit(
        request(OperationKind::Delete, vec![object("a")]),
        BatchConfig { concurrency: 1, retry },
    )
    .unwrap();
    drive(&mut batch, &mut s);
    assert_eq!(s.calls.len(), 2);
    let result = conclude(batch);
    assert_eq!(
        results(&result),
        vec![(
            "a".to_string(),
            ItemResult::Failed(FailureReason::Remote(RemoteError::new(
                ErrorClass::Throttled,
                "slow down"
            )))
        )]
    );
}

#[test]
fn cancellation_starts_nothing_and_keeps_what_was_recorded() {
    let targets = vec![object("a"), object("b"), object("c"), object("d")];
    let mut batch = Batch::submit(request(OperationKind::Delete, targets), config(2)).unwrap();
    assert!(matches!(batch.poll(), Action::Perform { item: 0, .. }));
    assert!(matches!(batch.poll(), Action::Perform { item: 1, .. }));
    assert!(matches!(batch.completed(0, Reply::Failed(denied())), Step::Record { item: 0, .. }));
    let cancelled = batch.cancel();
    assert_eq!(
        cancelled,
        vec![
            ItemOutcome { target: object("c"), result: ItemResult::Cancelled },
            ItemOutcome { target: object("d"), result: ItemResult::Cancelled },
        ]
    );
    assert!(batch.is_cancelled());
    assert_eq!(batch.phase(), Phase::Dispatching);
    assert_eq!(batch.in_flight(), 1);
    assert_eq!(batch.poll(), Action::Wait);
    assert_eq!(batch.poll(), Action::Wait);
    assert_eq!(batch.in_flight(), 1);
    assert!(matches!(batch.completed(1, Reply::Done), Step::Record { item: 1, .. }));
    assert_eq!(batch.phase(), Phase::Completed);
    assert_eq!(batch.poll(), Action::Finished);
    assert!(batch.cancel().is_empty());
    let result = conclude(batch);
    assert_eq!(
        results(&result),
        vec![
            ("a".to_string(), ItemResult::Failed(FailureReason::Remote(denied()))),
            ("b".to_string(), ItemResult::Success),
            ("c".to_string(), ItemResult::Cancelled),
            ("d".to_string(), ItemResult::Cancelled),
        ]
    );
    assert_eq!(result.status, OverallStatus::PartialFailure);
}

#[test]
fn a_running_move_still_deletes_its_source_after_cancellation() {
    let mut req = request(OperationKind::Move, vec![object("in/a"), object("in/b")]);
    req.destination = Some(Destination::new("in/", "out/"));
    let mut batch = Batch::submit(req, config(1)).unwrap();
    assert!(matches!(batch.poll(), Action::Perform { item: 0, .. }));
    assert_eq!(batch.cancel().len(), 1);
    assert_eq!(
        batch.completed(0, Reply::Done),
        Step::Issue {
            item: 0,
            call: Call::Delete { bucket: "bucket".to_string(), key: "in/a".to_string() }
        }
    );
    assert_eq!(batch.phase(), Phase::Dispatching);
    assert!(matches!(batch.completed(0, Reply::Done), Step::Record { item: 0, .. }));
    let result = conclude(batch);
    assert_eq!(
        results(&result),
        vec![("in/a".to_string(), ItemResult::Success), ("in/b".to_string(), ItemResult::Cancelled)]
    );
}

#[test]
fn cancellation_while_resolving_cancels_every_target() {
    let mut batch =
        submit(OperationKind::Delete, vec![object("a"), folder("docs/"), object("z")]);
    assert!(matches!(batch.poll(), Action::Resolve(_)));
    let cancelled = batch.cancel();
    assert_eq!(
        cancelled,
        vec![
            ItemOutcome { target: object("a"), result: ItemResult::Cancelled },
            ItemOutcome { target: folder("docs/"), result: ItemResult::Cancelled },
            ItemOutcome { target: object("z"), result: ItemResult::Cancelled },
        ]
    );
    assert_eq!(batch.phase(), Phase::Completed);
    batch.resolved(Ok(vec![ObjectKey::new("bucket", "docs/1")]));
    assert_eq!(batch.poll(), Action::Finished);
    let result = conclude(batch);
    assert_eq!(result.outcomes, cancelled);
    assert_eq!(result.status, OverallStatus::PartialFailure);
}

#[test]
fn cancellation_before_anything_cancels_every_target() {
    let mut batch = submit(OperationKind::Download, vec![object("a"), object("b")]);
    assert_eq!(batch.cancel().len(), 2);
    assert_eq!(batch.phase(), Phase::Completed);
    assert_eq!(batch.poll(), Action::Finished);
    let result = conclude(batch);
    assert_eq!(
        results(&result),
        vec![("a".to_string(), ItemResult::Cancelled), ("b".to_string(), ItemResult::Cancelled)]
    );
}

#[test]
fn a_single_object_is_a_batch_of_one() {
    let mut s = store(&["a"]);
    let mut batch = submit(OperationKind::Download, vec![object("a")]);
    let events = drive(&mut batch, &mut s);
    assert_eq!(events, vec![ItemOutcome { target: object("a"), result: ItemResult::Success }]);
    assert_eq!(s.calls, vec![Call::Get { bucket: "bucket".to_string(), key: "a".to_string() }]);
    assert_eq!(conclude(batch).status, OverallStatus::AllSucceeded);
}

#[test]
fn a_large_folder_is_resolved_page_by_page() {
    let names: Vec<String> = (0..25).map(|i| format!("big/{:02}", i)).collect();
    let refs: Vec<&str> = names.iter().map(|n| n.as_str()).collect();
    let mut s = store(&refs);
    s.page_size = 4;
    let mut batch = submit(OperationKind::Delete, vec![folder("big/")]);
    let events = drive(&mut batch, &mut s);
    assert_eq!(events.len(), 25);
    assert!(s.objects.is_empty());
    let result = conclude(batch);
    assert_eq!(result.outcomes.len(), 25);
    assert_eq!(result.status, OverallStatus::AllSucceeded);
}

#[test]
fn progress_counts_the_items() {
    let targets = vec![object("a"), object("b"), object("c"), object("d")];
    let mut batch = Batch::submit(request(OperationKind::Delete, targets), config(2)).unwrap();
    assert_eq!(batch.progress(), Progress { total: 0, ended: 0, running: 0, waiting: 0 });
    assert!(matches!(batch.poll(), Action::Perform { item: 0, .. }));
    assert_eq!(batch.progress(), Progress { total: 4, ended: 0, running: 1, waiting: 3 });
    assert!(matches!(batch.poll(), Action::Perform { item: 1, .. }));
    assert!(matches!(batch.completed(1, Reply::Done), Step::Record { .. }));
    assert_eq!(batch.progress(), Progress { total: 4, ended: 1, running: 1, waiting: 2 });
    batch.cancel();
    assert_eq!(batch.progress(), Progress { total: 4, ended: 3, running: 1, waiting: 0 });
    assert!(matches!(batch.completed(0, Reply::NotFound), Step::Record { .. }));
    assert_eq!(batch.progress(), Progress { total: 4, ended: 4, running: 0, waiting: 0 });
}

#[test]
fn moving_a_folder_moves_every_object_under_it() {
    let mut s = store(&["in/dir/1", "in/dir/sub/2", "in/other"]);
    let mut req = request(OperationKind::Move, vec![folder("in/dir/")]);
    req.destination = Some(Destination::new("in/", "out/"));
    let mut batch = Batch::submit(req, config(3)).unwrap();
    drive(&mut batch, &mut s);
    let result = conclude(batch);
    assert_eq!(
        results(&result),
        vec![
            ("in/dir/1".to_string(), ItemResult::Success),
            ("in/dir/sub/2".to_string(), ItemResult::Success),
        ]
    );
    let left: Vec<&str> = s.objects.keys().map(|k| k.as_str()).collect();
    assert_eq!(left, vec!["in/other", "out/dir/1", "out/dir/sub/2"]);
}

#[test]
fn an_upload_outside_the_source_prefix_fails_without_a_call() {
    let mut s = store(&[]);
    let mut req = request(OperationKind::Upload, vec![object("local/a"), object("b")]);
    req.destination = Some(Destination::new("local/", "remote/"));
    let mut batch = Batch::submit(req, config(1)).unwrap();
    drive(&mut batch, &mut s);
    assert_eq!(
        s.calls,
        vec![Call::Put { bucket: "bucket".to_string(), key: "remote/a".to_string() }]
    );
    let result = conclude(batch);
    assert_eq!(
        results(&result),
        vec![
            ("local/a".to_string(), ItemResult::Success),
            ("b".to_string(), ItemResult::Failed(FailureReason::NoDestination)),
        ]
    );
    assert_eq!(result.status, OverallStatus::PartialFailure);
}

#[test]
fn a_failed_listing_is_reported_when_its_turn_comes() {
    let mut batch = submit(OperationKind::Delete, vec![folder("docs/"), object("z")]);
    assert!(matches!(batch.poll(), Action::Resolve(_)));
    batch.resolved(Err(denied()));
    assert_eq!(batch.len(), 2);
    assert_eq!(
        batch.poll(),
        Action::Report {
            item: 0,
            outcome: ItemOutcome {
                target: folder("docs/"),
                result: ItemResult::Failed(FailureReason::Unresolved(denied())),
            },
        }
    );
    assert!(matches!(batch.poll(), Action::Perform { item: 1, .. }));
}

#[test]
fn failures_do_not_stop_the_batch() {
    let mut s = store(&["b", "d"]);
    let mut batch = Batch::submit(
        request(
            OperationKind::Download,
            vec![object("a"), object("b"), object("c"), object("d")],
        ),
        config(1),
    )
    .unwrap();
    let events = drive(&mut batch, &mut s);
    assert_eq!(events.len(), 4);
    assert_eq!(s.calls.len(), 4);
    let result = conclude(batch);
    assert_eq!(
        results(&result),
        vec![
            ("a".to_string(), ItemResult::Failed(FailureReason::NotFound)),
            ("b".to_string(), ItemResult::Success),
            ("c".to_string(), ItemResult::Failed(FailureReason::NotFound)),
            ("d".to_string(), ItemResult::Success),
        ]
    );
    assert_eq!(result.status, OverallStatus::PartialFailure);
}

#[test]
fn two_folders_are_listed_one_after_the_other() {
    let mut batch = submit(OperationKind::Download, vec![folder("a/"), folder("b/")]);
    assert_eq!(batch.poll(), Action::Resolve(FolderPrefix::new("bucket", "a/")));
    batch.resolved(Ok(vec![ObjectKey::new("bucket", "a/1"), ObjectKey::new("bucket", "a/2")]));
    assert_eq!(batch.phase(), Phase::Resolving);
    assert_eq!(batch.poll(), Action::Resolve(FolderPrefix::new("bucket", "b/")));
    batch.resolved(Ok(Vec::new()));
    assert_eq!(batch.phase(), Phase::Dispatching);
    assert_eq!(batch.len(), 2);
}

#[test]
fn a_batch_of_empty_folders_is_completed_when_the_last_is_listed() {
    let mut batch = submit(OperationKind::Delete, vec![folder("a/"), folder("b/")]);
    assert!(matches!(batch.poll(), Action::Resolve(_)));
    batch.resolved(Ok(Vec::new()));
    assert!(matches!(batch.poll(), Action::Resolve(_)));
    batch.resolved(Ok(Vec::new()));
    assert_eq!(batch.phase(), Phase::Completed);
    let result = conclude(batch);
    assert!(result.outcomes.is_empty());
    assert_eq!(result.status, OverallStatus::AllSucceeded);
}
