//! What a caller asks of the engine, and the work that each target stands for.

use crate::item::{Plan, PlanView};
use crate::keys::{destination_key, folder_marker, marker_of, relocated, Target, TargetView};
use crate::outcome::{FailureReason, FailureReasonView};
use crate::remote::views;
use crate::retry::RetryPolicy;
use vstd::prelude::*;

verus! {

/// The operations that a batch can perform on its targets.
#[derive(Clone, Copy, Debug, PartialEq, Eq, Structural)]
pub enum OperationKind {
    /// Read each object.
    Download,
    /// Write each object.
    Upload,
    /// Delete each object.
    Delete,
    /// Copy each object to its destination, then delete it at its source.
    Move,
    /// Create a folder for each target, by an empty object at its marker key.
    CreateFolder,
}

/// Where the objects of a move or an upload go: a key that starts with
/// `source_prefix` goes to the key that has `prefix` in its place.
#[derive(Debug, PartialEq, Eq)]
pub struct Destination {
    pub source_prefix: String,
    pub prefix: String,
}

/// What a [`Destination`] stands for.
pub struct DestinationView {
    pub source_prefix: Seq<char>,
    pub prefix: Seq<char>,
}

impl View for Destination {
    type V = DestinationView;

    open spec fn view(&self) -> DestinationView {
        DestinationView { source_prefix: self.source_prefix@, prefix: self.prefix@ }
    }
}

impl Destination {
    /// The destination that puts `prefix` in the place of `source_prefix`.
    pub fn new(source_prefix: &str, prefix: &str) -> (r: Destination)
        ensures
            r@ == (DestinationView { source_prefix: source_prefix@, prefix: prefix@ }),
    {
        Destination { source_prefix: source_prefix.to_owned(), prefix: prefix.to_owned() }
    }
}

/// The destination of a request, for specifications.
pub open spec fn destination_view(destination: Option<Destination>) -> Option<DestinationView> {
    match destination {
        Some(d) => Some(d@),
        None => None,
    }
}

/// One request: an operation on a list of targets, over one connection.
#[derive(Debug, PartialEq, Eq)]
pub struct BatchRequest {
    /// The connection over which every call of the batch is made.
    pub connection: String,
    pub kind: OperationKind,
    pub targets: Vec<Target>,
    /// Where the objects go; read for a move and for an upload only.
    pub destination: Option<Destination>,
}

/// What a [`BatchRequest`] stands for.
pub struct BatchRequestView {
    pub connection: Seq<char>,
    pub kind: OperationKind,
    pub targets: Seq<TargetView>,
    pub destination: Option<DestinationView>,
}

impl View for BatchRequest {
    type V = BatchRequestView;

    open spec fn view(&self) -> BatchRequestView {
        BatchRequestView {
            connection: self.connection@,
            kind: self.kind,
            targets: views(self.targets@),
            destination: destination_view(self.destination),
        }
    }
}

/// How a batch is run.
#[derive(Clone, Copy, Debug, PartialEq, Eq, Structural)]
pub struct BatchConfig {
    /// The number of items that may run at one time.
    pub concurrency: usize,
    /// The retry policy of each primitive call.
    pub retry: RetryPolicy,
}

/// What an item does when its turn comes.
#[derive(Debug, PartialEq, Eq)]
pub enum Work {
    /// It makes the calls of this plan.
    Call(Plan),
    /// It makes no call: it has failed for this reason.
    Fail(FailureReason),
}

/// What a [`Work`] stands for.
pub enum WorkView {
    Call(PlanView),
    Fail(FailureReasonView),
}

impl View for Work {
    type V = WorkView;

    open spec fn view(&self) -> WorkView {
        match self {
            Work::Call(plan) => WorkView::Call(plan@),
            Work::Fail(reason) => WorkView::Fail(reason@),
        }
    }
}

/// A target of this kind of batch stands for the objects under it, which the
/// store has to list first. So it is for every folder, except where the
/// folder itself is what the batch creates.
pub open spec fn needs_listing(kind: OperationKind, target: TargetView) -> bool {
    target is Folder && kind != OperationKind::CreateFolder
}

/// Tells whether the store has to list `target` before the batch can work on
/// it.
pub fn must_list(kind: OperationKind, target: &Target) -> (r: bool)
    ensures
        r == needs_listing(kind, target@),
{
    match target {
        Target::Folder(_) => match kind {
            OperationKind::CreateFolder => false,
            _ => true,
        },
        Target::Object(_) => false,
    }
}

/// The work that a batch of the given kind does on the path `path` of
/// `bucket`.
///
/// - A download reads the path and a delete removes it.
/// - A folder is created by an empty object at the marker key of the path.
/// - An upload writes the path as it is where the request names no
///   destination, else the path's destination.
/// - A move copies the path to its destination and then deletes it.
///
/// A move without a destination, and a path outside the source prefix of the
/// destination, has nowhere to go and fails without a call.
pub open spec fn work_for(
    kind: OperationKind,
    destination: Option<DestinationView>,
    bucket: Seq<char>,
    path: Seq<char>,
) -> WorkView {
    match kind {
        OperationKind::Download => WorkView::Call(PlanView::Fetch { bucket, key: path }),
        OperationKind::Delete => WorkView::Call(PlanView::Remove { bucket, key: path }),
        OperationKind::CreateFolder => WorkView::Call(
            PlanView::Mark { bucket, key: marker_of(path) },
        ),
        OperationKind::Upload => match destination {
            None => WorkView::Call(PlanView::Store { bucket, key: path }),
            Some(d) => match relocated(path, d.source_prefix, d.prefix) {
                Some(to) => WorkView::Call(PlanView::Store { bucket, key: to }),
                None => WorkView::Fail(FailureReasonView::NoDestination),
            },
        },
        OperationKind::Move => match destination {
            None => WorkView::Fail(FailureReasonView::NoDestination),
            Some(d) => match relocated(path, d.source_prefix, d.prefix) {
                Some(to) => WorkView::Call(PlanView::Relocate { bucket, from: path, to }),
                None => WorkView::Fail(FailureReasonView::NoDestination),
            },
        },
    }
}

/// Plans the work of a batch of the given kind on the path `path` of
/// `bucket`.
pub fn plan_work(kind: OperationKind, destination: &Option<Destination>, bucket: &str, path: &str)
    -> (r: Work)
    ensures
        r@ == work_for(kind, destination_view(*destination), bucket@, path@),
{
    match kind {
        OperationKind::Download => Work::Call(
            Plan::Fetch { bucket: bucket.to_owned(), key: path.to_owned() },
        ),
        OperationKind::Delete => Work::Call(
            Plan::Remove { bucket: bucket.to_owned(), key: path.to_owned() },
        ),
        OperationKind::CreateFolder => Work::Call(
            Plan::Mark { bucket: bucket.to_owned(), key: folder_marker(path) },
        ),
        OperationKind::Upload => match destination {
            None => Work::Call(Plan::Store { bucket: bucket.to_owned(), key: path.to_owned() }),
            Some(d) => match destination_key(path, d.source_prefix.as_str(), d.prefix.as_str()) {
                Some(to) => Work::Call(Plan::Store { bucket: bucket.to_owned(), key: to }),
                None => Work::Fail(FailureReason::NoDestination),
            },
        },
        OperationKind::Move => match destination {
            None => Work::Fail(FailureReason::NoDestination),
            Some(d) => match destination_key(path, d.source_prefix.as_str(), d.prefix.as_str()) {
                Some(to) => Work::Call(
                    Plan::Relocate { bucket: bucket.to_owned(), from: path.to_owned(), to },
                ),
                None => Work::Fail(FailureReason::NoDestination),
            },
        },
    }
}

} // verus!
