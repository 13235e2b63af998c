//! What became of each item of a batch, and of the batch as a whole.

use crate::keys::{Target, TargetView};
use crate::remote::{views, RemoteError, RemoteErrorView};
use vstd::prelude::*;

verus! {

/// Why an item failed.
#[derive(Debug, PartialEq, Eq)]
pub enum FailureReason {
    /// The object, or its bucket, does not exist.
    NotFound,
    /// The store refused or failed the call.
    Remote(RemoteError),
    /// A move copied the object to its destination and then could not delete
    /// the source: both keys now hold the object.
    SourceNotRemoved(RemoteError),
    /// The folder could not be listed, so none of its objects was touched.
    Unresolved(RemoteError),
    /// The key lies outside the source prefix, so it has no destination.
    NoDestination,
}

/// What a [`FailureReason`] stands for.
pub enum FailureReasonView {
    NotFound,
    Remote(RemoteErrorView),
    SourceNotRemoved(RemoteErrorView),
    Unresolved(RemoteErrorView),
    NoDestination,
}

impl View for FailureReason {
    type V = FailureReasonView;

    open spec fn view(&self) -> FailureReasonView {
        match self {
            FailureReason::NotFound => FailureReasonView::NotFound,
            FailureReason::Remote(e) => FailureReasonView::Remote(e@),
            FailureReason::SourceNotRemoved(e) => FailureReasonView::SourceNotRemoved(e@),
            FailureReason::Unresolved(e) => FailureReasonView::Unresolved(e@),
            FailureReason::NoDestination => FailureReasonView::NoDestination,
        }
    }
}

impl Clone for FailureReason {
    fn clone(&self) -> (r: FailureReason)
        ensures
            r@ == self@,
    {
        match self {
            FailureReason::NotFound => FailureReason::NotFound,
            FailureReason::Remote(e) => FailureReason::Remote(e.clone()),
            FailureReason::SourceNotRemoved(e) => FailureReason::SourceNotRemoved(e.clone()),
            FailureReason::Unresolved(e) => FailureReason::Unresolved(e.clone()),
            FailureReason::NoDestination => FailureReason::NoDestination,
        }
    }
}

/// What became of one item.
#[derive(Debug, PartialEq, Eq)]
pub enum ItemResult {
    /// Every call of the item was made and succeeded.
    Success,
    /// The item was started and did not succeed.
    Failed(FailureReason),
    /// The batch was cancelled before the item was started.
    Cancelled,
}

/// What an [`ItemResult`] stands for.
pub enum ItemResultView {
    Success,
    Failed(FailureReasonView),
    Cancelled,
}

impl View for ItemResult {
    type V = ItemResultView;

    open spec fn view(&self) -> ItemResultView {
        match self {
            ItemResult::Success => ItemResultView::Success,
            ItemResult::Failed(reason) => ItemResultView::Failed(reason@),
            ItemResult::Cancelled => ItemResultView::Cancelled,
        }
    }
}

impl Clone for ItemResult {
    fn clone(&self) -> (r: ItemResult)
        ensures
            r@ == self@,
    {
        match self {
            ItemResult::Success => ItemResult::Success,
            ItemResult::Failed(reason) => ItemResult::Failed(reason.clone()),
            ItemResult::Cancelled => ItemResult::Cancelled,
        }
    }
}

impl ItemResult {
    /// Tells whether the item succeeded.
    pub fn is_success(&self) -> (r: bool)
        ensures
            r == (self@ is Success),
    {
        match self {
            ItemResult::Success => true,
            _ => false,
        }
    }

    /// Tells whether the item was started and did not succeed.
    pub fn is_failed(&self) -> (r: bool)
        ensures
            r == (self@ is Failed),
    {
        match self {
            ItemResult::Failed(_) => true,
            _ => false,
        }
    }

    /// Tells whether the item was never started.
    pub fn is_cancelled(&self) -> (r: bool)
        ensures
            r == (self@ is Cancelled),
    {
        match self {
            ItemResult::Cancelled => true,
            _ => false,
        }
    }
}

/// One target with what became of it.
#[derive(Debug, PartialEq, Eq)]
pub struct ItemOutcome {
    pub target: Target,
    pub result: ItemResult,
}

/// What an [`ItemOutcome`] stands for.
pub struct ItemOutcomeView {
    pub target: TargetView,
    pub result: ItemResultView,
}

impl View for ItemOutcome {
    type V = ItemOutcomeView;

    open spec fn view(&self) -> ItemOutcomeView {
        ItemOutcomeView { target: self.target@, result: self.result@ }
    }
}

impl Clone for ItemOutcome {
    fn clone(&self) -> (r: ItemOutcome)
        ensures
            r@ == self@,
    {
        ItemOutcome { target: self.target.clone(), result: self.result.clone() }
    }
}

/// What became of a batch as a whole.
#[derive(Clone, Copy, Debug, PartialEq, Eq, Structural)]
pub enum OverallStatus {
    /// Every item succeeded; so it is for a batch without items.
    AllSucceeded,
    /// Neither every item succeeded nor every item failed.
    PartialFailure,
    /// There are items, and every one of them failed.
    AllFailed,
}

/// Every outcome is a success.
pub open spec fn all_succeeded(outcomes: Seq<ItemOutcomeView>) -> bool {
    forall|i: int| 0 <= i < outcomes.len() ==> (#[trigger] outcomes[i]).result is Success
}

/// There are outcomes, and every one is a failure.
pub open spec fn all_failed(outcomes: Seq<ItemOutcomeView>) -> bool {
    &&& outcomes.len() > 0
    &&& forall|i: int| 0 <= i < outcomes.len() ==> (#[trigger] outcomes[i]).result is Failed
}

/// The status of a batch with the given outcomes.
pub open spec fn status_of(outcomes: Seq<ItemOutcomeView>) -> OverallStatus {
    if all_succeeded(outcomes) {
        OverallStatus::AllSucceeded
    } else if all_failed(outcomes) {
        OverallStatus::AllFailed
    } else {
        OverallStatus::PartialFailure
    }
}

/// Computes the status of a batch from the outcomes of its items.
pub fn overall_status(outcomes: &Vec<ItemOutcome>) -> (r: OverallStatus)
    ensures
        r == status_of(views(outcomes@)),
{
    let ghost all = views(outcomes@);
    let mut successes: bool = true;
    let mut failures: bool = true;
    let mut i: usize = 0;
    while i < outcomes.len()
        invariant
            i <= outcomes.len(),
            all == views(outcomes@),
            successes == (forall|j: int| 0 <= j < i ==> (#[trigger] all[j]).result is Success),
            failures == (forall|j: int| 0 <= j < i ==> (#[trigger] all[j]).result is Failed),
        decreases outcomes.len() - i,
    {
        assert(all[i as int] == outcomes@[i as int]@);
        if !outcomes[i].result.is_success() {
            successes = false;
        }
        if !outcomes[i].result.is_failed() {
            failures = false;
        }
        i += 1;
    }
    if successes {
        OverallStatus::AllSucceeded
    } else if failures && outcomes.len() > 0 {
        OverallStatus::AllFailed
    } else {
        OverallStatus::PartialFailure
    }
}

/// The one aggregated answer to a batch request.
#[derive(Debug, PartialEq, Eq)]
pub struct BatchResult {
    pub outcomes: Vec<ItemOutcome>,
    pub status: OverallStatus,
}

/// What a [`BatchResult`] stands for.
pub struct BatchResultView {
    pub outcomes: Seq<ItemOutcomeView>,
    pub status: OverallStatus,
}

impl View for BatchResult {
    type V = BatchResultView;

    open spec fn view(&self) -> BatchResultView {
        BatchResultView { outcomes: views(self.outcomes@), status: self.status }
    }
}

impl BatchResult {
    /// The result made of `outcomes`, in their order, with the status that
    /// they amount to.
    pub fn collect(outcomes: Vec<ItemOutcome>) -> (r: BatchResult)
        ensures
            r@.outcomes == views(outcomes@),
            r@.status == status_of(views(outcomes@)),
    {
        let status = overall_status(&outcomes);
        BatchResult { outcomes, status }
    }
}

} // verus!
