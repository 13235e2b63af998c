//! The life of one item of a batch.
//!
//! An item waits, runs and ends. While it runs it makes one primitive call at
//! a time. A move is the one item with two calls: it copies, and only after
//! the copy has succeeded it deletes the source. Each answer of the store
//! decides, together with the retry policy, what the item does next.

use crate::outcome::{FailureReason, FailureReasonView, ItemResult, ItemResultView};
use crate::remote::{Call, CallView, RemoteErrorView, Reply, ReplyView};
use crate::retry::RetryPolicy;
use vstd::prelude::*;

verus! {

/// The remote work of one item.
#[derive(Debug, PartialEq, Eq)]
pub enum Plan {
    /// Read the object.
    Fetch { bucket: String, key: String },
    /// Write the object from the body that the caller holds for it.
    Store { bucket: String, key: String },
    /// Write an empty object that marks a folder.
    Mark { bucket: String, key: String },
    /// Delete the object.
    Remove { bucket: String, key: String },
    /// Copy the object `from` to `to`, then delete `from`.
    Relocate { bucket: String, from: String, to: String },
}

/// What a [`Plan`] stands for.
pub enum PlanView {
    Fetch { bucket: Seq<char>, key: Seq<char> },
    Store { bucket: Seq<char>, key: Seq<char> },
    Mark { bucket: Seq<char>, key: Seq<char> },
    Remove { bucket: Seq<char>, key: Seq<char> },
    Relocate { bucket: Seq<char>, from: Seq<char>, to: Seq<char> },
}

impl View for Plan {
    type V = PlanView;

    open spec fn view(&self) -> PlanView {
        match self {
            Plan::Fetch { bucket, key } => PlanView::Fetch { bucket: bucket@, key: key@ },
            Plan::Store { bucket, key } => PlanView::Store { bucket: bucket@, key: key@ },
            Plan::Mark { bucket, key } => PlanView::Mark { bucket: bucket@, key: key@ },
            Plan::Remove { bucket, key } => PlanView::Remove { bucket: bucket@, key: key@ },
            Plan::Relocate { bucket, from, to } => PlanView::Relocate {
                bucket: bucket@,
                from: from@,
                to: to@,
            },
        }
    }
}

/// Which call of its plan a running item is making.
#[derive(Clone, Copy, Debug, PartialEq, Eq, Structural)]
pub enum Stage {
    /// The one call of a plan that has one.
    Calling,
    /// The copy of a move.
    Copying,
    /// The delete of a move, after its copy has succeeded.
    Deleting,
}

impl PlanView {
    /// The stage in which an item with this plan starts.
    pub open spec fn first_stage(self) -> Stage {
        if self is Relocate {
            Stage::Copying
        } else {
            Stage::Calling
        }
    }

    /// The stage belongs to this plan.
    pub open spec fn has_stage(self, stage: Stage) -> bool {
        if self is Relocate {
            stage == Stage::Copying || stage == Stage::Deleting
        } else {
            stage == Stage::Calling
        }
    }

    /// The call that an item with this plan makes in the given stage.
    pub open spec fn call_at(self, stage: Stage) -> CallView {
        match self {
            PlanView::Fetch { bucket, key } => CallView::Get { bucket, key },
            PlanView::Store { bucket, key } => CallView::Put { bucket, key },
            PlanView::Mark { bucket, key } => CallView::PutEmpty { bucket, key },
            PlanView::Remove { bucket, key } => CallView::Delete { bucket, key },
            PlanView::Relocate { bucket, from, to } => if stage == Stage::Deleting {
                CallView::Delete { bucket, key: from }
            } else {
                CallView::Copy { bucket, from, to }
            },
        }
    }
}

impl Plan {
    /// The stage in which an item with this plan starts.
    pub fn first_stage(&self) -> (r: Stage)
        ensures
            r == self@.first_stage(),
            self@.has_stage(r),
    {
        match self {
            Plan::Relocate { .. } => Stage::Copying,
            _ => Stage::Calling,
        }
    }

    /// The call that an item with this plan makes in the given stage.
    pub fn call_at(&self, stage: Stage) -> (r: Call)
        ensures
            r@ == self@.call_at(stage),
    {
        match self {
            Plan::Fetch { bucket, key } => Call::Get { bucket: bucket.clone(), key: key.clone() },
            Plan::Store { bucket, key } => Call::Put { bucket: bucket.clone(), key: key.clone() },
            Plan::Mark { bucket, key } => Call::PutEmpty {
                bucket: bucket.clone(),
                key: key.clone(),
            },
            Plan::Remove { bucket, key } => Call::Delete {
                bucket: bucket.clone(),
                key: key.clone(),
            },
            Plan::Relocate { bucket, from, to } => match stage {
                Stage::Deleting => Call::Delete { bucket: bucket.clone(), key: from.clone() },
                _ => Call::Copy { bucket: bucket.clone(), from: from.clone(), to: to.clone() },
            },
        }
    }
}

impl Clone for Plan {
    fn clone(&self) -> (r: Plan)
        ensures
            r@ == self@,
    {
        match self {
            Plan::Fetch { bucket, key } => Plan::Fetch { bucket: bucket.clone(), key: key.clone() },
            Plan::Store { bucket, key } => Plan::Store { bucket: bucket.clone(), key: key.clone() },
            Plan::Mark { bucket, key } => Plan::Mark { bucket: bucket.clone(), key: key.clone() },
            Plan::Remove { bucket, key } => Plan::Remove {
                bucket: bucket.clone(),
                key: key.clone(),
            },
            Plan::Relocate { bucket, from, to } => Plan::Relocate {
                bucket: bucket.clone(),
                from: from.clone(),
                to: to.clone(),
            },
        }
    }
}

/// Where an item stands.
#[derive(Debug, PartialEq, Eq)]
pub enum ItemState {
    /// Not started.
    Pending,
    /// Started and not ended: one call is on its way, or waits to be tried
    /// again. `attempt` counts the further tries that the call has had.
    Running { stage: Stage, attempt: u32 },
    /// Ended, with this result.
    Done(ItemResult),
}

/// What an [`ItemState`] stands for.
pub enum ItemStateView {
    Pending,
    Running { stage: Stage, attempt: u32 },
    Done(ItemResultView),
}

impl View for ItemState {
    type V = ItemStateView;

    open spec fn view(&self) -> ItemStateView {
        match self {
            ItemState::Pending => ItemStateView::Pending,
            ItemState::Running { stage, attempt } => ItemStateView::Running {
                stage: *stage,
                attempt: *attempt,
            },
            ItemState::Done(result) => ItemStateView::Done(result@),
        }
    }
}

/// What follows an answer of the store.
#[derive(Debug, PartialEq, Eq)]
pub enum Effect {
    /// The item goes on: make this call now.
    Issue(Call),
    /// The item goes on: make this call again after so many milliseconds.
    RetryAfter(Call, u64),
    /// The item has ended with this result.
    Record(ItemResult),
}

/// What an [`Effect`] stands for.
pub enum EffectView {
    Issue(CallView),
    RetryAfter(CallView, u64),
    Record(ItemResultView),
}

impl View for Effect {
    type V = EffectView;

    open spec fn view(&self) -> EffectView {
        match self {
            Effect::Issue(call) => EffectView::Issue(call@),
            Effect::RetryAfter(call, wait) => EffectView::RetryAfter(call@, *wait),
            Effect::Record(result) => EffectView::Record(result@),
        }
    }
}

/// The reason recorded for a call that failed for good in the given stage: a
/// failed delete of a move is told apart, since its copy stays behind.
pub open spec fn failure_at(stage: Stage, error: RemoteErrorView)
    -> FailureReasonView {
    if stage == Stage::Deleting {
        FailureReasonView::SourceNotRemoved(error)
    } else {
        FailureReasonView::Remote(error)
    }
}

/// The state of a running item after the store has answered its call, and
/// what is to be done then.
///
/// - The store did it: a move that was copying goes on to delete its source;
///   every other item has succeeded.
/// - The object does not exist: for a delete that is as good as done; any
///   other call has failed.
/// - The call failed: it is tried again where the policy permits; else the
///   item has failed.
pub open spec fn after_reply(
    plan: PlanView,
    stage: Stage,
    attempt: u32,
    reply: ReplyView,
    policy: RetryPolicy,
) -> (ItemStateView, EffectView) {
    match reply {
        ReplyView::Done => if stage == Stage::Copying {
            (
                ItemStateView::Running { stage: Stage::Deleting, attempt: 0 },
                EffectView::Issue(plan.call_at(Stage::Deleting)),
            )
        } else {
            (
                ItemStateView::Done(ItemResultView::Success),
                EffectView::Record(ItemResultView::Success),
            )
        },
        ReplyView::NotFound => if plan.call_at(stage) is Delete {
            (
                ItemStateView::Done(ItemResultView::Success),
                EffectView::Record(ItemResultView::Success),
            )
        } else {
            (
                ItemStateView::Done(ItemResultView::Failed(FailureReasonView::NotFound)),
                EffectView::Record(ItemResultView::Failed(FailureReasonView::NotFound)),
            )
        },
        ReplyView::Failed(error) => if policy.permits(attempt, error.class) {
            (
                ItemStateView::Running { stage, attempt: (attempt + 1) as u32 },
                EffectView::RetryAfter(plan.call_at(stage), policy.delay(attempt as nat) as u64),
            )
        } else {
            (
                ItemStateView::Done(ItemResultView::Failed(failure_at(stage, error))),
                EffectView::Record(ItemResultView::Failed(failure_at(stage, error))),
            )
        },
    }
}

/// Starts an item: its first state and its first call.
pub fn start(plan: &Plan) -> (r: (ItemState, Call))
    ensures
        r.0@ == (ItemStateView::Running { stage: plan@.first_stage(), attempt: 0 }),
        r.1@ == plan@.call_at(plan@.first_stage()),
{
    let stage = plan.first_stage();
    (ItemState::Running { stage, attempt: 0 }, plan.call_at(stage))
}

/// Takes the store's answer to the call that a running item made in `stage`,
/// after `attempt` further tries, and decides how the item goes on.
pub fn advance(plan: &Plan, stage: Stage, attempt: u32, reply: Reply, policy: &RetryPolicy) -> (r: (
    ItemState,
    Effect,
))
    ensures
        (r.0@, r.1@) == after_reply(plan@, stage, attempt, reply@, *policy),
{
    match reply {
        Reply::Done => match stage {
            Stage::Copying => (
                ItemState::Running { stage: Stage::Deleting, attempt: 0 },
                Effect::Issue(plan.call_at(Stage::Deleting)),
            ),
            _ => (ItemState::Done(ItemResult::Success), Effect::Record(ItemResult::Success)),
        },
        Reply::NotFound => {
            let call = plan.call_at(stage);
            match call {
                Call::Delete { .. } => (
                    ItemState::Done(ItemResult::Success),
                    Effect::Record(ItemResult::Success),
                ),
                _ => (
                    ItemState::Done(ItemResult::Failed(FailureReason::NotFound)),
                    Effect::Record(ItemResult::Failed(FailureReason::NotFound)),
                ),
            }
        },
        Reply::Failed(error) => match policy.decide(attempt, error.class) {
            Some(wait) => (
                ItemState::Running { stage, attempt: attempt + 1 },
                Effect::RetryAfter(plan.call_at(stage), wait),
            ),
            None => {
                let kept = error.clone();
                match stage {
                    Stage::Deleting => (
                        ItemState::Done(ItemResult::Failed(FailureReason::SourceNotRemoved(error))),
                        Effect::Record(ItemResult::Failed(FailureReason::SourceNotRemoved(kept))),
                    ),
                    _ => (
                        ItemState::Done(ItemResult::Failed(FailureReason::Remote(error))),
                        Effect::Record(ItemResult::Failed(FailureReason::Remote(kept))),
                    ),
                }
            },
        },
    }
}

} // verus!
