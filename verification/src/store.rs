//! The store as the engine takes it to be, and what a move and a delete
//! leave behind in such a store.
//!
//! The engine sees a store only through the answers to its calls. The laws of
//! this file say what those answers mean for the objects: they hold of a
//! store that does what it answers, and that nobody else changes while an
//! item runs.

use crate::item::{after_reply, ItemStateView, PlanView, Stage};
use crate::outcome::{FailureReasonView, ItemResultView};
use crate::remote::{CallView, ReplyView};
use crate::retry::RetryPolicy;
use vstd::prelude::*;

verus! {

/// One answer of the store, with the objects that the store holds after it.
/// The objects are named by bucket and key.
pub struct Exchange {
    pub reply: ReplyView,
    pub after: Map<(Seq<char>, Seq<char>), Seq<u8>>,
}

/// The store does what it answers.
///
/// A call that failed, or that found nothing, has changed nothing; and a
/// read, a copy or a delete finds nothing only where its object is missing.
/// A call that was done has had its effect and no other: a read needs its
/// object, a write puts a body under its key, a copy puts the body of its
/// source under its destination, a delete takes its key away.
pub open spec fn obeys(
    store: Map<(Seq<char>, Seq<char>), Seq<u8>>,
    call: CallView,
    reply: ReplyView,
    after: Map<(Seq<char>, Seq<char>), Seq<u8>>,
) -> bool {
    match reply {
        ReplyView::Failed(_) => after == store,
        ReplyView::NotFound => after == store && match call {
            CallView::Get { bucket, key } => !store.dom().contains((bucket, key)),
            CallView::Delete { bucket, key } => !store.dom().contains((bucket, key)),
            CallView::Copy { bucket, from, to } => !store.dom().contains((bucket, from)),
            _ => true,
        },
        ReplyView::Done => match call {
            CallView::Get { bucket, key } => store.dom().contains((bucket, key)) && after == store,
            CallView::Put { bucket, key } => after.dom().contains((bucket, key)) && after
                == store.insert((bucket, key), after[(bucket, key)]),
            CallView::PutEmpty { bucket, key } => after == store.insert(
                (bucket, key),
                Seq::empty(),
            ),
            CallView::Copy { bucket, from, to } => store.dom().contains((bucket, from)) && after
                == store.insert((bucket, to), store[(bucket, from)]),
            CallView::Delete { bucket, key } => after == store.remove((bucket, key)),
        },
    }
}

/// Where an item and the store stand after the exchanges of `trace`, the
/// first first, when the item started in `state` on the store `store`.
/// `None` where the trace is none of this item on such a store: where an
/// answer comes for an item that does not run, or where the store does not
/// do what it answers.
pub open spec fn item_run(
    plan: PlanView,
    policy: RetryPolicy,
    state: ItemStateView,
    store: Map<(Seq<char>, Seq<char>), Seq<u8>>,
    trace: Seq<Exchange>,
) -> Option<(ItemStateView, Map<(Seq<char>, Seq<char>), Seq<u8>>)>
    decreases trace.len(),
{
    if trace.len() == 0 {
        Some((state, store))
    } else {
        match item_run(plan, policy, state, store, trace.drop_last()) {
            Some((ItemStateView::Running { stage, attempt }, before)) => {
                let last = trace.last();
                if obeys(before, plan.call_at(stage), last.reply, last.after) {
                    Some((after_reply(plan, stage, attempt, last.reply, policy).0, last.after))
                } else {
                    None
                }
            },
            _ => None,
        }
    }
}

/// Within a move the delete never comes before the copy has succeeded: an
/// item deletes the source of a move only in the stage after the copy, and it
/// comes to that stage only by the store's answer that the copy was done.
pub proof fn delete_follows_copy(
    plan: PlanView,
    stage: Stage,
    attempt: u32,
    reply: ReplyView,
    policy: RetryPolicy,
)
    requires
        plan is Relocate,
        plan.has_stage(stage),
    ensures
        plan.call_at(stage) is Delete <==> stage == Stage::Deleting,
        plan.call_at(plan.first_stage()) is Copy,
        stage == Stage::Copying ==> (after_reply(plan, stage, attempt, reply, policy).0
            == (ItemStateView::Running { stage: Stage::Deleting, attempt: 0 }) <==> reply is Done),
        stage == Stage::Copying && !(reply is Done) ==> !(after_reply(
            plan,
            stage,
            attempt,
            reply,
            policy,
        ).0 matches ItemStateView::Running { stage: Stage::Deleting, .. }),
{
}

/// How far a move has come, read off the store: while it copies nothing has
/// changed; from then on the destination holds what the source held; and
/// only after it has succeeded the source is gone.
pub open spec fn move_stands(
    bucket: Seq<char>,
    from: Seq<char>,
    to: Seq<char>,
    store: Map<(Seq<char>, Seq<char>), Seq<u8>>,
    state: ItemStateView,
    now: Map<(Seq<char>, Seq<char>), Seq<u8>>,
) -> bool {
    let copied = store.insert((bucket, to), store[(bucket, from)]);
    match state {
        ItemStateView::Pending => false,
        ItemStateView::Running { stage, attempt } => match stage {
            Stage::Calling => false,
            Stage::Copying => now == store,
            Stage::Deleting => store.dom().contains((bucket, from)) && now == copied,
        },
        ItemStateView::Done(result) => match result {
            ItemResultView::Cancelled => false,
            ItemResultView::Success => store.dom().contains((bucket, from)) && now
                == copied.remove((bucket, from)),
            ItemResultView::Failed(reason) => match reason {
                FailureReasonView::SourceNotRemoved(_) => store.dom().contains((bucket, from))
                    && now == copied,
                _ => now == store,
            },
        },
    }
}

/// A move keeps its place in the store through every exchange.
pub proof fn lemma_move_run(
    bucket: Seq<char>,
    from: Seq<char>,
    to: Seq<char>,
    policy: RetryPolicy,
    store: Map<(Seq<char>, Seq<char>), Seq<u8>>,
    trace: Seq<Exchange>,
)
    requires
        from != to,
    ensures
        ({
            let plan = PlanView::Relocate { bucket, from, to };
            let start = ItemStateView::Running { stage: Stage::Copying, attempt: 0 };
            match item_run(plan, policy, start, store, trace) {
                Some((state, now)) => move_stands(bucket, from, to, store, state, now),
                None => true,
            }
        }),
    decreases trace.len(),
{
    if trace.len() > 0 {
        lemma_move_run(bucket, from, to, policy, store, trace.drop_last());
    }
}

/// What a move leaves behind.
///
/// Take a move of `from` to another key `to`, started on the store `store`
/// and ended with `result` on the store `after`. If it succeeded, the
/// destination holds what the source held and the source is gone. If its
/// copy failed, the store is as it was, the source with it. If its copy
/// succeeded and its delete failed, which the reason tells, both keys hold
/// the object.
pub proof fn move_semantics(
    bucket: Seq<char>,
    from: Seq<char>,
    to: Seq<char>,
    policy: RetryPolicy,
    store: Map<(Seq<char>, Seq<char>), Seq<u8>>,
    trace: Seq<Exchange>,
    result: ItemResultView,
    after: Map<(Seq<char>, Seq<char>), Seq<u8>>,
)
    requires
        from != to,
        item_run(
            PlanView::Relocate { bucket, from, to },
            policy,
            ItemStateView::Running { stage: Stage::Copying, attempt: 0 },
            store,
            trace,
        ) == Some((ItemStateView::Done(result), after)),
    ensures
        result is Success ==> {
            &&& store.dom().contains((bucket, from))
            &&& after.dom().contains((bucket, to))
            &&& after[(bucket, to)] == store[(bucket, from)]
            &&& !after.dom().contains((bucket, from))
        },
        result matches ItemResultView::Failed(reason) && !(reason is SourceNotRemoved) ==> after
            == store,
        result matches ItemResultView::Failed(FailureReasonView::SourceNotRemoved(_)) ==> {
            &&& after.dom().contains((bucket, from))
            &&& after.dom().contains((bucket, to))
            &&& after[(bucket, to)] == store[(bucket, from)]
            &&& after[(bucket, from)] == store[(bucket, from)]
        },
        !(result is Cancelled),
{
    lemma_move_run(bucket, from, to, policy, store, trace);
}

/// Deleting a key that the store does not hold succeeds, and the store is as
/// it was: whether the store answers that it has deleted the key or that it
/// found none.
pub proof fn deleting_an_absent_key_succeeds(
    plan: PlanView,
    stage: Stage,
    attempt: u32,
    policy: RetryPolicy,
    store: Map<(Seq<char>, Seq<char>), Seq<u8>>,
    exchange: Exchange,
)
    requires
        plan.has_stage(stage),
        plan.call_at(stage) is Delete,
        !store.dom().contains((plan.call_at(stage)->Delete_bucket, plan.call_at(stage)->Delete_key)),
        obeys(store, plan.call_at(stage), exchange.reply, exchange.after),
        !(exchange.reply is Failed),
    ensures
        after_reply(plan, stage, attempt, exchange.reply, policy).0 == ItemStateView::Done(
            ItemResultView::Success,
        ),
        exchange.after == store,
{
    let key = (plan.call_at(stage)->Delete_bucket, plan.call_at(stage)->Delete_key);
    assert(store.remove(key) =~= store);
}

/// A delete that finds no object counts as done, whatever the item: for a
/// delete it is the whole success, for a move the success of its last call.
pub proof fn delete_is_idempotent(plan: PlanView, stage: Stage, attempt: u32, policy: RetryPolicy)
    requires
        plan.call_at(stage) is Delete,
    ensures
        after_reply(plan, stage, attempt, ReplyView::NotFound, policy).0 == ItemStateView::Done(
            ItemResultView::Success,
        ),
{
}

} // verus!
