//! Every step of a batch keeps its invariant.

use crate::item::{after_reply, ItemStateView};
use crate::keys::{ObjectKeyView, TargetView};
use crate::model::{
    all_done, answered_items, blank, direct, ended, expand, is_stop, item_for, running, stop,
    submitted, BatchView, ItemView, Phase,
};
use crate::remote::{RemoteErrorView, ReplyView};
use crate::request::{needs_listing, BatchRequestView, DestinationView, OperationKind};
use crate::retry::RetryPolicy;
use vstd::prelude::*;

verus! {

/// Two lists whose items run at the same places have as many running items.
pub proof fn lemma_running_same(a: Seq<ItemView>, b: Seq<ItemView>)
    requires
        a.len() == b.len(),
        forall|i: int| 0 <= i < a.len() ==> (#[trigger] a[i]).is_running() == b[i].is_running(),
    ensures
        running(a) == running(b),
    decreases a.len(),
{
    if a.len() > 0 {
        lemma_running_same(a.drop_last(), b.drop_last());
    }
}

/// Replacing one item changes the number of running items by what the old
/// and the new item count for.
pub proof fn lemma_running_update(items: Seq<ItemView>, at: int, item: ItemView)
    requires
        0 <= at < items.len(),
    ensures
        running(items.update(at, item)) + (if items[at].is_running() {
            1nat
        } else {
            0nat
        }) == running(items) + (if item.is_running() {
            1nat
        } else {
            0nat
        }),
    decreases items.len(),
{
    let after = items.update(at, item);
    if at == items.len() - 1 {
        assert(after.drop_last() =~= items.drop_last());
    } else {
        assert(after.drop_last() =~= items.drop_last().update(at, item));
        lemma_running_update(items.drop_last(), at, item);
    }
}

/// No more items run than there are, and none runs exactly where the count
/// is zero.
pub proof fn lemma_running_bounds(items: Seq<ItemView>)
    ensures
        running(items) <= items.len(),
        running(items) == 0 <==> forall|i: int|
            0 <= i < items.len() ==> !(#[trigger] items[i]).is_running(),
    decreases items.len(),
{
    if items.len() > 0 {
        let front = items.drop_last();
        lemma_running_bounds(front);
        if running(items) == 0 {
            assert forall|i: int| 0 <= i < items.len() implies !(#[trigger] items[i]).is_running() by {
                if i < front.len() {
                    assert(front[i] == items[i]);
                }
            }
        }
    }
}

/// There is one stop only.
pub proof fn lemma_stop(kind: OperationKind, targets: Seq<TargetView>, from: int, to: int)
    requires
        is_stop(kind, targets, from, to),
    ensures
        stop(kind, targets, from) == to,
{
    assert(is_stop(kind, targets, from, stop(kind, targets, from)));
}

/// From every index on there is a stop.
pub proof fn lemma_stop_exists(kind: OperationKind, targets: Seq<TargetView>, from: int)
    requires
        0 <= from <= targets.len(),
    ensures
        is_stop(kind, targets, from, stop(kind, targets, from)),
    decreases targets.len() - from,
{
    if from == targets.len() || needs_listing(kind, targets[from]) {
        assert(is_stop(kind, targets, from, from));
    } else {
        lemma_stop_exists(kind, targets, from + 1);
        let to = stop(kind, targets, from + 1);
        assert(is_stop(kind, targets, from, to));
    }
}

/// Targets that need no listing expand to one item each.
pub proof fn lemma_expand_direct(
    kind: OperationKind,
    destination: Option<DestinationView>,
    targets: Seq<TargetView>,
    answers: Seq<Result<Seq<ObjectKeyView>, RemoteErrorView>>,
    from: int,
    to: int,
)
    requires
        0 <= from <= to <= targets.len(),
        forall|j: int| from <= j < to ==> !needs_listing(kind, #[trigger] targets[j]),
    ensures
        expand(kind, destination, targets.take(to), answers) == expand(
            kind,
            destination,
            targets.take(from),
            answers,
        ) + direct(kind, destination, targets.subrange(from, to)),
    decreases to - from,
{
    let head = expand(kind, destination, targets.take(from), answers);
    if from < to {
        lemma_expand_direct(kind, destination, targets, answers, from, to - 1);
        assert(targets.take(to).drop_last() =~= targets.take(to - 1));
        assert(head + direct(kind, destination, targets.subrange(from, to)) =~= (head + direct(
            kind,
            destination,
            targets.subrange(from, to - 1),
        )).push(item_for(kind, destination, targets[to - 1])));
    }
}

/// A folder expands to the items of its answer.
pub proof fn lemma_expand_answer(
    kind: OperationKind,
    destination: Option<DestinationView>,
    targets: Seq<TargetView>,
    answers: Seq<Result<Seq<ObjectKeyView>, RemoteErrorView>>,
    at: int,
    answer: Result<Seq<ObjectKeyView>, RemoteErrorView>,
)
    requires
        0 <= at < targets.len(),
        needs_listing(kind, targets[at]),
    ensures
        expand(kind, destination, targets.take(at + 1), answers.push(answer)) == expand(
            kind,
            destination,
            targets.take(at),
            answers,
        ) + answered_items(kind, destination, targets[at], answer),
{
    assert(targets.take(at + 1).drop_last() =~= targets.take(at));
    assert(answers.push(answer).drop_last() =~= answers);
}

/// A batch that has started no item, as it stands before its direct targets
/// become items.
pub open spec fn unsettled(b: BatchView) -> bool {
    &&& b.limit >= 1
    &&& b.cursor <= b.targets.len()
    &&& b.next == 0
    &&& !b.cancelled
    &&& blank(b.items) == expand(b.kind, b.destination, b.targets.take(b.cursor as int), b.answers)
    &&& forall|i: int| 0 <= i < b.items.len() ==> (#[trigger] b.items[i]).state is Pending
}

/// Settling establishes the invariant.
pub proof fn lemma_settled(b: BatchView)
    requires
        unsettled(b),
    ensures
        b.settled().inv(),
        is_stop(b.kind, b.targets, b.cursor as int, b.settled().cursor as int),
{
    let to = stop(b.kind, b.targets, b.cursor as int);
    lemma_stop_exists(b.kind, b.targets, b.cursor as int);
    let added = direct(b.kind, b.destination, b.targets.subrange(b.cursor as int, to));
    let after = b.settled();
    lemma_expand_direct(b.kind, b.destination, b.targets, b.answers, b.cursor as int, to);
    assert(blank(after.items) =~= blank(b.items) + added);
    lemma_running_bounds(after.items);
}

/// Of the items that do not wait, each runs or has ended.
pub proof fn lemma_tally(items: Seq<ItemView>, next: nat)
    requires
        next <= items.len(),
        forall|i: int| 0 <= i < items.len() ==> ((#[trigger] items[i]).state is Pending <==> i >= next),
    ensures
        ended(items) + running(items) == next,
    decreases items.len(),
{
    if items.len() > 0 {
        let front = items.drop_last();
        if next == items.len() {
            lemma_tally(front, (next - 1) as nat);
        } else {
            lemma_tally(front, next);
        }
    }
}

/// A batch is completed exactly when nothing waits and nothing runs.
pub proof fn lemma_closing(b: BatchView)
    requires
        b.next <= b.items.len(),
        forall|i: int|
            0 <= i < b.items.len() ==> ((#[trigger] b.items[i]).state is Pending <==> i >= b.next),
    ensures
        all_done(b.items) <==> b.next == b.items.len() && running(b.items) == 0,
{
    lemma_running_bounds(b.items);
}

/// A submitted batch satisfies the invariant.
pub proof fn lemma_submitted(request: BatchRequestView, limit: nat, retry: RetryPolicy)
    requires
        limit >= 1,
    ensures
        submitted(request, limit, retry).inv(),
{
    let b = submitted(request, limit, retry);
    assert(blank(b.items) =~= Seq::empty());
}

/// Beginning keeps the invariant.
pub proof fn lemma_begun(b: BatchView)
    requires
        b.inv(),
    ensures
        b.begun().inv(),
{
    if b.phase == Phase::Submitted {
        lemma_settled(b);
    }
}

/// The answer to a listing keeps the invariant.
pub proof fn lemma_answered(b: BatchView, answer: Result<Seq<ObjectKeyView>, RemoteErrorView>)
    requires
        b.inv(),
    ensures
        b.answered(answer).inv(),
{
    if b.phase == Phase::Resolving {
        let added = answered_items(b.kind, b.destination, b.targets[b.cursor as int], answer);
        let mid = BatchView {
            answers: b.answers.push(answer),
            items: b.items + added,
            cursor: b.cursor + 1,
            ..b
        };
        lemma_expand_answer(b.kind, b.destination, b.targets, b.answers, b.cursor as int, answer);
        assert(blank(mid.items) =~= blank(b.items) + added);
        lemma_settled(mid);
    }
}

/// An item in another state is the same item before it was started.
pub proof fn lemma_blank_update(items: Seq<ItemView>, at: int, state: ItemStateView)
    requires
        0 <= at < items.len(),
    ensures
        blank(items.update(at, items[at].with_state(state))) == blank(items),
{
}

/// Deciding keeps the invariant.
pub proof fn lemma_decided(b: BatchView)
    requires
        b.inv(),
    ensures
        b.decided().0.inv(),
{
    let after = b.decided().0;
    if b.phase == Phase::Dispatching && b.next < b.items.len() {
        let at = b.next as int;
        let item = b.items[at];
        if after != b {
            let state = after.items[at].state;
            lemma_blank_update(b.items, at, state);
            lemma_running_update(b.items, at, item.with_state(state));
        }
    }
}

/// Polling keeps the invariant.
pub proof fn lemma_polled(b: BatchView)
    requires
        b.inv(),
    ensures
        b.polled().0.inv(),
{
    lemma_begun(b);
    lemma_decided(b.begun());
}

/// The answer to a call keeps the invariant.
pub proof fn lemma_replied(b: BatchView, item: int, reply: ReplyView)
    requires
        b.inv(),
    ensures
        b.replied(item, reply).0.inv(),
{
    if b.awaits(item) {
        let after = b.replied(item, reply).0;
        let it = b.items[item];
        let state = after.items[item].state;
        assert(state == after_reply(
            it.work->Call_0,
            it.state->Running_stage,
            it.state->Running_attempt,
            reply,
            b.retry,
        ).0);
        lemma_blank_update(b.items, item, state);
        lemma_running_update(b.items, item, it.with_state(state));
    }
}

/// Cancelling keeps the invariant.
pub proof fn lemma_stopped(b: BatchView)
    requires
        b.inv(),
    ensures
        b.stopped().inv(),
{
    if b.phase != Phase::Completed {
        let after = b.stopped();
        assert(blank(after.items) =~= blank(b.items));
        lemma_running_same(after.items, b.items);
        lemma_running_bounds(b.items);
        lemma_running_bounds(after.items);
    }
}

} // verus!
