//! What holds of every batch, whatever the store answers and whenever the
//! caller cancels.

use crate::item::ItemStateView;
use crate::keys::{ObjectKeyView, TargetView};
use crate::model::{
    all_done, blank, expand, rank, running, ActionView, BatchView, EventView, Phase, StepView,
};
use crate::outcome::{ItemOutcomeView, ItemResultView};
use crate::remote::RemoteErrorView;
use crate::request::{needs_listing, DestinationView, OperationKind};
use crate::steps::{
    lemma_answered, lemma_begun, lemma_polled, lemma_replied, lemma_running_bounds, lemma_stopped,
};
use vstd::prelude::*;

verus! {

/// The number of objects that `targets` resolve to: one for each target that
/// needs no listing, and for each folder the objects that its listing named.
pub open spec fn resolved_objects(
    kind: OperationKind,
    targets: Seq<TargetView>,
    answers: Seq<Result<Seq<ObjectKeyView>, RemoteErrorView>>,
) -> nat
    decreases targets.len(),
{
    if targets.len() == 0 {
        0
    } else if !needs_listing(kind, targets.last()) {
        resolved_objects(kind, targets.drop_last(), answers) + 1
    } else if answers.len() == 0 {
        resolved_objects(kind, targets.drop_last(), answers)
    } else {
        resolved_objects(kind, targets.drop_last(), answers.drop_last()) + match answers.last() {
            Ok(objects) => objects.len(),
            Err(_) => 0,
        }
    }
}

/// The number of folders among `targets` whose listing failed.
pub open spec fn unlisted_folders(
    kind: OperationKind,
    targets: Seq<TargetView>,
    answers: Seq<Result<Seq<ObjectKeyView>, RemoteErrorView>>,
) -> nat
    decreases targets.len(),
{
    if targets.len() == 0 {
        0
    } else if !needs_listing(kind, targets.last()) {
        unlisted_folders(kind, targets.drop_last(), answers)
    } else if answers.len() == 0 {
        unlisted_folders(kind, targets.drop_last(), answers)
    } else {
        unlisted_folders(kind, targets.drop_last(), answers.drop_last()) + match answers.last() {
            Ok(_) => 0nat,
            Err(_) => 1nat,
        }
    }
}

/// Targets expand to one item for each object that they resolve to and one
/// for each folder that could not be listed.
pub proof fn lemma_expand_len(
    kind: OperationKind,
    destination: Option<DestinationView>,
    targets: Seq<TargetView>,
    answers: Seq<Result<Seq<ObjectKeyView>, RemoteErrorView>>,
)
    ensures
        expand(kind, destination, targets, answers).len() == resolved_objects(
            kind,
            targets,
            answers,
        ) + unlisted_folders(kind, targets, answers),
    decreases targets.len(),
{
    if targets.len() > 0 {
        if !needs_listing(kind, targets.last()) || answers.len() == 0 {
            lemma_expand_len(kind, destination, targets.drop_last(), answers);
        } else {
            lemma_expand_len(kind, destination, targets.drop_last(), answers.drop_last());
        }
    }
}

/// The result of a batch holds one outcome for each object that its targets
/// resolved to, one for each folder that could not be listed, and one for
/// each target that a cancellation kept from being expanded.
pub proof fn outcome_count(b: BatchView)
    requires
        b.inv(),
    ensures
        b.outcomes().len() == resolved_objects(b.kind, b.targets.take(b.cursor as int), b.answers)
            + unlisted_folders(b.kind, b.targets.take(b.cursor as int), b.answers) + (
        b.targets.len() - b.cursor),
{
    lemma_expand_len(b.kind, b.destination, b.targets.take(b.cursor as int), b.answers);
}

/// A batch that was completed without a cancellation, and whose folders
/// could all be listed, has exactly one outcome for each object that its
/// targets resolved to.
pub proof fn one_outcome_for_each_resolved_object(b: BatchView)
    requires
        b.inv(),
        b.phase == Phase::Completed,
        !b.cancelled,
        unlisted_folders(b.kind, b.targets, b.answers) == 0,
    ensures
        b.outcomes().len() == resolved_objects(b.kind, b.targets, b.answers),
{
    outcome_count(b);
    assert(b.targets.take(b.cursor as int) =~= b.targets);
}

/// No failure ends a batch early: in a batch that was completed without a
/// cancellation every item was attempted, so that each outcome is a success
/// or a failure and none is a cancellation.
pub proof fn without_cancellation_every_item_is_attempted(b: BatchView)
    requires
        b.inv(),
        b.phase == Phase::Completed,
        !b.cancelled,
    ensures
        b.outcomes().len() == b.items.len(),
        forall|i: int|
            0 <= i < b.outcomes().len() ==> !((#[trigger] b.outcomes()[i]).result is Cancelled),
{
}

/// Every event keeps the invariant of a batch.
pub proof fn lemma_after(b: BatchView, event: EventView)
    requires
        b.inv(),
    ensures
        b.after(event).inv(),
{
    match event {
        EventView::Poll => lemma_polled(b),
        EventView::Answer(answer) => lemma_answered(b, answer),
        EventView::Reply { item, reply } => lemma_replied(b, item, reply),
        EventView::Cancel => lemma_stopped(b),
    }
}

/// Every run keeps the invariant of a batch.
pub proof fn lemma_run(b: BatchView, events: Seq<EventView>)
    requires
        b.inv(),
    ensures
        b.run(events).inv(),
    decreases events.len(),
{
    if events.len() > 0 {
        lemma_run(b, events.drop_last());
        lemma_after(b.run(events.drop_last()), events.last());
    }
}

/// No event takes a batch back to a phase that it has left.
pub proof fn lemma_after_advances(b: BatchView, event: EventView)
    requires
        b.inv(),
    ensures
        rank(b.phase) <= rank(b.after(event).phase),
{
    lemma_after(b, event);
    match event {
        EventView::Poll => {
            lemma_begun(b);
        },
        EventView::Answer(_) => {},
        EventView::Reply { item, reply } => {},
        EventView::Cancel => {},
    }
}

/// A batch passes through its phases in their order, whatever happens: it
/// never comes back to a phase that it has left.
pub proof fn phases_only_advance(b: BatchView, events: Seq<EventView>)
    requires
        b.inv(),
    ensures
        rank(b.phase) <= rank(b.run(events).phase),
    decreases events.len(),
{
    if events.len() > 0 {
        phases_only_advance(b, events.drop_last());
        lemma_run(b, events.drop_last());
        lemma_after_advances(b.run(events.drop_last()), events.last());
    }
}

/// However a batch runs, no more of its items run at one time than its
/// configuration allows.
pub proof fn never_more_running_than_allowed(b: BatchView, events: Seq<EventView>)
    requires
        b.inv(),
    ensures
        running(b.run(events).items) <= b.run(events).limit,
        b.run(events).limit == b.limit,
    decreases events.len(),
{
    lemma_run(b, events);
    if events.len() > 0 {
        never_more_running_than_allowed(b, events.drop_last());
        lemma_run(b, events.drop_last());
        lemma_begun(b.run(events.drop_last()));
    }
}

/// A batch is completed only when every item has its outcome, and once its
/// folders are resolved it is completed as soon as every item has one.
pub proof fn completed_when_every_item_has_ended(b: BatchView)
    requires
        b.inv(),
    ensures
        b.phase == Phase::Completed ==> all_done(b.items),
        b.phase == Phase::Dispatching ==> !all_done(b.items),
        b.phase == Phase::Submitted || b.phase == Phase::Resolving ==> running(b.items) == 0,
{
    if b.phase == Phase::Submitted || b.phase == Phase::Resolving {
        lemma_running_bounds(b.items);
    }
}

/// The outcomes that an event hands to the caller: the one of a report or a
/// record, those of a cancellation, none else.
pub open spec fn handed_out(b: BatchView, event: EventView) -> Seq<ItemOutcomeView> {
    match event {
        EventView::Poll => match b.polled().1 {
            ActionView::Report { item, outcome } => seq![outcome],
            _ => Seq::empty(),
        },
        EventView::Answer(_) => Seq::empty(),
        EventView::Reply { item, reply } => match b.replied(item, reply).1 {
            StepView::Record { item, outcome } => seq![outcome],
            _ => Seq::empty(),
        },
        EventView::Cancel => b.stopped_outcomes(),
    }
}

/// Every item is reported when it ends: an item that has ended after an
/// event, and had not before, has its outcome among those that the event
/// hands to the caller.
pub proof fn every_ending_is_handed_out(b: BatchView, event: EventView, i: int)
    requires
        b.inv(),
        0 <= i < b.after(event).items.len(),
        b.after(event).items[i].state is Done,
        i < b.items.len() ==> !(b.items[i].state is Done),
    ensures
        handed_out(b, event).contains(b.after(event).items[i].outcome()),
{
    let after = b.after(event);
    match event {
        EventView::Poll => {
            lemma_begun(b);
            let begun = b.begun();
            assert(begun.items[i].state is Pending || begun.items[i] == b.items[i]);
            assert(handed_out(b, event)[0] == after.items[i].outcome());
        },
        EventView::Answer(_) => {
            lemma_answered(b, event->Answer_0);
        },
        EventView::Reply { item, reply } => {
            assert(handed_out(b, event)[0] == after.items[i].outcome());
        },
        EventView::Cancel => {
            assert(b.items[i].state is Pending);
            assert(handed_out(b, event)[i - b.next] == after.items[i].outcome());
        },
    }
}

/// The items of `later` start with the items of `earlier`, and each item of
/// `earlier` that had ended is as it was.
pub open spec fn keeps_outcomes(earlier: BatchView, later: BatchView) -> bool {
    &&& earlier.items.len() <= later.items.len()
    &&& forall|i: int|
        0 <= i < earlier.items.len() && (#[trigger] earlier.items[i]).state is Done
            ==> later.items[i] == earlier.items[i]
}

/// No event changes an outcome that was recorded.
pub proof fn lemma_after_keeps_outcomes(b: BatchView, event: EventView)
    requires
        b.inv(),
    ensures
        keeps_outcomes(b, b.after(event)),
{
    match event {
        EventView::Poll => {
            lemma_begun(b);
            let begun = b.begun();
        },
        EventView::Answer(_) => {},
        EventView::Reply { item, reply } => {},
        EventView::Cancel => {},
    }
}

/// No run changes an outcome that was recorded: what the result of the batch
/// says of an item that had ended is what was recorded when it ended.
pub proof fn recorded_outcomes_stay(b: BatchView, events: Seq<EventView>)
    requires
        b.inv(),
    ensures
        keeps_outcomes(b, b.run(events)),
    decreases events.len(),
{
    if events.len() > 0 {
        let before = b.run(events.drop_last());
        recorded_outcomes_stay(b, events.drop_last());
        lemma_run(b, events.drop_last());
        lemma_after_keeps_outcomes(before, events.last());
    }
}

/// Between `earlier` and `later` no item was added and none was started.
pub open spec fn starts_nothing(earlier: BatchView, later: BatchView) -> bool {
    &&& later.cancelled
    &&& later.items.len() == earlier.items.len()
    &&& forall|i: int|
        0 <= i < later.items.len() && (#[trigger] later.items[i]).is_running()
            ==> earlier.items[i].is_running()
}

/// After a cancellation a poll starts nothing: it answers that the caller is
/// to wait, or that the batch is finished.
pub proof fn poll_after_cancellation(b: BatchView)
    requires
        b.inv(),
        b.cancelled,
    ensures
        b.polled().0 == b,
        b.polled().1 is Wait || b.polled().1 is Finished,
{
}

/// After a cancellation no event starts an item.
pub proof fn lemma_after_cancellation(b: BatchView, event: EventView)
    requires
        b.inv(),
        b.cancelled,
    ensures
        starts_nothing(b, b.after(event)),
{
    match event {
        EventView::Poll => {
            poll_after_cancellation(b);
        },
        EventView::Answer(_) => {},
        EventView::Reply { item, reply } => {},
        EventView::Cancel => {},
    }
}

/// Once a batch is cancelled, whatever happens then, no item is added and no
/// item is started: the items that run at the end ran when the batch was
/// cancelled.
pub proof fn nothing_starts_after_cancellation(b: BatchView, events: Seq<EventView>)
    requires
        b.inv(),
        b.cancelled,
    ensures
        starts_nothing(b, b.run(events)),
    decreases events.len(),
{
    if events.len() > 0 {
        let before = b.run(events.drop_last());
        nothing_starts_after_cancellation(b, events.drop_last());
        lemma_run(b, events.drop_last());
        lemma_after_cancellation(before, events.last());
    }
}

/// A cancellation leaves nothing waiting, whatever the phase.
pub proof fn cancellation_leaves_nothing_waiting(b: BatchView)
    requires
        b.inv(),
        b.phase != Phase::Completed,
    ensures
        b.stopped().cancelled,
        b.stopped().next == b.stopped().items.len(),
        forall|i: int|
            0 <= i < b.items.len() && (#[trigger] b.items[i]).state is Pending
                ==> b.stopped().items[i].state == ItemStateView::Done(
                ItemResultView::Cancelled,
            ),
{
}

} // verus!
