//! The batch as a state machine over plain values.
//!
//! A batch is submitted, resolves its folders, dispatches its items and is
//! completed. This file says what each step does to the state of a batch and
//! which properties every state keeps; the executable coordinator is proved
//! to take exactly these steps.

use crate::item::{after_reply, EffectView, ItemStateView};
use crate::keys::{FolderPrefixView, ObjectKeyView, TargetView};
use crate::outcome::{FailureReasonView, ItemOutcomeView, ItemResultView};
use crate::remote::{CallView, RemoteErrorView, ReplyView};
use crate::request::{
    needs_listing, work_for, BatchRequestView, DestinationView, OperationKind, WorkView,
};
use crate::retry::RetryPolicy;
use vstd::prelude::*;

verus! {

/// The phases of a batch, in the order in which it passes through them.
#[derive(Clone, Copy, Debug, PartialEq, Eq, Structural)]
pub enum Phase {
    /// Taken in; nothing has been looked at.
    Submitted,
    /// A folder waits for its listing.
    Resolving,
    /// Every folder is resolved; items run or wait for a free worker.
    Dispatching,
    /// Every item has its outcome.
    Completed,
}

/// One item: a target, the work that it stands for and where that work
/// stands.
pub struct ItemView {
    pub target: TargetView,
    pub work: WorkView,
    pub state: ItemStateView,
}

impl ItemView {
    /// The item is started and not ended.
    pub open spec fn is_running(self) -> bool {
        self.state is Running
    }

    /// A running item has a plan and is in a stage of that plan.
    pub open spec fn fits(self) -> bool {
        match self.state {
            ItemStateView::Running { stage, attempt } => match self.work {
                WorkView::Call(plan) => plan.has_stage(stage),
                WorkView::Fail(_) => false,
            },
            _ => true,
        }
    }

    /// The item ended without having been started.
    pub open spec fn was_cancelled(self) -> bool {
        self.state == ItemStateView::Done(ItemResultView::Cancelled)
    }

    /// The item as it was before it was started.
    pub open spec fn blank(self) -> ItemView {
        ItemView { target: self.target, work: self.work, state: ItemStateView::Pending }
    }

    /// The item in another state.
    pub open spec fn with_state(self, state: ItemStateView) -> ItemView {
        ItemView { target: self.target, work: self.work, state }
    }

    /// The outcome of an item that has ended.
    pub open spec fn outcome(self) -> ItemOutcomeView {
        ItemOutcomeView { target: self.target, result: self.state->Done_0 }
    }

    /// The item ended as cancelled, where it was not started; else as it is.
    pub open spec fn cancelled(self) -> ItemView {
        if self.state is Pending {
            self.with_state(ItemStateView::Done(ItemResultView::Cancelled))
        } else {
            self
        }
    }
}

/// The outcome of a target that was cancelled.
pub open spec fn cancelled_outcome(target: TargetView) -> ItemOutcomeView {
    ItemOutcomeView { target, result: ItemResultView::Cancelled }
}

/// The item that a batch makes of a target that needs no listing.
pub open spec fn item_for(
    kind: OperationKind,
    destination: Option<DestinationView>,
    target: TargetView,
) -> ItemView {
    ItemView {
        target,
        work: work_for(kind, destination, target.bucket(), target.path()),
        state: ItemStateView::Pending,
    }
}

/// The items of targets that need no listing, one for each, in their order.
pub open spec fn direct(
    kind: OperationKind,
    destination: Option<DestinationView>,
    targets: Seq<TargetView>,
) -> Seq<ItemView> {
    Seq::new(targets.len(), |i: int| item_for(kind, destination, targets[i]))
}

/// The items of the objects that a listing named, one for each, in their
/// order.
pub open spec fn listed_items(
    kind: OperationKind,
    destination: Option<DestinationView>,
    objects: Seq<ObjectKeyView>,
) -> Seq<ItemView> {
    Seq::new(objects.len(), |i: int| item_for(kind, destination, TargetView::Object(objects[i])))
}

/// The one item of a folder that could not be listed: it stands under the
/// folder itself and fails without a call.
pub open spec fn unlisted_item(target: TargetView, error: RemoteErrorView) -> ItemView {
    ItemView {
        target,
        work: WorkView::Fail(FailureReasonView::Unresolved(error)),
        state: ItemStateView::Pending,
    }
}

/// The items that a folder expands to, given the answer to its listing.
pub open spec fn answered_items(
    kind: OperationKind,
    destination: Option<DestinationView>,
    target: TargetView,
    answer: Result<Seq<ObjectKeyView>, RemoteErrorView>,
) -> Seq<ItemView> {
    match answer {
        Ok(objects) => listed_items(kind, destination, objects),
        Err(error) => seq![unlisted_item(target, error)],
    }
}

/// The items that `targets` expand to, in order, where `answers` holds the
/// answers to the listings of the folders among them, in order. A target that
/// needs no listing gives one item. A folder gives one item for each object
/// that its listing named, or, where its listing failed, one item for the
/// folder itself.
pub open spec fn expand(
    kind: OperationKind,
    destination: Option<DestinationView>,
    targets: Seq<TargetView>,
    answers: Seq<Result<Seq<ObjectKeyView>, RemoteErrorView>>,
) -> Seq<ItemView>
    decreases targets.len(),
{
    if targets.len() == 0 {
        Seq::empty()
    } else if !needs_listing(kind, targets.last()) {
        expand(kind, destination, targets.drop_last(), answers).push(
            item_for(kind, destination, targets.last()),
        )
    } else if answers.len() == 0 {
        expand(kind, destination, targets.drop_last(), answers)
    } else {
        expand(kind, destination, targets.drop_last(), answers.drop_last()) + answered_items(
            kind,
            destination,
            targets.last(),
            answers.last(),
        )
    }
}

/// Every item as it was before it was started.
pub open spec fn blank(items: Seq<ItemView>) -> Seq<ItemView> {
    Seq::new(items.len(), |i: int| items[i].blank())
}

/// The number of items that are started and not ended.
pub open spec fn running(items: Seq<ItemView>) -> nat
    decreases items.len(),
{
    if items.len() == 0 {
        0
    } else {
        running(items.drop_last()) + if items.last().is_running() {
            1nat
        } else {
            0nat
        }
    }
}

/// The number of items that have ended.
pub open spec fn ended(items: Seq<ItemView>) -> nat
    decreases items.len(),
{
    if items.len() == 0 {
        0
    } else {
        ended(items.drop_last()) + if items.last().state is Done {
            1nat
        } else {
            0nat
        }
    }
}

/// The rank of a phase in the order in which a batch passes through them.
pub open spec fn rank(phase: Phase) -> nat {
    match phase {
        Phase::Submitted => 0,
        Phase::Resolving => 1,
        Phase::Dispatching => 2,
        Phase::Completed => 3,
    }
}

/// Every item has ended.
pub open spec fn all_done(items: Seq<ItemView>) -> bool {
    forall|i: int| 0 <= i < items.len() ==> (#[trigger] items[i]).state is Done
}

/// The phase of a batch whose folders are all resolved.
pub open spec fn closing(items: Seq<ItemView>) -> Phase {
    if all_done(items) {
        Phase::Completed
    } else {
        Phase::Dispatching
    }
}

/// From `from` up to `to` no target needs a listing, and `to` is the end of
/// the targets or a target that needs one.
pub open spec fn is_stop(kind: OperationKind, targets: Seq<TargetView>, from: int, to: int) -> bool {
    &&& 0 <= from <= to <= targets.len()
    &&& forall|j: int| from <= j < to ==> !needs_listing(kind, #[trigger] targets[j])
    &&& to < targets.len() ==> needs_listing(kind, targets[to])
}

/// The index of the first target from `from` on that needs a listing; the
/// number of targets where there is none.
pub open spec fn stop(kind: OperationKind, targets: Seq<TargetView>, from: int) -> int {
    choose|to: int| is_stop(kind, targets, from, to)
}

/// What the coordinator asks of its caller.
pub enum ActionView {
    /// List this folder and hand in the answer.
    Resolve(FolderPrefixView),
    /// Start this item on a free worker with this call, and hand in the
    /// store's answer.
    Perform { item: nat, call: CallView },
    /// This item has ended without a call; report it.
    Report { item: nat, outcome: ItemOutcomeView },
    /// Nothing can be started: wait for a worker to come back.
    Wait,
    /// Every item has its outcome: take the result.
    Finished,
}

/// What follows the answer to a call.
pub enum StepView {
    /// The item goes on with this call, on the same worker.
    Issue { item: nat, call: CallView },
    /// The item goes on with this call after so many milliseconds.
    RetryAfter { item: nat, call: CallView, wait: u64 },
    /// The item has ended with this outcome; its worker is free.
    Record { item: nat, outcome: ItemOutcomeView },
    /// The answer belongs to no running item and changed nothing.
    Ignored,
}

/// What can happen to a batch.
pub enum EventView {
    /// The caller polls for the next action.
    Poll,
    /// The caller hands in the answer to a listing.
    Answer(Result<Seq<ObjectKeyView>, RemoteErrorView>),
    /// The caller hands in the store's answer to a call of an item.
    Reply { item: int, reply: ReplyView },
    /// The caller cancels the batch.
    Cancel,
}

/// The state of a batch.
pub struct BatchView {
    pub connection: Seq<char>,
    pub kind: OperationKind,
    pub destination: Option<DestinationView>,
    /// The number of items that may run at one time.
    pub limit: nat,
    pub retry: RetryPolicy,
    pub phase: Phase,
    pub targets: Seq<TargetView>,
    /// The number of targets that have been expanded into items.
    pub cursor: nat,
    /// The answers to the listings taken in so far, in order.
    pub answers: Seq<Result<Seq<ObjectKeyView>, RemoteErrorView>>,
    pub items: Seq<ItemView>,
    /// The number of items that have been started or ended; the items after
    /// them wait.
    pub next: nat,
    pub cancelled: bool,
}

/// The batch that a request makes when it is submitted to run at most
/// `limit` items at one time.
pub open spec fn submitted(request: BatchRequestView, limit: nat, retry: RetryPolicy) -> BatchView {
    BatchView {
        connection: request.connection,
        kind: request.kind,
        destination: request.destination,
        limit,
        retry,
        phase: Phase::Submitted,
        targets: request.targets,
        cursor: 0,
        answers: Seq::empty(),
        items: Seq::empty(),
        next: 0,
        cancelled: false,
    }
}

impl BatchView {

    /// The batch after the targets from the cursor on that need no listing
    /// have become items: it then waits for the listing of a folder, or its
    /// folders are all resolved.
    pub open spec fn settled(self) -> BatchView {
        let to = stop(self.kind, self.targets, self.cursor as int);
        let items = self.items + direct(
            self.kind,
            self.destination,
            self.targets.subrange(self.cursor as int, to),
        );
        BatchView {
            cursor: to as nat,
            items,
            phase: if to < self.targets.len() {
                Phase::Resolving
            } else {
                closing(items)
            },
            ..self
        }
    }

    /// A submitted batch after it has begun; any other batch as it is.
    pub open spec fn begun(self) -> BatchView {
        if self.phase == Phase::Submitted {
            self.settled()
        } else {
            self
        }
    }

    /// The batch after the answer to the listing of the folder that it waits
    /// for. A batch that waits for no listing stays as it is.
    pub open spec fn answered(self, answer: Result<Seq<ObjectKeyView>, RemoteErrorView>)
        -> BatchView {
        if self.phase == Phase::Resolving {
            (BatchView {
                answers: self.answers.push(answer),
                items: self.items + answered_items(
                    self.kind,
                    self.destination,
                    self.targets[self.cursor as int],
                    answer,
                ),
                cursor: self.cursor + 1,
                ..self
            }).settled()
        } else {
            self
        }
    }

    /// The batch with the item `item` in the state `state`, completed where
    /// that was the last item to end.
    pub open spec fn with_item(self, item: int, state: ItemStateView) -> BatchView {
        let items = self.items.update(item, self.items[item].with_state(state));
        BatchView { items, phase: closing(items), ..self }
    }

    /// What the coordinator does and asks when it is polled in a phase other
    /// than `Submitted`.
    ///
    /// While it resolves it asks for the listing of the folder at the cursor.
    /// While it dispatches it takes the first waiting item: one that fails
    /// without a call ends at once and is reported; one with a plan is
    /// started if fewer items run than the limit allows. Else the caller
    /// waits. A cancelled batch has no waiting items, so it starts nothing.
    pub open spec fn decided(self) -> (BatchView, ActionView) {
        match self.phase {
            Phase::Submitted => (self, ActionView::Wait),
            Phase::Resolving => (self, ActionView::Resolve(self.targets[self.cursor as int]->Folder_0)),
            Phase::Completed => (self, ActionView::Finished),
            Phase::Dispatching => if self.next < self.items.len() {
                let item = self.items[self.next as int];
                match item.work {
                    WorkView::Fail(reason) => {
                        let result = ItemResultView::Failed(reason);
                        let after = BatchView { next: self.next + 1, ..self }.with_item(
                            self.next as int,
                            ItemStateView::Done(result),
                        );
                        (
                            after,
                            ActionView::Report {
                                item: self.next,
                                outcome: ItemOutcomeView { target: item.target, result },
                            },
                        )
                    },
                    WorkView::Call(plan) => if running(self.items) < self.limit {
                        let stage = plan.first_stage();
                        let after = BatchView { next: self.next + 1, ..self }.with_item(
                            self.next as int,
                            ItemStateView::Running { stage, attempt: 0 },
                        );
                        (after, ActionView::Perform { item: self.next, call: plan.call_at(stage) })
                    } else {
                        (self, ActionView::Wait)
                    },
                }
            } else {
                (self, ActionView::Wait)
            },
        }
    }

    /// What the coordinator does and asks when it is polled: a submitted
    /// batch begins first.
    pub open spec fn polled(self) -> (BatchView, ActionView) {
        self.begun().decided()
    }

    /// The answer `reply` is for a call of the running item `item`.
    pub open spec fn awaits(self, item: int) -> bool {
        &&& self.phase == Phase::Dispatching
        &&& 0 <= item < self.items.len()
        &&& self.items[item].state is Running
        &&& self.items[item].work is Call
    }

    /// What the coordinator does when the store has answered a call of the
    /// item `item`: the item goes on or ends, as its plan, the answer and the
    /// retry policy decide. An answer for an item that is not running changes
    /// nothing.
    pub open spec fn replied(self, item: int, reply: ReplyView) -> (BatchView, StepView) {
        if self.awaits(item) {
            let it = self.items[item];
            let (state, effect) = after_reply(
                it.work->Call_0,
                it.state->Running_stage,
                it.state->Running_attempt,
                reply,
                self.retry,
            );
            (
                self.with_item(item, state),
                match effect {
                    EffectView::Issue(call) => StepView::Issue { item: item as nat, call },
                    EffectView::RetryAfter(call, wait) => StepView::RetryAfter {
                        item: item as nat,
                        call,
                        wait,
                    },
                    EffectView::Record(result) => StepView::Record {
                        item: item as nat,
                        outcome: ItemOutcomeView { target: it.target, result },
                    },
                },
            )
        } else {
            (self, StepView::Ignored)
        }
    }

    /// The batch after it was cancelled: every waiting item has ended as
    /// cancelled, and nothing is left to start. Items that run stay as they
    /// are and end by their own answers. A completed batch stays as it is.
    pub open spec fn stopped(self) -> BatchView {
        if self.phase == Phase::Completed {
            self
        } else {
            let items = Seq::new(self.items.len(), |i: int| self.items[i].cancelled());
            BatchView {
                items,
                next: self.items.len(),
                cancelled: true,
                phase: if running(self.items) == 0 {
                    Phase::Completed
                } else {
                    Phase::Dispatching
                },
                ..self
            }
        }
    }

    /// The outcomes that a cancellation records: those of the items that
    /// waited, then one for each target that was not yet expanded.
    pub open spec fn stopped_outcomes(self) -> Seq<ItemOutcomeView> {
        if self.phase == Phase::Completed {
            Seq::empty()
        } else {
            Seq::new(
                (self.items.len() - self.next) as nat,
                |i: int| cancelled_outcome(self.items[self.next + i].target),
            ) + self.unexpanded()
        }
    }

    /// One cancelled outcome for each target that was not expanded.
    pub open spec fn unexpanded(self) -> Seq<ItemOutcomeView> {
        Seq::new(
            (self.targets.len() - self.cursor) as nat,
            |i: int| cancelled_outcome(self.targets[self.cursor + i]),
        )
    }

    /// The outcomes of a completed batch: those of its items, in order, then
    /// one cancelled outcome for each target that was never expanded.
    pub open spec fn outcomes(self) -> Seq<ItemOutcomeView> {
        Seq::new(self.items.len(), |i: int| self.items[i].outcome()) + self.unexpanded()
    }

    /// The batch after one event.
    pub open spec fn after(self, event: EventView) -> BatchView {
        match event {
            EventView::Poll => self.polled().0,
            EventView::Answer(answer) => self.answered(answer),
            EventView::Reply { item, reply } => self.replied(item, reply).0,
            EventView::Cancel => self.stopped(),
        }
    }

    /// The batch after a sequence of events, the first first.
    pub open spec fn run(self, events: Seq<EventView>) -> BatchView
        decreases events.len(),
    {
        if events.len() == 0 {
            self
        } else {
            self.run(events.drop_last()).after(events.last())
        }
    }

    /// What every state of a batch keeps true.
    pub open spec fn inv(self) -> bool {
        &&& self.limit >= 1
        &&& self.cursor <= self.targets.len()
        &&& self.next <= self.items.len()
        &&& blank(self.items) == expand(
            self.kind,
            self.destination,
            self.targets.take(self.cursor as int),
            self.answers,
        )
        &&& forall|i: int|
            0 <= i < self.items.len() ==> ((#[trigger] self.items[i]).state is Pending <==> i
                >= self.next)
        &&& forall|i: int| 0 <= i < self.items.len() ==> (#[trigger] self.items[i]).fits()
        &&& running(self.items) <= self.limit
        &&& self.cancelled ==> self.next == self.items.len()
        &&& !self.cancelled ==> forall|i: int|
            0 <= i < self.items.len() ==> !(#[trigger] self.items[i]).was_cancelled()
        &&& match self.phase {
            Phase::Submitted => {
                &&& self.cursor == 0
                &&& self.items.len() == 0
                &&& self.answers.len() == 0
                &&& !self.cancelled
            },
            Phase::Resolving => {
                &&& self.cursor < self.targets.len()
                &&& needs_listing(self.kind, self.targets[self.cursor as int])
                &&& self.next == 0
                &&& !self.cancelled
            },
            Phase::Dispatching => {
                &&& self.cursor == self.targets.len()
                &&& !all_done(self.items)
            },
            Phase::Completed => {
                &&& all_done(self.items)
                &&& !self.cancelled ==> self.cursor == self.targets.len()
            },
        }
    }
}

} // verus!
