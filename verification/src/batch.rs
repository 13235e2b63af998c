//! The coordinator of one batch.
//!
//! A [`Batch`] decides; it performs nothing. Its caller polls it for the next
//! [`Action`], lists the folder or makes the call that the action names, and
//! hands the answer back. Whatever the store answers, every item ends with an
//! outcome, and the batch ends with one result.

use crate::item::{advance, after_reply, start, Effect, ItemState, ItemStateView};
use crate::keys::{FolderPrefix, ObjectKey, ObjectKeyView, Target, TargetView};
use crate::lister::answer_view;
use crate::model::{
    all_done, answered_items, blank, cancelled_outcome, closing, direct, ended, item_for,
    listed_items, running, submitted, unlisted_item, ActionView, BatchView, ItemView, Phase,
    StepView,
};
use crate::outcome::{status_of, BatchResult, FailureReason, ItemOutcome, ItemResult};
use crate::remote::{views, Call, RemoteError, RemoteErrorView, Reply};
use crate::request::{
    destination_view, must_list, needs_listing, plan_work, BatchConfig, BatchRequest,
    Destination, OperationKind, Work,
};
use crate::retry::RetryPolicy;
use crate::steps::{
    lemma_closing, lemma_decided, lemma_expand_answer, lemma_replied, lemma_running_bounds,
    lemma_running_same, lemma_running_update, lemma_settled, lemma_stop, lemma_stopped,
    lemma_submitted, lemma_tally, unsettled,
};
use vstd::pervasive::unreached;
use vstd::prelude::*;

verus! {

/// What the coordinator asks of its caller.
#[derive(Debug, PartialEq, Eq)]
pub enum Action {
    /// List this folder and hand the answer to [`Batch::resolved`].
    Resolve(FolderPrefix),
    /// Start the item on a free worker with this call, and hand the store's
    /// answer to [`Batch::completed`].
    Perform { item: usize, call: Call },
    /// The item has ended without a call; report its outcome.
    Report { item: usize, outcome: ItemOutcome },
    /// Nothing can be started now: wait for a worker to come back.
    Wait,
    /// Every item has its outcome: take the result with [`Batch::conclude`].
    Finished,
}

impl View for Action {
    type V = ActionView;

    open spec fn view(&self) -> ActionView {
        match self {
            Action::Resolve(folder) => ActionView::Resolve(folder@),
            Action::Perform { item, call } => ActionView::Perform { item: *item as nat, call: call@ },
            Action::Report { item, outcome } => ActionView::Report {
                item: *item as nat,
                outcome: outcome@,
            },
            Action::Wait => ActionView::Wait,
            Action::Finished => ActionView::Finished,
        }
    }
}

/// What follows the answer to a call.
#[derive(Debug, PartialEq, Eq)]
pub enum Step {
    /// The item goes on with this call, on the same worker.
    Issue { item: usize, call: Call },
    /// The item goes on with this call after `wait` milliseconds.
    RetryAfter { item: usize, call: Call, wait: u64 },
    /// The item has ended with this outcome; report it. Its worker is free.
    Record { item: usize, outcome: ItemOutcome },
    /// The answer belonged to no running item and changed nothing.
    Ignored,
}

impl View for Step {
    type V = StepView;

    open spec fn view(&self) -> StepView {
        match self {
            Step::Issue { item, call } => StepView::Issue { item: *item as nat, call: call@ },
            Step::RetryAfter { item, call, wait } => StepView::RetryAfter {
                item: *item as nat,
                call: call@,
                wait: *wait,
            },
            Step::Record { item, outcome } => StepView::Record {
                item: *item as nat,
                outcome: outcome@,
            },
            Step::Ignored => StepView::Ignored,
        }
    }
}

/// How far a batch has come, counted over the items that its targets have
/// expanded to so far.
#[derive(Clone, Copy, Debug, PartialEq, Eq, Structural)]
pub struct Progress {
    /// The number of items.
    pub total: usize,
    /// The number of items that have ended, however they ended.
    pub ended: usize,
    /// The number of items that run.
    pub running: usize,
    /// The number of items that wait.
    pub waiting: usize,
}

/// A target with the work that it stands for.
struct Task {
    target: Target,
    work: Work,
}

/// The items that tasks and their states stand for.
spec fn items_of(tasks: Seq<Task>, states: Seq<ItemState>) -> Seq<ItemView> {
    Seq::new(
        tasks.len(),
        |i: int| ItemView { target: tasks[i].target@, work: tasks[i].work@, state: states[i]@ },
    )
}

/// One batch, from its submission to its result.
pub struct Batch {
    connection: String,
    kind: OperationKind,
    destination: Option<Destination>,
    limit: usize,
    retry: RetryPolicy,
    phase: Phase,
    targets: Vec<Target>,
    cursor: usize,
    tasks: Vec<Task>,
    states: Vec<ItemState>,
    next: usize,
    in_flight: usize,
    cancelled: bool,
    answers: Ghost<Seq<Result<Seq<ObjectKeyView>, RemoteErrorView>>>,
}

impl View for Batch {
    type V = BatchView;

    closed spec fn view(&self) -> BatchView {
        BatchView {
            connection: self.connection@,
            kind: self.kind,
            destination: destination_view(self.destination),
            limit: self.limit as nat,
            retry: self.retry,
            phase: self.phase,
            targets: views(self.targets@),
            cursor: self.cursor as nat,
            answers: self.answers@,
            items: items_of(self.tasks@, self.states@),
            next: self.next as nat,
            cancelled: self.cancelled,
        }
    }
}

impl Batch {
    /// The batch is in a state that its own steps have led to.
    pub closed spec fn wf(&self) -> bool {
        &&& self@.inv()
        &&& self.tasks.len() == self.states.len()
        &&& self.in_flight == running(self@.items)
    }

    /// A well-formed batch satisfies the invariant of its model.
    pub proof fn lemma_inv(&self)
        requires
            self.wf(),
        ensures
            self@.inv(),
    {
    }

    /// Takes in a request. `None` where the configuration allows no item to
    /// run, since such a batch could never end.
    pub fn submit(request: BatchRequest, config: BatchConfig) -> (r: Option<Batch>)
        ensures
            r is None <==> config.concurrency == 0,
            r matches Some(b) ==> b.wf() && b@ == submitted(
                request@,
                config.concurrency as nat,
                config.retry,
            ),
    {
        if config.concurrency == 0 {
            return None;
        }
        let b = Batch {
            connection: request.connection,
            kind: request.kind,
            destination: request.destination,
            limit: config.concurrency,
            retry: config.retry,
            phase: Phase::Submitted,
            targets: request.targets,
            cursor: 0,
            tasks: Vec::new(),
            states: Vec::new(),
            next: 0,
            in_flight: 0,
            cancelled: false,
            answers: Ghost(Seq::empty()),
        };
        proof {
            lemma_submitted(request@, config.concurrency as nat, config.retry);
            assert(b@.items =~= Seq::empty());
        }
        Some(b)
    }

    /// The phase that the batch is in.
    pub fn phase(&self) -> (r: Phase)
        ensures
            r == self@.phase,
    {
        self.phase
    }

    /// Tells whether the batch was cancelled.
    pub fn is_cancelled(&self) -> (r: bool)
        ensures
            r == self@.cancelled,
    {
        self.cancelled
    }

    /// The connection over which the calls of the batch are made.
    pub fn connection(&self) -> (r: &str)
        ensures
            r@ == self@.connection,
    {
        self.connection.as_str()
    }

    /// The number of items that run.
    pub fn in_flight(&self) -> (r: usize)
        requires
            self.wf(),
        ensures
            r == running(self@.items),
            r <= self@.limit,
    {
        self.in_flight
    }

    /// The number of items that the targets have expanded to so far.
    pub fn len(&self) -> (r: usize)
        ensures
            r == self@.items.len(),
    {
        self.tasks.len()
    }

    /// How far the batch has come: how many of its items have ended, run and
    /// wait.
    pub fn progress(&self) -> (r: Progress)
        requires
            self.wf(),
        ensures
            r.total == self@.items.len(),
            r.ended == ended(self@.items),
            r.running == running(self@.items),
            r.waiting == r.total - r.ended - r.running,
            r.waiting == self@.items.len() - self@.next,
    {
        proof {
            lemma_tally(self@.items, self@.next);
        }
        Progress {
            total: self.tasks.len(),
            ended: self.next - self.in_flight,
            running: self.in_flight,
            waiting: self.tasks.len() - self.next,
        }
    }

    /// The number of items that have been started or have ended.
    pub fn dispatched(&self) -> (r: usize)
        ensures
            r == self@.next,
    {
        self.next
    }

    /// Makes items of the targets from the cursor on that need no listing.
    fn settle(&mut self)
        requires
            unsettled(old(self)@),
            old(self).tasks.len() == old(self).states.len(),
            old(self).in_flight == 0,
        ensures
            final(self).wf(),
            final(self)@ == old(self)@.settled(),
    {
        let ghost before = self@;
        while self.cursor < self.targets.len() && !must_list(self.kind, &self.targets[self.cursor])
            invariant
                before.cursor <= self.cursor <= self.targets.len(),
                self.tasks.len() == self.states.len(),
                self.in_flight == 0,
                forall|j: int|
                    before.cursor <= j < self.cursor ==> !needs_listing(
                        before.kind,
                        #[trigger] before.targets[j],
                    ),
                self@.items == before.items + direct(
                    before.kind,
                    before.destination,
                    before.targets.subrange(before.cursor as int, self.cursor as int),
                ),
                self@ == (BatchView { cursor: self.cursor as nat, items: self@.items, ..before }),
            decreases self.targets.len() - self.cursor,
        {
            let ghost items = self@.items;
            let target = &self.targets[self.cursor];
            let work = plan_work(self.kind, &self.destination, target.bucket(), target.path());
            let task = Task { target: target.clone(), work };
            self.tasks.push(task);
            self.states.push(ItemState::Pending);
            self.cursor += 1;
            assert(self@.items =~= items.push(
                item_for(before.kind, before.destination, before.targets[self.cursor - 1]),
            ));
            assert(self@.items =~= before.items + direct(
                before.kind,
                before.destination,
                before.targets.subrange(before.cursor as int, self.cursor as int),
            ));
        }
        proof {
            lemma_stop(before.kind, before.targets, before.cursor as int, self.cursor as int);
            lemma_settled(before);
        }
        if self.cursor < self.targets.len() {
            self.phase = Phase::Resolving;
        } else if self.tasks.len() == 0 {
            self.phase = Phase::Completed;
        } else {
            self.phase = Phase::Dispatching;
        }
        proof {
            lemma_running_bounds(self@.items);
        }
    }

    /// Sets the phase to what it is when every folder is resolved.
    fn close(&mut self)
        requires
            old(self).next <= old(self).tasks.len(),
            old(self).tasks.len() == old(self).states.len(),
            old(self).in_flight == running(old(self)@.items),
            forall|i: int|
                0 <= i < old(self)@.items.len() ==> ((#[trigger] old(self)@.items[i]).state is Pending
                    <==> i >= old(self).next),
        ensures
            final(self)@ == (BatchView {
                phase: closing(old(self)@.items),
                ..old(self)@
            }),
            final(self).tasks.len() == final(self).states.len(),
            final(self).in_flight == old(self).in_flight,
    {
        proof {
            lemma_closing(self@);
        }
        if self.next == self.tasks.len() && self.in_flight == 0 {
            self.phase = Phase::Completed;
        } else {
            self.phase = Phase::Dispatching;
        }
    }

    /// Ends the waiting item `at`, which fails without a call.
    fn report(&mut self, at: usize) -> (action: Action)
        requires
            old(self).wf(),
            old(self).phase == Phase::Dispatching,
            at == old(self).next,
            at < old(self).tasks.len(),
            old(self)@.items[at as int].work is Fail,
        ensures
            final(self).wf(),
            final(self)@ == old(self)@.decided().0,
            action@ == old(self)@.decided().1,
    {
        let ghost before = self@;
        let ghost item = before.items[at as int];
        proof {
            lemma_decided(before);
        }
        let result = match &self.tasks[at].work {
            Work::Fail(reason) => ItemResult::Failed(reason.clone()),
            Work::Call(_) => unreached(),
        };
        let outcome = ItemOutcome { target: self.tasks[at].target.clone(), result: result.clone() };
        self.states.set(at, ItemState::Done(result));
        self.next = at + 1;
        proof {
            assert(self@.items =~= before.items.update(
                at as int,
                item.with_state(ItemStateView::Done(result@)),
            ));
            lemma_running_update(
                before.items,
                at as int,
                item.with_state(ItemStateView::Done(result@)),
            );
        }
        self.close();
        Action::Report { item: at, outcome }
    }

    /// Starts the waiting item `at`, which has a plan, on a free worker.
    fn launch(&mut self, at: usize) -> (action: Action)
        requires
            old(self).wf(),
            old(self).phase == Phase::Dispatching,
            at == old(self).next,
            at < old(self).tasks.len(),
            old(self)@.items[at as int].work is Call,
            old(self).in_flight < old(self).limit,
        ensures
            final(self).wf(),
            final(self)@ == old(self)@.decided().0,
            action@ == old(self)@.decided().1,
    {
        let ghost before = self@;
        let ghost item = before.items[at as int];
        proof {
            lemma_decided(before);
        }
        let (state, call) = match &self.tasks[at].work {
            Work::Call(plan) => start(plan),
            Work::Fail(_) => unreached(),
        };
        let ghost first = state@;
        self.states.set(at, state);
        self.next = at + 1;
        self.in_flight += 1;
        proof {
            assert(self@.items =~= before.items.update(at as int, item.with_state(first)));
            lemma_running_update(before.items, at as int, item.with_state(first));
        }
        self.close();
        Action::Perform { item: at, call }
    }

    /// Decides what is to be done next, in a batch that has begun.
    fn decide(&mut self) -> (action: Action)
        requires
            old(self).wf(),
        ensures
            final(self).wf(),
            final(self)@ == old(self)@.decided().0,
            action@ == old(self)@.decided().1,
    {
        match self.phase {
            Phase::Submitted => Action::Wait,
            Phase::Completed => Action::Finished,
            Phase::Resolving => {
                match &self.targets[self.cursor] {
                    Target::Folder(folder) => Action::Resolve(folder.clone()),
                    Target::Object(_) => unreached(),
                }
            },
            Phase::Dispatching => {
                if self.next >= self.tasks.len() {
                    return Action::Wait;
                }
                let at = self.next;
                let fails = match &self.tasks[at].work {
                    Work::Fail(_) => true,
                    Work::Call(_) => false,
                };
                if fails {
                    self.report(at)
                } else if self.in_flight < self.limit {
                    self.launch(at)
                } else {
                    Action::Wait
                }
            },
        }
    }

    /// Decides what is to be done next.
    ///
    /// A submitted batch begins. While a folder waits for its listing the
    /// answer is [`Action::Resolve`], again and again until
    /// [`Batch::resolved`] has taken the listing in. After that the items are
    /// taken in order: one that fails without a call is ended and reported;
    /// one with a plan is started, as long as fewer items run than the
    /// configuration allows. Where nothing can be started the answer is
    /// [`Action::Wait`], and [`Action::Finished`] once every item has its
    /// outcome. After a cancellation no item is started.
    pub fn poll(&mut self) -> (action: Action)
        requires
            old(self).wf(),
        ensures
            final(self).wf(),
            final(self)@ == old(self)@.polled().0,
            action@ == old(self)@.polled().1,
            old(self)@.cancelled ==> action is Wait || action is Finished,
    {
        if self.phase == Phase::Submitted {
            self.settle();
        }
        self.decide()
    }

    /// Adds one waiting item for each object that a listing named.
    fn add_listed(&mut self, objects: &Vec<ObjectKey>)
        requires
            old(self).tasks.len() == old(self).states.len(),
        ensures
            final(self).tasks.len() == final(self).states.len(),
            final(self).in_flight == old(self).in_flight,
            final(self)@ == (BatchView {
                items: old(self)@.items + listed_items(
                    old(self)@.kind,
                    old(self)@.destination,
                    views(objects@),
                ),
                ..old(self)@
            }),
    {
        let ghost before = self@;
        let ghost named = views(objects@);
        let mut i: usize = 0;
        while i < objects.len()
            invariant
                i <= objects.len(),
                named == views(objects@),
                self.tasks.len() == self.states.len(),
                self.in_flight == old(self).in_flight,
                self@ == (BatchView {
                    items: before.items + listed_items(
                        before.kind,
                        before.destination,
                        named.take(i as int),
                    ),
                    ..before
                }),
            decreases objects.len() - i,
        {
            let ghost items = self@.items;
            let object = &objects[i];
            let work = plan_work(
                self.kind,
                &self.destination,
                object.bucket.as_str(),
                object.key.as_str(),
            );
            self.tasks.push(Task { target: Target::Object(object.clone()), work });
            self.states.push(ItemState::Pending);
            i += 1;
            assert(self@.items =~= items.push(
                item_for(
                    before.kind,
                    before.destination,
                    TargetView::Object(named[i - 1]),
                ),
            ));
            assert(self@.items =~= before.items + listed_items(
                before.kind,
                before.destination,
                named.take(i as int),
            ));
        }
        assert(named.take(i as int) =~= named);
    }

    /// Adds the one waiting item of a folder whose listing failed.
    fn add_unlisted(&mut self, error: RemoteError)
        requires
            old(self).tasks.len() == old(self).states.len(),
            old(self).cursor < old(self).targets.len(),
        ensures
            final(self).tasks.len() == final(self).states.len(),
            final(self).in_flight == old(self).in_flight,
            final(self)@ == (BatchView {
                items: old(self)@.items.push(
                    unlisted_item(
                        old(self)@.targets[old(self)@.cursor as int],
                        error@,
                    ),
                ),
                ..old(self)@
            }),
    {
        let ghost before = self@;
        let target = self.targets[self.cursor].clone();
        self.tasks.push(Task { target, work: Work::Fail(FailureReason::Unresolved(error)) });
        self.states.push(ItemState::Pending);
        assert(self@.items =~= before.items.push(
            unlisted_item(before.targets[before.cursor as int], error@),
        ));
    }

    /// Takes in the answer to the listing of the folder that the batch waits
    /// for: the objects that the store named, or the failure of the listing.
    ///
    /// Each object becomes one item. A folder that could not be listed
    /// becomes one item under its own prefix, which will fail without a call;
    /// the batch goes on. The targets that follow, up to the next folder,
    /// become items as well. An answer that the batch does not wait for
    /// changes nothing.
    pub fn resolved(&mut self, answer: Result<Vec<ObjectKey>, RemoteError>)
        requires
            old(self).wf(),
        ensures
            final(self).wf(),
            final(self)@ == old(self)@.answered(answer_view(answer)),
    {
        if self.phase != Phase::Resolving {
            return ;
        }
        let ghost before = self@;
        let ghost given = answer_view(answer);
        proof {
            lemma_running_bounds(before.items);
        }
        match answer {
            Ok(objects) => {
                self.add_listed(&objects);
            },
            Err(error) => {
                self.add_unlisted(error);
                assert(before.items.push(
                    unlisted_item(before.targets[before.cursor as int], error@),
                ) =~= before.items + answered_items(
                    before.kind,
                    before.destination,
                    before.targets[before.cursor as int],
                    given,
                ));
            },
        }
        proof {
            self.answers@ = self.answers@.push(given);
            assert(views(self.targets@).len() == self.targets.len());
        }
        self.cursor += 1;
        proof {
            let added = answered_items(
                before.kind,
                before.destination,
                before.targets[before.cursor as int],
                given,
            );
            lemma_expand_answer(
                before.kind,
                before.destination,
                before.targets,
                before.answers,
                before.cursor as int,
                given,
            );
            assert(blank(self@.items) =~= blank(before.items) + added);
        }
        self.settle();
    }

    /// Takes in the store's answer to the call that the item `item` made.
    ///
    /// The item goes on or ends, as its plan, the answer and the retry policy
    /// decide. A move whose copy succeeded goes on to delete its source; a
    /// move whose copy failed ends without a delete. A failed call is made
    /// again where the policy permits. An item that ends gives its worker
    /// back, and the batch is completed when the last item ends. An answer
    /// for an item that does not run changes nothing.
    pub fn completed(&mut self, item: usize, reply: Reply) -> (step: Step)
        requires
            old(self).wf(),
        ensures
            final(self).wf(),
            final(self)@ == old(self)@.replied(item as int, reply@).0,
            step@ == old(self)@.replied(item as int, reply@).1,
    {
        if self.phase != Phase::Dispatching || item >= self.tasks.len() {
            return Step::Ignored;
        }
        let ghost before = self@;
        let ghost it = before.items[item as int];
        let running_now = match &self.states[item] {
            ItemState::Running { stage, attempt } => Some((*stage, *attempt)),
            _ => None,
        };
        let (stage, attempt) = match running_now {
            Some(pair) => pair,
            None => {
                return Step::Ignored;
            },
        };
        let advanced = match &self.tasks[item].work {
            Work::Call(plan) => Some(advance(plan, stage, attempt, reply, &self.retry)),
            Work::Fail(_) => None,
        };
        let (state, effect) = match advanced {
            Some(pair) => pair,
            None => {
                return Step::Ignored;
            },
        };
        let ghost next_state = state@;
        proof {
            assert((state@, effect@) == after_reply(
                it.work->Call_0,
                stage,
                attempt,
                reply@,
                before.retry,
            ));
            lemma_replied(before, item as int, reply@);
            lemma_running_update(before.items, item as int, it.with_state(next_state));
        }
        let ended = match &state {
            ItemState::Done(_) => true,
            _ => false,
        };
        self.states.set(item, state);
        if ended {
            self.in_flight -= 1;
        }
        assert(self@.items =~= before.items.update(item as int, it.with_state(next_state)));
        let step = match effect {
            Effect::Issue(call) => Step::Issue { item, call },
            Effect::RetryAfter(call, wait) => Step::RetryAfter { item, call, wait },
            Effect::Record(result) => Step::Record {
                item,
                outcome: ItemOutcome { target: self.tasks[item].target.clone(), result },
            },
        };
        self.close();
        step
    }

    /// Ends every waiting item as cancelled and lists their outcomes.
    fn cancel_waiting(&mut self) -> (out: Vec<ItemOutcome>)
        requires
            old(self).tasks.len() == old(self).states.len(),
            old(self).next <= old(self).tasks.len(),
            forall|i: int|
                0 <= i < old(self)@.items.len() ==> ((#[trigger] old(self)@.items[i]).state is Pending
                    <==> i >= old(self).next),
        ensures
            final(self).tasks.len() == final(self).states.len(),
            final(self).in_flight == old(self).in_flight,
            final(self)@ == (BatchView {
                items: Seq::new(
                    old(self)@.items.len(),
                    |i: int| old(self)@.items[i].cancelled(),
                ),
                ..old(self)@
            }),
            views(out@) == Seq::new(
                (old(self)@.items.len() - old(self)@.next) as nat,
                |i: int| cancelled_outcome(old(self)@.items[old(self)@.next + i].target),
            ),
    {
        let ghost before = self@;
        let mut out: Vec<ItemOutcome> = Vec::new();
        let mut i: usize = self.next;
        while i < self.tasks.len()
            invariant
                self.next <= i <= self.tasks.len(),
                self.tasks.len() == self.states.len(),
                self.in_flight == old(self).in_flight,
                self@.items.len() == before.items.len(),
                self@ == (BatchView { items: self@.items, ..before }),
                forall|k: int|
                    0 <= k < before.items.len() ==> ((#[trigger] before.items[k]).state is Pending
                        <==> k >= self.next),
                forall|k: int|
                    0 <= k < i ==> (#[trigger] self@.items[k]) == before.items[k].cancelled(),
                forall|k: int| i <= k < self@.items.len() ==> (#[trigger] self@.items[k]) == before.items[k],
                out.len() == i - self.next,
                forall|k: int|
                    0 <= k < out.len() ==> (#[trigger] out@[k])@ == cancelled_outcome(
                        before.items[self.next + k].target,
                    ),
            decreases self.tasks.len() - i,
        {
            let ghost items = self@.items;
            assert(items[i as int] == before.items[i as int]);
            out.push(
                ItemOutcome { target: self.tasks[i].target.clone(), result: ItemResult::Cancelled },
            );
            self.states.set(i, ItemState::Done(ItemResult::Cancelled));
            assert(self@.items =~= items.update(i as int, before.items[i as int].cancelled()));
            i += 1;
        }
        assert(self@.items =~= Seq::new(before.items.len(), |i: int| before.items[i].cancelled()));
        assert(views(out@) =~= Seq::new(
            (before.items.len() - before.next) as nat,
            |i: int| cancelled_outcome(before.items[before.next + i].target),
        ));
        out
    }

    /// Adds to `out` one cancelled outcome for each target that was not
    /// expanded.
    fn add_unexpanded(&self, out: Vec<ItemOutcome>) -> (all: Vec<ItemOutcome>)
        requires
            self.cursor <= self.targets.len(),
        ensures
            views(all@) == views(out@) + self@.unexpanded(),
    {
        let ghost first = views(out@);
        let mut all = out;
        let mut j: usize = self.cursor;
        while j < self.targets.len()
            invariant
                self.cursor <= j <= self.targets.len(),
                all.len() == first.len() + (j - self.cursor),
                forall|k: int| 0 <= k < first.len() ==> (#[trigger] all@[k])@ == first[k],
                forall|k: int|
                    first.len() <= k < all.len() ==> (#[trigger] all@[k])@ == cancelled_outcome(
                        self.targets@[self.cursor + (k - first.len())]@,
                    ),
            decreases self.targets.len() - j,
        {
            all.push(ItemOutcome { target: self.targets[j].clone(), result: ItemResult::Cancelled });
            j += 1;
        }
        all
    }

    /// Cancels the batch and lists the outcomes that the cancellation
    /// records.
    ///
    /// Nothing is started after a cancellation. Every item that waited ends
    /// as cancelled, and so does every target that was not yet expanded into
    /// items. An item that runs is not interrupted: it ends by the answers to
    /// its own calls, and the batch is completed when the last of them has
    /// ended. Outcomes that were recorded stay as they are. Cancelling a
    /// completed batch changes nothing.
    pub fn cancel(&mut self) -> (out: Vec<ItemOutcome>)
        requires
            old(self).wf(),
        ensures
            final(self).wf(),
            final(self)@ == old(self)@.stopped(),
            views(out@) == old(self)@.stopped_outcomes(),
    {
        if self.phase == Phase::Completed {
            let out: Vec<ItemOutcome> = Vec::new();
            return out;
        }
        let ghost before = self@;
        proof {
            lemma_stopped(before);
        }
        let waiting = self.cancel_waiting();
        let out = self.add_unexpanded(waiting);
        proof {
            assert forall|i: int| 0 <= i < self@.items.len() implies (#[trigger] self@.items[i]).is_running()
                == before.items[i].is_running() by {}
            lemma_running_same(self@.items, before.items);
        }
        self.next = self.tasks.len();
        self.cancelled = true;
        if self.in_flight == 0 {
            self.phase = Phase::Completed;
        } else {
            self.phase = Phase::Dispatching;
        }
        out
    }

    /// Lists the outcomes of the items, in order.
    fn item_outcomes(&self) -> (out: Vec<ItemOutcome>)
        requires
            self.tasks.len() == self.states.len(),
            all_done(self@.items),
        ensures
            views(out@) == Seq::new(self@.items.len(), |i: int| self@.items[i].outcome()),
    {
        let mut out: Vec<ItemOutcome> = Vec::new();
        let mut i: usize = 0;
        while i < self.tasks.len()
            invariant
                i <= self.tasks.len(),
                self.tasks.len() == self.states.len(),
                all_done(self@.items),
                out.len() == i,
                forall|k: int| 0 <= k < i ==> (#[trigger] out@[k])@ == self@.items[k].outcome(),
            decreases self.tasks.len() - i,
        {
            assert(self@.items[i as int].state is Done);
            let result = match &self.states[i] {
                ItemState::Done(result) => result.clone(),
                _ => unreached(),
            };
            out.push(ItemOutcome { target: self.tasks[i].target.clone(), result });
            i += 1;
        }
        out
    }

    /// Ends a completed batch and hands out its one result: the outcome of
    /// every item, in the order of the items, then a cancelled outcome for
    /// each target that a cancellation kept from being expanded, and the
    /// status that these outcomes amount to. A batch that is not completed
    /// comes back unchanged.
    pub fn conclude(self) -> (r: Result<BatchResult, Batch>)
        requires
            self.wf(),
        ensures
            r is Ok <==> self@.phase == Phase::Completed,
            match r {
                Ok(result) => {
                    &&& result@.outcomes == self@.outcomes()
                    &&& result@.status == status_of(self@.outcomes())
                },
                Err(batch) => batch.wf() && batch@ == self@,
            },
    {
        if self.phase != Phase::Completed {
            return Err(self);
        }
        let items = self.item_outcomes();
        let all = self.add_unexpanded(items);
        Ok(BatchResult::collect(all))
    }
}

} // verus!
