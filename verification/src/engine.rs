//! The Task Engine: owns the Task Store and the Pending Queue. Callers
//! submit work items and poll their status by identity; the dispatch loop
//! takes identities out of the queue and advances each task through its
//! lifecycle, one legal step at a time.
//!
//! In the concurrent setting the engine sits behind one mutual-exclusion
//! lock and every method here is one of its short critical sections; the
//! waiting (empty queue, simulated work delay) happens between the calls,
//! outside the lock.

use vstd::prelude::*;

use crate::queue::{PendingQueue, QUEUE_CAPACITY};
use crate::store::TaskStore;
use crate::task::{status_step, terminal, CreateTaskRequest, StatusView, Task, TaskStatus, TaskView};

verus! {

/// Why an engine operation was refused. An identity that was never
/// submitted is not an error: lookups surface it as absence.
#[derive(Debug, PartialEq, Eq, Structural)]
pub enum EngineError {
    /// A submission found the Pending Queue at capacity.
    QueueSaturated,
}

/// Mathematical image of the engine: the store's mapping and the queue's
/// sequence of pending identities.
pub struct EngineView {
    pub store: Map<u128, TaskView>,
    pub queue: Seq<u128>,
}

/// A record keeps its identity, name and priority and either keeps its
/// status or takes exactly one legal lifecycle step.
pub open spec fn record_evolves(pre: TaskView, post: TaskView) -> bool {
    &&& post.id == pre.id
    &&& post.name == pre.name
    &&& post.priority == pre.priority
    &&& (post.status == pre.status || status_step(pre.status, post.status))
}

/// Between the two snapshots, no record is lost and each record present in
/// the first keeps its identity, name and priority while its status takes
/// at most one legal lifecycle step. Every mutation of task state that the
/// engine offers, other than a submission, promises this relation.
pub open spec fn store_evolves(pre: Map<u128, TaskView>, post: Map<u128, TaskView>) -> bool {
    &&& pre.dom().subset_of(post.dom())
    &&& forall|id: u128| #[trigger] pre.contains_key(id) ==> record_evolves(pre[id], post[id])
}

/// A status reachable from `pre` by any number of legal lifecycle steps.
pub open spec fn status_reachable(pre: StatusView, post: StatusView) -> bool {
    ||| post == pre
    ||| status_step(pre, post)
    ||| (pre is Pending && terminal(post))
}

/// Like `record_evolves`, over any number of legal lifecycle steps.
pub open spec fn record_reachable(pre: TaskView, post: TaskView) -> bool {
    &&& post.id == pre.id
    &&& post.name == pre.name
    &&& post.priority == pre.priority
    &&& status_reachable(pre.status, post.status)
}

/// Like `store_evolves`, over any number of legal lifecycle steps: the
/// relation that holds between any two snapshots of the store separated by
/// a run of status mutations.
pub open spec fn store_reachable(pre: Map<u128, TaskView>, post: Map<u128, TaskView>) -> bool {
    &&& pre.dom().subset_of(post.dom())
    &&& forall|id: u128| #[trigger] pre.contains_key(id) ==> record_reachable(pre[id], post[id])
}

/// One legal step is a special case of reachability.
pub proof fn lemma_evolves_reachable(pre: Map<u128, TaskView>, post: Map<u128, TaskView>)
    requires
        store_evolves(pre, post),
    ensures
        store_reachable(pre, post),
{
}

/// Reachability composes: chaining two runs of legal lifecycle steps gives
/// a run of legal lifecycle steps.
pub proof fn lemma_reachable_trans(
    a: Map<u128, TaskView>,
    b: Map<u128, TaskView>,
    c: Map<u128, TaskView>,
)
    requires
        store_reachable(a, b),
        store_reachable(b, c),
    ensures
        store_reachable(a, c),
{
    assert forall|id: u128| #[trigger] a.contains_key(id) implies record_reachable(
        a[id],
        c[id],
    ) by {
        assert(b.contains_key(id));
    }
}

/// Once a record is observed terminal, no run of legal lifecycle steps can
/// change it again: a terminal read is idempotent.
pub proof fn lemma_terminal_stable(pre: Map<u128, TaskView>, post: Map<u128, TaskView>, id: u128)
    requires
        store_reachable(pre, post),
        pre.contains_key(id),
        terminal(pre[id].status),
    ensures
        post.contains_key(id),
        post[id] == pre[id],
{
}

/// No single legal transition takes a `Pending` task straight to a terminal
/// status: the step out of `Pending` can only reach `Processing`.
pub proof fn lemma_pending_never_skips(
    pre: Map<u128, TaskView>,
    post: Map<u128, TaskView>,
    id: u128,
)
    requires
        store_evolves(pre, post),
        pre.contains_key(id),
        pre[id].status is Pending,
    ensures
        post[id].status is Pending || post[id].status is Processing,
{
}

/// Recording a fresh identity disturbs no existing record: a submission
/// whose identity is not yet in the store is itself a legal evolution of
/// the store, so terminal stability carries across it.
pub proof fn lemma_fresh_insert_evolves(pre: Map<u128, TaskView>, id: u128, t: TaskView)
    requires
        !pre.contains_key(id),
    ensures
        store_evolves(pre, pre.insert(id, t)),
{
}

/// The record that a batch submission writes for `ids[j]`: the task built
/// from the item at the same position, still `Pending`.
pub open spec fn batch_record(items: Seq<CreateTaskRequest>, ids: Seq<u128>, j: int) -> TaskView {
    TaskView {
        id: ids[j],
        name: items[j].name@,
        priority: items[j].priority,
        status: StatusView::Pending,
    }
}

/// Whether position `j` holds the last occurrence of its identity in `ids`.
pub open spec fn last_occurrence(ids: Seq<u128>, j: int) -> bool {
    forall|l: int| j < l < ids.len() ==> ids[l] != ids[j]
}

/// The engine: the Task Store plus the Pending Queue of identities waiting
/// for dispatch.
pub struct TaskEngine {
    store: TaskStore,
    queue: PendingQueue,
}

impl View for TaskEngine {
    type V = EngineView;

    closed spec fn view(&self) -> EngineView {
        EngineView { store: self.store@, queue: self.queue@ }
    }
}

/// Relies on `uuid::Uuid::new_v4` (and `Uuid::as_u128`) for identity
/// generation: the identifier is drawn at random, so nothing is promised of
/// its value.
#[verifier::external_body]
fn fresh_task_id() -> u128 {
    uuid::Uuid::new_v4().as_u128()
}

impl TaskEngine {
    /// The store's and the queue's own invariants hold, and every queued
    /// identity corresponds to a record already present in the store (the
    /// enqueue happens only after the store insert).
    pub closed spec fn wf(&self) -> bool {
        &&& self.store.wf()
        &&& self.queue.wf()
        &&& forall|i: int|
            0 <= i < self.queue@.len() ==> self.store@.contains_key(#[trigger] self.queue@[i])
    }

    pub fn new() -> (e: TaskEngine)
        ensures
            e.wf(),
            e@.store == Map::<u128, TaskView>::empty(),
            e@.queue == Seq::<u128>::empty(),
    {
        TaskEngine { store: TaskStore::new(), queue: PendingQueue::new() }
    }

    /// The submission path once an identity is in hand: records the task
    /// with status `Pending`, then enqueues the identity — unless the
    /// Pending Queue is at capacity, in which case the submission is
    /// refused whole, with nothing recorded. Verified for every identity;
    /// `submit` draws the identity at random and calls this.
    pub fn submit_with_id(&mut self, id: u128, name: String, priority: i32) -> (r: Result<
        (),
        EngineError,
    >)
        requires
            old(self).wf(),
        ensures
            final(self).wf(),
            r is Ok <==> old(self)@.queue.len() < QUEUE_CAPACITY,
            r is Ok ==> final(self)@.store == old(self)@.store.insert(
                id,
                (TaskView { id, name: name@, priority, status: StatusView::Pending }),
            ) && final(self)@.queue == old(self)@.queue.push(id),
            r is Err ==> *final(self) == *old(self) && r == Err::<(), EngineError>(
                EngineError::QueueSaturated,
            ),
    {
        if self.queue.is_full() {
            Err(EngineError::QueueSaturated)
        } else {
            let task = Task::new(id, name, priority);
            self.store.insert(task);
            let enqueued = self.queue.push_back(id);
            proof {
                assert(enqueued);
                assert forall|i: int| 0 <= i < self.queue@.len() implies self.store@.contains_key(
                    #[trigger] self.queue@[i],
                ) by {
                    if i < old(self).queue@.len() {
                        assert(old(self).store@.contains_key(self.queue@[i]));
                    }
                }
            }
            Ok(())
        }
    }

    /// Submits one work item: draws a fresh identity, records the task with
    /// status `Pending`, enqueues the identity, and returns the identity at
    /// once, without waiting for processing to begin. When the Pending
    /// Queue is at capacity the submission is refused with `QueueSaturated`
    /// rather than blocking the caller.
    pub fn submit(&mut self, name: String, priority: i32) -> (r: Result<u128, EngineError>)
        requires
            old(self).wf(),
        ensures
            final(self).wf(),
            r is Ok <==> old(self)@.queue.len() < QUEUE_CAPACITY,
            r matches Ok(id) ==> final(self)@.store == old(self)@.store.insert(
                id,
                (TaskView { id, name: name@, priority, status: StatusView::Pending }),
            ) && final(self)@.queue == old(self)@.queue.push(id)
                && final(self)@.store.contains_key(id)
                && final(self)@.store[id].status is Pending,
            r is Err ==> *final(self) == *old(self) && r == Err::<u128, EngineError>(
                EngineError::QueueSaturated,
            ),
    {
        let id = fresh_task_id();
        match self.submit_with_id(id, name, priority) {
            Ok(()) => Ok(id),
            Err(e) => Err(e),
        }
    }

    /// Pure read-through to the Task Store: absence for an identity never
    /// submitted — not an error and not a default record — otherwise a copy
    /// of the current record, whatever its lifecycle state.
    pub fn get_status(&self, id: u128) -> (r: Option<Task>)
        requires
            self.wf(),
        ensures
            match r {
                Some(t) => self@.store.contains_key(id) && t@ == self@.store[id],
                None => !self@.store.contains_key(id),
            },
    {
        self.store.get(id)
    }

    /// The dispatch loop's take: the identity that has waited longest, or
    /// absence when nothing is pending. Every identity handed out has its
    /// record in the store.
    pub fn dequeue(&mut self) -> (r: Option<u128>)
        requires
            old(self).wf(),
        ensures
            final(self).wf(),
            final(self)@.store == old(self)@.store,
            match r {
                Some(id) => old(self)@.queue.len() > 0 && id == old(self)@.queue[0]
                    && final(self)@.queue == old(self)@.queue.drop_first()
                    && final(self)@.store.contains_key(id),
                None => old(self)@.queue.len() == 0 && *final(self) == *old(self),
            },
    {
        let r = self.queue.pop_front();
        proof {
            if let Some(id) = r {
                assert(id == old(self).queue@[0]);
                assert forall|i: int| 0 <= i < self.queue@.len() implies self.store@.contains_key(
                    #[trigger] self.queue@[i],
                ) by {
                    assert(self.queue@[i] == old(self).queue@[i + 1]);
                }
            }
        }
        r
    }

    /// The first step of a worker unit: moves the task from `Pending` to
    /// `Processing`. For an absent identity, or a task no longer `Pending`,
    /// it reports `false` and changes nothing: no transition ever skips a
    /// state or leaves a terminal one.
    pub fn begin_processing(&mut self, id: u128) -> (r: bool)
        requires
            old(self).wf(),
        ensures
            final(self).wf(),
            final(self)@.queue == old(self)@.queue,
            store_evolves(old(self)@.store, final(self)@.store),
            final(self)@.store.dom() == old(self)@.store.dom(),
            r == (old(self)@.store.contains_key(id) && old(self)@.store[id].status is Pending),
            r ==> final(self)@.store == old(self)@.store.insert(
                id,
                (TaskView { status: StatusView::Processing, ..old(self)@.store[id] }),
            ),
            !r ==> *final(self) == *old(self),
    {
        self.advance(id, TaskStatus::Processing)
    }

    /// The final step of a worker unit when the work succeeds: moves the
    /// task from `Processing` to `Completed`. For an absent identity, or a
    /// task not currently `Processing`, it reports `false` and changes
    /// nothing.
    pub fn complete_task(&mut self, id: u128) -> (r: bool)
        requires
            old(self).wf(),
        ensures
            final(self).wf(),
            final(self)@.queue == old(self)@.queue,
            store_evolves(old(self)@.store, final(self)@.store),
            final(self)@.store.dom() == old(self)@.store.dom(),
            r == (old(self)@.store.contains_key(id) && old(self)@.store[id].status is Processing),
            r ==> final(self)@.store == old(self)@.store.insert(
                id,
                (TaskView { status: StatusView::Completed, ..old(self)@.store[id] }),
            ),
            !r ==> *final(self) == *old(self),
    {
        self.advance(id, TaskStatus::Completed)
    }

    /// The final step of a worker unit when the work fails: records
    /// `Failed` with the reason on the task itself — never dropped, and
    /// never leaked into any other task's record. For an absent identity,
    /// or a task not currently `Processing`, it reports `false` and changes
    /// nothing.
    pub fn fail_task(&mut self, id: u128, reason: String) -> (r: bool)
        requires
            old(self).wf(),
        ensures
            final(self).wf(),
            final(self)@.queue == old(self)@.queue,
            store_evolves(old(self)@.store, final(self)@.store),
            final(self)@.store.dom() == old(self)@.store.dom(),
            r == (old(self)@.store.contains_key(id) && old(self)@.store[id].status is Processing),
            r ==> final(self)@.store == old(self)@.store.insert(
                id,
                (TaskView { status: StatusView::Failed(reason@), ..old(self)@.store[id] }),
            ),
            !r ==> *final(self) == *old(self),
    {
        self.advance(id, TaskStatus::Failed(reason))
    }

    /// The one place a status changes: applies `next` to the task keyed by
    /// `id` exactly when that is a legal lifecycle step from its current
    /// status.
    fn advance(&mut self, id: u128, next: TaskStatus) -> (r: bool)
        requires
            old(self).wf(),
            !(next@ is Pending),
        ensures
            final(self).wf(),
            final(self)@.queue == old(self)@.queue,
            store_evolves(old(self)@.store, final(self)@.store),
            final(self)@.store.dom() == old(self)@.store.dom(),
            r == (old(self)@.store.contains_key(id) && status_step(
                old(self)@.store[id].status,
                next@,
            )),
            r ==> final(self)@.store == old(self)@.store.insert(
                id,
                (TaskView { status: next@, ..old(self)@.store[id] }),
            ),
            !r ==> *final(self) == *old(self),
    {
        let step_ok = match self.store.get(id) {
            Some(t) => match (&t.status, &next) {
                (TaskStatus::Pending, TaskStatus::Processing) => true,
                (TaskStatus::Processing, TaskStatus::Completed) => true,
                (TaskStatus::Processing, TaskStatus::Failed(_)) => true,
                _ => false,
            },
            None => false,
        };
        if step_ok {
            proof {
                self.store.lemma_key_matches_record(id);
            }
            let updated = self.store.update_status(id, next);
            proof {
                assert(updated);
                assert(self@.store.dom() =~= old(self)@.store.dom());
                assert forall|i: int| 0 <= i < self.queue@.len() implies self.store@.contains_key(
                    #[trigger] self.queue@[i],
                ) by {
                    assert(old(self).store@.contains_key(self.queue@[i]));
                }
            }
            true
        } else {
            false
        }
    }

    /// How many identities are waiting for dispatch.
    pub fn pending_count(&self) -> (n: usize)
        ensures
            n == self@.queue.len(),
    {
        self.queue.len()
    }

    /// Applies `submit` to every element, in input order. The returned
    /// identities correspond one-to-one, and in order, with the items that
    /// the queue had room for — every item, when there is room for all.
    /// Submissions are independent: when the queue saturates mid-batch,
    /// nothing already submitted is rolled back, and the remaining items
    /// are refused.
    pub fn batch_submit(&mut self, items: Vec<CreateTaskRequest>) -> (r: Vec<u128>)
        requires
            old(self).wf(),
        ensures
            final(self).wf(),
            old(self)@.queue.len() + items@.len() <= QUEUE_CAPACITY ==> r@.len()
                == items@.len(),
            old(self)@.queue.len() + items@.len() > QUEUE_CAPACITY ==> r@.len()
                == QUEUE_CAPACITY - old(self)@.queue.len(),
            final(self)@.queue == old(self)@.queue + r@,
            forall|j: int| 0 <= j < r@.len() ==> final(self)@.store.contains_key(#[trigger] r@[j]),
            forall|id: u128| #[trigger] final(self)@.store.contains_key(id) == (old(
                self,
            )@.store.contains_key(id) || r@.contains(id)),
            forall|id: u128|
                #![trigger old(self)@.store[id]]
                old(self)@.store.contains_key(id) && !r@.contains(id) ==> final(self)@.store[id]
                    == old(self)@.store[id],
            (forall|a: int, b: int| 0 <= a < b < r@.len() ==> r@[a] != r@[b]) ==> (forall|j: int|
                0 <= j < r@.len() ==> final(self)@.store[r@[j]] == batch_record(items@, r@, j)),
    {
        let ghost init = *self;
        let mut out: Vec<u128> = Vec::new();
        let mut k: usize = 0;
        while k < items.len()
            invariant
                self.wf(),
                init.wf(),
                k <= items@.len(),
                self@.queue == init@.queue + out@,
                init@.queue.len() + out@.len() <= QUEUE_CAPACITY,
                out@.len() == (if init@.queue.len() + k <= QUEUE_CAPACITY {
                    k as int
                } else {
                    QUEUE_CAPACITY - init@.queue.len()
                }),
                forall|j: int| 0 <= j < out@.len() ==> self@.store.contains_key(#[trigger] out@[j]),
                forall|id: u128| #[trigger] self@.store.contains_key(id) == (init@.store.contains_key(
                    id,
                ) || out@.contains(id)),
                forall|id: u128|
                    #![trigger init@.store[id]]
                    init@.store.contains_key(id) && !out@.contains(id) ==> self@.store[id]
                        == init@.store[id],
                forall|j: int|
                    #![trigger batch_record(items@, out@, j)]
                    0 <= j < out@.len() && last_occurrence(out@, j) ==> self@.store[out@[j]]
                        == batch_record(items@, out@, j),
            decreases items@.len() - k,
        {
            let ghost pre = *self;
            let ghost out_pre = out@;
            let item = &items[k];
            match self.submit(item.name.clone(), item.priority) {
                Ok(id) => {
                    out.push(id);
                    proof {
                        assert(self@.queue =~= init@.queue + out@);
                        assert forall|id2: u128| #[trigger] self@.store.contains_key(id2) == (
                        init@.store.contains_key(id2) || out@.contains(id2)) by {
                            assert(out@[out@.len() - 1] == id);
                            if out@.contains(id2) {
                                let j = choose|j: int|
                                    0 <= j < out@.len() && out@[j] == id2;
                                if j < out_pre.len() {
                                    assert(out_pre.contains(id2)) by {
                                        assert(out_pre[j] == id2);
                                    }
                                }
                            }
                            if out_pre.contains(id2) {
                                let j = choose|j: int|
                                    0 <= j < out_pre.len() && out_pre[j] == id2;
                                assert(out@[j] == id2);
                            }
                        }
                        assert forall|id2: u128|
                            init@.store.contains_key(id2) && !out@.contains(id2) implies self@.store[id2]
                            == init@.store[id2] by {
                            assert(!out_pre.contains(id2)) by {
                                if out_pre.contains(id2) {
                                    let j = choose|j: int|
                                        0 <= j < out_pre.len() && out_pre[j] == id2;
                                    assert(out@[j] == id2);
                                }
                            }
                            assert(id2 != id) by {
                                assert(out@[out@.len() - 1] == id);
                            }
                        }
                        assert forall|j: int|
                            #![trigger batch_record(items@, out@, j)]
                            0 <= j < out@.len() && last_occurrence(out@, j) implies self@.store[out@[j]]
                            == batch_record(items@, out@, j) by {
                            if j == out@.len() - 1 {
                                assert(out@[j] == id);
                                assert(self@.store[id] == batch_record(items@, out@, j));
                            } else {
                                assert(out_pre[j] == out@[j]);
                                assert(out@[j] != id) by {
                                    assert(out@[out@.len() - 1] == id);
                                }
                                assert(last_occurrence(out_pre, j)) by {
                                    assert forall|l: int| j < l < out_pre.len() implies out_pre[l]
                                        != out_pre[j] by {
                                        assert(out@[l] == out_pre[l]);
                                    }
                                }
                                assert(batch_record(items@, out_pre, j) == batch_record(
                                    items@,
                                    out@,
                                    j,
                                ));
                            }
                        }
                    }
                },
                Err(_) => {
                },
            }
            k = k + 1;
        }
        proof {
            if (forall|a: int, b: int| 0 <= a < b < out@.len() ==> out@[a] != out@[b]) {
                assert forall|j: int| 0 <= j < out@.len() implies self@.store[out@[j]]
                    == batch_record(items@, out@, j) by {
                    assert(last_occurrence(out@, j));
                    let expected = batch_record(items@, out@, j);
                    assert(self@.store[out@[j]] == expected);
                }
            }
        }
        out
    }

    /// The dispatch loop, run until nothing is pending: repeatedly takes
    /// the identity that has waited longest and advances that task from
    /// `Pending` through `Processing` to `Completed`. A task that is no
    /// longer `Pending` when its identity comes up (a duplicate submission
    /// already handled, a failure already recorded) is left untouched; no
    /// other record changes at all.
    pub fn drain(&mut self)
        requires
            old(self).wf(),
        ensures
            final(self).wf(),
            final(self)@.queue == Seq::<u128>::empty(),
            final(self)@.store.dom() == old(self)@.store.dom(),
            store_reachable(old(self)@.store, final(self)@.store),
            forall|i: int|
                0 <= i < old(self)@.queue.len() && old(self)@.store[#[trigger] old(
                    self,
                )@.queue[i]].status is Pending ==> final(self)@.store[old(self)@.queue[i]]
                    == (TaskView {
                    status: StatusView::Completed,
                    ..old(self)@.store[old(self)@.queue[i]]
                }),
            forall|id: u128|
                #![trigger final(self)@.store[id]]
                old(self)@.store.contains_key(id) && !(old(self)@.queue.contains(id) && old(
                    self,
                )@.store[id].status is Pending) ==> final(self)@.store[id] == old(self)@.store[id],
    {
        let ghost init = *self;
        let ghost mut k: int = 0;
        while self.pending_count() > 0
            invariant
                self.wf(),
                init.wf(),
                0 <= k <= init@.queue.len(),
                self@.queue == init@.queue.skip(k),
                self@.store.dom() == init@.store.dom(),
                forall|i: int|
                    0 <= i < k && init@.store[#[trigger] init@.queue[i]].status is Pending
                        ==> self@.store[init@.queue[i]] == (TaskView {
                        status: StatusView::Completed,
                        ..init@.store[init@.queue[i]]
                    }),
                forall|id: u128|
                    #![trigger self@.store[id]]
                    init@.store.contains_key(id) && !((exists|i: int|
                        0 <= i < k && init@.queue[i] == id) && init@.store[id].status is Pending)
                        ==> self@.store[id] == init@.store[id],
            decreases self@.queue.len(),
        {
            let ghost pre = *self;
            let next = self.dequeue();
            if let Some(id) = next {
                proof {
                    assert(pre@.queue[0] == init@.queue[k]);
                    assert(id == init@.queue[k]);
                }
                if self.begin_processing(id) {
                    let completed = self.complete_task(id);
                    proof {
                        assert(completed);
                    }
                }
                proof {
                    assert(self@.queue =~= init@.queue.skip(k + 1));
                    assert(self@.store.dom() =~= init@.store.dom());
                    k = k + 1;
                    assert forall|i: int|
                        0 <= i < k && init@.store[#[trigger] init@.queue[i]].status is Pending
                            implies self@.store[init@.queue[i]] == (TaskView {
                            status: StatusView::Completed,
                            ..init@.store[init@.queue[i]]
                        }) by {
                        let qi = init@.queue[i];
                        if i < k - 1 {
                            if qi == id {
                                assert(exists|l: int| 0 <= l < k - 1 && init@.queue[l] == qi) by {
                                    assert(init@.queue[i] == qi);
                                }
                            }
                        } else {
                            assert(qi == id);
                            assert(exists|l: int| 0 <= l < init@.queue.len() && init@.queue[l]
                                == qi) by {
                                assert(init@.queue[i] == qi);
                            }
                        }
                    }
                    assert forall|id2: u128|
                        #![trigger self@.store[id2]]
                        init@.store.contains_key(id2) && !((exists|i: int|
                            0 <= i < k && init@.queue[i] == id2) && init@.store[id2].status
                            is Pending) implies self@.store[id2] == init@.store[id2] by {
                        if id2 == id {
                            assert(exists|i: int| 0 <= i < k && init@.queue[i] == id2) by {
                                assert(init@.queue[k - 1] == id2);
                            }
                        }
                    }
                }
            }
        }
        proof {
            assert(self@.queue =~= Seq::<u128>::empty());
            assert forall|id: u128| #[trigger] init@.store.contains_key(id) implies
                record_reachable(init@.store[id], self@.store[id]) by {
                if init@.queue.contains(id) && init@.store[id].status is Pending {
                    let i = choose|i: int| 0 <= i < init@.queue.len() && init@.queue[i] == id;
                    assert(self@.store[init@.queue[i]] == (TaskView {
                        status: StatusView::Completed,
                        ..init@.store[init@.queue[i]]
                    }));
                }
            }
            assert forall|id: u128|
                #![trigger self@.store[id]]
                init@.store.contains_key(id) && !(init@.queue.contains(id) && init@.store[id].status
                    is Pending) implies self@.store[id] == init@.store[id] by {
                if exists|i: int| 0 <= i < k && init@.queue[i] == id {
                    let i = choose|i: int| 0 <= i < k && init@.queue[i] == id;
                    assert(init@.queue.contains(id)) by {
                        assert(init@.queue[i] == id);
                    }
                }
            }
        }
    }
}

} // verus!
