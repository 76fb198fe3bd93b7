//! The decisions of a single-threaded executor. Tasks are kept by id in a
//! map; the ids of tasks that are ready to be polled wait in a bounded FIFO
//! queue. Polling a task is left to the caller: `take_ready_task` hands out
//! the next task, and `complete_poll` takes it back after the poll.
use vstd::prelude::*;
use std::collections::BTreeMap;
use crossbeam::queue::ArrayQueue;
use crate::task_queue::{queue_items, queue_capacity, new_queue, queue_push, queue_pop, queue_is_full};

verus! {

broadcast use vstd::std_specs::btree::group_btree_axioms;

/// Number of task ids that the ready queue holds at most.
pub const TASK_QUEUE_CAPACITY: usize = 1024;

/// The tasks that have been spawned and are not running, by id.
pub struct ExecutorInner<T> {
    tasks: BTreeMap<u64, T>,
}

impl<T> ExecutorInner<T> {
    /// The spawned tasks, by id.
    pub closed spec fn tasks(&self) -> Map<u64, T> {
        self.tasks@
    }
}

impl<T> Default for ExecutorInner<T> {
    /// A table with no task in it.
    fn default() -> (inner: Self)
        ensures
            inner.tasks() == Map::<u64, T>::empty(),
    {
        ExecutorInner { tasks: BTreeMap::new() }
    }
}

/// What polling a task gave.
#[derive(Clone, Copy, Debug, PartialEq, Eq, Structural)]
pub enum PollOutcome {
    /// The task has finished.
    Ready,
    /// The task waits to be woken.
    Pending,
}

/// What the executor found at the head of its ready queue.
pub enum ReadyTask<T> {
    /// The ready queue was empty.
    Idle,
    /// The task with this id, taken out of the executor to be polled.
    Run(u64, T),
    /// This id was queued, but no task with it is held (it finished, or was
    /// taken out and not given back): the executor cannot go on.
    Missing(u64),
}

/// What taking the next ready task does to a ready queue and a task table:
/// the queue loses its oldest id, the table loses the task with that id, and
/// that task (or the fact that it is missing) is handed out.
pub open spec fn take_step<T>(queued: Seq<u64>, tasks: Map<u64, T>) -> (Seq<u64>, Map<u64, T>, ReadyTask<T>) {
    if queued.len() == 0 {
        (queued, tasks, ReadyTask::Idle)
    } else {
        let id = queued[0];
        if tasks.contains_key(id) {
            (queued.drop_first(), tasks.remove(id), ReadyTask::Run(id, tasks[id]))
        } else {
            (queued.drop_first(), tasks, ReadyTask::Missing(id))
        }
    }
}

/// What taking back a polled task does to the task table: a pending task
/// is held again under its id, a finished one is dropped.
pub open spec fn complete_step<T>(tasks: Map<u64, T>, task_id: u64, task: T, outcome: PollOutcome) -> Map<u64, T> {
    match outcome {
        PollOutcome::Ready => tasks,
        PollOutcome::Pending => tasks.insert(task_id, task),
    }
}

/// One step of the executor as its users drive it: spawning a task
/// (`add_task`), waking one (`wake`), taking the next ready task
/// (`take_ready_task`), or giving a polled task back (`complete_poll`).
pub enum ExecutorStep<T> {
    /// `add_task` with this id and task.
    Add(u64, T),
    /// `wake` of this id.
    Wake(u64),
    /// `take_ready_task`.
    Take,
    /// `complete_poll` with this id, task and outcome.
    Complete(u64, T, PollOutcome),
}

/// The id that taking a ready task serves: the id of the task handed out,
/// or of the task found missing; none when the queue was empty.
pub open spec fn served_id<T>(r: ReadyTask<T>) -> Seq<u64> {
    match r {
        ReadyTask::Idle => Seq::empty(),
        ReadyTask::Run(id, _) => seq![id],
        ReadyTask::Missing(id) => seq![id],
    }
}

/// The ready queue and task table after a sequence of steps, and the ids
/// served by its `Take` steps, in order.
pub open spec fn run_steps<T>(queued: Seq<u64>, tasks: Map<u64, T>, steps: Seq<ExecutorStep<T>>) -> (Seq<u64>, Map<u64, T>, Seq<u64>)
    decreases steps.len(),
{
    if steps.len() == 0 {
        (queued, tasks, Seq::empty())
    } else {
        let (q, m, served) = run_steps(queued, tasks, steps.drop_last());
        match steps.last() {
            ExecutorStep::Add(id, task) => (q.push(id), m.insert(id, task), served),
            ExecutorStep::Wake(id) => (q.push(id), m, served),
            ExecutorStep::Take => {
                let (q1, m1, r) = take_step(q, m);
                (q1, m1, served + served_id(r))
            },
            ExecutorStep::Complete(id, task, outcome) => (q, complete_step(m, id, task, outcome), served),
        }
    }
}

/// The ids that the `Add` and `Wake` steps of a sequence queue, in order.
pub open spec fn pushed_ids<T>(steps: Seq<ExecutorStep<T>>) -> Seq<u64>
    decreases steps.len(),
{
    if steps.len() == 0 {
        Seq::empty()
    } else {
        let before = pushed_ids(steps.drop_last());
        match steps.last() {
            ExecutorStep::Add(id, _) => before.push(id),
            ExecutorStep::Wake(id) => before.push(id),
            _ => before,
        }
    }
}

/// The ready queue after waking the task `task_id` `k` times.
pub open spec fn wake_times(queued: Seq<u64>, task_id: u64, k: nat) -> Seq<u64>
    decreases k,
{
    if k == 0 {
        queued
    } else {
        wake_times(queued, task_id, (k - 1) as nat).push(task_id)
    }
}

/// Task table plus ready queue.
pub struct Executor<T> {
    task_queue: ArrayQueue<u64>,
    inner: ExecutorInner<T>,
}

impl<T> Executor<T> {
    /// The ids of ready tasks, in the order in which they will be run.
    pub closed spec fn queued(&self) -> Seq<u64> {
        queue_items(self.task_queue)
    }

    /// How many ids the ready queue can hold.
    pub closed spec fn capacity(&self) -> nat {
        queue_capacity(self.task_queue)
    }

    /// The tasks that the executor holds, by id.
    pub closed spec fn tasks(&self) -> Map<u64, T> {
        self.inner.tasks()
    }

    /// The ready queue never holds more ids than its capacity.
    pub open spec fn wf(&self) -> bool {
        &&& self.queued().len() <= self.capacity()
        &&& self.capacity() == TASK_QUEUE_CAPACITY
    }

    /// Whether the ready queue has room for one more id.
    pub open spec fn has_room(&self) -> bool {
        self.queued().len() < self.capacity()
    }

    /// An executor with no task and an empty ready queue.
    pub fn new() -> (e: Self)
        ensures
            e.wf(),
            e.queued() == Seq::<u64>::empty(),
            e.tasks() == Map::<u64, T>::empty(),
    {
        Executor { task_queue: new_queue(TASK_QUEUE_CAPACITY), inner: ExecutorInner::default() }
    }

    /// Whether the ready queue is full, so that neither `add_task` nor
    /// `wake` may be called.
    pub fn is_full(&self) -> (r: bool)
        requires
            self.wf(),
        ensures
            r == !self.has_room(),
    {
        queue_is_full(&self.task_queue)
    }

    /// Adds a spawned task: it is held under its id (replacing a task that
    /// had the same id) and the id joins the back of the ready queue.
    pub fn add_task(&mut self, task_id: u64, task: T)
        requires
            old(self).wf(),
            old(self).has_room(),
        ensures
            final(self).wf(),
            final(self).tasks() == old(self).tasks().insert(task_id, task),
            final(self).queued() == old(self).queued().push(task_id),
    {
        self.inner.tasks.insert(task_id, task);
        let r = queue_push(&mut self.task_queue, task_id);
        match r {
            Ok(()) => {},
            Err(_) => {
                assert(false);
            },
        }
    }

    /// Wakes the task with this id: the id joins the back of the ready
    /// queue; the tasks held stay as they are.
    pub fn wake(&mut self, task_id: u64)
        requires
            old(self).wf(),
            old(self).has_room(),
        ensures
            final(self).wf(),
            final(self).tasks() == old(self).tasks(),
            final(self).queued() == old(self).queued().push(task_id),
    {
        let r = queue_push(&mut self.task_queue, task_id);
        match r {
            Ok(()) => {},
            Err(_) => {
                assert(false);
            },
        }
    }

    /// Takes the oldest ready id off the queue and the task with that id
    /// out of the executor, so that the caller can poll it.
    pub fn take_ready_task(&mut self) -> (r: ReadyTask<T>)
        requires
            old(self).wf(),
        ensures
            final(self).wf(),
            (final(self).queued(), final(self).tasks(), r) == take_step(old(self).queued(), old(self).tasks()),
            old(self).queued().len() == 0 ==> {
                &&& r is Idle
                &&& final(self).queued() == old(self).queued()
                &&& final(self).tasks() == old(self).tasks()
            },
            old(self).queued().len() > 0 ==> {
                let id = old(self).queued()[0];
                &&& final(self).queued() == old(self).queued().drop_first()
                &&& final(self).tasks() == old(self).tasks().remove(id)
                &&& (old(self).tasks().contains_key(id) ==> r == ReadyTask::Run(id, old(self).tasks()[id]))
                &&& (!old(self).tasks().contains_key(id) ==> r == ReadyTask::<T>::Missing(id))
            },
    {
        match queue_pop(&mut self.task_queue) {
            None => ReadyTask::Idle,
            Some(id) => match self.inner.tasks.remove(&id) {
                Some(task) => ReadyTask::Run(id, task),
                None => ReadyTask::Missing(id),
            },
        }
    }

    /// Takes back a task after it was polled: a pending task is held again
    /// under its id, a finished one is dropped.
    pub fn complete_poll(&mut self, task_id: u64, task: T, outcome: PollOutcome)
        requires
            old(self).wf(),
        ensures
            final(self).wf(),
            final(self).queued() == old(self).queued(),
            final(self).tasks() == complete_step(old(self).tasks(), task_id, task, outcome),
            outcome == PollOutcome::Ready ==> final(self).tasks() == old(self).tasks(),
            outcome == PollOutcome::Pending ==> final(self).tasks() == old(self).tasks().insert(task_id, task),
    {
        match outcome {
            PollOutcome::Ready => {},
            PollOutcome::Pending => {
                self.inner.tasks.insert(task_id, task);
            },
        }
    }
}

/// A spawned task is run: when the ready queue is empty, adding a task and
/// then taking the next ready task hands out that very task under its id,
/// leaves the queue empty and holds the other tasks as before.
pub proof fn law_spawned_task_runs_next<T>(queued: Seq<u64>, tasks: Map<u64, T>, task_id: u64, task: T)
    requires
        queued.len() == 0,
    ensures
        take_step(queued.push(task_id), tasks.insert(task_id, task)) == (
            Seq::<u64>::empty(),
            tasks.remove(task_id),
            ReadyTask::Run(task_id, task),
        ),
{
    assert(queued.push(task_id).drop_first() =~= Seq::<u64>::empty());
    assert(tasks.insert(task_id, task).remove(task_id) =~= tasks.remove(task_id));
}

/// Ready tasks run in the order in which they were queued: queueing one
/// more id behind others changes neither which task is run next nor what
/// happens to the table; the new id just stays at the back.
pub proof fn law_ready_queue_is_fifo<T>(queued: Seq<u64>, tasks: Map<u64, T>, task_id: u64)
    requires
        queued.len() > 0,
    ensures
        ({
            let (q1, m1, r1) = take_step(queued.push(task_id), tasks);
            let (q0, m0, r0) = take_step(queued, tasks);
            &&& q1 == q0.push(task_id)
            &&& m1 == m0
            &&& r1 == r0
        }),
{
    assert(queued.push(task_id).drop_first() =~= queued.drop_first().push(task_id));
}

/// Taking from an empty ready queue hands out nothing and changes nothing:
/// the queue stays empty and every waiting task stays in the table.
pub proof fn law_take_from_empty_queue_changes_nothing<T>(tasks: Map<u64, T>)
    ensures
        take_step(Seq::<u64>::empty(), tasks) == (Seq::<u64>::empty(), tasks, ReadyTask::<T>::Idle),
{
}

/// Taking from a non-empty ready queue serves its oldest id and nothing
/// else: that id leaves the front of the queue, the task held under it (if
/// any) is handed out and leaves the table, and every other id keeps its
/// entry, or its absence, exactly as before.
pub proof fn law_take_serves_oldest_only<T>(queued: Seq<u64>, tasks: Map<u64, T>)
    requires
        queued.len() > 0,
    ensures
        ({
            let (q, m, r) = take_step(queued, tasks);
            let id = queued[0];
            &&& q == queued.subrange(1, queued.len() as int)
            &&& !m.contains_key(id)
            &&& forall|k: u64| k != id ==> (#[trigger] m.contains_key(k) <==> tasks.contains_key(k))
            &&& forall|k: u64| k != id && tasks.contains_key(k) ==> #[trigger] m[k] == tasks[k]
            &&& (tasks.contains_key(id) ==> r == ReadyTask::Run(id, tasks[id]))
            &&& (!tasks.contains_key(id) ==> r == ReadyTask::<T>::Missing(id))
        }),
{
}

/// Giving back a finished task leaves the table exactly as it was: the
/// finished task is dropped, and no id, its own or another, is added or
/// changed.
pub proof fn law_finished_task_changes_nothing<T>(tasks: Map<u64, T>, task_id: u64, task: T)
    ensures
        complete_step(tasks, task_id, task, PollOutcome::Ready) == tasks,
        !tasks.contains_key(task_id) ==> complete_step(tasks, task_id, task, PollOutcome::Ready) == tasks.remove(task_id),
{
    if !tasks.contains_key(task_id) {
        assert(tasks.remove(task_id) =~= tasks);
    }
}

/// Giving back a pending task holds it under its own id, and every other id
/// keeps its entry, or its absence, exactly as before.
pub proof fn law_pending_task_is_held_under_its_id<T>(tasks: Map<u64, T>, task_id: u64, task: T)
    ensures
        ({
            let m = complete_step(tasks, task_id, task, PollOutcome::Pending);
            &&& m.contains_key(task_id)
            &&& m[task_id] == task
            &&& forall|k: u64| k != task_id ==> (#[trigger] m.contains_key(k) <==> tasks.contains_key(k))
            &&& forall|k: u64| k != task_id && tasks.contains_key(k) ==> #[trigger] m[k] == tasks[k]
        }),
{
}

/// Every wake counts: waking a task `k` times puts `k` copies of its id at
/// the back of the ready queue, so it will be handed out `k` times.
pub proof fn law_each_wake_queues_one_copy(queued: Seq<u64>, task_id: u64, k: nat)
    ensures
        wake_times(queued, task_id, k) == queued + Seq::new(k, |i: int| task_id),
    decreases k,
{
    if k > 0 {
        law_each_wake_queues_one_copy(queued, task_id, (k - 1) as nat);
        assert(queued + Seq::new(k, |i: int| task_id) =~= (queued + Seq::new((k - 1) as nat, |i: int| task_id)).push(task_id));
    }
}

/// The run loop serves ids in FIFO order: over any sequence of spawns,
/// wakes, takes and give-backs, the ids served, followed by the ids still
/// queued, are exactly the ids queued at the start followed by the ids
/// pushed, in push order. So each pushed copy is served once, in order, and
/// a task that is not woken again is not served again.
pub proof fn law_run_loop_is_fifo<T>(queued: Seq<u64>, tasks: Map<u64, T>, steps: Seq<ExecutorStep<T>>)
    ensures
        ({
            let (q, m, served) = run_steps(queued, tasks, steps);
            served + q == queued + pushed_ids(steps)
        }),
    decreases steps.len(),
{
    if steps.len() > 0 {
        let init = steps.drop_last();
        law_run_loop_is_fifo(queued, tasks, init);
        let (q, m, served) = run_steps(queued, tasks, init);
        match steps.last() {
            ExecutorStep::Add(id, task) => {
                assert(served + q.push(id) =~= (served + q).push(id));
            },
            ExecutorStep::Wake(id) => {
                assert(served + q.push(id) =~= (served + q).push(id));
            },
            ExecutorStep::Take => {
                if q.len() > 0 {
                    assert(served + seq![q[0]] + q.drop_first() =~= served + q);
                } else {
                    assert(served + Seq::<u64>::empty() =~= served);
                }
            },
            ExecutorStep::Complete(id, task, outcome) => {},
        }
    }
}

/// A task that is still pending after its poll is kept: taking it out and
/// giving it back as pending leaves the task table as it was.
pub proof fn law_pending_task_is_kept<T>(queued: Seq<u64>, tasks: Map<u64, T>)
    requires
        queued.len() > 0,
        tasks.contains_key(queued[0]),
    ensures
        ({
            let (q1, m1, r) = take_step(queued, tasks);
            &&& r is Run
            &&& complete_step(m1, r->Run_0, r->Run_1, PollOutcome::Pending) == tasks
            &&& q1 == queued.drop_first()
        }),
{
    let id = queued[0];
    assert(tasks.remove(id).insert(id, tasks[id]) =~= tasks);
}

/// A finished task is dropped: once taken out and given back as ready, no
/// task is held under its id any more.
pub proof fn law_finished_task_is_dropped<T>(queued: Seq<u64>, tasks: Map<u64, T>)
    requires
        queued.len() > 0,
        tasks.contains_key(queued[0]),
    ensures
        ({
            let (q1, m1, r) = take_step(queued, tasks);
            &&& r is Run
            &&& !complete_step(m1, r->Run_0, r->Run_1, PollOutcome::Ready).contains_key(queued[0])
        }),
{
}

} // verus!
