//! The hand-off between one producer and a fixed pool of workers.
//!
//! A single slot lies between them. The producer may post a task only into
//! an empty slot, so at most one task ever waits; a worker that finds a task
//! takes it and leaves the slot empty; closing the pool is possible only
//! once no task waits, and is final. The waiting itself (a lock and two
//! conditions) belongs to the driver: each function here is what a thread
//! does once it holds the lock, and its result says whether to wait, to wake
//! someone, or to leave.

use vstd::prelude::*;
use vstd::string::*;

verus! {

/// The slot between the producer and the workers.
pub enum PoolQueueSlot<Task> {
    /// The pool is closed. Nothing follows this state.
    Done,
    /// Nothing waits.
    Empty,
    /// One task waits for a worker.
    Todo(Task),
}

impl<Task> PoolQueueSlot<Task> {
    /// What is left in a slot once its content was taken: a task leaves the
    /// slot empty, the other two states stay.
    pub open spec fn emptied(self) -> PoolQueueSlot<Task> {
        match self {
            PoolQueueSlot::Todo(_) => PoolQueueSlot::Empty,
            PoolQueueSlot::Done => PoolQueueSlot::Done,
            PoolQueueSlot::Empty => PoolQueueSlot::Empty,
        }
    }

    /// The task that waits, if one does.
    pub open spec fn waiting(self) -> Seq<Task> {
        match self {
            PoolQueueSlot::Todo(task) => seq![task],
            _ => Seq::empty(),
        }
    }

    /// The state's name.
    pub open spec fn spec_name(self) -> Seq<char> {
        match self {
            PoolQueueSlot::Done => "Done"@,
            PoolQueueSlot::Empty => "Empty"@,
            PoolQueueSlot::Todo(_) => "Todo"@,
        }
    }

    /// Hands out what the slot holds. A task is removed from the slot; the
    /// closed and the empty state are reported and stay.
    pub fn take(&mut self) -> (taken: PoolQueueSlot<Task>)
        ensures
            taken == *old(self),
            *final(self) == old(self).emptied(),
    {
        match self {
            PoolQueueSlot::Todo(_) => {
                let mut taken = PoolQueueSlot::Empty;
                core::mem::swap(self, &mut taken);
                taken
            },
            PoolQueueSlot::Done => PoolQueueSlot::Done,
            PoolQueueSlot::Empty => PoolQueueSlot::Empty,
        }
    }

    /// The state's name, without the task.
    pub fn name(&self) -> (name: String)
        ensures
            name@ == self.spec_name(),
    {
        match self {
            PoolQueueSlot::Done => String::from_str("Done"),
            PoolQueueSlot::Empty => String::from_str("Empty"),
            PoolQueueSlot::Todo(_) => String::from_str("Todo"),
        }
    }
}

/// What became of a task that the producer offered.
pub enum PostOutcome<Task> {
    /// The task waits in the slot: wake one worker.
    Posted,
    /// Another task still waits: wait for a worker to take it, then offer
    /// this one again.
    Busy(Task),
    /// The pool is closed: the task is handed back, it will never run.
    Closed(Task),
}

/// What a worker does next.
pub enum WorkerStep<Task> {
    /// Nothing waits: sleep until the producer wakes the workers.
    Wait,
    /// Run the task that was taken, after waking the producer.
    Run(Task),
    /// The pool is closed: leave.
    Quit,
}

/// How many workers run a task.
pub open spec fn count_running(busy: Seq<bool>) -> nat
    decreases busy.len(),
{
    if busy.len() == 0 {
        0
    } else {
        count_running(busy.drop_last()) + if busy.last() {
            1nat
        } else {
            0nat
        }
    }
}

/// No more workers run a task than there are workers.
pub proof fn lemma_count_running_bounded(busy: Seq<bool>)
    ensures
        count_running(busy) <= busy.len(),
    decreases busy.len(),
{
    if busy.len() > 0 {
        lemma_count_running_bounded(busy.drop_last());
    }
}

/// The pool as the threads that share it see it.
pub struct PoolView<Task> {
    /// The slot.
    pub slot: PoolQueueSlot<Task>,
    /// For each worker, whether it took a task and has not come back for
    /// the next.
    pub busy: Seq<bool>,
    /// The tasks that were posted, in order.
    pub accepted: Seq<Task>,
    /// The tasks that workers took, in order.
    pub claimed: Seq<Task>,
}

/// What a thread does under the lock.
pub enum PoolOp<Task> {
    /// The producer offers a task.
    Post(Task),
    /// The worker with this number comes for a task.
    Claim(nat),
    /// The producer asks to close the pool.
    Close,
}

impl<Task> PoolView<Task> {
    /// A pool of `workers` idle workers with an empty slot.
    pub open spec fn fresh(workers: nat) -> PoolView<Task> {
        PoolView {
            slot: PoolQueueSlot::Empty,
            busy: Seq::new(workers, |i: int| false),
            accepted: Seq::empty(),
            claimed: Seq::empty(),
        }
    }

    /// Every posted task was taken by a worker, but for the one that waits.
    pub open spec fn inv(self) -> bool {
        self.accepted == self.claimed + self.slot.waiting()
    }

    /// The number of workers that run a task.
    pub open spec fn running(self) -> nat {
        count_running(self.busy)
    }

    /// The pool after the producer offered `task`.
    pub open spec fn after_post(self, task: Task) -> PoolView<Task> {
        match self.slot {
            PoolQueueSlot::Empty => PoolView {
                slot: PoolQueueSlot::Todo(task),
                accepted: self.accepted.push(task),
                ..self
            },
            _ => self,
        }
    }

    /// The pool after worker `worker` came for a task.
    pub open spec fn after_claim(self, worker: nat) -> PoolView<Task>
        recommends
            worker < self.busy.len(),
    {
        match self.slot {
            PoolQueueSlot::Todo(task) => PoolView {
                slot: PoolQueueSlot::Empty,
                busy: self.busy.update(worker as int, true),
                claimed: self.claimed.push(task),
                ..self
            },
            _ => PoolView { busy: self.busy.update(worker as int, false), ..self },
        }
    }

    /// The pool after the producer asked to close it.
    pub open spec fn after_close(self) -> PoolView<Task> {
        match self.slot {
            PoolQueueSlot::Todo(_) => self,
            _ => PoolView { slot: PoolQueueSlot::Done, ..self },
        }
    }

    /// The pool after one thread had the lock. A worker number that the pool
    /// does not have changes nothing.
    pub open spec fn after(self, op: PoolOp<Task>) -> PoolView<Task> {
        match op {
            PoolOp::Post(task) => self.after_post(task),
            PoolOp::Claim(worker) => if worker < self.busy.len() {
                self.after_claim(worker)
            } else {
                self
            },
            PoolOp::Close => self.after_close(),
        }
    }

    /// The pool after the threads had the lock in this order.
    pub open spec fn after_all(self, ops: Seq<PoolOp<Task>>) -> PoolView<Task>
        decreases ops.len(),
    {
        if ops.len() == 0 {
            self
        } else {
            self.after_all(ops.drop_last()).after(ops.last())
        }
    }
}

/// Whatever the threads do and in whatever order, a pool of `workers`
/// workers never has more than `workers` tasks running, never has more than
/// one posted task that no worker took, and has lost none.
pub proof fn lemma_pool_bounds<Task>(workers: nat, ops: Seq<PoolOp<Task>>)
    ensures
        PoolView::<Task>::fresh(workers).after_all(ops).inv(),
        PoolView::<Task>::fresh(workers).after_all(ops).busy.len() == workers,
        PoolView::<Task>::fresh(workers).after_all(ops).running() <= workers,
        PoolView::<Task>::fresh(workers).after_all(ops).accepted.len() <= PoolView::<Task>::fresh(
            workers,
        ).after_all(ops).claimed.len() + 1,
    decreases ops.len(),
{
    let start = PoolView::<Task>::fresh(workers);
    if ops.len() == 0 {
        assert(start.accepted =~= start.claimed + start.slot.waiting());
    } else {
        lemma_pool_bounds(workers, ops.drop_last());
        let before = start.after_all(ops.drop_last());
        let now = before.after(ops.last());
        assert(now.accepted =~= now.claimed + now.slot.waiting());
    }
    lemma_count_running_bounded(start.after_all(ops).busy);
}

/// A closed pool stays closed, takes no task and hands none out: closing
/// came after the last task was taken.
pub proof fn lemma_closed_is_final<Task>(pool: PoolView<Task>, op: PoolOp<Task>)
    requires
        pool.inv(),
        pool.slot is Done,
    ensures
        pool.after(op).slot is Done,
        pool.after(op).accepted == pool.accepted,
        pool.after(op).claimed == pool.claimed,
        pool.accepted == pool.claimed,
{
    assert(pool.claimed + pool.slot.waiting() =~= pool.claimed);
}

/// Closing never drops a task: a pool in which a task waits stays open, and
/// a pool that closes has had every posted task taken by a worker.
pub proof fn lemma_close_waits_for_claim<Task>(pool: PoolView<Task>)
    requires
        pool.inv(),
    ensures
        pool.slot is Todo ==> pool.after_close() == pool,
        pool.after_close().slot is Done ==> pool.after_close().accepted
            == pool.after_close().claimed,
{
    if !(pool.slot is Todo) {
        assert(pool.claimed + pool.slot.waiting() =~= pool.claimed);
    }
}

/// What the producer and the workers of a pool share. The driver keeps it
/// under its lock.
pub struct ThreadPoolShared<Task> {
    pending_task: PoolQueueSlot<Task>,
    busy: Vec<bool>,
    accepted: Ghost<Seq<Task>>,
    claimed: Ghost<Seq<Task>>,
}

impl<Task> View for ThreadPoolShared<Task> {
    type V = PoolView<Task>;

    closed spec fn view(&self) -> PoolView<Task> {
        PoolView {
            slot: self.pending_task,
            busy: self.busy@,
            accepted: self.accepted@,
            claimed: self.claimed@,
        }
    }
}

impl<Task> ThreadPoolShared<Task> {
    /// The state of a pool of `workers` workers before anything happened.
    pub fn new(workers: usize) -> (pool: ThreadPoolShared<Task>)
        ensures
            pool@ == PoolView::<Task>::fresh(workers as nat),
            pool@.inv(),
    {
        let mut busy: Vec<bool> = Vec::new();
        while busy.len() < workers
            invariant
                busy@.len() <= workers,
                forall|i: int| 0 <= i < busy@.len() ==> !busy@[i],
            decreases workers - busy@.len(),
        {
            busy.push(false);
        }
        let pool = ThreadPoolShared {
            pending_task: PoolQueueSlot::Empty,
            busy,
            accepted: Ghost(Seq::empty()),
            claimed: Ghost(Seq::empty()),
        };
        assert(pool@.busy =~= PoolView::<Task>::fresh(workers as nat).busy);
        assert(pool@.accepted =~= pool@.claimed + pool@.slot.waiting());
        pool
    }

    /// The number of workers.
    pub fn workers(&self) -> (workers: usize)
        ensures
            workers == self@.busy.len(),
    {
        self.busy.len()
    }

    /// The number of workers that run a task.
    pub fn running(&self) -> (running: usize)
        ensures
            running == self@.running(),
            running <= self@.busy.len(),
    {
        let mut running: usize = 0;
        let mut i: usize = 0;
        assert(self.busy@.take(0) =~= Seq::<bool>::empty());
        while i < self.busy.len()
            invariant
                i <= self.busy@.len(),
                running == count_running(self.busy@.take(i as int)),
                running <= i,
            decreases self.busy@.len() - i,
        {
            assert(self.busy@.take(i as int + 1).drop_last() =~= self.busy@.take(i as int));
            if self.busy[i] {
                running = running + 1;
            }
            i = i + 1;
        }
        assert(self.busy@.take(i as int) =~= self.busy@);
        running
    }

    /// Whether the pool is closed.
    pub fn is_closed(&self) -> (closed: bool)
        ensures
            closed == (self@.slot is Done),
    {
        match self.pending_task {
            PoolQueueSlot::Done => true,
            _ => false,
        }
    }

    /// Whether a task waits for a worker.
    pub fn has_pending(&self) -> (pending: bool)
        ensures
            pending == (self@.slot is Todo),
    {
        match self.pending_task {
            PoolQueueSlot::Todo(_) => true,
            _ => false,
        }
    }

    /// The producer offers a task. It is taken into an empty slot only; from
    /// a slot that is full, or closed, it comes back.
    pub fn post(&mut self, task: Task) -> (outcome: PostOutcome<Task>)
        requires
            old(self)@.inv(),
        ensures
            final(self)@ == old(self)@.after_post(task),
            final(self)@.inv(),
            outcome == match old(self)@.slot {
                PoolQueueSlot::Empty => PostOutcome::Posted,
                PoolQueueSlot::Todo(_) => PostOutcome::Busy(task),
                PoolQueueSlot::Done => PostOutcome::Closed(task),
            },
    {
        match self.pending_task {
            PoolQueueSlot::Empty => {
                proof {
                    self.accepted@ = self.accepted@.push(task);
                }
                self.pending_task = PoolQueueSlot::Todo(task);
                assert(self@.accepted =~= self@.claimed + self@.slot.waiting());
                PostOutcome::Posted
            },
            PoolQueueSlot::Todo(_) => PostOutcome::Busy(task),
            PoolQueueSlot::Done => PostOutcome::Closed(task),
        }
    }

    /// Worker `worker` comes for a task: it has none running now. It gets
    /// the task that waits, or is told to wait, or to leave.
    pub fn claim(&mut self, worker: usize) -> (step: WorkerStep<Task>)
        requires
            old(self)@.inv(),
            worker < old(self)@.busy.len(),
        ensures
            final(self)@ == old(self)@.after_claim(worker as nat),
            final(self)@.inv(),
            final(self)@.running() <= final(self)@.busy.len(),
            step == match old(self)@.slot {
                PoolQueueSlot::Todo(task) => WorkerStep::Run(task),
                PoolQueueSlot::Empty => WorkerStep::Wait,
                PoolQueueSlot::Done => WorkerStep::Quit,
            },
    {
        proof {
            lemma_count_running_bounded(old(self)@.after_claim(worker as nat).busy);
        }
        match self.pending_task.take() {
            PoolQueueSlot::Todo(task) => {
                proof {
                    self.claimed@ = self.claimed@.push(task);
                }
                self.busy.set(worker, true);
                assert(self@.accepted =~= self@.claimed + self@.slot.waiting());
                WorkerStep::Run(task)
            },
            PoolQueueSlot::Empty => {
                self.busy.set(worker, false);
                WorkerStep::Wait
            },
            PoolQueueSlot::Done => {
                self.busy.set(worker, false);
                WorkerStep::Quit
            },
        }
    }

    /// The producer asks to close the pool. While a task waits the pool
    /// stays open and the answer is `false`: wait for a worker to take the
    /// task, then ask again. Otherwise the pool is closed: wake every
    /// worker and wait for them to leave.
    pub fn close(&mut self) -> (closed: bool)
        requires
            old(self)@.inv(),
        ensures
            final(self)@ == old(self)@.after_close(),
            final(self)@.inv(),
            closed == !(old(self)@.slot is Todo),
            closed ==> final(self)@.slot is Done && final(self)@.accepted == final(self)@.claimed,
    {
        match self.pending_task {
            PoolQueueSlot::Todo(_) => false,
            _ => {
                assert(self@.claimed + self@.slot.waiting() =~= self@.claimed);
                self.pending_task = PoolQueueSlot::Done;
                assert(self@.accepted =~= self@.claimed + self@.slot.waiting());
                true
            },
        }
    }
}

} // verus!
