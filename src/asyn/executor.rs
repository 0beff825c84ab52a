use crossbeam_queue::ArrayQueue;
use vstd::prelude::*;

verus! {

/// The ids of the tasks waiting in a ready queue, front first.
pub uninterp spec fn queued_tasks(q: ArrayQueue<u64>) -> Seq<u64>;

/// The bound that a ready queue was made with.
pub uninterp spec fn task_queue_capacity(q: ArrayQueue<u64>) -> nat;

/// Relies on `crossbeam_queue::ArrayQueue::new`: an empty queue bounded by
/// `cap`; it panics on a zero capacity.
#[verifier::external_body]
fn new_task_queue(cap: usize) -> (r: ArrayQueue<u64>)
    requires
        0 < cap <= 4096,
    ensures
        queued_tasks(r) == Seq::<u64>::empty(),
        task_queue_capacity(r) == cap,
{
    ArrayQueue::new(cap)
}

/// Relies on `crossbeam_queue::ArrayQueue::push_mut`: the id goes to the
/// back unless the queue is full, in which case it is handed back.
#[verifier::external_body]
fn push_task(q: &mut ArrayQueue<u64>, t: u64) -> (r: Result<(), u64>)
    ensures
        task_queue_capacity(*final(q)) == task_queue_capacity(*old(q)),
        queued_tasks(*old(q)).len() < task_queue_capacity(*old(q)) ==> (r is Ok && queued_tasks(*final(q)) == queued_tasks(*old(q)).push(t)),
        queued_tasks(*old(q)).len() >= task_queue_capacity(*old(q)) ==> (r matches Err(e) && e == t && queued_tasks(*final(q)) == queued_tasks(*old(q))),
{
    q.push_mut(t)
}

/// Relies on `crossbeam_queue::ArrayQueue::pop_mut`: the front id leaves, or
/// nothing when the queue is empty.
#[verifier::external_body]
fn pop_task(q: &mut ArrayQueue<u64>) -> (r: Option<u64>)
    ensures
        task_queue_capacity(*final(q)) == task_queue_capacity(*old(q)),
        queued_tasks(*old(q)).len() == 0 ==> (r is None && queued_tasks(*final(q)) == queued_tasks(*old(q))),
        queued_tasks(*old(q)).len() > 0 ==> (r == Some(queued_tasks(*old(q))[0]) && queued_tasks(*final(q)) == queued_tasks(*old(q)).drop_first()),
{
    q.pop_mut()
}

/// The bound of the ready queue.
pub const TASK_QUEUE_CAPACITY: usize = 256;

/// One scheduler turn on a still-pending task: the front goes to the back.
pub open spec fn rotate(s: Seq<u64>) -> Seq<u64> {
    if s.len() == 0 {
        s
    } else {
        s.drop_first().push(s[0])
    }
}

/// `k` turns in a row.
pub open spec fn rotate_n(s: Seq<u64>, k: nat) -> Seq<u64>
    decreases k,
{
    if k == 0 {
        s
    } else {
        rotate(rotate_n(s, (k - 1) as nat))
    }
}

proof fn lemma_rotate_n_split(s: Seq<u64>, k: nat)
    requires
        k <= s.len(),
    ensures
        rotate_n(s, k) == s.subrange(k as int, s.len() as int) + s.subrange(0, k as int),
    decreases k,
{
    if k == 0 {
        assert(s.subrange(0, s.len() as int) + s.subrange(0, 0) =~= s);
    } else {
        lemma_rotate_n_split(s, (k - 1) as nat);
        let prev = rotate_n(s, (k - 1) as nat);
        assert(prev.len() == s.len());
        assert(prev[0] == s[k - 1]);
        assert(rotate(prev) =~= s.subrange(k as int, s.len() as int) + s.subrange(0, k as int));
    }
}

/// Round robin serves every task: while every task stays pending, the task
/// at position `i` of the ready queue is at the front after `i` turns, and
/// after as many turns as there are tasks the queue is back as it was.
pub proof fn lemma_turns_serve_every_task(s: Seq<u64>, i: nat)
    requires
        i < s.len(),
    ensures
        rotate_n(s, i)[0] == s[i as int],
        rotate_n(s, s.len()) == s,
{
    lemma_rotate_n_split(s, i);
    lemma_rotate_n_split(s, s.len());
    assert(s.subrange(s.len() as int, s.len() as int) + s.subrange(0, s.len() as int) =~= s);
}

/// The ready queue of a single-threaded round-robin scheduler. Tasks are
/// known by id; the caller polls the task that `next_task` hands out and
/// gives it back with `reschedule` while it is still pending.
pub struct SimpleExecutor {
    task_queue: ArrayQueue<u64>,
}

impl SimpleExecutor {
    /// The ids of the ready tasks, front first.
    pub closed spec fn ready(&self) -> Seq<u64> {
        queued_tasks(self.task_queue)
    }

    pub closed spec fn wf(&self) -> bool {
        &&& task_queue_capacity(self.task_queue) == TASK_QUEUE_CAPACITY
        &&& self.ready().len() <= TASK_QUEUE_CAPACITY
    }

    pub fn new() -> (r: SimpleExecutor)
        ensures
            r.wf(),
            r.ready() == Seq::<u64>::empty(),
            r.ready().len() <= TASK_QUEUE_CAPACITY,
    {
        SimpleExecutor { task_queue: new_task_queue(TASK_QUEUE_CAPACITY) }
    }

    /// Adds a task at the back of the ready queue; a full queue hands the id
    /// back.
    pub fn spawn(&mut self, task: u64) -> (r: Result<(), u64>)
        requires
            old(self).wf(),
        ensures
            final(self).wf(),
            final(self).ready().len() <= TASK_QUEUE_CAPACITY,
            old(self).ready().len() < TASK_QUEUE_CAPACITY ==> (r is Ok && final(self).ready() == old(self).ready().push(task)),
            old(self).ready().len() >= TASK_QUEUE_CAPACITY ==> (r matches Err(t) && t == task && final(self).ready() == old(self).ready()),
    {
        push_task(&mut self.task_queue, task)
    }

    /// Takes the task at the front; `None` when no task is ready, which is
    /// when the run loop ends.
    pub fn next_task(&mut self) -> (r: Option<u64>)
        requires
            old(self).wf(),
        ensures
            final(self).wf(),
            final(self).ready().len() <= TASK_QUEUE_CAPACITY,
            old(self).ready().len() == 0 ==> (r is None && final(self).ready() == old(self).ready()),
            old(self).ready().len() > 0 ==> (r == Some(old(self).ready()[0]) && final(self).ready() == old(self).ready().drop_first()),
            r is Some ==> final(self).ready().len() < TASK_QUEUE_CAPACITY,
    {
        pop_task(&mut self.task_queue)
    }

    /// Puts a task that is still pending back at the end of the queue. The
    /// task was just taken from the front, so there is room for it.
    pub fn reschedule(&mut self, task: u64)
        requires
            old(self).wf(),
            old(self).ready().len() < TASK_QUEUE_CAPACITY,
        ensures
            final(self).wf(),
            final(self).ready().len() <= TASK_QUEUE_CAPACITY,
            final(self).ready() == old(self).ready().push(task),
    {
        let _ = push_task(&mut self.task_queue, task);
    }

    /// Ends a turn of the run loop for `task`, just taken and polled: a
    /// finished task is dropped, a pending one goes back at the end of the
    /// queue. A queue that other spawns have filled meanwhile hands the id back.
    pub fn complete_turn(&mut self, task: u64, finished: bool) -> (r: Result<(), u64>)
        requires
            old(self).wf(),
        ensures
            final(self).wf(),
            final(self).ready().len() <= TASK_QUEUE_CAPACITY,
            finished ==> (r is Ok && final(self).ready() == old(self).ready()),
            !finished && old(self).ready().len() < TASK_QUEUE_CAPACITY ==> (r is Ok && final(self).ready() == old(self).ready().push(task)),
            !finished && old(self).ready().len() >= TASK_QUEUE_CAPACITY ==> (r matches Err(t) && t == task && final(self).ready() == old(self).ready()),
    {
        if finished {
            Ok(())
        } else {
            self.spawn(task)
        }
    }

    /// One turn of the run loop for a task found still pending: the front
    /// task moves to the back, and its id is returned.
    pub fn turn(&mut self) -> (r: Option<u64>)
        requires
            old(self).wf(),
        ensures
            final(self).wf(),
            final(self).ready().len() <= TASK_QUEUE_CAPACITY,
            final(self).ready() == rotate(old(self).ready()),
            old(self).ready().len() == 0 <==> r is None,
            r matches Some(t) ==> t == old(self).ready()[0],
    {
        match self.next_task() {
            None => None,
            Some(t) => {
                self.reschedule(t);
                Some(t)
            },
        }
    }
}

} // verus!
