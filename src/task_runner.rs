use vstd::prelude::*;

verus! {

/// A unit of engine work waiting for its target time on the engine clock.
pub struct PendingTask<T> {
    pub task: T,
    pub target_nanos: u64,
}

/// Every target in `s` is at or after the one before it.
pub open spec fn targets_sorted<T>(s: Seq<PendingTask<T>>) -> bool {
    forall|i: int, j: int| 0 <= i <= j < s.len() ==> s[i].target_nanos <= s[j].target_nanos
}

/// The number of leading tasks of `s` whose target is at or before `t`.
pub open spec fn count_due<T>(s: Seq<PendingTask<T>>, t: u64) -> nat
    decreases s.len(),
{
    if s.len() == 0 {
        0
    } else if s[0].target_nanos <= t {
        1 + count_due(s.drop_first(), t)
    } else {
        0
    }
}

/// The queue after `p` is placed behind every task whose target is not later than its own.
pub open spec fn insert_task<T>(s: Seq<PendingTask<T>>, p: PendingTask<T>) -> Seq<PendingTask<T>> {
    s.insert(count_due(s, p.target_nanos) as int, p)
}

/// The tasks of `s` that are due at time `now`, in execution order.
pub open spec fn due_tasks<T>(s: Seq<PendingTask<T>>, now: u64) -> Seq<PendingTask<T>> {
    s.take(count_due(s, now) as int)
}

/// The tasks of `s` that still wait after those due at `now` have run.
pub open spec fn waiting_tasks<T>(s: Seq<PendingTask<T>>, now: u64) -> Seq<PendingTask<T>> {
    s.skip(count_due(s, now) as int)
}

/// How long to wait from `now` until `deadline`; zero once it has passed.
pub open spec fn wait_nanos(deadline: u64, now: u64) -> u64 {
    if deadline > now {
        (deadline - now) as u64
    } else {
        0
    }
}

/// The earliest target of a queue, if it holds any task.
pub open spec fn earliest_target<T>(s: Seq<PendingTask<T>>) -> Option<u64> {
    if s.len() == 0 {
        None
    } else {
        Some(s[0].target_nanos)
    }
}

/// The leading run of tasks not later than `t` is exactly the first `i` tasks.
pub proof fn lemma_count_due_at<T>(s: Seq<PendingTask<T>>, t: u64, i: int)
    requires
        0 <= i <= s.len(),
        forall|j: int| 0 <= j < i ==> s[j].target_nanos <= t,
        i == s.len() || s[i].target_nanos > t,
    ensures
        count_due(s, t) == i,
    decreases s.len(),
{
    if s.len() > 0 && i > 0 {
        let r = s.drop_first();
        assert forall|j: int| 0 <= j < i - 1 implies r[j].target_nanos <= t by {
            assert(r[j] == s[j + 1]);
        }
        if i - 1 < r.len() {
            assert(r[i - 1] == s[i]);
        }
        lemma_count_due_at(r, t, i - 1);
    }
}

/// In a sorted queue the first `count_due` tasks are due and the rest are not.
pub proof fn lemma_count_due_split<T>(s: Seq<PendingTask<T>>, t: u64)
    requires
        targets_sorted(s),
    ensures
        count_due(s, t) <= s.len(),
        forall|j: int| 0 <= j < count_due(s, t) ==> s[j].target_nanos <= t,
        forall|j: int| count_due(s, t) <= j < s.len() ==> s[j].target_nanos > t,
    decreases s.len(),
{
    if s.len() > 0 && s[0].target_nanos <= t {
        let r = s.drop_first();
        assert forall|i: int, j: int| 0 <= i <= j < r.len() implies r[i].target_nanos
            <= r[j].target_nanos by {
            assert(r[i] == s[i + 1] && r[j] == s[j + 1]);
        }
        lemma_count_due_split(r, t);
        assert forall|j: int| 0 <= j < count_due(s, t) implies s[j].target_nanos <= t by {
            if j > 0 {
                assert(s[j] == r[j - 1]);
            }
        }
        assert forall|j: int| count_due(s, t) <= j < s.len() implies s[j].target_nanos > t by {
            assert(s[j] == r[j - 1]);
        }
    }
}

/// Inserting into a sorted queue keeps it sorted.
pub proof fn lemma_insert_sorted<T>(s: Seq<PendingTask<T>>, p: PendingTask<T>)
    requires
        targets_sorted(s),
    ensures
        targets_sorted(insert_task(s, p)),
        insert_task(s, p).len() == s.len() + 1,
{
    lemma_count_due_split(s, p.target_nanos);
    let k = count_due(s, p.target_nanos) as int;
    let r = insert_task(s, p);
    assert forall|i: int, j: int| 0 <= i <= j < r.len() implies r[i].target_nanos
        <= r[j].target_nanos by {
        if i < k && j > k {
            assert(r[i] == s[i] && r[j] == s[j - 1]);
        } else if j > k && i > k {
            assert(r[i] == s[i - 1] && r[j] == s[j - 1]);
        }
    }
}

/// The queue after each task of `ps` is submitted, in turn, with a target still ahead.
pub open spec fn insert_all<T>(s: Seq<PendingTask<T>>, ps: Seq<PendingTask<T>>) -> Seq<PendingTask<T>>
    decreases ps.len(),
{
    if ps.len() == 0 {
        s
    } else {
        insert_all(insert_task(s, ps[0]), ps.drop_first())
    }
}

/// Every target in `s` lies after `b`.
pub open spec fn all_after<T>(s: Seq<PendingTask<T>>, b: u64) -> bool {
    forall|i: int| 0 <= i < s.len() ==> s[i].target_nanos > b
}

proof fn lemma_insert_after<T>(s: Seq<PendingTask<T>>, p: PendingTask<T>, b: u64)
    requires
        targets_sorted(s),
        all_after(s, b),
        p.target_nanos > b,
    ensures
        all_after(insert_task(s, p), b),
{
    lemma_count_due_split(s, p.target_nanos);
    let k = count_due(s, p.target_nanos) as int;
    let r = insert_task(s, p);
    assert forall|i: int| 0 <= i < r.len() implies r[i].target_nanos > b by {
        if i < k {
            assert(r[i] == s[i]);
        } else if i > k {
            assert(r[i] == s[i - 1]);
        }
    }
}

proof fn lemma_insert_all<T>(s: Seq<PendingTask<T>>, ps: Seq<PendingTask<T>>, b: u64)
    requires
        targets_sorted(s),
        all_after(s, b),
        all_after(ps, b),
    ensures
        targets_sorted(insert_all(s, ps)),
        all_after(insert_all(s, ps), b),
    decreases ps.len(),
{
    if ps.len() > 0 {
        lemma_insert_sorted(s, ps[0]);
        lemma_insert_after(s, ps[0], b);
        let rest = ps.drop_first();
        assert forall|i: int| 0 <= i < rest.len() implies rest[i].target_nanos > b by {
            assert(rest[i] == ps[i + 1]);
        }
        lemma_insert_all(insert_task(s, ps[0]), rest, b);
    }
}

/// Queued tasks run in nondecreasing order of target time. A drain at `now`
/// releases its tasks in order; the tasks `later` that are queued after it
/// (each with a target past `now`, or it would have run on submission) are
/// released by a following drain at `then` in order too, and after all of the
/// first drain's tasks.
pub proof fn lemma_execution_order<T>(
    s: Seq<PendingTask<T>>,
    now: u64,
    later: Seq<PendingTask<T>>,
    then: u64,
)
    requires
        targets_sorted(s),
        all_after(later, now),
    ensures
        targets_sorted(
            due_tasks(s, now) + due_tasks(insert_all(waiting_tasks(s, now), later), then),
        ),
{
    lemma_count_due_split(s, now);
    let d1 = due_tasks(s, now);
    let w = waiting_tasks(s, now);
    assert forall|i: int| 0 <= i < w.len() implies w[i].target_nanos > now by {
        assert(w[i] == s[i + count_due(s, now)]);
    }
    assert forall|i: int, j: int| 0 <= i <= j < w.len() implies w[i].target_nanos
        <= w[j].target_nanos by {
        assert(w[i] == s[i + count_due(s, now)] && w[j] == s[j + count_due(s, now)]);
    }
    lemma_insert_all(w, later, now);
    let q = insert_all(w, later);
    lemma_count_due_split(q, then);
    let d2 = due_tasks(q, then);
    let all = d1 + d2;
    assert forall|i: int, j: int| 0 <= i <= j < all.len() implies all[i].target_nanos
        <= all[j].target_nanos by {
        if j < d1.len() {
            assert(all[i] == s[i] && all[j] == s[j]);
        } else if i < d1.len() {
            assert(all[i] == s[i]);
            assert(all[j] == q[j - d1.len()]);
        } else {
            assert(all[i] == q[i - d1.len()] && all[j] == q[j - d1.len()]);
        }
    }
}

/// Whether a task with target `t` moves ahead of everything queued in `s`.
pub open spec fn takes_the_lead<T>(s: Seq<PendingTask<T>>, t: u64) -> bool {
    s.len() == 0 || t < s[0].target_nanos
}

/// Every task of `ran` has a target no later than any task of `left`.
pub open spec fn released_before<T>(ran: Seq<PendingTask<T>>, left: Seq<PendingTask<T>>) -> bool {
    forall|i: int, j: int|
        0 <= i < ran.len() && 0 <= j < left.len() ==> ran[i].target_nanos <= left[j].target_nanos
}

/// A queue of pending engine tasks, kept in order of target time; tasks with
/// equal targets keep the order in which they were inserted.
pub struct TaskQueue<T> {
    queue: Vec<PendingTask<T>>,
}

impl<T> View for TaskQueue<T> {
    type V = Seq<PendingTask<T>>;

    closed spec fn view(&self) -> Seq<PendingTask<T>> {
        self.queue@
    }
}

impl<T> TaskQueue<T> {
    pub open spec fn wf(&self) -> bool {
        targets_sorted(self@)
    }

    pub fn new() -> (r: Self)
        ensures
            r.wf(),
            r@ == Seq::<PendingTask<T>>::empty(),
    {
        TaskQueue { queue: Vec::new() }
    }

    pub fn len(&self) -> (r: usize)
        ensures
            r == self@.len(),
    {
        self.queue.len()
    }

    pub fn is_empty(&self) -> (r: bool)
        ensures
            r <==> self@.len() == 0,
    {
        self.queue.len() == 0
    }

    /// The number of leading tasks whose target is at or before `t`.
    fn due_count(&self, t: u64) -> (r: usize)
        requires
            self.wf(),
        ensures
            r == count_due(self@, t),
    {
        let mut i: usize = 0;
        while i < self.queue.len() && self.queue[i].target_nanos <= t
            invariant
                0 <= i <= self@.len(),
                forall|j: int| 0 <= j < i ==> self@[j].target_nanos <= t,
            decreases self@.len() - i,
        {
            i = i + 1;
        }
        proof {
            lemma_count_due_at(self@, t, i as int);
        }
        i
    }

    /// Queues `task` behind every task whose target is not later than its
    /// own; returns whether it became the earliest.
    pub fn insert(&mut self, task: PendingTask<T>) -> (wake: bool)
        requires
            old(self).wf(),
        ensures
            final(self).wf(),
            final(self)@ == insert_task(old(self)@, task),
            wake == takes_the_lead(old(self)@, task.target_nanos),
    {
        let k = self.due_count(task.target_nanos);
        proof {
            lemma_count_due_split(self@, task.target_nanos);
            lemma_insert_sorted(self@, task);
            if self@.len() > 0 && task.target_nanos < self@[0].target_nanos {
                lemma_count_due_at(self@, task.target_nanos, 0);
            }
        }
        let wake = k == 0;
        self.queue.insert(k, task);
        wake
    }

    /// Removes and returns, in execution order, every task due at `now`.
    pub fn drain_due(&mut self, now: u64) -> (r: Vec<PendingTask<T>>)
        requires
            old(self).wf(),
        ensures
            final(self).wf(),
            r@ == due_tasks(old(self)@, now),
            final(self)@ == waiting_tasks(old(self)@, now),
    {
        let k = self.due_count(now);
        proof {
            lemma_count_due_split(self@, now);
        }
        let mut due = self.queue.split_off(k);
        std::mem::swap(&mut self.queue, &mut due);
        due
    }

    /// The earliest target among the queued tasks.
    pub fn next_deadline(&self) -> (r: Option<u64>)
        requires
            self.wf(),
        ensures
            r == earliest_target(self@),
    {
        if self.queue.len() == 0 {
            None
        } else {
            Some(self.queue[0].target_nanos)
        }
    }

    /// How long a consumer that woke at `now` may sleep before the next task is
    /// due; `None` when nothing is queued and it may sleep until woken.
    pub fn next_wait(&self, now: u64) -> (r: Option<u64>)
        requires
            self.wf(),
        ensures
            r == timer_for(self@, now),
    {
        match self.next_deadline() {
            None => None,
            Some(d) => Some(wait_delay(d, now)),
        }
    }
}

/// The delay from `now` until `target`, or zero for a target already reached.
pub fn wait_delay(target: u64, now: u64) -> (r: u64)
    ensures
        r == wait_nanos(target, now),
{
    if target > now {
        target - now
    } else {
        0
    }
}

/// What the consumer does after one event: run these tasks in order, then
/// re-arm its timer when `rearm` says so (`Some(None)`: sleep until woken,
/// `Some(Some(n))`: wake after `n` nanoseconds), or keep the timer it has.
pub struct Step<T> {
    pub run: Vec<PendingTask<T>>,
    pub rearm: Option<Option<u64>>,
}

/// The timer setting for a consumer at `now` before the queue `s`.
pub open spec fn timer_for<T>(s: Seq<PendingTask<T>>, now: u64) -> Option<u64> {
    match earliest_target(s) {
        None => None,
        Some(d) => Some(wait_nanos(d, now)),
    }
}

/// The tasks run when `task` arrives at `now` before the queue `s`: none if it
/// is not yet due; otherwise it and every queued task due at `now`, in order.
pub open spec fn run_on_submit<T>(s: Seq<PendingTask<T>>, task: PendingTask<T>, now: u64) -> Seq<
    PendingTask<T>,
> {
    if task.target_nanos <= now {
        due_tasks(insert_task(s, task), now)
    } else {
        Seq::empty()
    }
}

/// The queue left once `task` has arrived at `now` before the queue `s`.
pub open spec fn queue_after_submit<T>(s: Seq<PendingTask<T>>, task: PendingTask<T>, now: u64) -> Seq<
    PendingTask<T>,
> {
    if task.target_nanos <= now {
        waiting_tasks(insert_task(s, task), now)
    } else {
        insert_task(s, task)
    }
}

/// How the timer is re-armed once `task` has arrived at `now` before the queue `s`.
pub open spec fn rearm_on_submit<T>(s: Seq<PendingTask<T>>, task: PendingTask<T>, now: u64) -> Option<
    Option<u64>,
> {
    if task.target_nanos <= now {
        Some(timer_for(queue_after_submit(s, task, now), now))
    } else if takes_the_lead(s, task.target_nanos) {
        Some(Some(wait_nanos(task.target_nanos, now)))
    } else {
        None
    }
}

/// The consumer side of the scheduler, owned by one thread: the queue, and
/// the deadline on which the consumer sleeps, which is always the earliest
/// queued target.
pub struct TaskRunner<T> {
    queue: TaskQueue<T>,
    deadline: Option<u64>,
}

impl<T> TaskRunner<T> {
    pub closed spec fn queue(&self) -> Seq<PendingTask<T>> {
        self.queue@
    }

    /// The deadline the consumer sleeps on; `None` when it sleeps until woken.
    pub closed spec fn deadline(&self) -> Option<u64> {
        self.deadline
    }

    pub open spec fn wf(&self) -> bool {
        &&& targets_sorted(self.queue())
        &&& self.deadline() == earliest_target(self.queue())
    }

    pub fn new() -> (r: Self)
        ensures
            r.wf(),
            r.queue() == Seq::<PendingTask<T>>::empty(),
    {
        TaskRunner { queue: TaskQueue::new(), deadline: None }
    }

    /// A task arrives at time `now`. A task already due runs at once, together
    /// with every queued task that is due too, all in order of target time; a
    /// task not yet due is queued, and re-arms the timer when it takes the lead.
    pub fn on_submit(&mut self, task: PendingTask<T>, now: u64) -> (r: Step<T>)
        requires
            old(self).wf(),
        ensures
            final(self).wf(),
            r.run@ == run_on_submit(old(self).queue(), task, now),
            final(self).queue() == queue_after_submit(old(self).queue(), task, now),
            r.rearm == rearm_on_submit(old(self).queue(), task, now),
    {
        let due = task.target_nanos <= now;
        let target = task.target_nanos;
        let wake = self.queue.insert(task);
        if due {
            let run = self.queue.drain_due(now);
            self.deadline = self.queue.next_deadline();
            let wait = self.queue.next_wait(now);
            Step { run, rearm: Some(wait) }
        } else {
            self.deadline = self.queue.next_deadline();
            let run: Vec<PendingTask<T>> = Vec::new();
            if wake {
                Step { run, rearm: Some(Some(wait_delay(target, now))) }
            } else {
                Step { run, rearm: None }
            }
        }
    }

    /// The timer fired at `now`: every due task runs, in order, and the timer
    /// is re-armed for the next deadline.
    pub fn on_timer(&mut self, now: u64) -> (r: Step<T>)
        requires
            old(self).wf(),
        ensures
            final(self).wf(),
            r.run@ == due_tasks(old(self).queue(), now),
            final(self).queue() == waiting_tasks(old(self).queue(), now),
            r.rearm == Some(timer_for(final(self).queue(), now)),
    {
        let run = self.queue.drain_due(now);
        self.deadline = self.queue.next_deadline();
        let wait = self.queue.next_wait(now);
        Step { run, rearm: Some(wait) }
    }
}

proof fn lemma_drain_order<T>(s: Seq<PendingTask<T>>, now: u64)
    requires
        targets_sorted(s),
    ensures
        targets_sorted(due_tasks(s, now)),
        targets_sorted(waiting_tasks(s, now)),
        released_before(due_tasks(s, now), waiting_tasks(s, now)),
{
    lemma_count_due_split(s, now);
    let k = count_due(s, now) as int;
    let d = due_tasks(s, now);
    let w = waiting_tasks(s, now);
    assert forall|i: int, j: int| 0 <= i <= j < d.len() implies d[i].target_nanos
        <= d[j].target_nanos by {
        assert(d[i] == s[i] && d[j] == s[j]);
    }
    assert forall|i: int, j: int| 0 <= i <= j < w.len() implies w[i].target_nanos
        <= w[j].target_nanos by {
        assert(w[i] == s[i + k] && w[j] == s[j + k]);
    }
    assert forall|i: int, j: int| 0 <= i < d.len() && 0 <= j < w.len() implies d[i].target_nanos
        <= w[j].target_nanos by {
        assert(d[i] == s[i] && w[j] == s[j + k]);
    }
}

/// Every step of the consumer runs its tasks in nondecreasing order of
/// target time, and none of them is later than any task it leaves queued.
/// So of two tasks that are both with the scheduler before either runs, the
/// one with the earlier target runs first, whatever order they arrived in and
/// however late the consumer handles its timer.
pub proof fn lemma_runs_in_target_order<T>(s: Seq<PendingTask<T>>, task: PendingTask<T>, now: u64)
    requires
        targets_sorted(s),
    ensures
        targets_sorted(run_on_submit(s, task, now)),
        targets_sorted(queue_after_submit(s, task, now)),
        released_before(run_on_submit(s, task, now), queue_after_submit(s, task, now)),
        targets_sorted(due_tasks(s, now)),
        targets_sorted(waiting_tasks(s, now)),
        released_before(due_tasks(s, now), waiting_tasks(s, now)),
{
    lemma_insert_sorted(s, task);
    lemma_drain_order(insert_task(s, task), now);
    lemma_drain_order(s, now);
}

/// A consumer asleep on the earliest deadline `d` that receives a task due
/// before `d` (and not yet due) re-arms its timer to wake when that task is
/// due, which is before `d`; its new deadline is the task's. With nothing
/// queued, such a task arms the timer too.
pub proof fn lemma_early_submit_wakes<T>(s: Seq<PendingTask<T>>, task: PendingTask<T>, now: u64)
    requires
        targets_sorted(s),
        task.target_nanos > now,
        s.len() == 0 || task.target_nanos < s[0].target_nanos,
    ensures
        rearm_on_submit(s, task, now) == Some(Some(wait_nanos(task.target_nanos, now))),
        earliest_target(queue_after_submit(s, task, now)) == Some(task.target_nanos),
        s.len() > 0 ==> wait_nanos(task.target_nanos, now) < wait_nanos(s[0].target_nanos, now),
{
    lemma_count_due_at(s, task.target_nanos, 0);
}

} // verus!
