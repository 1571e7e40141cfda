use vstd::prelude::*;

verus! {

/// A unit of work that the engine asked to run, on the platform thread, once
/// its clock reaches `target_time_nanos`. The work itself is `task`, which
/// this library carries without looking into it.
pub struct EngineTask<T> {
    target_time_nanos: u64,
    task: T,
}

impl<T> EngineTask<T> {
    /// The engine time, in nanoseconds, from which the task may run.
    pub closed spec fn fire_time(&self) -> u64 {
        self.target_time_nanos
    }

    /// The work the task stands for.
    pub closed spec fn work(&self) -> T {
        self.task
    }

    pub fn new(target_time_nanos: u64, task: T) -> (t: EngineTask<T>)
        ensures
            t.fire_time() == target_time_nanos,
            t.work() == task,
    {
        EngineTask { target_time_nanos, task }
    }

    pub fn target_time_nanos(&self) -> (t: u64)
        ensures
            t == self.fire_time(),
    {
        self.target_time_nanos
    }

    /// Whether the task is due when the engine's clock reads `now`.
    pub fn can_run_now(&self, now: u64) -> (due: bool)
        ensures
            due == (self.fire_time() <= now),
    {
        self.target_time_nanos <= now
    }

    /// Gives up the task's work, to be run.
    pub fn into_task(self) -> (task: T)
        ensures
            task == self.work(),
    {
        self.task
    }
}

/// The tasks of `queue` that are due at `now`, in their order.
pub open spec fn expired_of<T>(queue: Seq<EngineTask<T>>, now: u64) -> Seq<EngineTask<T>>
    decreases queue.len(),
{
    if queue.len() == 0 {
        Seq::empty()
    } else {
        let rest = expired_of(queue.drop_last(), now);
        if queue.last().fire_time() <= now {
            rest.push(queue.last())
        } else {
            rest
        }
    }
}

/// The tasks of `queue` that are not yet due at `now`, in their order.
pub open spec fn pending_of<T>(queue: Seq<EngineTask<T>>, now: u64) -> Seq<EngineTask<T>>
    decreases queue.len(),
{
    if queue.len() == 0 {
        Seq::empty()
    } else {
        let rest = pending_of(queue.drop_last(), now);
        if queue.last().fire_time() <= now {
            rest
        } else {
            rest.push(queue.last())
        }
    }
}

/// The queue of engine tasks that wait for their time on the platform
/// thread.
pub struct TaskRunner<T> {
    tasks: Vec<EngineTask<T>>,
}

impl<T> TaskRunner<T> {
    /// The tasks waiting, in the order they were posted.
    pub closed spec fn queued(&self) -> Seq<EngineTask<T>> {
        self.tasks@
    }

    pub fn new() -> (r: TaskRunner<T>)
        ensures
            r.queued().len() == 0,
    {
        TaskRunner { tasks: Vec::new() }
    }

    /// Queues a task behind those already waiting.
    pub fn post_task(&mut self, task: EngineTask<T>)
        ensures
            final(self).queued() == old(self).queued().push(task),
    {
        self.tasks.push(task);
    }

    pub fn len(&self) -> (n: usize)
        ensures
            n == self.queued().len(),
    {
        self.tasks.len()
    }

    /// Puts tasks that were taken out but not run back at the front of the
    /// queue, in their order, before those still waiting.
    pub fn requeue_front(&mut self, unrun: Vec<EngineTask<T>>)
        ensures
            final(self).queued() == unrun@ + old(self).queued(),
    {
        let mut front = unrun;
        front.append(&mut self.tasks);
        self.tasks = front;
    }

    /// Takes out every task that is due at `now`, in the order they were
    /// posted, to be run once each; the others stay queued in their order.
    pub fn take_expired_tasks(&mut self, now: u64) -> (expired: Vec<EngineTask<T>>)
        ensures
            expired@ == expired_of(old(self).queued(), now),
            final(self).queued() == pending_of(old(self).queued(), now),
    {
        let ghost orig = self.tasks@;
        let mut rest: Vec<EngineTask<T>> = Vec::new();
        std::mem::swap(&mut self.tasks, &mut rest);
        let mut expired: Vec<EngineTask<T>> = Vec::new();
        let mut kept: Vec<EngineTask<T>> = Vec::new();
        let ghost mut i: int = 0;
        while rest.len() > 0
            invariant
                0 <= i <= orig.len(),
                rest@ == orig.skip(i),
                expired@ == expired_of(orig.take(i), now),
                kept@ == pending_of(orig.take(i), now),
            decreases rest@.len(),
        {
            let task = rest.remove(0);
            proof {
                assert(task == orig[i]);
                assert(orig.take(i + 1).drop_last() =~= orig.take(i));
                assert(orig.take(i + 1).last() == orig[i]);
                assert(orig.skip(i + 1) =~= orig.skip(i).skip(1));
            }
            if task.target_time_nanos <= now {
                expired.push(task);
            } else {
                kept.push(task);
            }
            proof {
                i = i + 1;
            }
        }
        assert(orig.take(i) =~= orig);
        self.tasks = kept;
        expired
    }
}

/// A task that is not yet due is never taken out, and stays queued; a due
/// task is taken out, and is no longer queued, so no later call, at any
/// time, takes it out again. Nothing is lost or added: the two parts hold
/// as many tasks as the queue did.
pub proof fn lemma_task_expiry<T>(queue: Seq<EngineTask<T>>, now: u64)
    ensures
        forall|t: EngineTask<T>, later: u64|
            queue.contains(t) && t.fire_time() <= now ==> !#[trigger] expired_of(pending_of(queue, now), later).contains(t),
        forall|t: EngineTask<T>|
            queue.contains(t) && t.fire_time() > now ==> !expired_of(queue, now).contains(t) && pending_of(
                queue,
                now,
            ).contains(t),
        forall|t: EngineTask<T>|
            queue.contains(t) && t.fire_time() <= now ==> expired_of(queue, now).contains(t) && !pending_of(
                queue,
                now,
            ).contains(t),
        expired_of(queue, now).len() + pending_of(queue, now).len() == queue.len(),
    decreases queue.len(),
{
    if queue.len() > 0 {
        let init = queue.drop_last();
        lemma_task_expiry(init, now);
        lemma_parts_fire_times(init, now);
        assert forall|t: EngineTask<T>| queue.contains(t) implies init.contains(t) || t == queue.last() by {
            let k = choose|k: int| 0 <= k < queue.len() && queue[k] == t;
            if k < queue.len() - 1 {
                assert(init[k] == t);
            }
        }
        let e = expired_of(queue, now);
        let p = pending_of(queue, now);
        let ei = expired_of(init, now);
        let pi = pending_of(init, now);
        assert forall|t: EngineTask<T>| #[trigger] ei.contains(t) implies e.contains(t) by {
            let k = choose|k: int| 0 <= k < ei.len() && ei[k] == t;
            assert(e[k] == t);
        }
        assert forall|t: EngineTask<T>| #[trigger] pi.contains(t) implies p.contains(t) by {
            let k = choose|k: int| 0 <= k < pi.len() && pi[k] == t;
            assert(p[k] == t);
        }
        if queue.last().fire_time() <= now {
            assert(e[e.len() - 1] == queue.last());
        } else {
            assert(p[p.len() - 1] == queue.last());
        }
        lemma_parts_fire_times(queue, now);
    }
    assert forall|t: EngineTask<T>, later: u64|
        queue.contains(t) && t.fire_time() <= now implies !#[trigger] expired_of(pending_of(queue, now), later).contains(t) by {
        lemma_parts_fire_times(queue, now);
        lemma_expired_within(pending_of(queue, now), later);
    }
}

/// How many times `t` stands in `s`.
pub open spec fn occurrences<T>(s: Seq<EngineTask<T>>, t: EngineTask<T>) -> nat
    decreases s.len(),
{
    if s.len() == 0 {
        0
    } else {
        occurrences(s.drop_last(), t) + if s.last() == t {
            1nat
        } else {
            0nat
        }
    }
}

/// A due task is taken out as many times as it was queued, and no copy of
/// it stays; a task not yet due is never taken out, and every copy stays.
pub proof fn lemma_task_expiry_counts<T>(queue: Seq<EngineTask<T>>, now: u64, t: EngineTask<T>)
    ensures
        t.fire_time() <= now ==> occurrences(expired_of(queue, now), t) == occurrences(queue, t)
            && occurrences(pending_of(queue, now), t) == 0,
        t.fire_time() > now ==> occurrences(expired_of(queue, now), t) == 0 && occurrences(
            pending_of(queue, now),
            t,
        ) == occurrences(queue, t),
    decreases queue.len(),
{
    if queue.len() > 0 {
        lemma_task_expiry_counts(queue.drop_last(), now, t);
        let e = expired_of(queue.drop_last(), now);
        let p = pending_of(queue.drop_last(), now);
        assert(e.push(queue.last()).drop_last() =~= e);
        assert(p.push(queue.last()).drop_last() =~= p);
    }
}

proof fn lemma_expired_within<T>(queue: Seq<EngineTask<T>>, now: u64)
    ensures
        forall|t: EngineTask<T>| #[trigger] expired_of(queue, now).contains(t) ==> queue.contains(t),
    decreases queue.len(),
{
    if queue.len() > 0 {
        let init = queue.drop_last();
        lemma_expired_within(init, now);
        let e = expired_of(queue, now);
        assert forall|t: EngineTask<T>| #[trigger] e.contains(t) implies queue.contains(t) by {
            let k = choose|k: int| 0 <= k < e.len() && e[k] == t;
            if k < expired_of(init, now).len() {
                assert(expired_of(init, now).contains(t));
                let j = choose|j: int| 0 <= j < init.len() && init[j] == t;
                assert(queue[j] == t);
            } else {
                assert(queue[queue.len() - 1] == t);
            }
        }
    }
}

proof fn lemma_parts_fire_times<T>(queue: Seq<EngineTask<T>>, now: u64)
    ensures
        forall|t: EngineTask<T>| #[trigger] expired_of(queue, now).contains(t) ==> t.fire_time() <= now,
        forall|t: EngineTask<T>| #[trigger] pending_of(queue, now).contains(t) ==> t.fire_time() > now,
    decreases queue.len(),
{
    if queue.len() > 0 {
        let init = queue.drop_last();
        lemma_parts_fire_times(init, now);
        let e = expired_of(queue, now);
        let p = pending_of(queue, now);
        assert forall|t: EngineTask<T>| #[trigger] e.contains(t) implies t.fire_time() <= now by {
            let k = choose|k: int| 0 <= k < e.len() && e[k] == t;
            if k < expired_of(init, now).len() {
                assert(expired_of(init, now).contains(t));
            }
        }
        assert forall|t: EngineTask<T>| #[trigger] p.contains(t) implies t.fire_time() > now by {
            let k = choose|k: int| 0 <= k < p.len() && p[k] == t;
            if k < pending_of(init, now).len() {
                assert(pending_of(init, now).contains(t));
            }
        }
    }
}

} // verus!
