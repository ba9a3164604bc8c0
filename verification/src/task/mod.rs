//! Tasks and their scheduling.
//!
//! `TaskManager` runs a fixed set of tasks by stride scheduling: the ready
//! task that has covered the least distance runs next, and each time a task
//! is picked its distance grows by `big_stride / priority`.
use vstd::prelude::*;

pub mod manager;
pub mod task;

pub use task::{TaskControlBlock, TaskStatus};

verus! {

/// The order of std on `(stride, id)` pairs: by stride, then by id.
pub open spec fn entry_lt(a: (usize, usize), b: (usize, usize)) -> bool {
    a.0 < b.0 || (a.0 == b.0 && a.1 < b.1)
}

/// The entry `e` stands for a task that is ready.
pub open spec fn ready_in(tasks: Seq<TaskControlBlock>, e: (usize, usize)) -> bool {
    e.1 < tasks.len() && tasks[e.1 as int].task_status == TaskStatus::Ready
}

/// `m` is the least entry of `heap` that stands for a ready task.
pub open spec fn is_min_ready(
    tasks: Seq<TaskControlBlock>,
    heap: Set<(usize, usize)>,
    m: (usize, usize),
) -> bool {
    &&& heap.contains(m)
    &&& ready_in(tasks, m)
    &&& forall|e: (usize, usize)|
        #![trigger heap.contains(e)]
        heap.contains(e) && ready_in(tasks, e) ==> !entry_lt(e, m)
}

/// The least entry of `heap` that stands for a ready task, if any.
pub open spec fn min_ready(tasks: Seq<TaskControlBlock>, heap: Set<(usize, usize)>) -> Option<
    (usize, usize),
> {
    if exists|m: (usize, usize)| is_min_ready(tasks, heap, m) {
        Some(choose|m: (usize, usize)| is_min_ready(tasks, heap, m))
    } else {
        None
    }
}

/// The entry `m` after its task has been picked once more.
pub open spec fn advanced(tasks: Seq<TaskControlBlock>, m: (usize, usize), big_stride: usize) -> (
    usize,
    usize,
) {
    ((m.0 + big_stride / tasks[m.1 as int].task_priority) as usize, m.1)
}

/// Picking the next task neither divides by zero nor overflows.
pub open spec fn pick_ok(
    tasks: Seq<TaskControlBlock>,
    heap: Set<(usize, usize)>,
    big_stride: usize,
) -> bool {
    match min_ready(tasks, heap) {
        None => true,
        Some(m) => {
            &&& tasks[m.1 as int].task_priority > 0
            &&& m.0 + big_stride / tasks[m.1 as int].task_priority <= usize::MAX
        },
    }
}

/// The task picked from `heap` and the heap afterwards.
///
/// Entries come out in increasing order: those before the least ready entry
/// stand for tasks that are not ready and are dropped; the least ready entry
/// goes back with its stride advanced; the entries after it stay. When no
/// entry stands for a ready task, all of them are dropped.
pub open spec fn pick(tasks: Seq<TaskControlBlock>, heap: Set<(usize, usize)>, big_stride: usize) -> (
    Option<usize>,
    Set<(usize, usize)>,
) {
    match min_ready(tasks, heap) {
        None => (None, Set::empty()),
        Some(m) => (
            Some(m.1),
            heap.filter(|e: (usize, usize)| entry_lt(m, e)).insert(advanced(tasks, m, big_stride)),
        ),
    }
}

/// The tasks with task `cur`'s status replaced by `status`.
pub open spec fn with_status(tasks: Seq<TaskControlBlock>, cur: usize, status: TaskStatus) -> Seq<
    TaskControlBlock,
> {
    tasks.update(cur as int, TaskControlBlock { task_status: status, ..tasks[cur as int] })
}

/// The entries of a sequence, as a set.
pub open spec fn entries(s: Seq<(usize, usize)>) -> Set<(usize, usize)> {
    Set::new(|e: (usize, usize)| s.contains(e))
}

/// A task after it has been suspended at time `now`: ready, with the time
/// since it began to run added to its total.
pub open spec fn suspended(t: TaskControlBlock, now: usize) -> TaskControlBlock {
    TaskControlBlock {
        task_status: TaskStatus::Ready,
        task_total_time: (t.task_total_time + (now - t.task_start_time)) as usize,
        ..t
    }
}

/// A task that begins to run at time `now`.
pub open spec fn started(t: TaskControlBlock, now: usize) -> TaskControlBlock {
    TaskControlBlock { task_status: TaskStatus::Running, task_start_time: now, ..t }
}

/// A task that has exited.
pub open spec fn exited(t: TaskControlBlock) -> TaskControlBlock {
    TaskControlBlock { task_status: TaskStatus::Exited, ..t }
}

/// The current task has, with the time it has just run, run longer than
/// `max_app_time` in all.
pub open spec fn overran(t: TaskControlBlock, now: usize, max_app_time: usize) -> bool {
    suspended(t, now).task_total_time > max_app_time
}

/// The current task once suspended at `now`: ready, or exited when it has
/// overrun its time.
pub open spec fn after_suspend(t: TaskControlBlock, now: usize, max_app_time: usize) -> TaskControlBlock {
    if overran(t, now, max_app_time) {
        exited(suspended(t, now))
    } else {
        suspended(t, now)
    }
}

/// The tasks once the current one has been suspended.
pub open spec fn suspend_tasks(
    tasks: Seq<TaskControlBlock>,
    cur: usize,
    now: usize,
    max_app_time: usize,
) -> Seq<TaskControlBlock> {
    tasks.update(cur as int, after_suspend(tasks[cur as int], now, max_app_time))
}

/// The heap once the current task has been suspended: a task that overran
/// makes the scheduler look for another task at once.
pub open spec fn suspend_heap(
    tasks: Seq<TaskControlBlock>,
    heap: Set<(usize, usize)>,
    cur: usize,
    now: usize,
    max_app_time: usize,
    big_stride: usize,
) -> Set<(usize, usize)> {
    if overran(tasks[cur as int], now, max_app_time) {
        pick(suspend_tasks(tasks, cur, now, max_app_time), heap, big_stride).1
    } else {
        heap
    }
}

/// Suspending the current task powers the machine off: it overran and no
/// task is left to run.
pub open spec fn suspend_shuts_down(
    tasks: Seq<TaskControlBlock>,
    heap: Set<(usize, usize)>,
    cur: usize,
    now: usize,
    max_app_time: usize,
    big_stride: usize,
) -> bool {
    overran(tasks[cur as int], now, max_app_time) && pick(
        suspend_tasks(tasks, cur, now, max_app_time),
        heap,
        big_stride,
    ).0 is None
}

/// Suspending the current task at `now` neither underflows, overflows nor
/// divides by zero.
pub open spec fn suspend_ok(
    tasks: Seq<TaskControlBlock>,
    heap: Set<(usize, usize)>,
    cur: usize,
    now: usize,
    max_app_time: usize,
    big_stride: usize,
) -> bool {
    &&& cur < tasks.len()
    &&& tasks[cur as int].task_start_time <= now
    &&& tasks[cur as int].task_total_time + (now - tasks[cur as int].task_start_time) <= usize::MAX
    &&& overran(tasks[cur as int], now, max_app_time) ==> pick_ok(
        suspend_tasks(tasks, cur, now, max_app_time),
        heap,
        big_stride,
    )
}

/// The tasks after `next` was picked at `now`.
pub open spec fn run_tasks(tasks: Seq<TaskControlBlock>, next: usize, now: usize) -> Seq<TaskControlBlock> {
    tasks.update(next as int, started(tasks[next as int], now))
}

/// What `run_next_task` does: the switch it asks for, the tasks, the heap
/// and the current task afterwards.
pub open spec fn run_next_outcome(
    tasks: Seq<TaskControlBlock>,
    heap: Set<(usize, usize)>,
    cur: usize,
    now: usize,
    big_stride: usize,
) -> (Option<(usize, usize)>, Seq<TaskControlBlock>, Set<(usize, usize)>, usize) {
    let p = pick(tasks, heap, big_stride);
    match p.0 {
        None => (None, tasks, p.1, cur),
        Some(next) => (Some((cur, next)), run_tasks(tasks, next, now), p.1, next),
    }
}

/// What `exit_current_and_run_next` does: the decision, the tasks, the heap
/// and the current task afterwards.
pub open spec fn exit_outcome(
    tasks: Seq<TaskControlBlock>,
    heap: Set<(usize, usize)>,
    cur: usize,
    now: usize,
    big_stride: usize,
) -> (Schedule, Seq<TaskControlBlock>, Set<(usize, usize)>, usize) {
    let o = run_next_outcome(tasks.update(cur as int, exited(tasks[cur as int])), heap, cur, now, big_stride);
    (
        match o.0 {
            None => Schedule::Shutdown,
            Some(s) => Schedule::Switch { from: s.0, to: s.1 },
        },
        o.1,
        o.2,
        o.3,
    )
}

/// What `suspend_current_and_run_next` does: the decision, the tasks, the
/// heap and the current task afterwards.
pub open spec fn suspend_outcome(
    tasks: Seq<TaskControlBlock>,
    heap: Set<(usize, usize)>,
    cur: usize,
    now: usize,
    max_app_time: usize,
    big_stride: usize,
) -> (Schedule, Seq<TaskControlBlock>, Set<(usize, usize)>, usize) {
    let tasks1 = suspend_tasks(tasks, cur, now, max_app_time);
    let heap1 = suspend_heap(tasks, heap, cur, now, max_app_time, big_stride);
    if suspend_shuts_down(tasks, heap, cur, now, max_app_time, big_stride) {
        (Schedule::Shutdown, tasks1, heap1, cur)
    } else {
        let o = run_next_outcome(tasks1, heap1, cur, now, big_stride);
        (
            match o.0 {
                None => Schedule::Continue,
                Some(s) => Schedule::Switch { from: s.0, to: s.1 },
            },
            o.1,
            o.2,
            o.3,
        )
    }
}

/// Suspending the current task and running the next neither underflows,
/// overflows nor divides by zero.
pub open spec fn suspend_and_run_ok(
    tasks: Seq<TaskControlBlock>,
    heap: Set<(usize, usize)>,
    cur: usize,
    now: usize,
    max_app_time: usize,
    big_stride: usize,
) -> bool {
    &&& suspend_ok(tasks, heap, cur, now, max_app_time, big_stride)
    &&& !suspend_shuts_down(tasks, heap, cur, now, max_app_time, big_stride) ==> pick_ok(
        suspend_tasks(tasks, cur, now, max_app_time),
        suspend_heap(tasks, heap, cur, now, max_app_time, big_stride),
        big_stride,
    )
}

/// Ending the current task and running the next does not divide by zero
/// or overflow.
pub open spec fn exit_ok(
    tasks: Seq<TaskControlBlock>,
    heap: Set<(usize, usize)>,
    cur: usize,
    big_stride: usize,
) -> bool {
    &&& cur < tasks.len()
    &&& pick_ok(tasks.update(cur as int, exited(tasks[cur as int])), heap, big_stride)
}


/// The scheduler only ever picks a task that is ready: one that has
/// exited, or that runs, is never picked.
pub proof fn law_picked_is_ready(
    tasks: Seq<TaskControlBlock>,
    heap: Set<(usize, usize)>,
    big_stride: usize,
    id: usize,
)
    requires
        pick(tasks, heap, big_stride).0 == Some(id),
    ensures
        id < tasks.len(),
        tasks[id as int].task_status == TaskStatus::Ready,
{
}

/// The least ready entry of a sequence exists as soon as one entry is ready.
proof fn lemma_min_ready_exists(tasks: Seq<TaskControlBlock>, s: Seq<(usize, usize)>, e: (usize, usize))
    requires
        s.contains(e),
        ready_in(tasks, e),
    ensures
        exists|m: (usize, usize)| is_min_ready(tasks, entries(s), m),
    decreases s.len(),
{
    let heap = entries(s);
    let rest = s.drop_last();
    let x = s.last();
    assert(s =~= rest.push(x));
    assert forall|y: (usize, usize)| #[trigger] heap.contains(y) implies rest.contains(y) || y == x by {
        let k = choose|k: int| 0 <= k < s.len() && s[k] == y;
        if k < rest.len() {
            assert(rest[k] == y);
        }
    }
    assert forall|y: (usize, usize)| rest.contains(y) implies #[trigger] heap.contains(y) by {
        let k = choose|k: int| 0 <= k < rest.len() && rest[k] == y;
        assert(s[k] == y);
    }
    assert(heap.contains(x)) by {
        assert(s[s.len() - 1] == x);
    }
    if exists|f: (usize, usize)| rest.contains(f) && ready_in(tasks, f) {
        let f = choose|f: (usize, usize)| rest.contains(f) && ready_in(tasks, f);
        lemma_min_ready_exists(tasks, rest, f);
        let m1 = choose|m: (usize, usize)| is_min_ready(tasks, entries(rest), m);
        assert(entries(rest).contains(m1));
        if ready_in(tasks, x) && entry_lt(x, m1) {
            assert forall|y: (usize, usize)| #[trigger] heap.contains(y) && ready_in(tasks, y) implies !entry_lt(y, x) by {
                if y != x {
                    assert(entries(rest).contains(y));
                }
            }
            assert(is_min_ready(tasks, heap, x));
        } else {
            assert forall|y: (usize, usize)| #[trigger] heap.contains(y) && ready_in(tasks, y) implies !entry_lt(y, m1) by {
                if y != x {
                    assert(entries(rest).contains(y));
                }
            }
            assert(is_min_ready(tasks, heap, m1));
        }
    } else {
        assert(e == x) by {
            if e != x {
                let k = choose|k: int| 0 <= k < s.len() && s[k] == e;
                if k < rest.len() {
                    assert(rest[k] == e);
                }
            }
        }
        assert forall|y: (usize, usize)| #[trigger] heap.contains(y) && ready_in(tasks, y) implies !entry_lt(y, x) by {
            if y != x {
                assert(rest.contains(y));
            }
        }
        assert(is_min_ready(tasks, heap, x));
    }
}

/// Whenever the heap holds an entry of a ready task, the scheduler picks a
/// task; only when no ready task is left does it find none.
pub proof fn law_ready_task_is_found(
    tasks: Seq<TaskControlBlock>,
    s: Seq<(usize, usize)>,
    e: (usize, usize),
    big_stride: usize,
)
    requires
        s.contains(e),
        ready_in(tasks, e),
    ensures
        pick(tasks, entries(s), big_stride).0 is Some,
{
    lemma_min_ready_exists(tasks, s, e);
}

/// A task that overruns its time when suspended is left exited, so it is
/// never picked again.
pub proof fn law_overrun_task_exits(
    tasks: Seq<TaskControlBlock>,
    cur: usize,
    now: usize,
    max_app_time: usize,
)
    requires
        cur < tasks.len(),
        overran(tasks[cur as int], now, max_app_time),
    ensures
        suspend_tasks(tasks, cur, now, max_app_time)[cur as int].task_status == TaskStatus::Exited,
        !ready_in(suspend_tasks(tasks, cur, now, max_app_time), (0, cur)),
{
}

/// Picking a task advances its stride by `big_stride / priority` and keeps
/// the entries that came after it; the entries before it, all of tasks that
/// are not ready, are dropped.
pub proof fn law_pick_advances_stride(
    tasks: Seq<TaskControlBlock>,
    heap: Set<(usize, usize)>,
    big_stride: usize,
    m: (usize, usize),
)
    requires
        is_min_ready(tasks, heap, m),
        pick_ok(tasks, heap, big_stride),
        forall|a: (usize, usize), b: (usize, usize)|
            heap.contains(a) && heap.contains(b) && a.1 == b.1 ==> a == b,
    ensures
        pick(tasks, heap, big_stride).0 == Some(m.1),
        pick(tasks, heap, big_stride).1.contains(advanced(tasks, m, big_stride)),
        advanced(tasks, m, big_stride).0 == m.0 + big_stride / tasks[m.1 as int].task_priority,
        advanced(tasks, m, big_stride).1 == m.1,
        !pick(tasks, heap, big_stride).1.contains(m) || big_stride / tasks[m.1 as int].task_priority
            == 0,
        forall|e: (usize, usize)|
            heap.contains(e) && entry_lt(m, e) ==> pick(tasks, heap, big_stride).1.contains(e),
        forall|e: (usize, usize)|
            heap.contains(e) && entry_lt(e, m) ==> !pick(tasks, heap, big_stride).1.contains(e)
                && !ready_in(tasks, e),
{
    let c = choose|c: (usize, usize)| is_min_ready(tasks, heap, c);
    assert(is_min_ready(tasks, heap, c));
    assert(!entry_lt(c, m) && !entry_lt(m, c));
}

/// Tasks that agree on which of them are ready, and on the priorities of
/// the ready ones, are picked from alike.
proof fn lemma_pick_congruent(
    t1: Seq<TaskControlBlock>,
    t2: Seq<TaskControlBlock>,
    heap: Set<(usize, usize)>,
    big_stride: usize,
)
    requires
        t1.len() == t2.len(),
        forall|i: int|
            0 <= i < t1.len() ==> ((#[trigger] t1[i]).task_status == TaskStatus::Ready)
                == (t2[i].task_status == TaskStatus::Ready),
        forall|i: int|
            0 <= i < t1.len() && (#[trigger] t1[i]).task_status == TaskStatus::Ready
                ==> t1[i].task_priority == t2[i].task_priority,
    ensures
        min_ready(t1, heap) == min_ready(t2, heap),
        pick_ok(t1, heap, big_stride) == pick_ok(t2, heap, big_stride),
{
    assert forall|e: (usize, usize)| ready_in(t1, e) == ready_in(t2, e) by {
        if e.1 < t1.len() {
            assert(t1[e.1 as int].task_status == TaskStatus::Ready <==> t2[e.1 as int].task_status
                == TaskStatus::Ready);
        }
    }
    assert forall|m: (usize, usize)| is_min_ready(t1, heap, m) == is_min_ready(t2, heap, m) by {
        if is_min_ready(t1, heap, m) {
            assert forall|e: (usize, usize)|
                #![trigger heap.contains(e)]
                heap.contains(e) && ready_in(t2, e) implies !entry_lt(e, m) by {
                assert(ready_in(t1, e));
            }
        }
        if is_min_ready(t2, heap, m) {
            assert forall|e: (usize, usize)|
                #![trigger heap.contains(e)]
                heap.contains(e) && ready_in(t1, e) implies !entry_lt(e, m) by {
                assert(ready_in(t2, e));
            }
        }
    }
    if exists|m: (usize, usize)| is_min_ready(t1, heap, m) {
        let c1 = choose|m: (usize, usize)| is_min_ready(t1, heap, m);
        assert(is_min_ready(t2, heap, c1));
        let c2 = choose|m: (usize, usize)| is_min_ready(t2, heap, m);
        assert(is_min_ready(t1, heap, c2));
        assert(!entry_lt(c1, c2) && !entry_lt(c2, c1));
        assert(c1 == c2);
        assert(t1[c1.1 as int].task_status == TaskStatus::Ready);
    } else {
        assert(!exists|m: (usize, usize)| is_min_ready(t2, heap, m));
    }
}

/// Suspending the current task at `now` adds the time it has just run,
/// `now` less the time it began, to its total; it is left exited exactly
/// when that total exceeds `max_app_time`, and ready otherwise. The
/// machine powers off only for a task that overran its time. When another
/// task (or the same one) is switched to, it is the current task, running
/// from `now`, and it was ready before.
pub proof fn law_suspend_accounts_total_time(
    tasks: Seq<TaskControlBlock>,
    s: Seq<(usize, usize)>,
    cur: usize,
    now: usize,
    max_app_time: usize,
    big_stride: usize,
)
    requires
        cur < tasks.len(),
        tasks[cur as int].task_start_time <= now,
        tasks[cur as int].task_total_time + (now - tasks[cur as int].task_start_time) <= usize::MAX,
    ensures
        ({
            let t = tasks[cur as int];
            let total = t.task_total_time + (now - t.task_start_time);
            let after = suspend_tasks(tasks, cur, now, max_app_time);
            let o = suspend_outcome(tasks, entries(s), cur, now, max_app_time, big_stride);
            &&& after.len() == tasks.len()
            &&& after[cur as int].task_total_time == total
            &&& (after[cur as int].task_status == TaskStatus::Exited) == (total > max_app_time)
            &&& (after[cur as int].task_status == TaskStatus::Ready) == (total <= max_app_time)
            &&& forall|i: int| 0 <= i < tasks.len() && i != cur ==> #[trigger] after[i] == tasks[i]
            &&& o.1[cur as int].task_total_time == total
            &&& total > max_app_time ==> o.1[cur as int].task_status == TaskStatus::Exited
            &&& o.0 == Schedule::Shutdown ==> total > max_app_time && o.3 == cur
            &&& o.0 == Schedule::Continue ==> o.3 == cur && o.1[cur as int].task_status
                == TaskStatus::Ready
            &&& o.0 matches Schedule::Switch { from, to } ==> {
                &&& from == cur
                &&& o.3 == to
                &&& to < tasks.len()
                &&& o.1[to as int].task_status == TaskStatus::Running
                &&& o.1[to as int].task_start_time == now
                &&& after[to as int].task_status == TaskStatus::Ready
            }
        }),
{
    let t = tasks[cur as int];
    let total = t.task_total_time + (now - t.task_start_time);
    let t1 = suspend_tasks(tasks, cur, now, max_app_time);
    let h1 = suspend_heap(tasks, entries(s), cur, now, max_app_time, big_stride);
    if !suspend_shuts_down(tasks, entries(s), cur, now, max_app_time, big_stride) {
        if total > max_app_time {
            // the first pick found a ready task; its advanced entry is in
            // the heap again, so the second pick finds one too
            let p1 = pick(t1, entries(s), big_stride);
            law_picked_is_ready(t1, entries(s), big_stride, p1.0->0);
            let m1 = min_ready(t1, entries(s))->0;
            let adv = advanced(t1, m1, big_stride);
            let f = |e: (usize, usize)| entry_lt(m1, e);
            let s1 = s.filter(f).push(adv);
            assert(entries(s1) =~= h1) by {
                assert forall|e: (usize, usize)| entries(s1).contains(e) <==> h1.contains(e) by {
                    if s.filter(f).contains(e) {
                        s.lemma_filter_contains_rev(f, e);
                        let k = choose|k: int| 0 <= k < s.filter(f).len() && s.filter(f)[k] == e;
                        s.filter_lemma(f);
                    }
                    if s.contains(e) && entry_lt(m1, e) {
                        let k = choose|k: int| 0 <= k < s.len() && s[k] == e;
                        s.lemma_filter_contains(f, k);
                    }
                    if s1.contains(e) && e != adv {
                        let k = choose|k: int| 0 <= k < s1.len() && s1[k] == e;
                        assert(s.filter(f)[k] == e);
                    }
                    if s.filter(f).contains(e) {
                        let k = choose|k: int| 0 <= k < s.filter(f).len() && s.filter(f)[k] == e;
                        assert(s1[k] == e);
                    }
                    if e == adv {
                        assert(s1[s1.len() - 1] == e);
                    }
                }
            }
            assert(s1[s1.len() - 1] == adv);
            law_ready_task_is_found(t1, s1, adv, big_stride);
        }
        if pick(t1, h1, big_stride).0 is Some {
            law_picked_is_ready(t1, h1, big_stride, pick(t1, h1, big_stride).0->0);
        }
    }
}

/// Ending the current task leaves it exited. When a task is switched to,
/// it is another task, which was ready; it is the current task afterwards,
/// running from `now`. The machine powers off only when no other task in
/// the heap is ready.
pub proof fn law_exit_runs_next(
    tasks: Seq<TaskControlBlock>,
    s: Seq<(usize, usize)>,
    cur: usize,
    now: usize,
    big_stride: usize,
)
    requires
        cur < tasks.len(),
    ensures
        ({
            let o = exit_outcome(tasks, entries(s), cur, now, big_stride);
            &&& o.1.len() == tasks.len()
            &&& o.1[cur as int].task_status == TaskStatus::Exited
            &&& o.0 matches Schedule::Switch { from, to } ==> {
                &&& from == cur
                &&& to != cur
                &&& to < tasks.len()
                &&& o.3 == to
                &&& tasks[to as int].task_status == TaskStatus::Ready
                &&& o.1[to as int].task_status == TaskStatus::Running
                &&& o.1[to as int].task_start_time == now
                &&& o.1[to as int].task_total_time == tasks[to as int].task_total_time
            }
            &&& o.0 == Schedule::Shutdown ==> {
                &&& o.3 == cur
                &&& forall|e: (usize, usize)|
                    #![trigger s.contains(e)]
                    s.contains(e) && e.1 != cur && e.1 < tasks.len() ==> tasks[e.1 as int].task_status
                        != TaskStatus::Ready
            }
        }),
{
    let t1 = tasks.update(cur as int, exited(tasks[cur as int]));
    let p = pick(t1, entries(s), big_stride);
    if p.0 is Some {
        law_picked_is_ready(t1, entries(s), big_stride, p.0->0);
    } else {
        assert forall|e: (usize, usize)|
            #![trigger s.contains(e)]
            s.contains(e) && e.1 != cur && e.1 < tasks.len() implies tasks[e.1 as int].task_status
                != TaskStatus::Ready by {
            if tasks[e.1 as int].task_status == TaskStatus::Ready {
                assert(ready_in(t1, e));
                law_ready_task_is_found(t1, s, e, big_stride);
            }
        }
    }
}

/// Picking takes the ready task whose `(stride, id)` entry is least in
/// std's order on pairs: no ready task has a smaller stride, nor the same
/// stride and a smaller id. Its entry comes back with the stride advanced
/// by `big_stride / priority`; the entries after it stay, and those before
/// it, which are all of tasks that are not ready, are gone.
pub proof fn law_pick_takes_least_stride(
    tasks: Seq<TaskControlBlock>,
    heap: Set<(usize, usize)>,
    big_stride: usize,
    id: usize,
)
    requires
        pick(tasks, heap, big_stride).0 == Some(id),
    ensures
        exists|st: usize|
            {
                &&& #[trigger] heap.contains((st, id))
                &&& id < tasks.len()
                &&& tasks[id as int].task_status == TaskStatus::Ready
                &&& forall|e: (usize, usize)|
                    #![trigger heap.contains(e)]
                    heap.contains(e) && e.1 < tasks.len() && tasks[e.1 as int].task_status
                        == TaskStatus::Ready ==> st < e.0 || (st == e.0 && id <= e.1)
                &&& pick(tasks, heap, big_stride).1.contains(
                    (((st + big_stride / tasks[id as int].task_priority) as usize), id),
                )
                &&& forall|e: (usize, usize)|
                    #![trigger heap.contains(e)]
                    heap.contains(e) && (st < e.0 || (st == e.0 && id < e.1)) ==> pick(
                        tasks,
                        heap,
                        big_stride,
                    ).1.contains(e)
                &&& forall|e: (usize, usize)|
                    #![trigger pick(tasks, heap, big_stride).1.contains(e)]
                    pick(tasks, heap, big_stride).1.contains(e) ==> e == (((st + big_stride
                        / tasks[id as int].task_priority) as usize), id) || (heap.contains(e) && (st
                        < e.0 || (st == e.0 && id < e.1)))
            },
{
    let m = min_ready(tasks, heap)->0;
    assert(is_min_ready(tasks, heap, m));
    assert(m.1 == id);
    assert(heap.contains((m.0, id)));
}

/// What the caller must do after a scheduling decision.
#[derive(Clone, Copy, PartialEq, Eq, Structural, Debug)]
pub enum Schedule {
    /// Save the context of task `from` and resume task `to`.
    Switch { from: usize, to: usize },
    /// Go on running the current task.
    Continue,
    /// No task is left to run: power off.
    Shutdown,
}

/// The tasks of the system and the stride heap that orders them.
pub struct TaskManager {
    tasks: Vec<TaskControlBlock>,
    stride: Vec<(usize, usize)>,
    current_task: usize,
    big_stride: usize,
    max_app_time: usize,
}

impl TaskManager {
    pub closed spec fn tasks(&self) -> Seq<TaskControlBlock> {
        self.tasks@
    }

    /// The `(stride, task id)` entries of the heap.
    pub closed spec fn heap(&self) -> Set<(usize, usize)> {
        entries(self.stride@)
    }

    pub closed spec fn current(&self) -> usize {
        self.current_task
    }

    /// Distance covered per pick by a task of priority 1.
    pub closed spec fn big_stride(&self) -> usize {
        self.big_stride
    }

    /// Milliseconds a task may run in all before it is killed.
    pub closed spec fn max_app_time(&self) -> usize {
        self.max_app_time
    }

    /// The current task exists (unless there are no tasks), every heap entry
    /// names a task, and no task has two entries.
    pub closed spec fn wf(&self) -> bool {
        &&& (self.tasks@.len() == 0 || self.current_task < self.tasks@.len())
        &&& forall|i: int|
            0 <= i < self.stride@.len() ==> (#[trigger] self.stride@[i]).1 < self.tasks@.len()
        &&& forall|i: int, j: int|
            0 <= i < self.stride@.len() && 0 <= j < self.stride@.len() && i != j ==> (
            #[trigger] self.stride@[i]).1 != (#[trigger] self.stride@[j]).1
    }

    /// No task has two entries in the heap.
    pub proof fn lemma_ids_unique(&self, a: (usize, usize), b: (usize, usize))
        requires
            self.wf(),
            self.heap().contains(a),
            self.heap().contains(b),
            a.1 == b.1,
        ensures
            a == b,
    {
        let i = choose|i: int| 0 <= i < self.stride@.len() && self.stride@[i] == a;
        let j = choose|j: int| 0 <= j < self.stride@.len() && self.stride@[j] == b;
        assert(self.stride@[i].1 == self.stride@[j].1);
    }

    /// The current task is one of the tasks, when there are any.
    pub proof fn lemma_current_in_range(&self)
        requires
            self.wf(),
            self.tasks().len() > 0,
        ensures
            self.current() < self.tasks().len(),
    {
    }

    /// Whenever the heap holds an entry of a ready task, picking finds a
    /// task.
    pub proof fn law_ready_task_is_found_in_heap(&self, e: (usize, usize))
        requires
            self.heap().contains(e),
            ready_in(self.tasks(), e),
        ensures
            pick(self.tasks(), self.heap(), self.big_stride()).0 is Some,
    {
        lemma_min_ready_exists(self.tasks@, self.stride@, e);
    }

    /// Every heap entry names a task.
    pub proof fn lemma_ids_in_range(&self, a: (usize, usize))
        requires
            self.wf(),
            self.heap().contains(a),
        ensures
            a.1 < self.tasks().len(),
    {
        let i = choose|i: int| 0 <= i < self.stride@.len() && self.stride@[i] == a;
        assert(self.stride@[i].1 < self.tasks@.len());
    }

    /// Takes the tasks in order; each starts with stride 0, and task 0 is
    /// the current one.
    pub fn new(tasks: Vec<TaskControlBlock>, big_stride: usize, max_app_time: usize) -> (r: Self)
        ensures
            r.wf(),
            r.tasks() == tasks@,
            r.current() == 0,
            r.heap() == Set::new(|e: (usize, usize)| e.0 == 0 && e.1 < tasks@.len()),
            r.big_stride() == big_stride,
            r.max_app_time() == max_app_time,
    {
        let n = tasks.len();
        let mut stride: Vec<(usize, usize)> = Vec::new();
        let mut i: usize = 0;
        while i < n
            invariant
                i <= n,
                stride@.len() == i,
                forall|k: int| 0 <= k < i ==> #[trigger] stride@[k] == (0usize, k as usize),
            decreases n - i,
        {
            stride.push((0, i));
            i = i + 1;
        }
        let r = TaskManager { tasks, stride, current_task: 0, big_stride, max_app_time };
        assert(r.heap() =~= Set::new(|e: (usize, usize)| e.0 == 0 && e.1 < n)) by {
            assert forall|e: (usize, usize)| e.0 == 0 && e.1 < n implies r.stride@.contains(e) by {
                assert(r.stride@[e.1 as int] == e);
            }
        }
        r
    }

    pub fn num_tasks(&self) -> (r: usize)
        ensures
            r == self.tasks().len(),
    {
        self.tasks.len()
    }

    pub fn current_task(&self) -> (r: usize)
        ensures
            r == self.current(),
    {
        self.current_task
    }

    pub fn task(&self, id: usize) -> (r: TaskControlBlock)
        requires
            id < self.tasks().len(),
        ensures
            r == self.tasks()[id as int],
    {
        self.tasks[id]
    }

    /// The position in the heap of its least entry that stands for a ready
    /// task, the current task counting as exited when `exclude_current`.
    fn min_ready_index(&self, exclude_current: bool) -> (r: Option<usize>)
        requires
            self.wf(),
            exclude_current ==> self.current() < self.tasks().len(),
        ensures
            ({
                let t = if exclude_current {
                    with_status(self.tasks(), self.current(), TaskStatus::Exited)
                } else {
                    self.tasks()
                };
                &&& r matches Some(b) ==> b < self.stride@.len() && min_ready(t, self.heap()) == Some(
                    self.stride@[b as int],
                )
                &&& r is None ==> min_ready(t, self.heap()) is None
            }),
    {
        let ghost tasks = if exclude_current {
            with_status(self.tasks@, self.current_task, TaskStatus::Exited)
        } else {
            self.tasks@
        };
        let ghost heap = self.heap();
        let n = self.stride.len();
        let mut best: Option<usize> = None;
        let mut i: usize = 0;
        while i < n
            invariant
                self.wf(),
                exclude_current ==> self.current_task < self.tasks@.len(),
                tasks == (if exclude_current {
                    with_status(self.tasks@, self.current_task, TaskStatus::Exited)
                } else {
                    self.tasks@
                }),
                n == self.stride@.len(),
                i <= n,
                best matches Some(b) ==> b < i && ready_in(tasks, self.stride@[b as int])
                    && forall|j: int|
                    0 <= j < i && ready_in(tasks, #[trigger] self.stride@[j]) ==> !entry_lt(
                        self.stride@[j],
                        self.stride@[b as int],
                    ),
                best is None ==> forall|j: int|
                    0 <= j < i ==> !ready_in(tasks, #[trigger] self.stride@[j]),
            decreases n - i,
        {
            let e = self.stride[i];
            assert(e.1 < self.tasks@.len());
            let ready = self.tasks[e.1].task_status == TaskStatus::Ready && !(exclude_current && e.1
                == self.current_task);
            assert(ready == ready_in(tasks, e));
            if ready {
                match best {
                    None => {
                        best = Some(i);
                    },
                    Some(b) => {
                        let m = self.stride[b];
                        if e.0 < m.0 || (e.0 == m.0 && e.1 < m.1) {
                            best = Some(i);
                        }
                    },
                }
            }
            i = i + 1;
        }
        match best {
            None => {
                proof {
                    assert forall|m: (usize, usize)| !is_min_ready(tasks, heap, m) by {
                        if heap.contains(m) && ready_in(tasks, m) {
                            let j = choose|j: int| 0 <= j < self.stride@.len() && self.stride@[j] == m;
                            assert(!ready_in(tasks, self.stride@[j]));
                        }
                    }
                }
                None
            },
            Some(b) => {
                let m = self.stride[b];
                proof {
                    assert(is_min_ready(tasks, heap, m)) by {
                        assert(self.stride@.contains(m));
                        assert forall|e: (usize, usize)|
                            #![trigger heap.contains(e)]
                            heap.contains(e) && ready_in(tasks, e) implies !entry_lt(e, m) by {
                            let j = choose|j: int| 0 <= j < self.stride@.len() && self.stride@[j] == e;
                            assert(ready_in(tasks, self.stride@[j]));
                        }
                    }
                    let c = choose|c: (usize, usize)| is_min_ready(tasks, heap, c);
                    assert(is_min_ready(tasks, heap, c));
                    assert(!entry_lt(c, m) && !entry_lt(m, c));
                    assert(min_ready(tasks, heap) == Some(m));
                }
                Some(b)
            },
        }
    }

    /// Whether picking the next task can be made: it neither divides by
    /// zero nor overflows.
    pub fn pick_is_safe(&self) -> (r: bool)
        requires
            self.wf(),
        ensures
            r == pick_ok(self.tasks(), self.heap(), self.big_stride()),
    {
        match self.min_ready_index(false) {
            None => true,
            Some(b) => {
                let m = self.stride[b];
                let prio = self.tasks[m.1].task_priority;
                prio > 0 && m.0 <= usize::MAX - self.big_stride / prio
            },
        }
    }

    /// Whether ending the current task and running the next can be made.
    pub fn exit_is_safe(&self) -> (r: bool)
        requires
            self.wf(),
        ensures
            r == exit_ok(self.tasks(), self.heap(), self.current(), self.big_stride()),
    {
        if self.current_task >= self.tasks.len() {
            return false;
        }
        let ghost t = with_status(self.tasks@, self.current_task, TaskStatus::Exited);
        assert(t =~= self.tasks@.update(
            self.current_task as int,
            exited(self.tasks@[self.current_task as int]),
        ));
        match self.min_ready_index(true) {
            None => true,
            Some(b) => {
                let m = self.stride[b];
                let prio = self.tasks[m.1].task_priority;
                proof {
                    let c = choose|c: (usize, usize)| is_min_ready(t, self.heap(), c);
                    assert(is_min_ready(t, self.heap(), m));
                    assert(m.1 != self.current_task);
                    assert(t[m.1 as int] == self.tasks@[m.1 as int]);
                }
                prio > 0 && m.0 <= usize::MAX - self.big_stride / prio
            },
        }
    }

    /// Whether suspending the current task at time `now` can be made: see
    /// `suspend_ok`.
    pub fn mark_is_safe(&self, now: usize) -> (r: bool)
        requires
            self.wf(),
        ensures
            r == suspend_ok(
                self.tasks(),
                self.heap(),
                self.current(),
                now,
                self.max_app_time(),
                self.big_stride(),
            ),
    {
        let cur = self.current_task;
        if cur >= self.tasks.len() {
            return false;
        }
        let t = self.tasks[cur];
        if now < t.task_start_time || t.task_total_time > usize::MAX - (now - t.task_start_time) {
            return false;
        }
        if t.task_total_time + (now - t.task_start_time) <= self.max_app_time {
            return true;
        }
        let ghost t1 = with_status(self.tasks@, cur, TaskStatus::Exited);
        proof {
            let t2 = suspend_tasks(self.tasks@, cur, now, self.max_app_time);
            assert forall|i: int| 0 <= i < t1.len() implies ((#[trigger] t1[i]).task_status
                == TaskStatus::Ready) == (t2[i].task_status == TaskStatus::Ready) by {
                if i != cur {
                    assert(t1[i] == t2[i]);
                }
            }
            assert forall|i: int|
                0 <= i < t1.len() && (#[trigger] t1[i]).task_status == TaskStatus::Ready implies t1[i].task_priority
                == t2[i].task_priority by {
                if i != cur {
                    assert(t1[i] == t2[i]);
                }
            }
            lemma_pick_congruent(t1, t2, self.heap(), self.big_stride);
        }
        match self.min_ready_index(true) {
            None => true,
            Some(b) => {
                let m = self.stride[b];
                let prio = self.tasks[m.1].task_priority;
                proof {
                    let c = choose|c: (usize, usize)| is_min_ready(t1, self.heap(), c);
                    assert(is_min_ready(t1, self.heap(), m));
                    assert(m.1 != cur);
                    assert(t1[m.1 as int] == self.tasks@[m.1 as int]);
                }
                prio > 0 && m.0 <= usize::MAX - self.big_stride / prio
            },
        }
    }

    /// Picks the next task to run: the ready task whose `(stride, id)` entry
    /// is least. See `pick`.
    #[verifier::spinoff_prover]
    pub fn find_next_task(&mut self) -> (r: Option<usize>)
        requires
            old(self).wf(),
            pick_ok(old(self).tasks(), old(self).heap(), old(self).big_stride()),
        ensures
            final(self).wf(),
            final(self).tasks() == old(self).tasks(),
            final(self).current() == old(self).current(),
            final(self).big_stride() == old(self).big_stride(),
            final(self).max_app_time() == old(self).max_app_time(),
            (r, final(self).heap()) == pick(old(self).tasks(), old(self).heap(), old(self).big_stride()),
            r matches Some(id) ==> exists|st: usize|
                {
                    &&& #[trigger] old(self).heap().contains((st, id))
                    &&& id < old(self).tasks().len()
                    &&& old(self).tasks()[id as int].task_status == TaskStatus::Ready
                    &&& forall|e: (usize, usize)|
                        #![trigger old(self).heap().contains(e)]
                        old(self).heap().contains(e) && e.1 < old(self).tasks().len() && old(
                            self,
                        ).tasks()[e.1 as int].task_status == TaskStatus::Ready ==> st < e.0 || (st
                            == e.0 && id <= e.1)
                    &&& final(self).heap().contains(
                        (((st + old(self).big_stride() / old(self).tasks()[id as int].task_priority) as usize), id),
                    )
                },
            r is None ==> final(self).heap() == Set::<(usize, usize)>::empty() && forall|e: (usize, usize)|
                #![trigger old(self).heap().contains(e)]
                old(self).heap().contains(e) ==> !ready_in(old(self).tasks(), e),
    {
        proof {
            let tasks = self.tasks@;
            let heap = self.heap();
            if pick(tasks, heap, self.big_stride).0 is Some {
                law_pick_takes_least_stride(tasks, heap, self.big_stride, pick(tasks, heap, self.big_stride).0->0);
            } else {
                assert forall|e: (usize, usize)|
                    #![trigger heap.contains(e)]
                    heap.contains(e) implies !ready_in(tasks, e) by {
                    if ready_in(tasks, e) {
                        self.law_ready_task_is_found_in_heap(e);
                    }
                }
            }
        }
        let ghost tasks = self.tasks@;
        let ghost heap = self.heap();
        let n = self.stride.len();
        match self.min_ready_index(false) {
            None => {
                self.stride = Vec::new();
                assert(self.heap() =~= Set::<(usize, usize)>::empty());
                None
            },
            Some(b) => {
                let m = self.stride[b];
                proof {
                    let c = choose|c: (usize, usize)| is_min_ready(tasks, heap, c);
                    assert(is_min_ready(tasks, heap, m));
                }
                let prio = self.tasks[m.1].task_priority;
                let next = (m.0 + self.big_stride / prio, m.1);
                let mut kept: Vec<(usize, usize)> = Vec::new();
                let mut j: usize = 0;
                while j < n
                    invariant
                        self.wf(),
                        *self == *old(self),
                        n == self.stride@.len(),
                        j <= n,
                        b < n,
                        self.stride@[b as int] == m,
                        forall|e: (usize, usize)|
                            #![trigger kept@.contains(e)]
                            kept@.contains(e) <==> (self.stride@.take(j as int).contains(e)
                                && entry_lt(m, e)),
                        forall|k: int|
                            0 <= k < kept@.len() ==> exists|x: int|
                                0 <= x < j && x != b && #[trigger] kept@[k] == self.stride@[x],
                        forall|k1: int, k2: int|
                            0 <= k1 < kept@.len() && 0 <= k2 < kept@.len() && k1 != k2 ==> (
                            #[trigger] kept@[k1]).1 != (#[trigger] kept@[k2]).1,
                    decreases n - j,
                {
                    let e = self.stride[j];
                    let ghost before = kept@;
                    if m.0 < e.0 || (m.0 == e.0 && m.1 < e.1) {
                        kept.push(e);
                        proof {
                            assert(j != b);
                            assert forall|k: int| 0 <= k < before.len() implies before[k].1 != e.1 by {
                                let x = choose|x: int|
                                    0 <= x < j && x != b && #[trigger] before[k] == self.stride@[x];
                                assert(kept@[k] == before[k]);
                            }
                            assert forall|k1: int, k2: int|
                                0 <= k1 < kept@.len() && 0 <= k2 < kept@.len() && k1 != k2 implies (
                            #[trigger] kept@[k1]).1 != (#[trigger] kept@[k2]).1 by {
                                if k1 < before.len() && k2 < before.len() {
                                    assert(kept@[k1] == before[k1] && kept@[k2] == before[k2]);
                                }
                            }
                            assert forall|k: int| 0 <= k < kept@.len() implies exists|x: int|
                                0 <= x < j + 1 && x != b && #[trigger] kept@[k] == self.stride@[x] by {
                                if k < before.len() {
                                    assert(kept@[k] == before[k]);
                                    let x = choose|x: int|
                                        0 <= x < j && x != b && #[trigger] before[k] == self.stride@[x];
                                    assert(0 <= x < j + 1 && x != b && kept@[k] == self.stride@[x]);
                                } else {
                                    assert(kept@[k] == self.stride@[j as int]);
                                }
                            }
                        }
                    } else {
                        proof {
                            assert forall|k: int| 0 <= k < kept@.len() implies exists|x: int|
                                0 <= x < j + 1 && x != b && #[trigger] kept@[k] == self.stride@[x] by {
                                let x = choose|x: int|
                                    0 <= x < j && x != b && #[trigger] kept@[k] == self.stride@[x];
                                assert(0 <= x < j + 1 && x != b && kept@[k] == self.stride@[x]);
                            }
                        }
                    }
                    proof {
                        let t0 = self.stride@.take(j as int);
                        let t1 = self.stride@.take(j + 1);
                        assert(t1 =~= t0.push(e));
                        assert forall|x: (usize, usize)| t1.contains(x) <==> (t0.contains(x) || x == e) by {
                            if t1.contains(x) {
                                let k = choose|k: int| 0 <= k < t1.len() && t1[k] == x;
                                if k < t0.len() {
                                    assert(t0[k] == x);
                                }
                            }
                            if t0.contains(x) {
                                let k = choose|k: int| 0 <= k < t0.len() && t0[k] == x;
                                assert(t1[k] == x);
                            }
                            if x == e {
                                assert(t1[j as int] == x);
                            }
                        }
                        assert forall|x: (usize, usize)|
                            #![trigger kept@.contains(x)]
                            kept@.contains(x) <==> (t1.contains(x) && entry_lt(m, x)) by {
                            if kept@.contains(x) {
                                let k = choose|k: int| 0 <= k < kept@.len() && kept@[k] == x;
                                if k < before.len() {
                                    assert(before[k] == x);
                                    assert(before.contains(x));
                                } else {
                                    assert(x == e);
                                }
                            }
                            if t0.contains(x) && entry_lt(m, x) {
                                assert(before.contains(x));
                                let k = choose|k: int| 0 <= k < before.len() && before[k] == x;
                                assert(kept@[k] == x);
                            }
                            if x == e && entry_lt(m, x) {
                                assert(kept@[kept@.len() - 1] == x);
                            }
                        }
                    }
                    j = j + 1;
                }
                let ghost kept_before = kept@;
                kept.push(next);
                proof {
                    assert(self.stride@.take(n as int) == self.stride@);
                    assert(next == advanced(tasks, m, self.big_stride));
                    let target = heap.filter(|e: (usize, usize)| entry_lt(m, e)).insert(next);
                    assert forall|e: (usize, usize)| entries(kept@).contains(e) <==> target.contains(e) by {
                        if kept@.contains(e) && e != next {
                            let k = choose|k: int| 0 <= k < kept@.len() && kept@[k] == e;
                            assert(k < kept_before.len());
                            assert(kept_before[k] == e);
                            assert(kept_before.contains(e));
                        }
                        if kept_before.contains(e) {
                            let k = choose|k: int| 0 <= k < kept_before.len() && kept_before[k] == e;
                            assert(kept@[k] == e);
                        }
                        if e == next {
                            assert(kept@[kept@.len() - 1] == e);
                        }
                    }
                    assert(entries(kept@) =~= target);
                    // every kept entry differs from `m` and so names another task
                    assert forall|k: int| 0 <= k < kept_before.len() implies (#[trigger] kept_before[k]).1
                        != m.1 by {
                        let x = choose|x: int|
                            0 <= x < n && x != b && #[trigger] kept_before[k] == self.stride@[x];
                        assert(self.stride@[x].1 != self.stride@[b as int].1);
                    }
                    assert forall|k: int| 0 <= k < kept_before.len() implies (#[trigger] kept_before[k]).1
                        < self.tasks@.len() by {
                        let x = choose|x: int|
                            0 <= x < n && x != b && #[trigger] kept_before[k] == self.stride@[x];
                    }
                    assert forall|k1: int, k2: int|
                        0 <= k1 < kept@.len() && 0 <= k2 < kept@.len() && k1 != k2 implies (
                    #[trigger] kept@[k1]).1 != (#[trigger] kept@[k2]).1 by {
                        if k1 < kept_before.len() {
                            assert(kept@[k1] == kept_before[k1]);
                        }
                        if k2 < kept_before.len() {
                            assert(kept@[k2] == kept_before[k2]);
                        }
                    }
                    assert forall|k: int| 0 <= k < kept@.len() implies (#[trigger] kept@[k]).1
                        < self.tasks@.len() by {
                        if k < kept_before.len() {
                            assert(kept@[k] == kept_before[k]);
                        }
                    }
                }
                self.stride = kept;
                Some(m.1)
            },
        }
    }

    /// The picked entry stands for a ready task.
    proof fn lemma_pick_ready(tasks: Seq<TaskControlBlock>, heap: Set<(usize, usize)>, big_stride: usize)
        requires
            pick(tasks, heap, big_stride).0 is Some,
        ensures
            min_ready(tasks, heap) matches Some(m) && is_min_ready(tasks, heap, m) && pick(
                tasks,
                heap,
                big_stride,
            ).0 == Some(m.1) && m.1 < tasks.len() && tasks[m.1 as int].task_status
                == TaskStatus::Ready,
    {
    }

    /// Makes task 0 the running one, from time `now`.
    pub fn run_first_task(&mut self, now: usize)
        requires
            old(self).wf(),
            old(self).tasks().len() > 0,
        ensures
            final(self).wf(),
            final(self).tasks() == run_tasks(old(self).tasks(), 0, now),
            final(self).heap() == old(self).heap(),
            final(self).current() == old(self).current(),
            final(self).big_stride() == old(self).big_stride(),
            final(self).max_app_time() == old(self).max_app_time(),
    {
        let mut t = self.tasks[0];
        t.task_status = TaskStatus::Running;
        t.task_start_time = now;
        self.tasks.set(0, t);
    }

    /// Gives the current task priority `prio`.
    pub fn set_current_priority(&mut self, prio: usize)
        requires
            old(self).wf(),
            old(self).tasks().len() > 0,
        ensures
            final(self).wf(),
            final(self).tasks() == old(self).tasks().update(
                old(self).current() as int,
                TaskControlBlock { task_priority: prio, ..old(self).tasks()[old(self).current() as int] },
            ),
            final(self).heap() == old(self).heap(),
            final(self).current() == old(self).current(),
            final(self).big_stride() == old(self).big_stride(),
            final(self).max_app_time() == old(self).max_app_time(),
    {
        let current = self.current_task;
        let mut t = self.tasks[current];
        t.task_priority = prio;
        self.tasks.set(current, t);
    }

    /// Suspends the current task at time `now`: it becomes ready and the
    /// time it ran is added to its total. A task whose total exceeds
    /// `max_app_time` is killed instead, and the scheduler looks for another
    /// task at once; returns whether none is left, so that the machine must
    /// power off.
    pub fn mark_current_suspended(&mut self, now: usize) -> (shutdown: bool)
        requires
            old(self).wf(),
            suspend_ok(
                old(self).tasks(),
                old(self).heap(),
                old(self).current(),
                now,
                old(self).max_app_time(),
                old(self).big_stride(),
            ),
        ensures
            final(self).wf(),
            final(self).tasks() == suspend_tasks(
                old(self).tasks(),
                old(self).current(),
                now,
                old(self).max_app_time(),
            ),
            final(self).heap() == suspend_heap(
                old(self).tasks(),
                old(self).heap(),
                old(self).current(),
                now,
                old(self).max_app_time(),
                old(self).big_stride(),
            ),
            shutdown == suspend_shuts_down(
                old(self).tasks(),
                old(self).heap(),
                old(self).current(),
                now,
                old(self).max_app_time(),
                old(self).big_stride(),
            ),
            final(self).current() == old(self).current(),
            final(self).big_stride() == old(self).big_stride(),
            final(self).max_app_time() == old(self).max_app_time(),
            ({
                let cur = old(self).current();
                let t = old(self).tasks()[cur as int];
                let total = t.task_total_time + (now - t.task_start_time);
                &&& final(self).tasks().len() == old(self).tasks().len()
                &&& final(self).tasks()[cur as int].task_total_time == total
                &&& (final(self).tasks()[cur as int].task_status == TaskStatus::Exited) == (total
                    > old(self).max_app_time())
                &&& (final(self).tasks()[cur as int].task_status == TaskStatus::Ready) == (total
                    <= old(self).max_app_time())
                &&& forall|i: int|
                    0 <= i < old(self).tasks().len() && i != cur ==> #[trigger] final(self).tasks()[i]
                        == old(self).tasks()[i]
                &&& shutdown ==> total > old(self).max_app_time()
                &&& total <= old(self).max_app_time() ==> final(self).heap() == old(self).heap()
            }),
    {
        proof {
            law_suspend_accounts_total_time(
                self.tasks@,
                self.stride@,
                self.current_task,
                now,
                self.max_app_time,
                self.big_stride,
            );
        }
        let current = self.current_task;
        let mut t = self.tasks[current];
        t.task_status = TaskStatus::Ready;
        t.task_total_time = t.task_total_time + (now - t.task_start_time);
        self.tasks.set(current, t);
        if t.task_total_time > self.max_app_time {
            t.task_status = TaskStatus::Exited;
            self.tasks.set(current, t);
            assert(self.tasks@ =~= suspend_tasks(old(self).tasks(), current, now, self.max_app_time));
            if self.find_next_task().is_none() {
                return true;
            }
        } else {
            assert(self.tasks@ =~= suspend_tasks(old(self).tasks(), current, now, self.max_app_time));
        }
        false
    }

    /// Marks the current task as exited.
    pub fn mark_current_exited(&mut self)
        requires
            old(self).wf(),
            old(self).tasks().len() > 0,
        ensures
            final(self).wf(),
            final(self).tasks() == old(self).tasks().update(
                old(self).current() as int,
                exited(old(self).tasks()[old(self).current() as int]),
            ),
            final(self).heap() == old(self).heap(),
            final(self).current() == old(self).current(),
            final(self).big_stride() == old(self).big_stride(),
            final(self).max_app_time() == old(self).max_app_time(),
    {
        let current = self.current_task;
        let mut t = self.tasks[current];
        t.task_status = TaskStatus::Exited;
        self.tasks.set(current, t);
    }

    /// The token of the current task's address space.
    pub fn get_current_token(&self) -> (r: usize)
        requires
            self.wf(),
            self.tasks().len() > 0,
        ensures
            r == self.tasks()[self.current() as int].memory_set.token,
    {
        self.tasks[self.current_task].get_user_token()
    }

    /// Picks the next task and makes it the running one from time `now`;
    /// returns the task to switch from and the one to switch to, or `None`
    /// when no task is ready.
    pub fn run_next_task(&mut self, now: usize) -> (r: Option<(usize, usize)>)
        requires
            old(self).wf(),
            pick_ok(old(self).tasks(), old(self).heap(), old(self).big_stride()),
        ensures
            final(self).wf(),
            final(self).big_stride() == old(self).big_stride(),
            final(self).max_app_time() == old(self).max_app_time(),
            (r, final(self).tasks(), final(self).heap(), final(self).current()) == run_next_outcome(
                old(self).tasks(),
                old(self).heap(),
                old(self).current(),
                now,
                old(self).big_stride(),
            ),
            r matches Some(p) ==> {
                &&& p.0 == old(self).current()
                &&& p.1 < old(self).tasks().len()
                &&& final(self).current() == p.1
                &&& old(self).tasks()[p.1 as int].task_status == TaskStatus::Ready
                &&& final(self).tasks()[p.1 as int].task_status == TaskStatus::Running
                &&& final(self).tasks()[p.1 as int].task_start_time == now
                &&& final(self).tasks()[p.1 as int].task_total_time == old(self).tasks()[p.1 as int].task_total_time
            },
            r is None ==> {
                &&& final(self).tasks() == old(self).tasks()
                &&& final(self).current() == old(self).current()
                &&& forall|e: (usize, usize)|
                    #![trigger old(self).heap().contains(e)]
                    old(self).heap().contains(e) ==> !ready_in(old(self).tasks(), e)
            },
    {
        let ghost tasks = self.tasks@;
        let ghost heap = self.heap();
        proof {
            assert forall|e: (usize, usize)|
                #![trigger heap.contains(e)]
                heap.contains(e) && ready_in(tasks, e) implies pick(tasks, heap, self.big_stride).0 is Some by {
                self.law_ready_task_is_found_in_heap(e);
            }
        }
        match self.find_next_task() {
            Some(next) => {
                proof {
                    Self::lemma_pick_ready(tasks, heap, self.big_stride);
                }
                let current = self.current_task;
                let mut t = self.tasks[next];
                t.task_status = TaskStatus::Running;
                t.task_start_time = now;
                self.tasks.set(next, t);
                self.current_task = next;
                Some((current, next))
            },
            None => None,
        }
    }

    /// Suspends the current task at time `now` and decides what runs next.
    pub fn suspend_current_and_run_next(&mut self, now: usize) -> (r: Schedule)
        requires
            old(self).wf(),
            suspend_and_run_ok(
                old(self).tasks(),
                old(self).heap(),
                old(self).current(),
                now,
                old(self).max_app_time(),
                old(self).big_stride(),
            ),
        ensures
            final(self).wf(),
            final(self).big_stride() == old(self).big_stride(),
            final(self).max_app_time() == old(self).max_app_time(),
            (r, final(self).tasks(), final(self).heap(), final(self).current()) == suspend_outcome(
                old(self).tasks(),
                old(self).heap(),
                old(self).current(),
                now,
                old(self).max_app_time(),
                old(self).big_stride(),
            ),
            ({
                let cur = old(self).current();
                let t = old(self).tasks()[cur as int];
                let total = t.task_total_time + (now - t.task_start_time);
                &&& final(self).tasks().len() == old(self).tasks().len()
                &&& final(self).tasks()[cur as int].task_total_time == total
                &&& total > old(self).max_app_time() ==> final(self).tasks()[cur as int].task_status
                    == TaskStatus::Exited
                &&& r == Schedule::Shutdown ==> total > old(self).max_app_time() && final(self).current()
                    == cur
                &&& r == Schedule::Continue ==> final(self).current() == cur && final(self).tasks()[cur as int].task_status
                    == TaskStatus::Ready
                &&& r matches Schedule::Switch { from, to } ==> {
                    &&& from == cur
                    &&& to < old(self).tasks().len()
                    &&& final(self).current() == to
                    &&& final(self).tasks()[to as int].task_status == TaskStatus::Running
                    &&& final(self).tasks()[to as int].task_start_time == now
                }
            }),
    {
        proof {
            law_suspend_accounts_total_time(
                self.tasks@,
                self.stride@,
                self.current_task,
                now,
                self.max_app_time,
                self.big_stride,
            );
        }
        if self.mark_current_suspended(now) {
            return Schedule::Shutdown;
        }
        match self.run_next_task(now) {
            Some((from, to)) => Schedule::Switch { from, to },
            None => Schedule::Continue,
        }
    }

    /// Ends the current task and decides what runs next; when no task is
    /// ready the machine must power off.
    pub fn exit_current_and_run_next(&mut self, now: usize) -> (r: Schedule)
        requires
            old(self).wf(),
            exit_ok(old(self).tasks(), old(self).heap(), old(self).current(), old(self).big_stride()),
        ensures
            final(self).wf(),
            final(self).big_stride() == old(self).big_stride(),
            final(self).max_app_time() == old(self).max_app_time(),
            (r, final(self).tasks(), final(self).heap(), final(self).current()) == exit_outcome(
                old(self).tasks(),
                old(self).heap(),
                old(self).current(),
                now,
                old(self).big_stride(),
            ),
            ({
                let cur = old(self).current();
                &&& final(self).tasks().len() == old(self).tasks().len()
                &&& final(self).tasks()[cur as int].task_status == TaskStatus::Exited
                &&& r matches Schedule::Switch { from, to } ==> {
                    &&& from == cur
                    &&& to != cur
                    &&& to < old(self).tasks().len()
                    &&& final(self).current() == to
                    &&& old(self).tasks()[to as int].task_status == TaskStatus::Ready
                    &&& final(self).tasks()[to as int].task_status == TaskStatus::Running
                    &&& final(self).tasks()[to as int].task_start_time == now
                    &&& final(self).tasks()[to as int].task_total_time == old(self).tasks()[to as int].task_total_time
                }
                &&& r == Schedule::Shutdown ==> {
                    &&& final(self).current() == cur
                    &&& forall|e: (usize, usize)|
                        #![trigger old(self).heap().contains(e)]
                        old(self).heap().contains(e) && e.1 != cur ==> !ready_in(old(self).tasks(), e)
                }
                &&& r != Schedule::Continue
            }),
    {
        proof {
            law_exit_runs_next(self.tasks@, self.stride@, self.current_task, now, self.big_stride);
        }
        self.mark_current_exited();
        match self.run_next_task(now) {
            Some((from, to)) => Schedule::Switch { from, to },
            None => Schedule::Shutdown,
        }
    }
}

} // verus!
