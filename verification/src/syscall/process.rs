//! Process system calls.
use vstd::prelude::*;

use core::ops::Range;

use crate::config::PAGE_SIZE;
use crate::mm::MapPermission;
use crate::task::manager;
use crate::trap::TrapContext;
use crate::task::task::{permission_of_port, port_is_valid};
use crate::task::{
    exit_ok,
    exit_outcome,
    suspend_and_run_ok,
    suspend_outcome,
    Schedule,
    TaskControlBlock,
    TaskManager,
};

verus! {

/// A time as seconds and microseconds.
#[derive(Clone, Copy, PartialEq, Eq, Structural, Debug)]
pub struct TimeVal {
    pub sec: usize,
    pub usec: usize,
}

/// Ends the calling task with `exit_code` and decides what runs next; see
/// `TaskManager::exit_current_and_run_next`. The call never returns to the
/// task.
pub fn sys_exit(manager: &mut TaskManager, exit_code: i32, now: usize) -> (r: Schedule)
    requires
        old(manager).wf(),
        exit_ok(
            old(manager).tasks(),
            old(manager).heap(),
            old(manager).current(),
            old(manager).big_stride(),
        ),
    ensures
        final(manager).wf(),
        final(manager).big_stride() == old(manager).big_stride(),
        final(manager).max_app_time() == old(manager).max_app_time(),
        (r, final(manager).tasks(), final(manager).heap(), final(manager).current())
            == exit_outcome(
            old(manager).tasks(),
            old(manager).heap(),
            old(manager).current(),
            now,
            old(manager).big_stride(),
        ),
{
    manager.exit_current_and_run_next(now)
}

/// Gives up the processor; the calling task sees 0 when it runs again.
pub fn sys_yield(manager: &mut TaskManager, now: usize) -> (r: (isize, Schedule))
    requires
        old(manager).wf(),
        suspend_and_run_ok(
            old(manager).tasks(),
            old(manager).heap(),
            old(manager).current(),
            now,
            old(manager).max_app_time(),
            old(manager).big_stride(),
        ),
    ensures
        final(manager).wf(),
        final(manager).big_stride() == old(manager).big_stride(),
        final(manager).max_app_time() == old(manager).max_app_time(),
        r.0 == 0,
        (r.1, final(manager).tasks(), final(manager).heap(), final(manager).current())
            == suspend_outcome(
            old(manager).tasks(),
            old(manager).heap(),
            old(manager).current(),
            now,
            old(manager).max_app_time(),
            old(manager).big_stride(),
        ),
{
    let s = manager.suspend_current_and_run_next(now);
    (0, s)
}

/// The time `time_ms` milliseconds after boot as seconds and microseconds.
pub open spec fn time_val_of(time_ms: usize) -> TimeVal {
    TimeVal { sec: time_ms / 1000, usec: ((time_ms % 1000) * 1000) as usize }
}

/// Fills `time` with the current time, `time_ms` milliseconds after boot;
/// answers 0.
pub fn sys_get_time(time_ms: usize, time: &mut TimeVal) -> (r: isize)
    ensures
        r == 0,
        *final(time) == time_val_of(time_ms),
{
    time.sec = time_ms / 1000;
    time.usec = (time_ms % 1000) * 1000;
    0
}

/// The seconds and microseconds of `time_val_of` give back the same time.
pub proof fn law_time_val_exact(time_ms: usize)
    ensures
        time_val_of(time_ms).usec < 1_000_000,
        time_val_of(time_ms).usec % 1000 == 0,
        time_val_of(time_ms).sec * 1_000_000 + time_val_of(time_ms).usec == time_ms * 1000,
{
    let q = time_ms / 1000;
    let r = time_ms % 1000;
    assert(time_ms == q * 1000 + r && 0 <= r < 1000) by {
        vstd::arithmetic::div_mod::lemma_fundamental_div_mod(time_ms as int, 1000);
    }
    assert(q * 1_000_000 + r * 1000 == time_ms * 1000) by (nonlinear_arith)
        requires
            time_ms == q * 1000 + r,
    ;
    assert((r * 1000) % 1000 == 0) by {
        vstd::arithmetic::div_mod::lemma_mod_multiples_basic(r as int, 1000);
    }
}

/// Sets the priority of the calling task to `prio` when `prio` is at least
/// 2 and answers `prio`; else answers -1 and changes nothing.
pub fn sys_set_priority(manager: &mut TaskManager, prio: isize) -> (r: isize)
    requires
        old(manager).wf(),
        prio > 1 ==> old(manager).tasks().len() > 0,
    ensures
        final(manager).wf(),
        final(manager).heap() == old(manager).heap(),
        final(manager).current() == old(manager).current(),
        final(manager).big_stride() == old(manager).big_stride(),
        final(manager).max_app_time() == old(manager).max_app_time(),
        prio > 1 ==> r == prio && final(manager).tasks() == old(manager).tasks().update(
            old(manager).current() as int,
            TaskControlBlock {
                task_priority: prio as usize,
                ..old(manager).tasks()[old(manager).current() as int]
            },
        ),
        prio <= 1 ==> r == -1 && final(manager).tasks() == old(manager).tasks(),
{
    if prio > 1 {
        manager.set_current_priority(prio as usize);
        prio
    } else {
        -1
    }
}

/// Maps `len` bytes of user memory from `start` with the access that `port`
/// asks for.
///
/// Returns -1 when `start` is not page-aligned; else what
/// `TaskControlBlock::add_map_area` gives for the range `start..start + len`
/// with `exact` set, as an `i32`, or -1 when it gives `None`.
pub fn sys_mmap<F>(task: &TaskControlBlock, start: usize, len: usize, port: usize, insert_framed_area: F) -> (r:
    i32) where F: FnOnce(usize, usize, MapPermission, bool) -> Option<usize>
    requires
        start % PAGE_SIZE == 0 ==> start + len <= usize::MAX,
        start % PAGE_SIZE == 0 && port_is_valid(port) ==> call_requires(
            insert_framed_area,
            ((start, (start + len) as usize, MapPermission { bits: permission_of_port(port) }, true)),
        ),
    ensures
        start % PAGE_SIZE != 0 ==> r == -1,
        start % PAGE_SIZE == 0 && !port_is_valid(port) ==> r == -1,
        start % PAGE_SIZE == 0 && port_is_valid(port) ==> exists|mapped: Option<usize>|
            #[trigger] call_ensures(
                insert_framed_area,
                ((start, (start + len) as usize, MapPermission { bits: permission_of_port(port) }, true)),
                mapped,
            ) && r == match mapped {
                Some(l) => l as i32,
                None => -1i32,
            },
{
    if start % PAGE_SIZE > 0 {
        -1
    } else {
        let mapped = task.add_map_area(Range { start, end: start + len }, port, true, insert_framed_area);
        match mapped {
            Some(l) => l as i32,
            None => -1,
        }
    }
}

/// `len` rounded up to whole pages.
pub open spec fn page_round_up(len: usize) -> int {
    (len - 1 + PAGE_SIZE) / (PAGE_SIZE as int) * PAGE_SIZE
}

/// Rounding up to whole pages gives the least multiple of `PAGE_SIZE`
/// that is at least `len`.
pub proof fn law_page_round_up(len: usize)
    requires
        1 <= len,
    ensures
        page_round_up(len) % (PAGE_SIZE as int) == 0,
        len <= page_round_up(len) < len + PAGE_SIZE,
{
    let a = len - 1 + PAGE_SIZE;
    let q = a / (PAGE_SIZE as int);
    let r = a % (PAGE_SIZE as int);
    assert(a == q * PAGE_SIZE + r && 0 <= r < PAGE_SIZE) by {
        vstd::arithmetic::div_mod::lemma_fundamental_div_mod(a, PAGE_SIZE as int);
    }
    assert((q * PAGE_SIZE) % (PAGE_SIZE as int) == 0) by {
        vstd::arithmetic::div_mod::lemma_mod_multiples_basic(q, PAGE_SIZE as int);
    }
}

/// Unmaps `len` bytes of user memory from `start`.
///
/// Returns -1 when `start` is not page-aligned or when
/// `TaskControlBlock::remove_map_area` fails for `start..start + len`; else
/// `len` rounded up to whole pages, as an `i32`.
pub fn sys_munmap<F>(task: &TaskControlBlock, start: usize, len: usize, remove_framed_area: F) -> (r:
    i32) where F: FnOnce(usize, usize) -> bool
    requires
        start % PAGE_SIZE == 0 ==> start + len <= usize::MAX,
        start % PAGE_SIZE == 0 ==> call_requires(remove_framed_area, (start, (start + len) as usize)),
        start % PAGE_SIZE == 0 ==> forall|removed: bool|
            #[trigger] call_ensures(remove_framed_area, (start, (start + len) as usize), removed) && removed
                ==> 1 <= len && len - 1 + PAGE_SIZE <= usize::MAX,
    ensures
        start % PAGE_SIZE != 0 ==> r == -1,
        start % PAGE_SIZE == 0 ==> exists|removed: bool|
            #[trigger] call_ensures(remove_framed_area, (start, (start + len) as usize), removed) && r == (if removed {
                page_round_up(len) as i32
            } else {
                -1i32
            }),
{
    if start % PAGE_SIZE > 0 {
        -1
    } else if task.remove_map_area(Range { start, end: start + len }, remove_framed_area) {
        ((len - 1 + PAGE_SIZE) / PAGE_SIZE * PAGE_SIZE) as i32
    } else {
        -1
    }
}

/// The process id of the calling task, `pid`.
pub fn sys_getpid(pid: usize) -> (r: isize)
    ensures
        r == pid as isize,
{
    pid as isize
}

/// The child's trap context once its system call is made to answer 0: the
/// same, with register `a0` (`x10`) cleared.
pub open spec fn answers_zero(before: TrapContext, after: TrapContext) -> bool {
    &&& after.x@ == before.x@.update(10, 0)
    &&& after.sstatus == before.sstatus
    &&& after.sepc == before.sepc
    &&& after.kernel_satp == before.kernel_satp
    &&& after.kernel_sp == before.kernel_sp
    &&& after.trap_handler == before.trap_handler
}

/// Finishes a fork: the child that forking made, with process id
/// `child_pid` and trap context `child_trap_cx`, is made to answer 0 and
/// put in the ready queue; answers the child's id to the parent, whose id
/// is `parent_pid` (a fresh id differs from it, and so does the answer).
pub fn sys_fork(
    ready: &mut manager::TaskManager,
    child: TaskControlBlock,
    child_pid: usize,
    parent_pid: usize,
    child_trap_cx: &mut TrapContext,
) -> (r: isize)
    ensures
        r == child_pid as isize,
        child_pid != parent_pid ==> r != parent_pid as isize,
        answers_zero(*old(child_trap_cx), *final(child_trap_cx)),
        final(ready).queue() == old(ready).queue().push(child),
        final(ready).big_stride() == old(ready).big_stride(),
{
    child_trap_cx.x.set(10, 0);
    ready.add(child);
    assert(child_pid != parent_pid ==> (child_pid as isize) != (parent_pid as isize)) by (
    bit_vector);
    child_pid as isize
}

/// Replaces the calling task's program by `app_data`, the program found
/// under the path, through `exec`; answers 0, or -1 when no program was
/// found.
pub fn sys_exec<E>(app_data: Option<&[u8]>, exec: E) -> (r: isize) where E: FnOnce(&[u8])
    requires
        app_data matches Some(data) ==> call_requires(exec, (data,)),
    ensures
        app_data is None ==> r == -1,
        app_data matches Some(data) ==> (r == 0 && call_ensures(exec, (data,), ())),
{
    match app_data {
        Some(data) => {
            exec(data);
            0
        },
        None => -1,
    }
}

/// Starts `app_data`, the program found under the path, as a child through
/// `spawn`, which gives the child, its process id and its trap context.
/// The child is made to answer 0 and put in the ready queue; answers the
/// child's id and its trap context to be written back, or -1 when no
/// program was found.
pub fn sys_spawn<S>(ready: &mut manager::TaskManager, app_data: Option<&[u8]>, spawn: S) -> (r: (
    isize,
    Option<TrapContext>,
)) where S: FnOnce(&[u8]) -> (TaskControlBlock, usize, TrapContext)
    requires
        app_data matches Some(data) ==> call_requires(spawn, (data,)),
    ensures
        final(ready).big_stride() == old(ready).big_stride(),
        app_data is None ==> r.0 == -1 && r.1 is None && final(ready).queue() == old(ready).queue(),
        app_data matches Some(data) ==> exists|child: (TaskControlBlock, usize, TrapContext)|
            #[trigger] call_ensures(spawn, (data,), child) && r.0 == child.1 as isize && (r.1 matches Some(
                cx,
            ) && answers_zero(child.2, cx)) && final(ready).queue() == old(ready).queue().push(
                child.0,
            ),
{
    match app_data {
        Some(data) => {
            let (new_task, new_pid, trap_cx) = spawn(data);
            let mut trap_cx = trap_cx;
            trap_cx.x.set(10, 0);
            ready.add(new_task);
            (new_pid as isize, Some(trap_cx))
        },
        None => (-1, None),
    }
}

/// What the parent knows of a child process.
#[derive(Clone, Copy, PartialEq, Eq, Structural, Debug)]
pub struct ChildProcess {
    pub pid: usize,
    /// The child has exited and waits to be reaped.
    pub zombie: bool,
    pub exit_code: i32,
}

/// Child `c` is one that `waitpid(pid, ..)` waits for: any child when `pid`
/// is -1, else the one with that id.
pub open spec fn waits_for(pid: isize, c: ChildProcess) -> bool {
    pid == -1 || pid as usize == c.pid
}

/// Reaps a child that `pid` names and that has exited.
///
/// Returns -1 when no child is named by `pid`; -2 when such children exist
/// but none has exited. Else the first exited child so named leaves
/// `children`, its exit code goes to `exit_code`, and its id is returned.
pub fn sys_waitpid(children: &mut Vec<ChildProcess>, pid: isize, exit_code: &mut i32) -> (r: isize)
    ensures
        !(exists|i: int| 0 <= i < old(children)@.len() && waits_for(pid, old(children)@[i])) ==> r
            == -1 && final(children)@ == old(children)@ && *final(exit_code) == *old(exit_code),
        (exists|i: int| 0 <= i < old(children)@.len() && waits_for(pid, old(children)@[i])) && !(
        exists|i: int|
            0 <= i < old(children)@.len() && waits_for(pid, old(children)@[i]) && old(
                children,
            )@[i].zombie) ==> r == -2 && final(children)@ == old(children)@ && *final(exit_code)
            == *old(exit_code),
        (exists|i: int|
            0 <= i < old(children)@.len() && waits_for(pid, old(children)@[i]) && old(
                children,
            )@[i].zombie) ==> exists|i: int|
            0 <= i < old(children)@.len() && waits_for(pid, #[trigger] old(children)@[i]) && old(
                children,
            )@[i].zombie && (forall|j: int|
                0 <= j < i ==> !(waits_for(pid, #[trigger] old(children)@[j]) && old(
                    children,
                )@[j].zombie)) && r == old(children)@[i].pid as isize && *final(exit_code) == old(
                children,
            )@[i].exit_code && final(children)@ == old(children)@.remove(i),
{
    let n = children.len();
    let mut i: usize = 0;
    let mut any = false;
    while i < n
        invariant
            n == children@.len(),
            i <= n,
            any ==> exists|j: int| 0 <= j < i && waits_for(pid, #[trigger] children@[j]),
            !any ==> forall|j: int| 0 <= j < i ==> !waits_for(pid, #[trigger] children@[j]),
        decreases n - i,
    {
        if pid == -1 || pid as usize == children[i].pid {
            assert(waits_for(pid, children@[i as int]));
            any = true;
        }
        i = i + 1;
    }
    if !any {
        return -1;
    }
    let mut k: usize = 0;
    while k < n
        invariant
            n == children@.len(),
            children@ == old(children)@,
            *exit_code == *old(exit_code),
            k <= n,
            forall|j: int| 0 <= j < k ==> !(waits_for(pid, #[trigger] children@[j]) && children@[j].zombie),
        decreases n - k,
    {
        let c = children[k];
        if c.zombie && (pid == -1 || pid as usize == c.pid) {
            let child = children.remove(k);
            *exit_code = child.exit_code;
            return child.pid as isize;
        }
        k = k + 1;
    }
    -2
}

} // verus!
