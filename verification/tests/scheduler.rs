use os_kernel::mm::MemorySet;
use os_kernel::task::manager;
use os_kernel::task::task::LoadedApp;
use os_kernel::task::{Schedule, TaskControlBlock, TaskManager, TaskStatus};

const BIG_STRIDE: usize = 1000;
const MAX_APP_TIME: usize = 100;

fn tcb(priority: usize, token: usize) -> TaskControlBlock {
    TaskControlBlock {
        task_cx_ptr: 0,
        task_status: TaskStatus::Ready,
        task_priority: priority,
        task_stride: 0,
        task_start_time: 0,
        task_total_time: 0,
        memory_set: MemorySet { token },
        trap_cx_ppn: 0,
        base_size: 0,
    }
}

fn manager_of(prios: &[usize]) -> TaskManager {
    let tasks: Vec<TaskControlBlock> = prios.iter().enumerate().map(|(i, p)| tcb(*p, 100 + i)).collect();
    TaskManager::new(tasks, BIG_STRIDE, MAX_APP_TIME)
}

#[test]
fn new_manager_starts_with_task_zero() {
    let m = manager_of(&[2, 2, 2]);
    assert_eq!(m.num_tasks(), 3);
    assert_eq!(m.current_task(), 0);
    assert_eq!(m.get_current_token(), 100);
}

#[test]
fn run_first_task_starts_task_zero() {
    let mut m = manager_of(&[2, 2]);
    m.run_first_task(5);
    assert_eq!(m.task(0).task_status, TaskStatus::Running);
    assert_eq!(m.task(0).task_start_time, 5);
    assert_eq!(m.task(1).task_status, TaskStatus::Ready);
}

#[test]
fn equal_strides_go_by_task_id() {
    let mut m = manager_of(&[2, 2, 2]);
    // all strides are 0: the lowest id comes first, then moves back by 500
    assert_eq!(m.find_next_task(), Some(0));
    assert_eq!(m.find_next_task(), Some(1));
    assert_eq!(m.find_next_task(), Some(2));
    assert_eq!(m.find_next_task(), Some(0));
}

#[test]
fn higher_priority_runs_more_often() {
    // priority 10 advances by 100, priority 2 by 500
    let mut m = manager_of(&[2, 10]);
    let mut picks = Vec::new();
    for _ in 0..12 {
        picks.push(m.find_next_task().unwrap());
    }
    let ones = picks.iter().filter(|&&p| p == 1).count();
    let zeros = picks.iter().filter(|&&p| p == 0).count();
    assert_eq!(picks[0], 0);
    assert_eq!(picks[1], 1);
    assert_eq!(picks, vec![0, 1, 1, 1, 1, 1, 0, 1, 1, 1, 1, 1]);
    assert!(ones >= zeros * 3);
    assert_eq!(ones + zeros, 12);
}

#[test]
fn tasks_that_are_not_ready_are_dropped() {
    let mut m = manager_of(&[2, 2, 2]);
    m.mark_current_exited(); // task 0
    assert_eq!(m.task(0).task_status, TaskStatus::Exited);
    assert_eq!(m.find_next_task(), Some(1));
    assert_eq!(m.find_next_task(), Some(2));
    assert_eq!(m.find_next_task(), Some(1));
}

#[test]
fn no_ready_task_gives_none() {
    let mut m = manager_of(&[2]);
    m.run_first_task(0); // task 0 is running, so not ready
    assert_eq!(m.find_next_task(), None);
    // the heap was emptied, so even a ready task 0 is no longer found
    m.mark_current_exited();
    assert_eq!(m.find_next_task(), None);
}

#[test]
fn run_next_task_switches() {
    let mut m = manager_of(&[2, 2]);
    m.run_first_task(0);
    assert_eq!(m.run_next_task(7), Some((0, 1)));
    assert_eq!(m.current_task(), 1);
    assert_eq!(m.task(1).task_status, TaskStatus::Running);
    assert_eq!(m.task(1).task_start_time, 7);
    assert_eq!(m.get_current_token(), 101);
}

#[test]
fn suspend_accounts_time_and_switches() {
    let mut m = manager_of(&[2, 2]);
    m.run_first_task(10);
    // task 0 ran from 10 to 30; it is ready again, task 0's entry (0, 0)
    // comes first
    let s = m.suspend_current_and_run_next(30);
    assert_eq!(s, Schedule::Switch { from: 0, to: 0 });
    assert_eq!(m.task(0).task_total_time, 20);
    assert_eq!(m.task(0).task_status, TaskStatus::Running);
    assert_eq!(m.task(0).task_start_time, 30);
    let s = m.suspend_current_and_run_next(40);
    assert_eq!(s, Schedule::Switch { from: 0, to: 1 });
    assert_eq!(m.task(0).task_total_time, 30);
    assert_eq!(m.task(0).task_status, TaskStatus::Ready);
    assert_eq!(m.current_task(), 1);
}

#[test]
fn overrunning_task_is_killed() {
    let mut m = manager_of(&[2, 2]);
    m.run_first_task(0);
    // task 0 runs 150 ms > 100: it exits; the scheduler picks task 1 once
    // right away and again when running the next task
    assert!(!m.mark_current_suspended(150));
    assert_eq!(m.task(0).task_status, TaskStatus::Exited);
    assert_eq!(m.task(0).task_total_time, 150);
    assert_eq!(m.run_next_task(150), Some((0, 1)));
}

#[test]
fn overrunning_last_task_shuts_down() {
    let mut m = manager_of(&[2]);
    m.run_first_task(0);
    assert_eq!(m.suspend_current_and_run_next(500), Schedule::Shutdown);
    assert_eq!(m.task(0).task_status, TaskStatus::Exited);
}

#[test]
fn exit_of_the_last_task_shuts_down() {
    let mut m = manager_of(&[2, 2]);
    m.run_first_task(0);
    assert_eq!(m.exit_current_and_run_next(3), Schedule::Switch { from: 0, to: 1 });
    assert_eq!(m.task(0).task_status, TaskStatus::Exited);
    assert_eq!(m.exit_current_and_run_next(4), Schedule::Shutdown);
    assert_eq!(m.task(1).task_status, TaskStatus::Exited);
}

#[test]
fn suspend_with_an_empty_heap_continues() {
    let mut m = manager_of(&[2]);
    m.run_first_task(0);
    // task 0 runs, so it is not ready: looking for a task empties the heap
    assert_eq!(m.find_next_task(), None);
    assert_eq!(m.suspend_current_and_run_next(1), Schedule::Continue);
    assert_eq!(m.task(0).task_status, TaskStatus::Ready);
    assert_eq!(m.current_task(), 0);
}

#[test]
fn set_current_priority_changes_the_stride_step() {
    let mut m = manager_of(&[2, 2]);
    m.set_current_priority(1000);
    assert_eq!(m.task(0).task_priority, 1000);
    // task 0 now advances by 1 per pick
    assert_eq!(m.find_next_task(), Some(0));
    assert_eq!(m.find_next_task(), Some(1));
    assert_eq!(m.find_next_task(), Some(0));
    assert_eq!(m.find_next_task(), Some(0));
}

#[test]
fn ready_queue_is_first_in_first_out() {
    let mut q = manager::TaskManager::new(BIG_STRIDE);
    assert!(q.fetch().is_none());
    let mut a = tcb(2, 1);
    a.task_stride = 30;
    let mut b = tcb(4, 2);
    b.task_stride = 10;
    let mut c = tcb(5, 3);
    c.task_stride = 20;
    q.add(a);
    q.add(b);
    q.add(c);
    assert_eq!(q.len(), 3);
    let t = q.fetch().unwrap();
    assert_eq!(t.memory_set.token, 1);
    assert_eq!(t.task_stride, 30 + 500);
    let t = q.fetch().unwrap();
    assert_eq!(t.memory_set.token, 2);
    assert_eq!(t.task_stride, 10 + 250);
    q.add(a);
    let t = q.fetch().unwrap();
    assert_eq!(t.memory_set.token, 3);
    assert_eq!(t.task_stride, 20 + 200);
    let t = q.fetch().unwrap();
    assert_eq!(t.memory_set.token, 1);
    assert!(q.fetch().is_none());
    assert_eq!(q.len(), 0);
}

#[test]
fn new_task_control_block_is_ready() {
    let app = LoadedApp { memory_set: MemorySet { token: 77 }, user_sp: 0x1000, entry_point: 0x10, trap_cx_ppn: 5 };
    let (t, setup) = TaskControlBlock::new(app, 0x8000, 0x9000, 0x70, 16, 0x22, 0x8888, 0x4444);
    assert_eq!(t.task_cx_ptr, 0x9000 - 0x70);
    assert_eq!(t.task_status, TaskStatus::Ready);
    assert_eq!(t.task_priority, 16);
    assert_eq!(t.task_stride, 0);
    assert_eq!(t.task_start_time, 0);
    assert_eq!(t.task_total_time, 0);
    assert_eq!(t.get_user_token(), 77);
    assert_eq!(t.trap_cx_ppn, 5);
    assert_eq!(t.base_size, 0x1000);
    assert_eq!(setup.kernel_stack.start, 0x8000);
    assert_eq!(setup.kernel_stack.end, 0x9000);
    assert_eq!(setup.kernel_stack.permission.bits, 2 | 4);
    assert!(!setup.kernel_stack.exact);
    let mut regs = [0usize; 32];
    regs[2] = 0x1000;
    assert_eq!(setup.trap_cx.x, regs);
    assert_eq!(setup.trap_cx.sstatus, 0x22);
    assert_eq!(setup.trap_cx.sepc, 0x10);
    assert_eq!(setup.trap_cx.kernel_satp, 0x8888);
    assert_eq!(setup.trap_cx.kernel_sp, 0x9000);
    assert_eq!(setup.trap_cx.trap_handler, 0x4444);
}

#[test]
fn exited_tasks_are_never_picked_again() {
    let mut m = manager_of(&[2, 2, 2]);
    m.run_first_task(0);
    assert_eq!(m.exit_current_and_run_next(1), Schedule::Switch { from: 0, to: 1 });
    for _ in 0..10 {
        match m.suspend_current_and_run_next(1) {
            Schedule::Switch { to, .. } => assert_ne!(to, 0),
            other => panic!("unexpected {:?}", other),
        }
    }
}

#[test]
fn safety_checks_of_the_scheduler() {
    let mut m = manager_of(&[2, 0]);
    assert!(m.pick_is_safe());
    m.run_first_task(0);
    assert!(m.mark_is_safe(5));
    // running until usize::MAX overruns, and task 1 would be picked at once
    assert!(!m.mark_is_safe(usize::MAX));
    // task 1 has priority 0: picking it would divide by zero
    assert!(m.exit_is_safe() == false);
    let m2 = manager_of(&[2, 2]);
    assert!(m2.exit_is_safe());
    let mut m3 = manager_of(&[2]);
    m3.run_first_task(10);
    assert!(!m3.mark_is_safe(5));
    // overrunning with nothing else ready is safe: the machine powers off
    assert!(m3.mark_is_safe(500));
    let mut q = manager::TaskManager::new(BIG_STRIDE);
    assert!(q.fetch_is_safe());
    q.add(tcb(0, 1));
    assert!(!q.fetch_is_safe());
    let mut q2 = manager::TaskManager::new(BIG_STRIDE);
    let mut t = tcb(1, 1);
    t.task_stride = usize::MAX;
    q2.add(t);
    assert!(!q2.fetch_is_safe());
}
