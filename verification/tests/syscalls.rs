use os_kernel::fs::mail::{MailBox, MailSenders, MailStore};
use os_kernel::fs::{update_mail_sender, File};
use os_kernel::logging::{level_to_color_code, max_level_of, LogLevel, LogLevelFilter};
use os_kernel::mm::{MapPermission, MemorySet, UserBuffer};
use os_kernel::syscall::fs::{
    alloc_fd, sys_close, sys_dup, sys_fstat, sys_linkat, sys_mailread, sys_mailwrite, sys_open,
    sys_pipe, sys_read, sys_unlinkat, sys_write, STAT_MODE_FILE,
};
use os_kernel::syscall::process::{
    sys_exec, sys_exit, sys_fork, sys_get_time, sys_getpid, sys_mmap, sys_munmap,
    sys_set_priority, sys_spawn, sys_waitpid, sys_yield, ChildProcess, TimeVal,
};
use os_kernel::syscall::{is_supported, syscall, Syscall};
use os_kernel::trap::TrapContext;
use os_kernel::task::manager;
use os_kernel::task::task::map_permission_of_port;
use os_kernel::task::{Schedule, TaskControlBlock, TaskManager, TaskStatus};

fn tcb(priority: usize, token: usize) -> TaskControlBlock {
    TaskControlBlock {
        task_cx_ptr: 0,
        task_status: TaskStatus::Ready,
        task_priority: priority,
        task_stride: 0,
        task_start_time: 0,
        task_total_time: 0,
        memory_set: MemorySet { token },
        trap_cx_ppn: 0,
        base_size: 0,
    }
}

#[test]
fn alloc_fd_takes_the_lowest_free_slot() {
    let mut table: Vec<Option<u8>> = vec![Some(1), None, Some(3), None];
    assert_eq!(alloc_fd(&mut table), 1);
    assert_eq!(table.len(), 4);
    let mut full: Vec<Option<u8>> = vec![Some(1), Some(2)];
    assert_eq!(alloc_fd(&mut full), 2);
    assert_eq!(full, vec![Some(1), Some(2), None]);
}

#[test]
fn open_close_dup() {
    let mut store = MailStore::new();
    let (s, r) = MailBox::new(&mut store);
    let mut table: Vec<Option<MailBox>> = Vec::new();
    assert_eq!(sys_open(&mut table, None), -1);
    assert_eq!(sys_open(&mut table, Some(s)), 0);
    assert_eq!(sys_open(&mut table, Some(r)), 1);
    assert_eq!(sys_dup(&mut table, 0), 2);
    assert_eq!(table[2], Some(s));
    assert_eq!(sys_dup(&mut table, 7), -1);
    assert_eq!(sys_close(&mut table, 0), 0);
    assert_eq!(table[0], None);
    assert_eq!(sys_close(&mut table, 0), -1);
    assert_eq!(sys_close(&mut table, 9), -1);
    assert_eq!(sys_dup(&mut table, 0), -1);
    // the closed descriptor is handed out again
    assert_eq!(sys_dup(&mut table, 1), 0);
    assert_eq!(table[0], Some(r));
}

#[test]
fn write_and_read_through_descriptors() {
    let mut store = MailStore::new();
    let (s, r) = MailBox::new(&mut store);
    let table: Vec<Option<MailBox>> = vec![Some(s), Some(r), None];
    // wrong descriptors and wrong directions
    assert_eq!(sys_write(&table, &mut store, 5, Some(UserBuffer::new(b"x".to_vec()))), -1);
    assert_eq!(sys_write(&table, &mut store, 2, Some(UserBuffer::new(b"x".to_vec()))), -1);
    assert_eq!(sys_write(&table, &mut store, 1, Some(UserBuffer::new(b"x".to_vec()))), -1);
    assert_eq!(sys_write(&table, &mut store, 0, None), -1);
    assert!(r.is_empty(&store));
    assert_eq!(sys_write(&table, &mut store, 0, Some(UserBuffer::new(b"ping".to_vec()))), 4);
    let mut out = Some(UserBuffer::new(vec![0u8; 4]));
    assert_eq!(sys_read(&table, &mut store, 0, &mut out), -1);
    assert_eq!(sys_read(&table, &mut store, 3, &mut out), -1);
    let mut none: Option<UserBuffer> = None;
    assert_eq!(sys_read(&table, &mut store, 1, &mut none), -1);
    assert_eq!(sys_read(&table, &mut store, 1, &mut out), 4);
    assert_eq!(out.unwrap().data, b"ping".to_vec());
}

#[test]
fn pipe_takes_two_lowest_descriptors() {
    let mut table: Vec<Option<u8>> = vec![Some(0), None];
    assert_eq!(sys_pipe(&mut table, 10, 11), (0, 1, 2));
    assert_eq!(table, vec![Some(0), Some(10), Some(11)]);
    let mut table: Vec<Option<u8>> = vec![None, Some(5), None];
    assert_eq!(sys_pipe(&mut table, 10, 11), (0, 0, 2));
    assert_eq!(table, vec![Some(10), Some(5), Some(11)]);
}

#[test]
fn fstat_describes_disk_files_only() {
    let table: Vec<Option<u8>> = vec![Some(1), None];
    let (r, st) = sys_fstat(&table, 0, Some(3));
    assert_eq!(r, 0);
    let st = st.unwrap();
    assert_eq!((st.dev, st.ino, st.mode.bits, st.nlink), (0, 0, STAT_MODE_FILE, 3));
    assert_eq!(st.pad, [0u64; 7]);
    assert_eq!(sys_fstat(&table, 0, None).0, -1);
    assert_eq!(sys_fstat(&table, 1, Some(1)).0, -1);
}

#[test]
fn link_and_unlink_answers() {
    assert_eq!(sys_linkat(true), 0);
    assert_eq!(sys_linkat(false), -1);
    assert_eq!(sys_unlinkat(), 0);
}

#[test]
fn mail_system_calls() {
    let mut store = MailStore::new();
    let (s, r) = MailBox::new(&mut store);
    let mut senders = MailSenders::new();
    update_mail_sender(&mut senders, 4, s);
    // unknown pid
    assert_eq!(sys_mailwrite(&senders, &mut store, 5, 3, Some(UserBuffer::new(b"abc".to_vec()))), -1);
    // zero length
    assert_eq!(sys_mailwrite(&senders, &mut store, 4, 0, Some(UserBuffer::new(Vec::new()))), 0);
    assert!(r.is_empty(&store));
    // unmapped buffer
    assert_eq!(sys_mailwrite(&senders, &mut store, 4, 3, None), -1);
    assert_eq!(sys_mailwrite(&senders, &mut store, 4, 3, Some(UserBuffer::new(b"abc".to_vec()))), 3);
    // a sender is not readable
    let mut out = Some(UserBuffer::new(vec![0u8; 8]));
    assert_eq!(sys_mailread(&s, &mut store, 8, &mut out), -1);
    assert_eq!(sys_mailread(&r, &mut store, 0, &mut out), 0);
    let mut none: Option<UserBuffer> = None;
    assert_eq!(sys_mailread(&r, &mut store, 8, &mut none), -1);
    assert_eq!(sys_mailread(&r, &mut store, 8, &mut out), 3);
    assert_eq!(out.unwrap().data, b"abc\0\0\0\0\0".to_vec());
    let mut out = Some(UserBuffer::new(vec![0u8; 8]));
    assert_eq!(sys_mailread(&r, &mut store, 8, &mut out), 0);
}

#[test]
fn mail_to_a_full_box_is_refused() {
    let mut store = MailStore::new();
    let (s, _r) = MailBox::new(&mut store);
    let mut senders = MailSenders::new();
    update_mail_sender(&mut senders, 1, s);
    for _ in 0..16 {
        assert_eq!(sys_mailwrite(&senders, &mut store, 1, 1, Some(UserBuffer::new(vec![7]))), 1);
    }
    assert_eq!(sys_mailwrite(&senders, &mut store, 1, 1, Some(UserBuffer::new(vec![7]))), 0);
    assert!(s.is_full(&store));
}

#[test]
fn get_time_splits_milliseconds() {
    let mut t = TimeVal { sec: 9, usec: 9 };
    assert_eq!(sys_get_time(12_345, &mut t), 0);
    assert_eq!(t, TimeVal { sec: 12, usec: 345_000 });
    assert_eq!(sys_get_time(999, &mut t), 0);
    assert_eq!(t, TimeVal { sec: 0, usec: 999_000 });
}

#[test]
fn set_priority_needs_at_least_two() {
    let mut m = TaskManager::new(vec![tcb(16, 0)], 1000, 100);
    assert_eq!(sys_set_priority(&mut m, 1), -1);
    assert_eq!(sys_set_priority(&mut m, -5), -1);
    assert_eq!(m.task(0).task_priority, 16);
    assert_eq!(sys_set_priority(&mut m, 2), 2);
    assert_eq!(m.task(0).task_priority, 2);
    let mut empty = TaskManager::new(Vec::new(), 1000, 100);
    assert_eq!(sys_set_priority(&mut empty, 1), -1);
    assert_eq!(sys_set_priority(&mut empty, 0), -1);
    assert_eq!(sys_set_priority(&mut empty, -7), -1);
}

#[test]
fn yield_and_exit() {
    let mut m = TaskManager::new(vec![tcb(2, 0), tcb(2, 1)], 1000, 100);
    m.run_first_task(0);
    assert_eq!(sys_yield(&mut m, 1), (0, Schedule::Switch { from: 0, to: 0 }));
    assert_eq!(sys_yield(&mut m, 2), (0, Schedule::Switch { from: 0, to: 1 }));
    assert_eq!(sys_exit(&mut m, 3, 4), Schedule::Switch { from: 1, to: 0 });
    assert_eq!(sys_exit(&mut m, 0, 5), Schedule::Shutdown);
}

#[test]
fn mmap_checks_alignment_and_port() {
    let task = tcb(2, 0);
    let seen = std::cell::Cell::new(None);
    let insert = |s: usize, e: usize, p: MapPermission, exact: bool| {
        seen.set(Some((s, e, p.bits, exact)));
        Some(e - s)
    };
    assert_eq!(sys_mmap(&task, 4097, 10, 3, insert), -1);
    assert_eq!(seen.get(), None);
    let insert = |s: usize, e: usize, p: MapPermission, exact: bool| {
        seen.set(Some((s, e, p.bits, exact)));
        Some(e - s)
    };
    assert_eq!(sys_mmap(&task, 4096, 10, 8, insert), -1);
    assert_eq!(seen.get(), None);
    let insert = |s: usize, e: usize, p: MapPermission, exact: bool| {
        seen.set(Some((s, e, p.bits, exact)));
        Some(4096)
    };
    assert_eq!(sys_mmap(&task, 8192, 10, 3, insert), 4096);
    assert_eq!(seen.get(), Some((8192, 8202, 16 | 2 | 4, true)));
    let refuse = |_s: usize, _e: usize, _p: MapPermission, _x: bool| None;
    assert_eq!(sys_mmap(&task, 0, 10, 7, refuse), -1);
}

#[test]
fn munmap_rounds_to_pages() {
    let task = tcb(2, 0);
    assert_eq!(sys_munmap(&task, 100, 10, |_s: usize, _e: usize| true), -1);
    assert_eq!(sys_munmap(&task, 4096, 10, |_s: usize, _e: usize| false), -1);
    assert_eq!(sys_munmap(&task, 4096, 10, |s: usize, e: usize| s == 4096 && e == 4106), 4096);
    assert_eq!(sys_munmap(&task, 0, 4096, |_s: usize, _e: usize| true), 4096);
    assert_eq!(sys_munmap(&task, 0, 4097, |_s: usize, _e: usize| true), 8192);
}

#[test]
fn permissions_of_ports() {
    assert!(map_permission_of_port(0).is_none());
    assert!(map_permission_of_port(8).is_none());
    assert!(map_permission_of_port(9).is_none());
    assert_eq!(map_permission_of_port(1).unwrap().bits, 16 | 2);
    assert_eq!(map_permission_of_port(2).unwrap().bits, 16 | 4);
    assert_eq!(map_permission_of_port(4).unwrap().bits, 16 | 8);
    assert_eq!(map_permission_of_port(7).unwrap().bits, 30);
    let p = map_permission_of_port(5).unwrap();
    assert!(p.contains(2) && !p.contains(4) && p.contains(8) && p.contains(16));
}

#[test]
fn add_and_remove_map_area_of_a_task() {
    let task = tcb(2, 42);
    assert_eq!(task.get_user_token(), 42);
    assert_eq!(task.add_map_area(0..4096, 0, false, |_s: usize, _e: usize, _p: MapPermission, _x: bool| Some(1)), None);
    assert_eq!(
        task.add_map_area(0..4096, 1, false, |s: usize, e: usize, p: MapPermission, x: bool| {
            if s == 0 && e == 4096 && p.bits == 18 && !x { Some(4096) } else { None }
        }),
        Some(4096)
    );
    assert!(task.remove_map_area(0..4096, |s: usize, e: usize| s == 0 && e == 4096));
}

fn trap_cx() -> TrapContext {
    TrapContext { x: [3usize; 32], sstatus: 1, sepc: 2, kernel_satp: 3, kernel_sp: 4, trap_handler: 5 }
}

#[test]
fn getpid_fork_exec_spawn() {
    assert_eq!(sys_getpid(17), 17);
    let mut ready = manager::TaskManager::new(1000);
    let mut cx = trap_cx();
    assert_eq!(sys_fork(&mut ready, tcb(2, 5), 23, 1, &mut cx), 23);
    assert_eq!(cx.x[10], 0);
    assert_eq!(cx.x[9], 3);
    assert_eq!(cx.sepc, 2);
    assert_eq!(ready.len(), 1);
    let ran = std::cell::Cell::new(0usize);
    assert_eq!(sys_exec(None, |_d: &[u8]| ran.set(1)), -1);
    assert_eq!(ran.get(), 0);
    assert_eq!(sys_exec(Some(&b"elf"[..]), |d: &[u8]| ran.set(d.len())), 0);
    assert_eq!(ran.get(), 3);
    let (r, c) = sys_spawn(&mut ready, None, |_d: &[u8]| (tcb(2, 6), 30, trap_cx()));
    assert_eq!(r, -1);
    assert!(c.is_none());
    assert_eq!(ready.len(), 1);
    let (r, c) = sys_spawn(&mut ready, Some(&b"elf"[..]), |_d: &[u8]| (tcb(2, 6), 30, trap_cx()));
    assert_eq!(r, 30);
    let c = c.unwrap();
    assert_eq!(c.x[10], 0);
    assert_eq!(c.x[11], 3);
    assert_eq!(c.trap_handler, 5);
    assert_eq!(ready.len(), 2);
    assert_eq!(ready.fetch().unwrap().memory_set.token, 5);
}

#[test]
fn app_init_context_sets_entry_and_stack() {
    let cx = TrapContext::app_init_context(0x100, 0x200, 7, 8, 9, 10);
    assert_eq!(cx.x[2], 0x200);
    assert_eq!(cx.x.iter().filter(|v| **v != 0).count(), 1);
    assert_eq!((cx.sstatus, cx.sepc, cx.kernel_satp, cx.kernel_sp, cx.trap_handler), (7, 0x100, 8, 9, 10));
}

#[test]
fn waitpid_finds_and_reaps_children() {
    let mut children = vec![
        ChildProcess { pid: 3, zombie: false, exit_code: 0 },
        ChildProcess { pid: 4, zombie: true, exit_code: 7 },
        ChildProcess { pid: 5, zombie: true, exit_code: 9 },
    ];
    let mut code = 0i32;
    assert_eq!(sys_waitpid(&mut children, 8, &mut code), -1);
    assert_eq!(sys_waitpid(&mut children, 3, &mut code), -2);
    assert_eq!(code, 0);
    assert_eq!(sys_waitpid(&mut children, 5, &mut code), 5);
    assert_eq!(code, 9);
    assert_eq!(children.len(), 2);
    assert_eq!(sys_waitpid(&mut children, -1, &mut code), 4);
    assert_eq!(code, 7);
    assert_eq!(sys_waitpid(&mut children, -1, &mut code), -2);
    assert_eq!(children, vec![ChildProcess { pid: 3, zombie: false, exit_code: 0 }]);
    let mut none: Vec<ChildProcess> = Vec::new();
    assert_eq!(sys_waitpid(&mut none, -1, &mut code), -1);
}

#[test]
fn syscall_dispatch() {
    let args = [7usize, 8, 9];
    for id in [64usize, 93, 124, 169, 140, 215, 222] {
        assert!(is_supported(id));
    }
    assert!(!is_supported(63));
    assert!(!is_supported(0));
    assert_eq!(syscall(64, args), Syscall::Write { fd: 7, buf: 8, len: 9 });
    assert_eq!(syscall(93, [usize::MAX, 0, 0]), Syscall::Exit { exit_code: -1 });
    assert_eq!(syscall(93, [0x1_0000_0005, 0, 0]), Syscall::Exit { exit_code: 5 });
    assert_eq!(syscall(124, args), Syscall::Yield);
    assert_eq!(syscall(169, args), Syscall::GetTime { time_addr: 7, tz: 8 });
    assert_eq!(syscall(140, [usize::MAX, 0, 0]), Syscall::SetPriority { prio: -1 });
    assert_eq!(syscall(215, args), Syscall::Munmap { start: 7, len: 8 });
    assert_eq!(syscall(222, args), Syscall::Mmap { start: 7, len: 8, port: 9 });
}

#[test]
fn log_level_from_setting() {
    assert_eq!(max_level_of(None), LogLevelFilter::Off);
    assert_eq!(max_level_of(Some(b"ERROR")), LogLevelFilter::Error);
    assert_eq!(max_level_of(Some(b"WARN")), LogLevelFilter::Warn);
    assert_eq!(max_level_of(Some(b"INFO")), LogLevelFilter::Info);
    assert_eq!(max_level_of(Some(b"DEBUG")), LogLevelFilter::Debug);
    assert_eq!(max_level_of(Some(b"TRACE")), LogLevelFilter::Trace);
    assert_eq!(max_level_of(Some(b"trace")), LogLevelFilter::Off);
    assert_eq!(max_level_of(Some(b"")), LogLevelFilter::Off);
}

#[test]
fn log_colours() {
    assert_eq!(level_to_color_code(LogLevel::Error), 31);
    assert_eq!(level_to_color_code(LogLevel::Warn), 93);
    assert_eq!(level_to_color_code(LogLevel::Info), 34);
    assert_eq!(level_to_color_code(LogLevel::Debug), 32);
    assert_eq!(level_to_color_code(LogLevel::Trace), 90);
}

#[test]
fn mailbox_is_a_file() {
    let mut store = MailStore::new();
    let (s, r) = MailBox::new(&mut store);
    assert!(File::writable(&s));
    assert!(File::readable(&r));
}
