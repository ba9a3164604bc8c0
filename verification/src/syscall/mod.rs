//! System calls and how their numbers are read.
use vstd::prelude::*;

pub mod fs;
pub mod process;

verus! {

pub const SYSCALL_WRITE: usize = 64;

pub const SYSCALL_EXIT: usize = 93;

pub const SYSCALL_YIELD: usize = 124;

pub const SYSCALL_GET_TIME: usize = 169;

pub const SYSCALL_SET_PRIORITY: usize = 140;

pub const SYSCALL_MUNMAP: usize = 215;

pub const SYSCALL_MMAP: usize = 222;

/// A system call that the dispatcher serves, with its arguments converted
/// to the types of the call.
#[derive(Clone, Copy, PartialEq, Eq, Structural, Debug)]
pub enum Syscall {
    /// `sys_write(fd, buf, len)`; its answer is returned as is.
    Write { fd: usize, buf: usize, len: usize },
    /// `sys_exit(exit_code)`; it does not return.
    Exit { exit_code: i32 },
    /// `sys_yield()`; its answer is returned as is.
    Yield,
    /// `sys_get_time`, whose time goes to user address `time_addr`; its
    /// answer is returned as is.
    GetTime { time_addr: usize, tz: usize },
    /// `sys_set_priority(prio)`; its answer is returned as is.
    SetPriority { prio: isize },
    /// `sys_munmap(start, len)`; its `i32` answer is returned as an `isize`.
    Munmap { start: usize, len: usize },
    /// `sys_mmap(start, len, port)`; its `i32` answer is returned as an
    /// `isize`.
    Mmap { start: usize, len: usize, port: usize },
}

/// The number is one that the dispatcher serves.
pub open spec fn is_served(syscall_id: usize) -> bool {
    syscall_id == SYSCALL_WRITE || syscall_id == SYSCALL_EXIT || syscall_id == SYSCALL_YIELD
        || syscall_id == SYSCALL_GET_TIME || syscall_id == SYSCALL_SET_PRIORITY || syscall_id
        == SYSCALL_MUNMAP || syscall_id == SYSCALL_MMAP
}

/// The call that system call number `syscall_id` with arguments `args`
/// makes.
pub open spec fn call_of(syscall_id: usize, args: Seq<usize>) -> Syscall
    recommends
        is_served(syscall_id),
        args.len() == 3,
{
    if syscall_id == SYSCALL_WRITE {
        Syscall::Write { fd: args[0], buf: args[1], len: args[2] }
    } else if syscall_id == SYSCALL_EXIT {
        Syscall::Exit { exit_code: args[0] as i32 }
    } else if syscall_id == SYSCALL_YIELD {
        Syscall::Yield
    } else if syscall_id == SYSCALL_GET_TIME {
        Syscall::GetTime { time_addr: args[0], tz: args[1] }
    } else if syscall_id == SYSCALL_SET_PRIORITY {
        Syscall::SetPriority { prio: args[0] as isize }
    } else if syscall_id == SYSCALL_MUNMAP {
        Syscall::Munmap { start: args[0], len: args[1] }
    } else {
        Syscall::Mmap { start: args[0], len: args[1], port: args[2] }
    }
}

/// Whether system call number `syscall_id` is one that the dispatcher
/// serves; the kernel panics on any other before dispatching.
pub fn is_supported(syscall_id: usize) -> (r: bool)
    ensures
        r == is_served(syscall_id),
{
    syscall_id == SYSCALL_WRITE || syscall_id == SYSCALL_EXIT || syscall_id == SYSCALL_YIELD
        || syscall_id == SYSCALL_GET_TIME || syscall_id == SYSCALL_SET_PRIORITY || syscall_id
        == SYSCALL_MUNMAP || syscall_id == SYSCALL_MMAP
}

/// Dispatches system call number `syscall_id` with arguments `args`: the
/// call to make, with its arguments converted. A number that no call has
/// makes the kernel panic ("Unsupported syscall_id"), so it is left out.
pub fn syscall(syscall_id: usize, args: [usize; 3]) -> (r: Syscall)
    requires
        is_served(syscall_id),
    ensures
        r == call_of(syscall_id, args@),
{
    if syscall_id == SYSCALL_WRITE {
        Syscall::Write { fd: args[0], buf: args[1], len: args[2] }
    } else if syscall_id == SYSCALL_EXIT {
        Syscall::Exit { exit_code: args[0] as i32 }
    } else if syscall_id == SYSCALL_YIELD {
        Syscall::Yield
    } else if syscall_id == SYSCALL_GET_TIME {
        Syscall::GetTime { time_addr: args[0], tz: args[1] }
    } else if syscall_id == SYSCALL_SET_PRIORITY {
        Syscall::SetPriority { prio: args[0] as isize }
    } else if syscall_id == SYSCALL_MUNMAP {
        Syscall::Munmap { start: args[0], len: args[1] }
    } else {
        Syscall::Mmap { start: args[0], len: args[1], port: args[2] }
    }
}

} // verus!
