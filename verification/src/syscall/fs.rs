//! File and mail system calls.
//!
//! Each call works on the descriptor table of the calling task. Where the
//! kernel first translates a user address into a buffer, the call takes the
//! result of that translation, `None` when the address is not mapped.
use vstd::prelude::*;

use crate::fs::mail::{MailBox, MailSenders, MailStore, get_mail_sender};
use crate::fs::File;
use crate::mm::UserBuffer;

verus! {

/// Every open file of the table refers to state that exists in `store`.
pub open spec fn table_fits<F: File>(fd_table: Seq<Option<F>>, store: &MailStore) -> bool {
    forall|i: int|
        0 <= i < fd_table.len() ==> (#[trigger] fd_table[i] matches Some(f) ==> f.belongs_to(store))
}

/// The descriptor `fd` names an open file.
pub open spec fn fd_open<F>(fd_table: Seq<Option<F>>, fd: usize) -> bool {
    fd < fd_table.len() && fd_table[fd as int] is Some
}

/// The descriptor that `alloc_fd` hands out: the lowest free one, or a new
/// one past the end when none is free.
pub open spec fn lowest_free_fd<F>(fd_table: Seq<Option<F>>, fd: usize) -> bool {
    &&& fd <= fd_table.len()
    &&& fd < fd_table.len() ==> fd_table[fd as int] is None
    &&& forall|j: int| 0 <= j < fd ==> #[trigger] fd_table[j] is Some
}

/// The table once descriptor `fd` exists: as it was, or grown by one free
/// slot when `fd` is just past its end.
pub open spec fn grown<F>(fd_table: Seq<Option<F>>, fd: usize) -> Seq<Option<F>> {
    if fd < fd_table.len() {
        fd_table
    } else {
        fd_table.push(None)
    }
}

/// Hands out the lowest free descriptor; when none is free, the table grows
/// by one free slot and that slot is handed out.
pub fn alloc_fd<F>(fd_table: &mut Vec<Option<F>>) -> (fd: usize)
    requires
        old(fd_table)@.len() < usize::MAX,
    ensures
        lowest_free_fd(old(fd_table)@, fd),
        fd < old(fd_table)@.len() ==> final(fd_table)@ == old(fd_table)@,
        fd == old(fd_table)@.len() ==> final(fd_table)@ == old(fd_table)@.push(None),
        fd < final(fd_table)@.len(),
        final(fd_table)@[fd as int] is None,
{
    let mut i: usize = 0;
    while i < fd_table.len()
        invariant
            i <= fd_table@.len(),
            forall|j: int| 0 <= j < i ==> #[trigger] fd_table@[j] is Some,
        decreases fd_table@.len() - i,
    {
        if fd_table[i].is_none() {
            return i;
        }
        i = i + 1;
    }
    fd_table.push(None);
    i
}

/// A descriptor that was just closed is free again, so the next descriptor
/// handed out is no higher than it.
pub proof fn law_closed_fd_reused<F>(fd_table: Seq<Option<F>>, fd: usize, next: usize)
    requires
        fd_open(fd_table, fd),
        lowest_free_fd(fd_table.update(fd as int, None), next),
    ensures
        next <= fd,
{
    if next > fd {
        assert(fd_table.update(fd as int, None)[fd as int] is Some);
    }
}

/// Writes `buffer` to the file open under `fd`.
///
/// Returns -1 when `fd` names no open file, when the file is not writable
/// or when the user address was not mapped; else what the write returned.
pub fn sys_write<F: File>(
    fd_table: &Vec<Option<F>>,
    store: &mut MailStore,
    fd: usize,
    buffer: Option<UserBuffer>,
) -> (r: isize)
    requires
        old(store).wf(),
        table_fits(fd_table@, old(store)),
    ensures
        final(store).wf(),
        !fd_open(fd_table@, fd) ==> r == -1 && final(store)@ == old(store)@,
        fd_open(fd_table@, fd) ==> match (fd_table@[fd as int], buffer) {
            (Some(file), Some(buf)) => if file.spec_writable() {
                &&& r == file.write_spec(old(store)@, buf@).0 as isize
                &&& final(store)@ == file.write_spec(old(store)@, buf@).1
            } else {
                r == -1 && final(store)@ == old(store)@
            },
            _ => r == -1 && final(store)@ == old(store)@,
        },
{
    if fd >= fd_table.len() {
        return -1;
    }
    match &fd_table[fd] {
        Some(file) => {
            assert(fd_table@[fd as int] matches Some(f) ==> f.belongs_to(old(store)));
            if !file.writable() {
                return -1;
            }
            match buffer {
                Some(buf) => file.write(store, &buf) as isize,
                None => -1,
            }
        },
        None => -1,
    }
}

/// Reads from the file open under `fd` into `buffer`.
///
/// Returns -1 when `fd` names no open file, when the file is not readable
/// or when the user address was not mapped; else what the read returned.
pub fn sys_read<F: File>(
    fd_table: &Vec<Option<F>>,
    store: &mut MailStore,
    fd: usize,
    buffer: &mut Option<UserBuffer>,
) -> (r: isize)
    requires
        old(store).wf(),
        table_fits(fd_table@, old(store)),
    ensures
        final(store).wf(),
        !fd_open(fd_table@, fd) ==> r == -1 && final(store)@ == old(store)@ && *final(buffer)
            == *old(buffer),
        fd_open(fd_table@, fd) ==> match (fd_table@[fd as int], *old(buffer)) {
            (Some(file), Some(buf)) => if file.spec_readable() {
                &&& r == file.read_spec(old(store)@, buf@).0 as isize
                &&& *final(buffer) matches Some(b) && b@ == file.read_spec(old(store)@, buf@).1
                &&& final(store)@ == file.read_spec(old(store)@, buf@).2
            } else {
                r == -1 && final(store)@ == old(store)@ && *final(buffer) == *old(buffer)
            },
            _ => r == -1 && final(store)@ == old(store)@ && *final(buffer) == *old(buffer),
        },
{
    if fd >= fd_table.len() {
        return -1;
    }
    match &fd_table[fd] {
        Some(file) => {
            assert(fd_table@[fd as int] matches Some(f) ==> f.belongs_to(old(store)));
            if !file.readable() {
                return -1;
            }
            match buffer {
                Some(buf) => file.read(store, buf) as isize,
                None => -1,
            }
        },
        None => -1,
    }
}

/// Puts the file that opening the path gave under the lowest free
/// descriptor and returns that descriptor; -1 when opening failed.
pub fn sys_open<F>(fd_table: &mut Vec<Option<F>>, opened: Option<F>) -> (r: isize)
    requires
        old(fd_table)@.len() < usize::MAX,
    ensures
        opened is None ==> r == -1 && final(fd_table)@ == old(fd_table)@,
        opened is Some ==> exists|fd: usize|
            lowest_free_fd(old(fd_table)@, fd) && r == fd as isize && final(fd_table)@ == (if fd
                < old(fd_table)@.len() {
                old(fd_table)@
            } else {
                old(fd_table)@.push(None)
            }).update(fd as int, opened),
{
    match opened {
        Some(inode) => {
            let fd = alloc_fd(fd_table);
            fd_table.set(fd, Some(inode));
            fd as isize
        },
        None => -1,
    }
}

/// Closes descriptor `fd`: 0 when it named an open file, else -1.
pub fn sys_close<F>(fd_table: &mut Vec<Option<F>>, fd: usize) -> (r: isize)
    ensures
        !fd_open(old(fd_table)@, fd) ==> r == -1 && final(fd_table)@ == old(fd_table)@,
        fd_open(old(fd_table)@, fd) ==> r == 0 && final(fd_table)@ == old(fd_table)@.update(
            fd as int,
            None,
        ),
{
    if fd >= fd_table.len() {
        return -1;
    }
    if fd_table[fd].is_none() {
        return -1;
    }
    fd_table.set(fd, None);
    0
}

/// Makes a second descriptor, the lowest free one, for the file open under
/// `fd`; returns it, or -1 when `fd` names no open file.
pub fn sys_dup<F: Copy>(fd_table: &mut Vec<Option<F>>, fd: usize) -> (r: isize)
    requires
        old(fd_table)@.len() < usize::MAX,
    ensures
        !fd_open(old(fd_table)@, fd) ==> r == -1 && final(fd_table)@ == old(fd_table)@,
        fd_open(old(fd_table)@, fd) ==> exists|new_fd: usize|
            lowest_free_fd(old(fd_table)@, new_fd) && r == new_fd as isize && final(fd_table)@
                == (if new_fd < old(fd_table)@.len() {
                old(fd_table)@
            } else {
                old(fd_table)@.push(None)
            }).update(new_fd as int, old(fd_table)@[fd as int]),
{
    if fd >= fd_table.len() {
        return -1;
    }
    if fd_table[fd].is_none() {
        return -1;
    }
    let file = fd_table[fd];
    let new_fd = alloc_fd(fd_table);
    fd_table.set(new_fd, file);
    new_fd as isize
}

/// Opens a pipe: its read end and then its write end go under the lowest
/// free descriptors. Answers 0, with the two descriptors to be written to
/// the user's array.
pub fn sys_pipe<F>(fd_table: &mut Vec<Option<F>>, pipe_read: F, pipe_write: F) -> (r: (
    isize,
    usize,
    usize,
))
    requires
        old(fd_table)@.len() < usize::MAX - 1,
    ensures
        r.0 == 0,
        ({
            let with_read = grown(old(fd_table)@, r.1).update(r.1 as int, Some(pipe_read));
            &&& lowest_free_fd(old(fd_table)@, r.1)
            &&& lowest_free_fd(with_read, r.2)
            &&& final(fd_table)@ == grown(with_read, r.2).update(r.2 as int, Some(pipe_write))
        }),
        r.1 < final(fd_table)@.len() && r.2 < final(fd_table)@.len(),
        r.1 != r.2,
        final(fd_table)@[r.1 as int] == Some(pipe_read),
        final(fd_table)@[r.2 as int] == Some(pipe_write),
        forall|i: int|
            0 <= i < old(fd_table)@.len() && i != r.1 && i != r.2 ==> final(fd_table)@[i] == old(
                fd_table,
            )@[i],
        final(fd_table)@.len() <= old(fd_table)@.len() + 2,
{
    let read_fd = alloc_fd(fd_table);
    fd_table.set(read_fd, Some(pipe_read));
    let write_fd = alloc_fd(fd_table);
    fd_table.set(write_fd, Some(pipe_write));
    (0, read_fd, write_fd)
}

/// How a file's kind is described in a `Stat`.
#[derive(Clone, Copy, PartialEq, Eq, Structural, Debug)]
pub struct StatMode {
    pub bits: u32,
}

/// No kind.
pub const STAT_MODE_NULL: u32 = 0;

/// Directory.
pub const STAT_MODE_DIR: u32 = 0o040000;

/// Ordinary regular file.
pub const STAT_MODE_FILE: u32 = 0o100000;

/// What `fstat` tells of a file.
#[derive(Clone, Copy, Debug)]
pub struct Stat {
    /// Number of the disk drive that holds the file.
    pub dev: u64,
    /// Number of the file's inode.
    pub ino: u64,
    /// Kind of the file.
    pub mode: StatMode,
    /// Number of hard links to the file.
    pub nlink: u32,
    /// Unused; keeps the layout of the user-space structure.
    pub pad: [u64; 7],
}

impl Stat {
    /// The description of a regular file with `nlink` hard links.
    pub fn regular_file(nlink: u32) -> (r: Stat)
        ensures
            r.dev == 0,
            r.ino == 0,
            r.mode.bits == STAT_MODE_FILE,
            r.nlink == nlink,
            r.pad@ == seq![0u64, 0u64, 0u64, 0u64, 0u64, 0u64, 0u64],
    {
        Stat { dev: 0, ino: 0, mode: StatMode { bits: STAT_MODE_FILE }, nlink, pad: [0, 0, 0, 0, 0, 0, 0] }
    }
}

/// Describes the file open under `fd`.
///
/// `nlink` is the number of hard links of that file when it is a disk file
/// (an inode), `None` when it is not. Returns 0 and the description when
/// `fd` names an open disk file; else -1.
pub fn sys_fstat<F>(fd_table: &Vec<Option<F>>, fd: i32, nlink: Option<usize>) -> (r: (
    isize,
    Option<Stat>,
))
    requires
        (fd as usize) < fd_table@.len(),
    ensures
        (fd_table@[fd as usize as int] is Some && nlink is Some) ==> (r.1 matches Some(
            st,
        ) && r.0 == 0 && st.dev == 0 && st.ino == 0 && st.mode.bits == STAT_MODE_FILE && st.nlink == (nlink->0 as u32) && st.pad@ == seq![0u64, 0u64, 0u64, 0u64, 0u64, 0u64, 0u64]),
        !(fd_table@[fd as usize as int] is Some && nlink is Some) ==> r.0 == -1 && r.1 is None,
{
    if fd_table[fd as usize].is_some() {
        if let Some(n) = nlink {
            return (0, Some(Stat::regular_file(n as u32)));
        }
    }
    (-1, None)
}

/// Records that `oldpath` was linked to `newpath` when `linked`: 0 then,
/// else -1.
pub fn sys_linkat(linked: bool) -> (r: isize)
    ensures
        r == (if linked {
            0isize
        } else {
            -1isize
        }),
{
    if linked {
        0
    } else {
        -1
    }
}

/// Unlinking a path always answers 0, whether or not the path existed.
pub fn sys_unlinkat() -> (r: isize)
    ensures
        r == 0,
{
    0
}

/// Reads the oldest mail of the calling task's mailbox into `buffer`.
///
/// Returns -1 when `mail_box` is not a receiving end, 0 when `len` is 0,
/// -1 when the user address was not mapped; else what the read returned.
pub fn sys_mailread(
    mail_box: &MailBox,
    store: &mut MailStore,
    len: usize,
    buffer: &mut Option<UserBuffer>,
) -> (r: isize)
    requires
        old(store).wf(),
        mail_box.belongs_to(old(store)),
    ensures
        final(store).wf(),
        !mail_box.spec_readable() || len == 0 || *old(buffer) is None ==> final(store)@ == old(
            store,
        )@ && *final(buffer) == *old(buffer) && r == (if !mail_box.spec_readable() {
            -1isize
        } else if len == 0 {
            0isize
        } else {
            -1isize
        }),
        mail_box.spec_readable() && len > 0 && *old(buffer) is Some ==> ({
            let res = mail_box.read_spec(old(store)@, (*old(buffer))->0@);
            &&& r == res.0 as isize
            &&& *final(buffer) matches Some(b) && b@ == res.1
            &&& final(store)@ == res.2
        }),
{
    if !mail_box.readable() {
        -1
    } else if len == 0 {
        0
    } else {
        match buffer {
            Some(buf) => mail_box.read(store, buf) as isize,
            None => -1,
        }
    }
}

/// Sends `buffer` as mail to the task registered under `pid`.
///
/// Returns -1 when no sender is registered under `pid` or it is not a
/// sending end, 0 when `len` is 0, -1 when the user address was not
/// mapped; else what the write returned.
pub fn sys_mailwrite(
    senders: &MailSenders,
    store: &mut MailStore,
    pid: usize,
    len: usize,
    buffer: Option<UserBuffer>,
) -> (r: isize)
    requires
        old(store).wf(),
        senders.wf(),
        senders.lookup(pid) matches Some(b) ==> b.belongs_to(old(store)),
    ensures
        final(store).wf(),
        match senders.lookup(pid) {
            None => r == -1 && final(store)@ == old(store)@,
            Some(sender) => if !sender.spec_writable() {
                r == -1 && final(store)@ == old(store)@
            } else if len == 0 {
                r == 0 && final(store)@ == old(store)@
            } else {
                match buffer {
                    None => r == -1 && final(store)@ == old(store)@,
                    Some(buf) => {
                        &&& r == sender.write_spec(old(store)@, buf@).0 as isize
                        &&& final(store)@ == sender.write_spec(old(store)@, buf@).1
                    },
                }
            },
        },
{
    match get_mail_sender(senders, pid) {
        Some(sender) => {
            if !sender.writable() {
                -1
            } else if len == 0 {
                0
            } else {
                match buffer {
                    Some(buf) => sender.write(store, &buf) as isize,
                    None => -1,
                }
            }
        },
        None => -1,
    }
}

} // verus!
