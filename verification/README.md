# os_kernel

The scheduling, mailbox and system-call logic of a small RISC-V teaching
kernel, written in Verus and proved against its contracts.

- `src/fs/mail.rs`: mailboxes, bounded FIFO queues of short messages reached
  through a sender and a receiver handle, and the registry of senders.
- `src/task/`: task control blocks; the stride scheduler over a fixed set of
  tasks (`TaskManager`); the ready queue, first in first out
  (`manager::TaskManager`).
- `src/syscall/`: the decisions of the file, mail and process system calls,
  over descriptor tables, mailboxes and the scheduler.
- `src/mm.rs`, `src/config.rs`, `src/logging.rs`: the parts of memory
  management, configuration and logging that the logic reads.
- `app/`: the logger, the global state behind spin locks, and the functions
  that reach it.
