//! The registers a task's trap saves and restores.
use vstd::prelude::*;

verus! {

/// What a trap into the kernel saves of a task, and what the kernel needs
/// to take it.
#[derive(Clone, Copy, Debug)]
pub struct TrapContext {
    /// The general registers `x0` to `x31`.
    pub x: [usize; 32],
    /// The supervisor status register, as the task returns to user mode.
    pub sstatus: usize,
    /// Where the task goes on when the trap returns.
    pub sepc: usize,
    /// Token of the kernel's address space.
    pub kernel_satp: usize,
    /// Top of the task's kernel stack.
    pub kernel_sp: usize,
    /// Address of the kernel's trap handler.
    pub trap_handler: usize,
}

/// The general registers of a new task: all zero but the stack pointer
/// `x2`, which is `sp`.
pub open spec fn init_registers(sp: usize) -> Seq<usize> {
    Seq::new(32, |i: int| if i == 2 { sp } else { 0usize })
}

impl TrapContext {
    /// Sets the stack pointer, register `x2`.
    pub fn set_sp(&mut self, sp: usize)
        ensures
            final(self).x@ == old(self).x@.update(2, sp),
            final(self).sstatus == old(self).sstatus,
            final(self).sepc == old(self).sepc,
            final(self).kernel_satp == old(self).kernel_satp,
            final(self).kernel_sp == old(self).kernel_sp,
            final(self).trap_handler == old(self).trap_handler,
    {
        self.x.set(2, sp);
    }

    /// The context in which a new task first enters user mode: at `entry`,
    /// with its stack at `sp`, `sstatus` set for user mode, and the kernel's
    /// token, the task's kernel stack top and the trap handler for its
    /// traps.
    pub fn app_init_context(
        entry: usize,
        sp: usize,
        sstatus: usize,
        kernel_satp: usize,
        kernel_sp: usize,
        trap_handler: usize,
    ) -> (r: Self)
        ensures
            r.x@ == init_registers(sp),
            r.sstatus == sstatus,
            r.sepc == entry,
            r.kernel_satp == kernel_satp,
            r.kernel_sp == kernel_sp,
            r.trap_handler == trap_handler,
    {
        let mut cx = TrapContext {
            x: [0usize; 32],
            sstatus,
            sepc: entry,
            kernel_satp,
            kernel_sp,
            trap_handler,
        };
        cx.set_sp(sp);
        assert(cx.x@ =~= init_registers(sp));
        cx
    }
}

} // verus!
