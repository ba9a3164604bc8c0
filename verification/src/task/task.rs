//! The control block of one task.
use vstd::prelude::*;

use core::ops::Range;

use crate::mm::{MapPermission, MapRequest, MemorySet, MAP_R, MAP_U, MAP_W, MAP_X};
use crate::trap::{init_registers, TrapContext};

verus! {

/// Where a task is in its life.
#[derive(Clone, Copy, PartialEq, Eq, Structural, Debug)]
pub enum TaskStatus {
    Ready,
    Running,
    Exited,
}

/// What the kernel keeps of one task.
#[derive(Clone, Copy, PartialEq, Eq, Structural, Debug)]
pub struct TaskControlBlock {
    /// Where the task's saved kernel context lies.
    pub task_cx_ptr: usize,
    pub task_status: TaskStatus,
    /// Weight of the task in stride scheduling; a larger one runs more often.
    pub task_priority: usize,
    /// Distance the task has covered in stride scheduling.
    pub task_stride: usize,
    /// When the task last began to run, in milliseconds.
    pub task_start_time: usize,
    /// Milliseconds the task has run in all.
    pub task_total_time: usize,
    pub memory_set: MemorySet,
    /// Physical page that holds the task's trap context.
    pub trap_cx_ppn: usize,
    /// Top of the task's user stack.
    pub base_size: usize,
}

/// A `port` argument of a mapping request is valid when it asks for some of
/// read, write and execute access and for nothing else.
pub open spec fn port_is_valid(port: usize) -> bool {
    port & !0x7usize == 0 && port & 0x7usize != 0
}

/// The permission of a user area that `port` asks for: user access, plus
/// read for bit 0, write for bit 1 and execute for bit 2.
pub open spec fn permission_of_port(port: usize) -> u8 {
    MAP_U | (if port & 0x1 == 0x1 {
        MAP_R
    } else {
        0u8
    }) | (if port & 0x2 == 0x2 {
        MAP_W
    } else {
        0u8
    }) | (if port & 0x4 == 0x4 {
        MAP_X
    } else {
        0u8
    })
}

/// The valid ports are 1 to 7.
pub proof fn lemma_port_is_valid(port: usize)
    ensures
        port_is_valid(port) <==> 1 <= port <= 7,
{
    assert((port & !0x7usize == 0 && port & 0x7usize != 0) <==> (1 <= port <= 7)) by (bit_vector);
}

/// For a valid port the permission bits are the port shifted one place up,
/// with the user bit set.
pub proof fn lemma_permission_of_port(port: usize)
    requires
        port_is_valid(port),
    ensures
        permission_of_port(port) == 16 + 2 * port,
{
    lemma_port_is_valid(port);
    assert((16u8 | (if port & 0x1 == 0x1 { 2u8 } else { 0u8 }) | (if port & 0x2 == 0x2 { 4u8 } else { 0u8 }) | (if port & 0x4 == 0x4 { 8u8 } else { 0u8 })) == 16 + 2 * port) by (bit_vector)
        requires
            1 <= port <= 7,
    ;
}

/// The permission for `port`, or `None` when the port is not valid.
pub fn map_permission_of_port(port: usize) -> (r: Option<MapPermission>)
    ensures
        !port_is_valid(port) ==> r is None,
        port_is_valid(port) ==> r == Some(MapPermission { bits: permission_of_port(port) }),
{
    if (port & !0x7 != 0) || (port & 0x7 == 0) {
        return None;
    }
    let read: u8 = if port & 0x1 == 0x1 {
        MAP_R
    } else {
        0
    };
    let write: u8 = if port & 0x2 == 0x2 {
        MAP_W
    } else {
        0
    };
    let execute: u8 = if port & 0x4 == 0x4 {
        MAP_X
    } else {
        0
    };
    let bits: u8 = MAP_U | read | write | execute;
    Some(MapPermission::from_bits(bits))
}

/// What loading a program gives: its address space, the top of its user
/// stack, its entry point and the physical page of its trap context.
#[derive(Clone, Copy, PartialEq, Eq, Structural, Debug)]
pub struct LoadedApp {
    pub memory_set: MemorySet,
    pub user_sp: usize,
    pub entry_point: usize,
    pub trap_cx_ppn: usize,
}

/// The kernel-side set-up of a new task.
#[derive(Clone, Copy, Debug)]
pub struct TaskSetup {
    /// The task's kernel stack, to be mapped in the kernel's address space.
    pub kernel_stack: MapRequest,
    /// The context in which the task first enters user mode, to be written
    /// to its trap-context page.
    pub trap_cx: TrapContext,
}

impl TaskControlBlock {
    /// A ready task that has not run yet, and the set-up it needs.
    ///
    /// The task runs the loaded program `app`. Its kernel stack spans
    /// `kernel_stack_bottom..kernel_stack_top`, readable and writable, and
    /// its kernel context is saved just below the top, in
    /// `task_context_size` bytes. `priority` is the priority that tasks
    /// start with. The trap context lets the task enter user mode at the
    /// program's entry point with its user stack, with `sstatus` as the
    /// status register, and leads its traps to `trap_handler` in the
    /// address space with token `kernel_satp`, on its kernel stack.
    pub fn new(
        app: LoadedApp,
        kernel_stack_bottom: usize,
        kernel_stack_top: usize,
        task_context_size: usize,
        priority: usize,
        sstatus: usize,
        kernel_satp: usize,
        trap_handler: usize,
    ) -> (r: (Self, TaskSetup))
        requires
            task_context_size <= kernel_stack_top,
        ensures
            r.0.task_cx_ptr == kernel_stack_top - task_context_size,
            r.0.task_status == TaskStatus::Ready,
            r.0.task_priority == priority,
            r.0.task_stride == 0,
            r.0.task_start_time == 0,
            r.0.task_total_time == 0,
            r.0.memory_set == app.memory_set,
            r.0.trap_cx_ppn == app.trap_cx_ppn,
            r.0.base_size == app.user_sp,
            r.1.kernel_stack == (MapRequest {
                start: kernel_stack_bottom,
                end: kernel_stack_top,
                permission: MapPermission { bits: MAP_R | MAP_W },
                exact: false,
            }),
            r.1.trap_cx.x@ == init_registers(app.user_sp),
            r.1.trap_cx.sstatus == sstatus,
            r.1.trap_cx.sepc == app.entry_point,
            r.1.trap_cx.kernel_satp == kernel_satp,
            r.1.trap_cx.kernel_sp == kernel_stack_top,
            r.1.trap_cx.trap_handler == trap_handler,
    {
        let kernel_stack = MapRequest {
            start: kernel_stack_bottom,
            end: kernel_stack_top,
            permission: MapPermission::from_bits(MAP_R | MAP_W),
            exact: false,
        };
        let task = TaskControlBlock {
            task_cx_ptr: kernel_stack_top - task_context_size,
            task_status: TaskStatus::Ready,
            task_priority: priority,
            task_stride: 0,
            task_start_time: 0,
            task_total_time: 0,
            memory_set: app.memory_set,
            trap_cx_ppn: app.trap_cx_ppn,
            base_size: app.user_sp,
        };
        let trap_cx = TrapContext::app_init_context(
            app.entry_point,
            app.user_sp,
            sstatus,
            kernel_satp,
            kernel_stack_top,
            trap_handler,
        );
        (task, TaskSetup { kernel_stack, trap_cx })
    }

    /// The token of the task's address space.
    pub fn get_user_token(&self) -> (r: usize)
        ensures
            r == self.memory_set.token,
    {
        self.memory_set.token()
    }

    /// Maps the user area `vddr` with the permission that `port` asks for.
    ///
    /// An invalid port is refused with `None` and nothing is mapped. Else
    /// `insert_framed_area` of the task's address space is called with the
    /// bounds of `vddr`, the permission and `exact`, and its answer is
    /// returned.
    pub fn add_map_area<F>(&self, vddr: Range<usize>, port: usize, exact: bool, insert_framed_area: F) -> (r:
        Option<usize>) where F: FnOnce(usize, usize, MapPermission, bool) -> Option<usize>
        requires
            port_is_valid(port) ==> call_requires(
                insert_framed_area,
                (vddr.start, vddr.end, MapPermission { bits: permission_of_port(port) }, exact),
            ),
        ensures
            !port_is_valid(port) ==> r is None,
            port_is_valid(port) ==> call_ensures(
                insert_framed_area,
                (vddr.start, vddr.end, MapPermission { bits: permission_of_port(port) }, exact),
                r,
            ),
    {
        match map_permission_of_port(port) {
            None => None,
            Some(permission) => insert_framed_area(vddr.start, vddr.end, permission, exact),
        }
    }

    /// Unmaps the user area `vddr` through `remove_framed_area` of the task's
    /// address space; returns its answer.
    pub fn remove_map_area<F>(&self, vddr: Range<usize>, remove_framed_area: F) -> (r: bool) where
        F: FnOnce(usize, usize) -> bool
        requires
            call_requires(remove_framed_area, (vddr.start, vddr.end)),
        ensures
            call_ensures(remove_framed_area, (vddr.start, vddr.end), r),
    {
        remove_framed_area(vddr.start, vddr.end)
    }
}

} // verus!
