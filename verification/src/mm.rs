//! The parts of the memory subsystem that the task and file logic read:
//! user buffers (flattened to their bytes), the mapping permissions of a
//! user area, and the address-space token of a task.
use vstd::prelude::*;

verus! {

/// The bytes of a user buffer, in the order in which the buffer's pages
/// follow one another.
pub struct UserBuffer {
    pub data: Vec<u8>,
}

impl View for UserBuffer {
    type V = Seq<u8>;

    open spec fn view(&self) -> Seq<u8> {
        self.data@
    }
}

impl UserBuffer {
    pub fn new(data: Vec<u8>) -> (r: Self)
        ensures
            r@ == data@,
    {
        UserBuffer { data }
    }

    pub fn len(&self) -> (r: usize)
        ensures
            r == self@.len(),
    {
        self.data.len()
    }
}

/// Permission bits of a mapped user area.
#[derive(Clone, Copy, PartialEq, Eq, Structural, Debug)]
pub struct MapPermission {
    pub bits: u8,
}

/// Readable.
pub const MAP_R: u8 = 2;

/// Writable.
pub const MAP_W: u8 = 4;

/// Executable.
pub const MAP_X: u8 = 8;

/// Accessible from user mode.
pub const MAP_U: u8 = 16;

impl MapPermission {
    pub fn from_bits(bits: u8) -> (r: Self)
        ensures
            r.bits == bits,
    {
        MapPermission { bits }
    }

    pub fn contains(&self, flag: u8) -> (r: bool)
        ensures
            r == (self.bits & flag == flag),
    {
        self.bits & flag == flag
    }
}

/// A request to map the area `start..end` with `permission`, made with the
/// `exact` argument of the address space's `insert_framed_area`.
#[derive(Clone, Copy, PartialEq, Eq, Structural, Debug)]
pub struct MapRequest {
    pub start: usize,
    pub end: usize,
    pub permission: MapPermission,
    pub exact: bool,
}

/// The address space of a task, as far as the task logic reads it.
#[derive(Clone, Copy, PartialEq, Eq, Structural, Debug)]
pub struct MemorySet {
    /// The value that selects this address space in the `satp` register.
    pub token: usize,
}

impl MemorySet {
    pub fn token(&self) -> (r: usize)
        ensures
            r == self.token,
    {
        self.token
    }
}

} // verus!
