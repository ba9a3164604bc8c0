use vstd::prelude::*;

pub mod config;
pub mod fs;
pub mod logging;
pub mod mm;
pub mod syscall;
pub mod task;
pub mod trap;

verus! {

} // verus!
