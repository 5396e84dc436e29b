//! A verified model of a small RISC-V teaching kernel and its user library:
//! loading applications into memory, preparing the trap contexts they start
//! from, deciding what to do about traps, and scheduling tasks round robin.

pub mod batch;
pub mod console;
pub mod loader;
pub mod mem;
pub mod sbi;
pub mod syscall;
pub mod task;
pub mod timer;
pub mod trap;
pub mod up;
pub mod user;
