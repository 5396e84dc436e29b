use vstd::prelude::*;
use crate::mem::{PhysMem, zero_range};

verus! {

/// The system call number of `write`.
pub const SYSCALL_WRITE: usize = 64;
/// The system call number of `exit`.
pub const SYSCALL_EXIT: usize = 93;

/// A system call as an application issues it: the call number goes in
/// register `x17`, the arguments in `x10`, `x11` and `x12`.
#[derive(Clone, Copy, Debug)]
pub struct SyscallRequest {
    pub id: usize,
    pub args: [usize; 3],
}

/// The `write` system call: write the `buffer_len` bytes at `buffer_addr` to
/// the file `fd`. The kernel answers with the number of bytes written.
pub fn sys_write(fd: usize, buffer_addr: usize, buffer_len: usize) -> (req: SyscallRequest)
    ensures
        req.id == SYSCALL_WRITE,
        req.id == 64,
        req.args@ == seq![fd, buffer_addr, buffer_len],
{
    SyscallRequest { id: SYSCALL_WRITE, args: [fd, buffer_addr, buffer_len] }
}

/// The `exit` system call: end the application with `exit_code`, passed
/// sign-extended in a register.
pub fn sys_exit(exit_code: i32) -> (req: SyscallRequest)
    ensures
        req.id == SYSCALL_EXIT,
        req.id == 93,
        req.args@ == seq![exit_code as usize, 0usize, 0usize],
{
    SyscallRequest { id: SYSCALL_EXIT, args: [exit_code as usize, 0, 0] }
}

/// Writes the `buffer_len` bytes at `buffer_addr` to file `fd`.
pub fn write(fd: usize, buffer_addr: usize, buffer_len: usize) -> (req: SyscallRequest)
    ensures
        req.id == SYSCALL_WRITE,
        req.id == 64,
        req.args@ == seq![fd, buffer_addr, buffer_len],
{
    sys_write(fd, buffer_addr, buffer_len)
}

/// Ends the application with `exit_code`.
pub fn exit(exit_code: i32) -> (req: SyscallRequest)
    ensures
        req.id == SYSCALL_EXIT,
        req.id == 93,
        req.args@ == seq![exit_code as usize, 0usize, 0usize],
{
    sys_exit(exit_code)
}

/// Zeroes an application's uninitialised-data section, the addresses from
/// `start` up to (not including) `end`; nothing when `end <= start`.
pub fn clear_bss(mem: &mut PhysMem, start: usize, end: usize)
    requires
        start < end ==> old(mem).covers(start as int, end - start),
    ensures
        final(mem).base == old(mem).base,
        final(mem).bytes@ == zero_range(old(mem).bytes@, start - old(mem).base, end - start),
{
    if start < end {
        mem.fill_zero(start, end - start);
    } else {
        assert(mem.bytes@ =~= zero_range(mem.bytes@, start - mem.base, end - start));
    }
}

} // verus!
