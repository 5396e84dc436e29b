use vstd::prelude::*;
use crate::user::{SYSCALL_EXIT, SYSCALL_WRITE};

verus! {

/// The file descriptor of standard output.
pub const FD_STDOUT: usize = 1;

/// A system call the kernel serves.
#[derive(Clone, Copy, PartialEq, Eq, Structural, Debug)]
pub enum Syscall {
    /// Print the `len` bytes at address `buf` on the console.
    WriteStdout { buf: usize, len: usize },
    /// End the current application with `exit_code`.
    Exit { exit_code: i32 },
}

/// Why the kernel refuses a system call (it then stops).
#[derive(Clone, Copy, PartialEq, Eq, Structural, Debug)]
pub enum SyscallError {
    /// `write` to a file other than standard output.
    UnsupportedFd(usize),
    /// An unknown system call number.
    UnsupportedId(usize),
}

/// The system call that number `id` with arguments `args` asks for.
pub open spec fn decoded(id: usize, args: Seq<usize>) -> Result<Syscall, SyscallError> {
    if id == SYSCALL_WRITE {
        if args[0] == FD_STDOUT {
            Ok(Syscall::WriteStdout { buf: args[1], len: args[2] })
        } else {
            Err(SyscallError::UnsupportedFd(args[0]))
        }
    } else if id == SYSCALL_EXIT {
        Ok(Syscall::Exit { exit_code: args[0] as i32 })
    } else {
        Err(SyscallError::UnsupportedId(id))
    }
}

/// Decodes system call `id` with arguments `args` (registers `x10`..`x12`):
/// `write` to standard output and `exit` are served, anything else refused.
pub fn decode_syscall(id: usize, args: [usize; 3]) -> (r: Result<Syscall, SyscallError>)
    ensures
        r == decoded(id, args@),
        (r == Ok::<Syscall, SyscallError>(Syscall::WriteStdout { buf: args[1], len: args[2] })) == (id == 64 && args[0] == 1),
        (r == Err::<Syscall, SyscallError>(SyscallError::UnsupportedFd(args[0]))) == (id == 64 && args[0] != 1),
        (r == Ok::<Syscall, SyscallError>(Syscall::Exit { exit_code: args[0] as i32 })) == (id == 93),
        (r == Err::<Syscall, SyscallError>(SyscallError::UnsupportedId(id))) == (id != 64 && id != 93),
{
    proof {
        lemma_decoded_cases(id, args@);
    }
    if id == SYSCALL_WRITE {
        if args[0] == FD_STDOUT {
            Ok(Syscall::WriteStdout { buf: args[1], len: args[2] })
        } else {
            Err(SyscallError::UnsupportedFd(args[0]))
        }
    } else if id == SYSCALL_EXIT {
        Ok(Syscall::Exit { exit_code: args[0] as i32 })
    } else {
        Err(SyscallError::UnsupportedId(id))
    }
}

/// How each system call is decoded: `write` (number 64) to standard output
/// (descriptor 1) prints the buffer `x11`/`x12`; `write` to any other file is
/// refused with that descriptor; `exit` (number 93) ends the application with
/// the low 32 bits of `x10`; any other number is refused with that number.
pub proof fn lemma_decoded_cases(id: usize, args: Seq<usize>)
    requires
        args.len() == 3,
    ensures
        (decoded(id, args) == Ok::<Syscall, SyscallError>(Syscall::WriteStdout { buf: args[1], len: args[2] }))
            == (id == 64 && args[0] == 1),
        (decoded(id, args) == Err::<Syscall, SyscallError>(SyscallError::UnsupportedFd(args[0]))) == (id == 64
            && args[0] != 1),
        (decoded(id, args) == Ok::<Syscall, SyscallError>(Syscall::Exit { exit_code: args[0] as i32 })) == (id == 93),
        (decoded(id, args) == Err::<Syscall, SyscallError>(SyscallError::UnsupportedId(id))) == (id != 64 && id != 93),
{
}

/// The kernel reads back what the user library sends: a `write` to standard
/// output and an `exit` with any code decode to themselves.
pub proof fn lemma_decode_inverts_user_requests(buf: usize, len: usize, exit_code: i32)
    ensures
        decoded(SYSCALL_WRITE, seq![FD_STDOUT, buf, len]) == Ok::<Syscall, SyscallError>(Syscall::WriteStdout { buf, len }),
        decoded(SYSCALL_EXIT, seq![exit_code as usize, 0usize, 0usize]) == Ok::<Syscall, SyscallError>(Syscall::Exit { exit_code }),
{
    assert((exit_code as usize) as i32 == exit_code) by (bit_vector);
}

} // verus!
