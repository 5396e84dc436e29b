use vstd::prelude::*;

pub mod context;

pub use context::TrapContext;

verus! {

/// The causes of a trap from user mode that the kernel tells apart.
#[derive(Clone, Copy, PartialEq, Eq, Structural, Debug)]
pub enum TrapCause {
    /// An `ecall` from user mode: a system call.
    UserEnvCall,
    /// A store access fault.
    StoreFault,
    /// A store page fault.
    StorePageFault,
    /// An illegal instruction.
    IllegalInstruction,
    /// Any other exception or interrupt.
    Other,
}

/// The trap cause that a raw `scause` value names. The top bit (`usize::BITS - 1`)
/// marks an interrupt; otherwise the value is the exception code, of which
/// 8, 7, 15 and 2 are an `ecall` from user mode, a store access fault, a
/// store page fault and an illegal instruction.
pub open spec fn scause_cause(scause: usize) -> TrapCause {
    if scause > isize::MAX {
        TrapCause::Other
    } else if scause == 8 {
        TrapCause::UserEnvCall
    } else if scause == 7 {
        TrapCause::StoreFault
    } else if scause == 15 {
        TrapCause::StorePageFault
    } else if scause == 2 {
        TrapCause::IllegalInstruction
    } else {
        TrapCause::Other
    }
}

/// Which `scause` values name which cause (the exception codes of the RISC-V
/// privileged architecture): `ecall` from user mode is exactly 8, a store
/// access fault exactly 7, a store page fault exactly 15, an illegal
/// instruction exactly 2; every other value (other exceptions, and every
/// interrupt) is `Other`.
pub proof fn lemma_scause_codes(scause: usize)
    ensures
        (scause_cause(scause) == TrapCause::UserEnvCall) == (scause == 8),
        (scause_cause(scause) == TrapCause::StoreFault) == (scause == 7),
        (scause_cause(scause) == TrapCause::StorePageFault) == (scause == 15),
        (scause_cause(scause) == TrapCause::IllegalInstruction) == (scause == 2),
        (scause_cause(scause) == TrapCause::Other) == (scause != 8 && scause != 7 && scause != 15 && scause != 2),
{
    assert(isize::MAX >= 15);
}

/// Decodes the raw value of the `scause` register into the cause of the trap.
pub fn trap_cause(scause: usize) -> (cause: TrapCause)
    ensures
        cause == scause_cause(scause),
        (cause == TrapCause::UserEnvCall) == (scause == 8),
        (cause == TrapCause::StoreFault) == (scause == 7),
        (cause == TrapCause::StorePageFault) == (scause == 15),
        (cause == TrapCause::IllegalInstruction) == (scause == 2),
        (cause == TrapCause::Other) == (scause != 8 && scause != 7 && scause != 15 && scause != 2),
{
    proof {
        lemma_scause_codes(scause);
    }
    if scause > isize::MAX as usize {
        TrapCause::Other
    } else if scause == 8 {
        TrapCause::UserEnvCall
    } else if scause == 7 {
        TrapCause::StoreFault
    } else if scause == 15 {
        TrapCause::StorePageFault
    } else if scause == 2 {
        TrapCause::IllegalInstruction
    } else {
        TrapCause::Other
    }
}

/// Why the kernel stops an application.
#[derive(Clone, Copy, PartialEq, Eq, Structural, Debug)]
pub enum KillReason {
    /// The application faulted on a store.
    PageFault,
    /// The application executed an illegal instruction.
    IllegalInstruction,
}

/// What the kernel does about a trap.
#[derive(Clone, Copy, Debug)]
pub enum TrapAction {
    /// Serve system call `id` with arguments `args`, then return to the
    /// application.
    Syscall { id: usize, args: [usize; 3] },
    /// Stop the application and run the next one.
    KillApp(KillReason),
}

/// Decides what to do about a trap of cause `cause` taken while the
/// application's registers were `cx`. For a system call the application is
/// set to resume after its `ecall` instruction (4 bytes further), and the call
/// number (`x17`) and arguments (`x10`, `x11`, `x12`) are handed out. The
/// cause must be one the kernel supports (any other stops the kernel).
pub fn trap_handler(cx: &mut TrapContext, cause: TrapCause) -> (action: TrapAction)
    requires
        cause != TrapCause::Other,
        cause == TrapCause::UserEnvCall ==> old(cx).sepc + 4 <= usize::MAX,
    ensures
        cause == TrapCause::UserEnvCall ==> {
            &&& action == TrapAction::Syscall {
                id: old(cx).x[17],
                args: [old(cx).x[10], old(cx).x[11], old(cx).x[12]],
            }
            &&& final(cx).sepc == old(cx).sepc + 4
            &&& final(cx).x == old(cx).x
            &&& final(cx).sstatus == old(cx).sstatus
        },
        cause != TrapCause::UserEnvCall ==> *final(cx) == *old(cx),
        cause == TrapCause::StoreFault || cause == TrapCause::StorePageFault ==> action
            == TrapAction::KillApp(KillReason::PageFault),
        cause == TrapCause::IllegalInstruction ==> action == TrapAction::KillApp(KillReason::IllegalInstruction),
{
    match cause {
        TrapCause::UserEnvCall => {
            cx.sepc = cx.sepc + 4;
            TrapAction::Syscall { id: cx.x[17], args: [cx.x[10], cx.x[11], cx.x[12]] }
        },
        TrapCause::StoreFault | TrapCause::StorePageFault => TrapAction::KillApp(KillReason::PageFault),
        // `TrapCause::Other` is shut out by the precondition.
        _ => TrapAction::KillApp(KillReason::IllegalInstruction),
    }
}

/// Stores the result of a system call in `x10`, where the application reads
/// it on return.
pub fn finish_syscall(cx: &mut TrapContext, ret: isize)
    ensures
        final(cx).x@ == old(cx).x@.update(10, ret as usize),
        final(cx).sstatus == old(cx).sstatus,
        final(cx).sepc == old(cx).sepc,
{
    cx.x[10] = ret as usize;
}

} // verus!
