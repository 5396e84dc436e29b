use rcore_os::console::print;
use rcore_os::sbi::{shutdown_reason, ResetReason};
use rcore_os::syscall::{decode_syscall, Syscall, SyscallError};
use rcore_os::timer::get_time_us;
use rcore_os::trap::context::TrapContext;
use rcore_os::trap::{finish_syscall, trap_cause, trap_handler, KillReason, TrapAction, TrapCause};
use rcore_os::user::{exit, sys_exit, sys_write, SYSCALL_EXIT, SYSCALL_WRITE};

#[test]
fn print_sends_each_character() {
    assert_eq!(print("Hi!\n"), vec![72, 105, 33, 10]);
    assert_eq!(print(""), Vec::<usize>::new());
    assert_eq!(print("é"), vec![0xe9]);
}

#[test]
fn shutdown_reasons() {
    assert_eq!(shutdown_reason(false), ResetReason::NoReason);
    assert_eq!(shutdown_reason(true), ResetReason::SystemFailure);
}

#[test]
fn microseconds_from_ticks() {
    assert_eq!(get_time_us(0), 0);
    assert_eq!(get_time_us(25), 2);
    assert_eq!(get_time_us(12_500_000), 1_041_666);
}

#[test]
fn app_init_context_enters_user_mode() {
    let cx = TrapContext::app_init_context(0x8040_0000, 0x9000, 0x0000_0000_0000_0122);
    assert_eq!(cx.sepc, 0x8040_0000);
    assert_eq!(cx.x[2], 0x9000);
    assert_eq!(cx.x[1], 0);
    assert_eq!(cx.sstatus, 0x22);
    // every bit but SPP is kept
    let cx = TrapContext::app_init_context(0, 0, 0x1);
    assert_eq!(cx.sstatus, 1);
    let cx = TrapContext::app_init_context(0, 0, usize::MAX);
    assert_eq!(cx.sstatus, usize::MAX - 0x100);
}

#[test]
fn set_sp_changes_only_x2() {
    let mut cx = TrapContext::app_init_context(4, 8, 0);
    cx.set_sp(16);
    assert_eq!(cx.x[2], 16);
    assert_eq!(cx.sepc, 4);
}

fn ecall_context() -> TrapContext {
    let mut cx = TrapContext::app_init_context(0x8040_0000, 0x9000, 0);
    cx.x[17] = 64;
    cx.x[10] = 1;
    cx.x[11] = 0x8040_1000;
    cx.x[12] = 5;
    cx
}

#[test]
fn ecall_becomes_a_syscall() {
    let mut cx = ecall_context();
    match trap_handler(&mut cx, TrapCause::UserEnvCall) {
        TrapAction::Syscall { id, args } => {
            assert_eq!(id, 64);
            assert_eq!(args, [1, 0x8040_1000, 5]);
        }
        other => panic!("unexpected {:?}", other),
    }
    assert_eq!(cx.sepc, 0x8040_0004);
    finish_syscall(&mut cx, -1);
    assert_eq!(cx.x[10], usize::MAX);
}

#[test]
fn faults_kill_the_app() {
    let mut cx = ecall_context();
    assert!(matches!(trap_handler(&mut cx, TrapCause::StoreFault), TrapAction::KillApp(KillReason::PageFault)));
    assert!(matches!(trap_handler(&mut cx, TrapCause::StorePageFault), TrapAction::KillApp(KillReason::PageFault)));
    assert!(matches!(
        trap_handler(&mut cx, TrapCause::IllegalInstruction),
        TrapAction::KillApp(KillReason::IllegalInstruction)
    ));
    assert_eq!(cx.sepc, 0x8040_0000);
}

#[test]
fn user_syscalls() {
    let w = sys_write(1, 0x1000, 12);
    assert_eq!((w.id, w.args), (SYSCALL_WRITE, [1, 0x1000, 12]));
    let w = rcore_os::user::write(2, 0x2000, 3);
    assert_eq!((w.id, w.args), (64, [2, 0x2000, 3]));
    let e = sys_exit(3);
    assert_eq!((e.id, e.args), (SYSCALL_EXIT, [3, 0, 0]));
    let e = exit(-1);
    assert_eq!((e.id, e.args), (93, [usize::MAX, 0, 0]));
}

#[test]
fn kernel_decodes_system_calls() {
    let w = sys_write(1, 0x1000, 12);
    assert_eq!(decode_syscall(w.id, w.args), Ok(Syscall::WriteStdout { buf: 0x1000, len: 12 }));
    let w = sys_write(2, 0x1000, 12);
    assert_eq!(decode_syscall(w.id, w.args), Err(SyscallError::UnsupportedFd(2)));
    let e = exit(-3);
    assert_eq!(decode_syscall(e.id, e.args), Ok(Syscall::Exit { exit_code: -3 }));
    assert_eq!(decode_syscall(124, [0, 0, 0]), Err(SyscallError::UnsupportedId(124)));
}

#[test]
fn scause_values_decode_to_causes() {
    assert_eq!(trap_cause(8), TrapCause::UserEnvCall);
    assert_eq!(trap_cause(7), TrapCause::StoreFault);
    assert_eq!(trap_cause(15), TrapCause::StorePageFault);
    assert_eq!(trap_cause(2), TrapCause::IllegalInstruction);
    // a load fault and a load page fault are not handled
    assert_eq!(trap_cause(5), TrapCause::Other);
    assert_eq!(trap_cause(13), TrapCause::Other);
    // interrupts (top bit set) are not handled, whatever their code
    assert_eq!(trap_cause((1usize << (usize::BITS - 1)) | 8), TrapCause::Other);
    assert_eq!(trap_cause((1usize << (usize::BITS - 1)) | 5), TrapCause::Other);
}
