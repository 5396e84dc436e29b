use rcore_os::task::{
    exit_current_and_run_next, mark_current_exited, mark_current_suspended, run_first_task,
    run_next_task, suspend_current_and_run_next, TaskContext, TaskManager, TaskStatus, TaskSwitch,
};
use rcore_os::up::UPSafeCell;

fn manager(n: usize) -> TaskManager {
    let sps: Vec<usize> = (0..n).map(|i| 0x1000 * (i + 1)).collect();
    TaskManager::new(&sps, 0xdead)
}

#[test]
fn up_safe_cell_gives_exclusive_access() {
    let mut cell = UPSafeCell::new(5u32);
    *cell.exclusive_access() += 1;
    assert_eq!(*cell.exclusive_access(), 6);
}

#[test]
fn task_context_constructors() {
    let z = TaskContext::zero_init();
    assert_eq!((z.ra, z.sp, z.s), (0, 0, [0; 12]));
    let r = TaskContext::goto_restore(0x8020_0000, 0x8030_0000);
    assert_eq!((r.ra, r.sp, r.s), (0x8020_0000, 0x8030_0000, [0; 12]));
}

#[test]
fn first_task_gets_context_of_app_zero() {
    let mut tm = manager(3);
    let cx = run_first_task(&mut tm);
    assert_eq!(cx.ra, 0xdead);
    assert_eq!(cx.sp, 0x1000);
}

#[test]
fn suspend_switches_round_robin() {
    let mut tm = manager(3);
    run_first_task(&mut tm);
    assert_eq!(suspend_current_and_run_next(&mut tm), TaskSwitch { current: 0, next: 1 });
    assert_eq!(suspend_current_and_run_next(&mut tm), TaskSwitch { current: 1, next: 2 });
    assert_eq!(suspend_current_and_run_next(&mut tm), TaskSwitch { current: 2, next: 0 });
}

#[test]
fn suspend_of_only_task_resumes_it() {
    let mut tm = manager(1);
    run_first_task(&mut tm);
    assert_eq!(suspend_current_and_run_next(&mut tm), TaskSwitch { current: 0, next: 0 });
}

#[test]
fn exited_task_is_never_rescheduled() {
    let mut tm = manager(3);
    run_first_task(&mut tm);
    assert_eq!(exit_current_and_run_next(&mut tm), TaskSwitch { current: 0, next: 1 });
    assert_eq!(suspend_current_and_run_next(&mut tm), TaskSwitch { current: 1, next: 2 });
    assert_eq!(suspend_current_and_run_next(&mut tm), TaskSwitch { current: 2, next: 1 });
    assert_eq!(exit_current_and_run_next(&mut tm), TaskSwitch { current: 1, next: 2 });
    // the last task exits: nothing is left to run
    mark_current_exited(&mut tm);
    assert_eq!(tm.find_next_task(), None);
}

#[test]
fn no_apps_means_nothing_to_run() {
    let mut tm = manager(0);
    assert_eq!(tm.find_next_task(), None);
    mark_current_suspended(&mut tm);
    assert_eq!(tm.task_status(0), TaskStatus::Ready);
    assert_eq!(tm.find_next_task(), None);
}

#[test]
fn marking_without_switching() {
    let mut tm = manager(2);
    run_first_task(&mut tm);
    mark_current_suspended(&mut tm);
    assert_eq!(tm.find_next_task(), Some(1));
    mark_current_exited(&mut tm);
    assert_eq!(run_next_task(&mut tm), TaskSwitch { current: 0, next: 1 });
    assert_eq!(tm.find_next_task(), None);
}

#[test]
fn run_next_task_skips_tasks_not_ready() {
    let mut tm = manager(4);
    run_first_task(&mut tm);
    // tasks 1 and 2 exit in turn; task 3 stays ready
    assert_eq!(suspend_current_and_run_next(&mut tm), TaskSwitch { current: 0, next: 1 });
    assert_eq!(exit_current_and_run_next(&mut tm), TaskSwitch { current: 1, next: 2 });
    assert_eq!(exit_current_and_run_next(&mut tm), TaskSwitch { current: 2, next: 3 });
    assert_eq!(suspend_current_and_run_next(&mut tm), TaskSwitch { current: 3, next: 0 });
}

#[test]
fn task_context_can_be_saved() {
    let mut tm = manager(2);
    tm.task_cx_mut(1).ra = 42;
    run_first_task(&mut tm);
    suspend_current_and_run_next(&mut tm);
    assert_eq!(tm.task_cx_mut(1).ra, 42);
    assert_eq!(tm.task_cx_mut(0).sp, 0x1000);
}

#[test]
fn status_values_compare() {
    assert_eq!(TaskStatus::Ready, TaskStatus::Ready);
    assert_ne!(TaskStatus::Running, TaskStatus::Exited);
    assert_ne!(TaskStatus::UnInit, TaskStatus::Ready);
}

fn running(tm: &mut TaskManager, n: usize) -> Vec<usize> {
    (0..n).filter(|&i| tm.task_status(i) == TaskStatus::Running).collect()
}

#[test]
fn only_the_current_task_runs() {
    let mut tm = manager(3);
    assert_eq!(running(&mut tm, 16), Vec::<usize>::new());
    run_first_task(&mut tm);
    assert_eq!(running(&mut tm, 16), vec![0]);
    suspend_current_and_run_next(&mut tm);
    assert_eq!(running(&mut tm, 16), vec![1]);
    exit_current_and_run_next(&mut tm);
    assert_eq!(running(&mut tm, 16), vec![2]);
    assert_eq!(tm.task_status(0), TaskStatus::Ready);
    assert_eq!(tm.task_status(1), TaskStatus::Exited);
    assert_eq!(tm.task_status(3), TaskStatus::UnInit);
}

#[test]
fn exited_tasks_stay_exited() {
    let mut tm = manager(3);
    run_first_task(&mut tm);
    exit_current_and_run_next(&mut tm);
    for _ in 0..4 {
        suspend_current_and_run_next(&mut tm);
        assert_eq!(tm.task_status(0), TaskStatus::Exited);
    }
}

#[test]
fn a_ready_task_runs_within_n_minus_one_suspensions() {
    let mut tm = manager(4);
    run_first_task(&mut tm);
    let mut steps = 0;
    loop {
        steps += 1;
        if suspend_current_and_run_next(&mut tm).next == 3 {
            break;
        }
    }
    assert_eq!(steps, 3);
    assert_eq!(tm.task_status(3), TaskStatus::Running);
}

fn exited_count(tm: &mut TaskManager) -> usize {
    (0..16).filter(|&i| tm.task_status(i) == TaskStatus::Exited).count()
}

#[test]
fn each_exit_adds_one_exited_task() {
    let mut tm = manager(3);
    run_first_task(&mut tm);
    assert_eq!(exited_count(&mut tm), 0);
    exit_current_and_run_next(&mut tm);
    assert_eq!(exited_count(&mut tm), 1);
    suspend_current_and_run_next(&mut tm);
    assert_eq!(exited_count(&mut tm), 1);
    exit_current_and_run_next(&mut tm);
    assert_eq!(exited_count(&mut tm), 2);
}
