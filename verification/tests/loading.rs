use rcore_os::batch::{
    run_next_app, AppManager, KernelStack, UserStack, APP_BASE_ADDRESS, APP_SIZE_LIMIT,
    KERNEL_STACK_SIZE, USER_STACK_SIZE,
};
use rcore_os::loader::{get_base_i, init_app_cx, load_apps};
use rcore_os::mem::{clear_bss, PhysMem};

/// Memory from 0x8020_0000 to past the regions of three applications, with
/// every byte set to 0xff.
fn memory() -> PhysMem {
    let base = 0x8020_0000usize;
    let len = APP_BASE_ADDRESS + 3 * APP_SIZE_LIMIT - base;
    PhysMem { base, bytes: vec![0xff; len] }
}

fn put(mem: &mut PhysMem, addr: usize, data: &[u8]) {
    let off = addr - mem.base;
    mem.bytes[off..off + data.len()].copy_from_slice(data);
}

fn at(mem: &PhysMem, addr: usize) -> u8 {
    mem.bytes[addr - mem.base]
}

#[test]
fn fill_zero_and_copy() {
    let mut mem = PhysMem { base: 100, bytes: vec![1, 2, 3, 4, 5, 6] };
    mem.fill_zero(101, 2);
    assert_eq!(mem.bytes, vec![1, 0, 0, 4, 5, 6]);
    mem.copy_bytes(103, 100, 3);
    assert_eq!(mem.bytes, vec![4, 5, 6, 4, 5, 6]);
}

#[test]
fn overlapping_copy_reads_old_bytes() {
    let mut mem = PhysMem { base: 0, bytes: vec![1, 2, 3, 4, 5] };
    mem.copy_bytes(0, 1, 4);
    assert_eq!(mem.bytes, vec![1, 1, 2, 3, 4]);
}

#[test]
fn clear_bss_zeroes_exactly_the_section() {
    let mut mem = PhysMem { base: 0x10, bytes: vec![9; 8] };
    clear_bss(&mut mem, 0x12, 0x15);
    assert_eq!(mem.bytes, vec![9, 9, 0, 0, 0, 9, 9, 9]);
    clear_bss(&mut mem, 0x17, 0x17);
    assert_eq!(mem.bytes, vec![9, 9, 0, 0, 0, 9, 9, 9]);
}

#[test]
fn base_addresses_of_apps() {
    assert_eq!(get_base_i(0), 0x8040_0000);
    assert_eq!(get_base_i(1), 0x8042_0000);
    assert_eq!(get_base_i(5), 0x804a_0000);
}

#[test]
fn load_apps_places_each_app_in_its_region() {
    let mut mem = memory();
    let starts = [0x8020_0000usize, 0x8020_0003, 0x8020_0003, 0x8020_0005];
    put(&mut mem, 0x8020_0000, &[1, 2, 3, 4, 5]);
    load_apps(&mut mem, &starts);
    assert_eq!(at(&mem, get_base_i(0)), 1);
    assert_eq!(at(&mem, get_base_i(0) + 2), 3);
    assert_eq!(at(&mem, get_base_i(0) + 3), 0);
    assert_eq!(at(&mem, get_base_i(1)), 0);
    assert_eq!(at(&mem, get_base_i(2)), 4);
    assert_eq!(at(&mem, get_base_i(2) + 1), 5);
    assert_eq!(at(&mem, get_base_i(2) + APP_SIZE_LIMIT - 1), 0);
    // outside the regions nothing changes
    assert_eq!(at(&mem, 0x8020_0006), 0xff);
    assert_eq!(at(&mem, 0x8020_0000), 1);
}

#[test]
fn loading_twice_changes_nothing() {
    let mut mem = memory();
    let starts = [0x8020_0000usize, 0x8020_0003, 0x8020_0005];
    put(&mut mem, 0x8020_0000, &[1, 2, 3, 4, 5]);
    load_apps(&mut mem, &starts);
    let once = mem.bytes.clone();
    load_apps(&mut mem, &starts);
    assert!(once == mem.bytes);
}

#[test]
fn user_clear_bss_does_nothing_on_an_empty_or_reversed_range() {
    let mut mem = PhysMem { base: 0x10, bytes: vec![9; 4] };
    rcore_os::user::clear_bss(&mut mem, 0x13, 0x11);
    assert_eq!(mem.bytes, vec![9; 4]);
    rcore_os::user::clear_bss(&mut mem, 0x11, 0x13);
    assert_eq!(mem.bytes, vec![9, 0, 0, 9]);
}

#[test]
fn app_manager_reads_the_table() {
    let am = AppManager::new(2, &[10, 20, 35]);
    assert_eq!(am.get_num_app(), 2);
    assert_eq!(am.get_current_app(), 0);
    assert_eq!(am.get_app_start(1), 20);
    assert_eq!(am.get_app_start(2), 35);
    assert_eq!(am.get_app_start(3), 0);
}

#[test]
fn load_app_replaces_the_region() {
    let mut mem = memory();
    put(&mut mem, 0x8020_0010, &[7, 8, 9]);
    let am = AppManager::new(1, &[0x8020_0010, 0x8020_0013]);
    am.load_app(&mut mem, 0);
    assert_eq!(at(&mem, APP_BASE_ADDRESS), 7);
    assert_eq!(at(&mem, APP_BASE_ADDRESS + 2), 9);
    assert_eq!(at(&mem, APP_BASE_ADDRESS + 3), 0);
    assert_eq!(at(&mem, APP_BASE_ADDRESS + APP_SIZE_LIMIT - 1), 0);
    assert_eq!(at(&mem, APP_BASE_ADDRESS + APP_SIZE_LIMIT), 0xff);
}

#[test]
fn stacks_and_pushed_context() {
    let ks = KernelStack { base: 0x8100_0000 };
    let us = UserStack { base: 0x8200_0000 };
    assert_eq!(ks.get_sp(), 0x8100_0000 + KERNEL_STACK_SIZE);
    assert_eq!(us.get_sp(), 0x8200_0000 + USER_STACK_SIZE);
    let p = init_app_cx(1, &ks, &us, 0x100);
    assert_eq!(p.addr, ks.get_sp() - std::mem::size_of::<rcore_os::trap::TrapContext>());
    assert_eq!(p.cx.sepc, get_base_i(1));
    assert_eq!(p.cx.x[2], us.get_sp());
    assert_eq!(p.cx.sstatus, 0);
}

#[test]
fn run_next_app_runs_apps_in_order_then_stops() {
    let mut mem = memory();
    put(&mut mem, 0x8020_0000, &[1, 2, 3]);
    let mut am = AppManager::new(2, &[0x8020_0000, 0x8020_0002, 0x8020_0003]);
    let ks = KernelStack { base: 0x8100_0000 };
    let us = UserStack { base: 0x8200_0000 };
    let p = run_next_app(&mut am, &mut mem, &ks, &us, 0x122);
    assert_eq!(at(&mem, APP_BASE_ADDRESS), 1);
    assert_eq!(at(&mem, APP_BASE_ADDRESS + 1), 2);
    assert_eq!(at(&mem, APP_BASE_ADDRESS + 2), 0);
    assert_eq!(p.cx.sepc, APP_BASE_ADDRESS);
    assert_eq!(p.cx.sstatus, 0x22);
    assert_eq!(am.get_current_app(), 1);
    run_next_app(&mut am, &mut mem, &ks, &us, 0);
    assert_eq!(at(&mem, APP_BASE_ADDRESS), 3);
    assert_eq!(at(&mem, APP_BASE_ADDRESS + 1), 0);
    assert_eq!(am.get_current_app(), 2);
}

#[test]
fn empty_image_inside_a_region_loads_as_zeros() {
    let mut mem = memory();
    // one empty application whose bounds lie inside its own load region
    let starts = [APP_BASE_ADDRESS + 0x10, APP_BASE_ADDRESS + 0x10];
    load_apps(&mut mem, &starts);
    assert_eq!(at(&mem, get_base_i(0)), 0);
    assert_eq!(at(&mem, get_base_i(0) + 0x10), 0);
    assert_eq!(at(&mem, get_base_i(0) + APP_SIZE_LIMIT - 1), 0);
    assert_eq!(at(&mem, get_base_i(0) + APP_SIZE_LIMIT), 0xff);
}
