use vstd::prelude::*;
use crate::batch::{APP_BASE_ADDRESS, APP_SIZE_LIMIT, MAX_APP_NUM, KernelStack, UserStack, PushedContext, load_image};
use crate::mem::PhysMem;
use crate::trap::context::{TrapContext, SSTATUS_SPP};

verus! {

/// The address at which application `i` is loaded and run: each application
/// has its own `APP_SIZE_LIMIT`-byte region above `APP_BASE_ADDRESS`.
pub open spec fn app_base(i: int) -> int {
    APP_BASE_ADDRESS + i * APP_SIZE_LIMIT
}

/// The first application is loaded at `0x80400000`, and each further one
/// `0x20000` bytes (one region) higher.
pub proof fn lemma_app_base_steps(i: int)
    ensures
        app_base(0) == 0x80400000,
        app_base(i + 1) == app_base(i) + 0x20000,
{
}

/// The load address of application `app_id`.
pub fn get_base_i(app_id: usize) -> (base: usize)
    requires
        app_base(app_id as int) <= usize::MAX,
    ensures
        base == app_base(app_id as int),
{
    APP_BASE_ADDRESS + app_id * APP_SIZE_LIMIT
}

/// Memory `s` (starting at `mem_base`) after application `i`, whose image
/// lies from `starts[i]` to `starts[i + 1]`, is loaded into its region.
pub open spec fn load_one(s: Seq<u8>, mem_base: int, starts: Seq<usize>, i: int) -> Seq<u8> {
    load_image(s, mem_base, starts[i] as int, starts[i + 1] - starts[i], app_base(i))
}

/// Memory `s` after applications `0..k` are loaded, one after another.
pub open spec fn loaded_apps(s: Seq<u8>, mem_base: int, starts: Seq<usize>, k: nat) -> Seq<u8>
    decreases k,
{
    if k == 0 {
        s
    } else {
        load_one(loaded_apps(s, mem_base, starts, (k - 1) as nat), mem_base, starts, k - 1)
    }
}

/// Whether the applications whose bounds are `starts` can all be loaded
/// into `mem`: each has ordered bounds, and its image and region are held.
pub open spec fn can_load_all(mem: PhysMem, starts: Seq<usize>) -> bool {
    &&& mem.wf()
    &&& starts.len() >= 1
    &&& forall|i: int| 0 <= i < starts.len() - 1 ==> {
        &&& #[trigger] starts[i] <= starts[i + 1]
        &&& mem.covers(app_base(i), APP_SIZE_LIMIT as int)
        &&& mem.covers(starts[i] as int, starts[i + 1] - starts[i])
        &&& mem.covers(app_base(i), starts[i + 1] - starts[i])
    }
}

/// Loads every application into its own region of `mem`: application `i`,
/// whose image lies from `app_start[i]` to `app_start[i + 1]`, has the
/// `APP_SIZE_LIMIT` bytes at its load address cleared and its image copied
/// there, in the order of the applications.
pub fn load_apps(mem: &mut PhysMem, app_start: &[usize])
    requires
        can_load_all(*old(mem), app_start@),
    ensures
        final(mem).base == old(mem).base,
        final(mem).bytes@ == loaded_apps(
            old(mem).bytes@,
            old(mem).base as int,
            app_start@,
            (app_start@.len() - 1) as nat,
        ),
{
    let num_app = app_start.len() - 1;
    let mut i: usize = 0;
    while i < num_app
        invariant
            num_app == app_start@.len() - 1,
            i <= num_app,
            mem.base == old(mem).base,
            mem.bytes@.len() == old(mem).bytes@.len(),
            can_load_all(*old(mem), app_start@),
            mem.bytes@ == loaded_apps(old(mem).bytes@, old(mem).base as int, app_start@, i as nat),
        decreases num_app - i,
    {
        assert(app_start@[i as int] <= app_start@[i + 1]);
        assert(old(mem).covers(app_base(i as int), APP_SIZE_LIMIT as int));
        let base_i = get_base_i(i);
        mem.fill_zero(base_i, APP_SIZE_LIMIT);
        let size = app_start[i + 1] - app_start[i];
        mem.copy_bytes(app_start[i], base_i, size);
        i += 1;
    }
}

/// The trap context from which application `app_id` starts: at its load
/// address, on its user stack, in user mode; placed on its kernel stack.
pub fn init_app_cx(app_id: usize, kernel_stack: &KernelStack, user_stack: &UserStack, sstatus: usize) -> (p: PushedContext)
    requires
        app_id < MAX_APP_NUM,
        kernel_stack.base + crate::batch::KERNEL_STACK_SIZE <= usize::MAX,
        size_of::<TrapContext>() <= kernel_stack.base + crate::batch::KERNEL_STACK_SIZE,
        user_stack.base + crate::batch::USER_STACK_SIZE <= usize::MAX,
    ensures
        p.addr == kernel_stack.base + crate::batch::KERNEL_STACK_SIZE - size_of::<TrapContext>(),
        p.cx.sepc == app_base(app_id as int),
        p.cx.x[2] == user_stack.base + crate::batch::USER_STACK_SIZE,
        forall|i: int| 0 <= i < 32 && i != 2 ==> #[trigger] p.cx.x[i] == 0,
        p.cx.sstatus == sstatus & !SSTATUS_SPP,
{
    let cx = TrapContext::app_init_context(get_base_i(app_id), user_stack.get_sp(), sstatus);
    kernel_stack.push_context(cx)
}

/// The images of applications `0..n` (bounds `starts`) fit their regions, and
/// both the images and the regions lie in the memory `s` starting at
/// `mem_base`, with no (non-empty) image inside the regions.
pub open spec fn apps_fit_apart(s: Seq<u8>, mem_base: int, starts: Seq<usize>) -> bool {
    let n = starts.len() - 1;
    &&& starts.len() >= 1
    &&& mem_base <= APP_BASE_ADDRESS
    &&& app_base(n) <= mem_base + s.len()
    &&& forall|i: int| 0 <= i < n ==> {
        &&& #[trigger] starts[i] <= starts[i + 1]
        &&& starts[i + 1] - starts[i] <= APP_SIZE_LIMIT
        &&& mem_base <= starts[i]
        &&& starts[i + 1] <= mem_base + s.len()
        &&& (starts[i + 1] <= APP_BASE_ADDRESS || app_base(n) <= starts[i] || starts[i] == starts[i + 1])
    }
}

/// Loading places each application in its own region: when every image fits
/// its region and every non-empty image lies outside all regions, after all applications are
/// loaded the region of application `i` holds its image followed by zeros,
/// and memory outside the regions is as it was.
pub proof fn lemma_load_apps_places_each_app(s: Seq<u8>, mem_base: int, starts: Seq<usize>)
    requires
        apps_fit_apart(s, mem_base, starts),
    ensures
        ({
            let n = starts.len() - 1;
            let r = loaded_apps(s, mem_base, starts, n as nat);
            &&& r.len() == s.len()
            &&& forall|i: int, j: int|
                0 <= i < n && 0 <= j < APP_SIZE_LIMIT ==> #[trigger] r[app_base(i) + j - mem_base] == if j < starts[i + 1] - starts[i] {
                    s[starts[i] + j - mem_base]
                } else {
                    0u8
                }
            &&& forall|a: int|
                0 <= a < s.len() && !(APP_BASE_ADDRESS <= mem_base + a < app_base(n)) ==> #[trigger] r[a] == s[a]
        }),
{
    let n = starts.len() - 1;
    lemma_loaded_prefix(s, mem_base, starts, n as nat);
}

proof fn lemma_loaded_prefix(s: Seq<u8>, mem_base: int, starts: Seq<usize>, k: nat)
    requires
        apps_fit_apart(s, mem_base, starts),
        k <= starts.len() - 1,
    ensures
        ({
            let r = loaded_apps(s, mem_base, starts, k);
            &&& r.len() == s.len()
            &&& forall|i: int, j: int|
                0 <= i < k && 0 <= j < APP_SIZE_LIMIT ==> #[trigger] r[app_base(i) + j - mem_base] == if j < starts[i + 1] - starts[i] {
                    s[starts[i] + j - mem_base]
                } else {
                    0u8
                }
            &&& forall|a: int|
                0 <= a < s.len() && !(APP_BASE_ADDRESS <= mem_base + a < app_base(k as int)) ==> #[trigger] r[a] == s[a]
        }),
    decreases k,
{
    let n = starts.len() - 1;
    if k > 0 {
        let k1 = (k - 1) as nat;
        lemma_loaded_prefix(s, mem_base, starts, k1);
        let prev = loaded_apps(s, mem_base, starts, k1);
        let r = loaded_apps(s, mem_base, starts, k);
        let i0 = k1 as int;
        assert(starts[i0] <= starts[i0 + 1]);
        let src = starts[i0] as int;
        let size = starts[i0 + 1] - starts[i0];
        let dst = app_base(i0);
        assert(app_base(k as int) == dst + APP_SIZE_LIMIT);
        assert(app_base(k as int) <= app_base(n));
        assert(r == load_one(prev, mem_base, starts, i0));
        assert forall|i: int, j: int|
            0 <= i < k && 0 <= j < APP_SIZE_LIMIT implies #[trigger] r[app_base(i) + j - mem_base] == if j < starts[i + 1] - starts[i] {
                s[starts[i] + j - mem_base]
            } else {
                0u8
            } by {
            if i < i0 {
                assert(app_base(i) + APP_SIZE_LIMIT <= dst);
                assert(prev[app_base(i) + j - mem_base] == if j < starts[i + 1] - starts[i] {
                    s[starts[i] + j - mem_base]
                } else {
                    0u8
                });
            } else {
                assert(i == i0);
                if j < size {
                    let a = src + j - mem_base;
                    assert(starts[i0 + 1] <= APP_BASE_ADDRESS || app_base(n) <= starts[i0] || starts[i0] == starts[i0 + 1]);
                    assert(!(APP_BASE_ADDRESS <= mem_base + a < app_base(k1 as int)));
                    assert(prev[a] == s[a]);
                }
            }
        }
    }
}

/// Loading is idempotent: when every image fits its region and each non-empty one lies outside
/// all regions, loading all applications a second time leaves memory as the
/// first loading left it.
pub proof fn lemma_load_apps_twice(s: Seq<u8>, mem_base: int, starts: Seq<usize>)
    requires
        apps_fit_apart(s, mem_base, starts),
    ensures
        ({
            let n = (starts.len() - 1) as nat;
            loaded_apps(loaded_apps(s, mem_base, starts, n), mem_base, starts, n) == loaded_apps(s, mem_base, starts, n)
        }),
{
    let n = starts.len() - 1;
    let r = loaded_apps(s, mem_base, starts, n as nat);
    lemma_load_apps_places_each_app(s, mem_base, starts);
    assert(apps_fit_apart(r, mem_base, starts));
    let r2 = loaded_apps(r, mem_base, starts, n as nat);
    lemma_load_apps_places_each_app(r, mem_base, starts);
    assert forall|a: int| 0 <= a < r.len() implies r2[a] == r[a] by {
        if APP_BASE_ADDRESS <= mem_base + a < app_base(n) {
            let off = mem_base + a - APP_BASE_ADDRESS;
            vstd::arithmetic::div_mod::lemma_fundamental_div_mod(off, APP_SIZE_LIMIT as int);
            vstd::arithmetic::div_mod::lemma_mod_bound(off, APP_SIZE_LIMIT as int);
            let i = off / APP_SIZE_LIMIT as int;
            let j = off % APP_SIZE_LIMIT as int;
            assert(0 <= i < n);
            assert(app_base(i) + j - mem_base == a);
            assert(starts[i] <= starts[i + 1]);
            if j < starts[i + 1] - starts[i] {
                let b = starts[i] + j - mem_base;
                assert(starts[i + 1] <= APP_BASE_ADDRESS || app_base(n) <= starts[i] || starts[i] == starts[i + 1]);
                assert(!(APP_BASE_ADDRESS <= mem_base + b < app_base(n)));
                assert(r[b] == s[b]);
                assert(r2[app_base(i) + j - mem_base] == r[b]);
                assert(r[app_base(i) + j - mem_base] == s[b]);
            } else {
                assert(r2[app_base(i) + j - mem_base] == 0u8);
                assert(r[app_base(i) + j - mem_base] == 0u8);
            }
        }
    }
    assert(r2 =~= r);
}

} // verus!
