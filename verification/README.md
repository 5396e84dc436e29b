# rcore_os

A verified model of a small RISC-V teaching kernel (batch loading and a
cooperative round-robin scheduler) and of its user library.

- `src/` — the library, with its contracts and proofs:
  - `mem`: a stretch of physical memory; clearing and copying bytes; `clear_bss`.
  - `batch`: the application table, loading one application at the run
    address, kernel and user stacks, and `run_next_app`.
  - `loader`: loading every application into its own region; initial trap
    contexts.
  - `task`: task contexts, statuses and the task manager with its round-robin
    choice of the next task.
  - `trap`: trap contexts and the decision taken for each trap.
  - `syscall`: decoding the system calls the kernel serves.
  - `console`, `sbi`, `timer`, `up`, `user`: console output, shutdown reason,
    time conversion, the exclusive-access cell, and system-call requests.
- `app/` — the kernel around the library: registers, SBI calls, raw memory,
  global state, context switches.
- `tests/` — tests of the library on concrete values.
