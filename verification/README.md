# batch_kernel

The decision logic of a small x86_64 batch-processing kernel, verified with
Verus, and the kernel around it.

- `src/` (verified): `addr` (canonical virtual addresses, checked by the
  x86_64 crate), `context` (initial task register contexts), `keyboard`
  (scancode translation and the report/suppress decision), `memory` (the
  frame allocator over the bootloader's memory map and the pages that a
  user memory area touches), `simple_batch` (tasks, identifiers, the batch
  queue and its run: ready tasks by priority, high first, ties in the order
  added), `simple_syscall` (system-call dispatch).
- `app/` (plain Rust): the kernel entry, GDT/IDT/TSS setup, context switching
  in assembly, port I/O of the keyboard, page-table mapping, reading user
  memory for system calls, and all printing.
- `tests/`: tests of the library on concrete values.
