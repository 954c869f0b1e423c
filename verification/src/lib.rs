//! The decision logic of a small batch-processing x86_64 kernel: task
//! bookkeeping and the batch scheduler, the frame allocator over the
//! bootloader's memory map, keyboard scancode handling, system-call
//! dispatch and the initial register contexts of tasks.
pub mod addr;
pub mod context;
pub mod keyboard;
pub mod memory;
pub mod simple_batch;
pub mod simple_syscall;
