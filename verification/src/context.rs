//! The register context of a task: what the kernel loads into the CPU when it
//! switches to the task.
use vstd::prelude::*;
use crate::addr::VirtAddr;

verus! {

/// Bit 9 of RFLAGS: interrupts are enabled.
pub const INTERRUPT_FLAG: u64 = 0x200;

/// Selector of the kernel code segment.
pub const KERNEL_CODE_SELECTOR: u64 = 0x8;

/// Selector of the kernel data segment.
pub const KERNEL_DATA_SELECTOR: u64 = 0x10;

/// Selector of the user code segment: GDT entry 3, requested privilege
/// level 3.
pub const USER_CODE_SELECTOR: u64 = 0x1b;

/// Selector of the user data segment: GDT entry 4, requested privilege
/// level 3.
pub const USER_DATA_SELECTOR: u64 = 0x23;

/// Calls `RFlags::INTERRUPT_FLAG.bits()` of the x86_64 crate, which its
/// source defines as `1 << 9`.
#[verifier::external_body]
fn interrupt_flag_bits() -> (r: u64)
    ensures
        r == INTERRUPT_FLAG,
{
    x86_64::registers::rflags::RFlags::INTERRUPT_FLAG.bits()
}

/// All general-purpose registers, the instruction and stack pointers, the
/// flags and the code and stack segment selectors of a task.
#[derive(Debug, Clone, Copy)]
pub struct TaskContext {
    pub rax: u64,
    pub rbx: u64,
    pub rcx: u64,
    pub rdx: u64,
    pub rsi: u64,
    pub rdi: u64,
    pub rbp: u64,
    pub r8: u64,
    pub r9: u64,
    pub r10: u64,
    pub r11: u64,
    pub r12: u64,
    pub r13: u64,
    pub r14: u64,
    pub r15: u64,
    pub rip: u64,
    pub rsp: u64,
    pub rflags: u64,
    pub cs: u64,
    pub ss: u64,
}

/// A context with every general-purpose register zero, the given
/// instruction and stack pointers, interrupts enabled and the given
/// segment selectors.
pub open spec fn fresh_context(rip: u64, rsp: u64, cs: u64, ss: u64) -> TaskContext {
    TaskContext {
        rax: 0,
        rbx: 0,
        rcx: 0,
        rdx: 0,
        rsi: 0,
        rdi: 0,
        rbp: 0,
        r8: 0,
        r9: 0,
        r10: 0,
        r11: 0,
        r12: 0,
        r13: 0,
        r14: 0,
        r15: 0,
        rip,
        rsp,
        rflags: INTERRUPT_FLAG,
        cs,
        ss,
    }
}

/// Every general-purpose register of `c` (rax to r15, rbp included) is 0.
pub open spec fn general_registers_zero(c: TaskContext) -> bool {
    &&& c.rax == 0
    &&& c.rbx == 0
    &&& c.rcx == 0
    &&& c.rdx == 0
    &&& c.rsi == 0
    &&& c.rdi == 0
    &&& c.rbp == 0
    &&& c.r8 == 0
    &&& c.r9 == 0
    &&& c.r10 == 0
    &&& c.r11 == 0
    &&& c.r12 == 0
    &&& c.r13 == 0
    &&& c.r14 == 0
    &&& c.r15 == 0
}

/// A fresh context starts with every general-purpose register 0, whatever
/// instruction and stack pointers and segments it is given; it holds the
/// given pointers and segments, and has interrupts enabled (RFLAGS 0x200).
pub proof fn lemma_fresh_context_registers(rip: u64, rsp: u64, cs: u64, ss: u64)
    ensures
        general_registers_zero(fresh_context(rip, rsp, cs, ss)),
        fresh_context(rip, rsp, cs, ss).rip == rip,
        fresh_context(rip, rsp, cs, ss).rsp == rsp,
        fresh_context(rip, rsp, cs, ss).cs == cs,
        fresh_context(rip, rsp, cs, ss).ss == ss,
        fresh_context(rip, rsp, cs, ss).rflags == 0x200,
{
}

/// Two fresh contexts differ only in what they were given: with the same
/// pointers and segments they are equal.
pub proof fn lemma_fresh_context_determined(
    a: TaskContext,
    b: TaskContext,
)
    requires
        general_registers_zero(a),
        general_registers_zero(b),
        a.rip == b.rip,
        a.rsp == b.rsp,
        a.rflags == b.rflags,
        a.cs == b.cs,
        a.ss == b.ss,
    ensures
        a == b,
{
}

impl TaskContext {
    /// A kernel context: all registers zero, interrupts enabled, the kernel
    /// code and data segments.
    pub fn new_kernel() -> (r: Self)
        ensures
            r == fresh_context(0, 0, KERNEL_CODE_SELECTOR, KERNEL_DATA_SELECTOR),
            general_registers_zero(r),
            r.rip == 0,
            r.rsp == 0,
            r.rflags == 0x200,
            r.cs == 0x8,
            r.ss == 0x10,
    {
        Self {
            rax: 0,
            rbx: 0,
            rcx: 0,
            rdx: 0,
            rsi: 0,
            rdi: 0,
            rbp: 0,
            r8: 0,
            r9: 0,
            r10: 0,
            r11: 0,
            r12: 0,
            r13: 0,
            r14: 0,
            r15: 0,
            rip: 0,
            rsp: 0,
            rflags: interrupt_flag_bits(),
            cs: KERNEL_CODE_SELECTOR,
            ss: KERNEL_DATA_SELECTOR,
        }
    }

    /// A user context that starts at `entry_point` with its stack at
    /// `stack_top`: all other registers zero, interrupts enabled, the user
    /// code and data segments.
    pub fn new_user(entry_point: VirtAddr, stack_top: VirtAddr) -> (r: Self)
        ensures
            r == fresh_context(entry_point@, stack_top@, USER_CODE_SELECTOR, USER_DATA_SELECTOR),
            general_registers_zero(r),
            r.rip == entry_point@,
            r.rsp == stack_top@,
            r.rflags == 0x200,
            r.cs == 0x1b,
            r.ss == 0x23,
    {
        Self {
            rax: 0,
            rbx: 0,
            rcx: 0,
            rdx: 0,
            rsi: 0,
            rdi: 0,
            rbp: 0,
            r8: 0,
            r9: 0,
            r10: 0,
            r11: 0,
            r12: 0,
            r13: 0,
            r14: 0,
            r15: 0,
            rip: entry_point.as_u64(),
            rsp: stack_top.as_u64(),
            rflags: interrupt_flag_bits(),
            cs: USER_CODE_SELECTOR,
            ss: USER_DATA_SELECTOR,
        }
    }
}

} // verus!
