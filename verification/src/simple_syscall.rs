//! System-call dispatch: what the kernel does for each call number, and
//! what it hands back to the calling program.
use vstd::prelude::*;

verus! {

/// Prints `len` bytes at address `ptr` of the calling program.
pub const SYSCALL_PRINT: u64 = 1;

/// Ends the calling program with an exit code.
pub const SYSCALL_EXIT: u64 = 2;

/// What the kernel has to do for a system call.
#[derive(Debug, Clone, Copy, PartialEq, Eq, Structural)]
pub enum SyscallAction {
    /// Print the `len` bytes of the caller's memory at `ptr`.
    PrintUserBuffer { ptr: u64, len: usize },
    /// Report that the program ended with `code`.
    Exit { code: u64 },
    /// Report a call number that the kernel does not know.
    Unknown { number: u64 },
    /// Nothing to do (a print of nothing, or from a null address).
    Ignore,
}

/// The action a system call asks for and the value returned to the caller.
#[derive(Debug, Clone, Copy, PartialEq, Eq, Structural)]
pub struct SyscallOutcome {
    pub action: SyscallAction,
    pub result: u64,
}

/// What the kernel does for call `number` with arguments `arg1` and `arg2`.
pub open spec fn syscall_outcome(number: u64, arg1: u64, arg2: u64) -> SyscallOutcome {
    if number == SYSCALL_PRINT {
        if arg1 == 0 || arg2 as usize == 0 {
            SyscallOutcome { action: SyscallAction::Ignore, result: 0 }
        } else {
            SyscallOutcome {
                action: SyscallAction::PrintUserBuffer { ptr: arg1, len: arg2 as usize },
                result: 0,
            }
        }
    } else if number == SYSCALL_EXIT {
        SyscallOutcome { action: SyscallAction::Exit { code: arg1 }, result: arg1 }
    } else {
        SyscallOutcome { action: SyscallAction::Unknown { number }, result: u64::MAX }
    }
}

/// Decides a system call: a print of a non-null buffer of non-zero length
/// is printed and returns 0 (as does a print of nothing); an exit returns
/// its code; an unknown call is reported and returns `u64::MAX`. The third
/// argument is not used.
pub fn handle_syscall(syscall_number: u64, arg1: u64, arg2: u64, _arg3: u64) -> (r: SyscallOutcome)
    ensures
        r == syscall_outcome(syscall_number, arg1, arg2),
        syscall_number == SYSCALL_EXIT ==> r.action == (SyscallAction::Exit { code: arg1 })
            && r.result == arg1,
        syscall_number == SYSCALL_PRINT ==> r.result == 0,
        syscall_number == SYSCALL_PRINT && arg1 != 0 && arg2 as usize != 0 ==> r.action == (
        SyscallAction::PrintUserBuffer { ptr: arg1, len: arg2 as usize }),
        syscall_number == SYSCALL_PRINT && (arg1 == 0 || arg2 as usize == 0) ==> r.action
            == SyscallAction::Ignore,
        syscall_number != SYSCALL_PRINT && syscall_number != SYSCALL_EXIT ==> r.action == (
        SyscallAction::Unknown { number: syscall_number }) && r.result == u64::MAX,
{
    if syscall_number == SYSCALL_PRINT {
        let ptr = arg1;
        let len = arg2 as usize;
        if ptr == 0 || len == 0 {
            return SyscallOutcome { action: SyscallAction::Ignore, result: 0 };
        }
        SyscallOutcome { action: SyscallAction::PrintUserBuffer { ptr, len }, result: 0 }
    } else if syscall_number == SYSCALL_EXIT {
        let exit_code = arg1;
        SyscallOutcome { action: SyscallAction::Exit { code: exit_code }, result: exit_code }
    } else {
        SyscallOutcome { action: SyscallAction::Unknown { number: syscall_number }, result: u64::MAX }
    }
}

/// An exit asks for an exit with exactly the code it is given, whatever
/// the code (0 included) and the other arguments, and returns that code.
pub proof fn lemma_exit_reports_its_code(code: u64, arg2: u64)
    ensures
        syscall_outcome(SYSCALL_EXIT, code, arg2).action == (SyscallAction::Exit { code }),
        syscall_outcome(SYSCALL_EXIT, code, arg2).result == code,
{
}

/// A print always returns 0, and asks to print the caller's buffer exactly
/// when both its address and its length are non-zero.
pub proof fn lemma_print_outcome(ptr: u64, len: u64)
    ensures
        syscall_outcome(SYSCALL_PRINT, ptr, len).result == 0,
        syscall_outcome(SYSCALL_PRINT, ptr, len).action is PrintUserBuffer <==> ptr != 0 && len
            as usize != 0,
        syscall_outcome(SYSCALL_PRINT, ptr, len).action is PrintUserBuffer ==> syscall_outcome(
            SYSCALL_PRINT,
            ptr,
            len,
        ).action == (SyscallAction::PrintUserBuffer { ptr, len: len as usize }),
        !(syscall_outcome(SYSCALL_PRINT, ptr, len).action is PrintUserBuffer) ==> syscall_outcome(
            SYSCALL_PRINT,
            ptr,
            len,
        ).action == SyscallAction::Ignore,
{
}

/// Any call number other than print and exit is reported as unknown, with
/// that number, and returns `u64::MAX`.
pub proof fn lemma_unknown_call(number: u64, arg1: u64, arg2: u64)
    requires
        number != SYSCALL_PRINT,
        number != SYSCALL_EXIT,
    ensures
        syscall_outcome(number, arg1, arg2).action == (SyscallAction::Unknown { number }),
        syscall_outcome(number, arg1, arg2).result == u64::MAX,
{
}

} // verus!
