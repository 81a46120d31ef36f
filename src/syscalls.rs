//! Register-level system call entry points that need no task state.
use vstd::prelude::*;

verus! {

/// Number of system calls.
pub const NUM_SYSCALLS: usize = 5;

/// General registers as saved on entry to a system call; `eax` holds the
/// call number and the others its arguments and results.
#[derive(Copy, Clone, PartialEq, Eq, Structural, Debug)]
pub struct SyscallRegisters {
    pub eax: u32,
    pub ebx: u32,
    pub ecx: u32,
    pub edx: u32,
    pub esi: u32,
    pub edi: u32,
    pub ebp: u32,
}

/// Sets `ebx` to 1: the computer is on.
pub fn is_computer_on(regs: &mut SyscallRegisters)
    ensures
        *final(regs) == (SyscallRegisters { ebx: 1, ..*old(regs) }),
{
    regs.ebx = 1;
}

/// The system call that `regs` asks for: its number when it names one,
/// nothing otherwise (such a call is ignored).
pub fn syscall_number(regs: &SyscallRegisters) -> (r: Option<usize>)
    ensures
        r == if (regs.eax as int) < NUM_SYSCALLS {
            Some(regs.eax as usize)
        } else {
            None::<usize>
        },
{
    let n = regs.eax as usize;
    if n < NUM_SYSCALLS {
        Some(n)
    } else {
        None
    }
}

} // verus!
