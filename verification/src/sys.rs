use vstd::prelude::*;

verus! {

/// The machines whose process-exit convention the runtime shims follow.
pub enum Machine {
    X86_64,
    Aarch64,
}

/// Syscall number of the process-exit service on each machine.
pub open spec fn exit_syscall_number(machine: Machine) -> usize {
    match machine {
        Machine::X86_64 => 60,
        Machine::Aarch64 => 93,
    }
}

/// Prepare the process-exit request: the machine's exit syscall number
/// paired with the status code as its only argument. Issuing a raw
/// syscall is outside what can be verified, so the runtime shim performs
/// it, with exactly this pair.
pub fn exit(machine: Machine, code: usize) -> (r: (usize, usize))
    ensures
        r.0 == exit_syscall_number(machine),
        r.1 == code,
{
    match machine {
        Machine::X86_64 => (60, code),
        Machine::Aarch64 => (93, code),
    }
}

} // verus!
