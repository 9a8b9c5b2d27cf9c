//! The PSCI calls that a guest makes through HVC.
use vstd::prelude::*;

verus! {

pub const PSCI_VERSION: u64 = 0x84000000;

pub const PSCI_CPU_OFF: u64 = 0x84000002;

pub const PSCI_CPU_ON_64: u64 = 0xC4000003;

pub const PSCI_SYSTEM_OFF: u64 = 0x84000008;

pub const PSCI_SYSTEM_RESET: u64 = 0x84000009;

/// PSCI version 0.2.
pub const PSCI_VERSION_0_2: u64 = 0x00000002;

pub const PSCI_SUCCESS: u64 = 0;

/// -1 as a 64-bit register value.
pub const PSCI_NOT_SUPPORTED: u64 = 0xffff_ffff_ffff_ffff;

/// -2 as a 64-bit register value.
pub const PSCI_INVALID_PARAMETERS: u64 = 0xffff_ffff_ffff_fffe;

/// -3 as a 64-bit register value.
pub const PSCI_DENIED: u64 = 0xffff_ffff_ffff_fffd;

/// -4 as a 64-bit register value.
pub const PSCI_ALREADY_ON: u64 = 0xffff_ffff_ffff_fffc;

/// What became of a request to start a secondary CPU.
#[derive(Debug, Clone, Copy, PartialEq, Eq)]
pub enum StartResult {
    Started,
    InvalidCpu,
    AlreadyOn,
    Unavailable,
}

/// A PSCI call, by the function id in X0 and its arguments in X1 to X3.
#[derive(Debug, Clone, Copy, PartialEq, Eq)]
pub enum PsciCall {
    Version,
    CpuOn { target_mpidr: u64, entry_point: u64, context_id: u64 },
    CpuOff,
    SystemOffOrReset,
    NotSupported,
}

/// The call that the registers make.
pub open spec fn call_spec(x0: u64, x1: u64, x2: u64, x3: u64) -> PsciCall {
    if x0 == PSCI_VERSION {
        PsciCall::Version
    } else if x0 == PSCI_CPU_ON_64 {
        PsciCall::CpuOn { target_mpidr: x1, entry_point: x2, context_id: x3 }
    } else if x0 == PSCI_CPU_OFF {
        PsciCall::CpuOff
    } else if x0 == PSCI_SYSTEM_OFF || x0 == PSCI_SYSTEM_RESET {
        PsciCall::SystemOffOrReset
    } else {
        PsciCall::NotSupported
    }
}

/// Decodes a PSCI call from the guest's registers.
pub fn decode_call(x0: u64, x1: u64, x2: u64, x3: u64) -> (r: PsciCall)
    ensures
        r == call_spec(x0, x1, x2, x3),
{
    if x0 == PSCI_VERSION {
        PsciCall::Version
    } else if x0 == PSCI_CPU_ON_64 {
        PsciCall::CpuOn { target_mpidr: x1, entry_point: x2, context_id: x3 }
    } else if x0 == PSCI_CPU_OFF {
        PsciCall::CpuOff
    } else if x0 == PSCI_SYSTEM_OFF || x0 == PSCI_SYSTEM_RESET {
        PsciCall::SystemOffOrReset
    } else {
        PsciCall::NotSupported
    }
}

/// The value that CPU_ON returns in X0.
pub open spec fn start_code_spec(r: StartResult) -> u64 {
    match r {
        StartResult::Started => PSCI_SUCCESS,
        StartResult::InvalidCpu => PSCI_INVALID_PARAMETERS,
        StartResult::AlreadyOn => PSCI_ALREADY_ON,
        StartResult::Unavailable => PSCI_DENIED,
    }
}

pub fn start_code(r: StartResult) -> (c: u64)
    ensures
        c == start_code_spec(r),
{
    match r {
        StartResult::Started => PSCI_SUCCESS,
        StartResult::InvalidCpu => PSCI_INVALID_PARAMETERS,
        StartResult::AlreadyOn => PSCI_ALREADY_ON,
        StartResult::Unavailable => PSCI_DENIED,
    }
}

/// What the vCPU does after the call.
#[derive(Debug, Clone, Copy, PartialEq, Eq)]
pub enum Action {
    /// Write `x0` and go on running.
    Continue(u64),
    /// Write success and stop this vCPU.
    CpuOff,
}

/// The answer to `call`: for CPU_OFF, `stopped` is whether this vCPU is a
/// secondary one that was stopped; for CPU_ON, `started` is what became of
/// the start. Each is read for its call only.
pub open spec fn answer_spec(call: PsciCall, stopped: bool, started: StartResult) -> Action {
    match call {
        PsciCall::Version => Action::Continue(PSCI_VERSION_0_2),
        PsciCall::CpuOff => if stopped {
            Action::CpuOff
        } else {
            Action::Continue(PSCI_DENIED)
        },
        PsciCall::SystemOffOrReset => Action::Continue(PSCI_SUCCESS),
        PsciCall::NotSupported => Action::Continue(PSCI_NOT_SUPPORTED),
        PsciCall::CpuOn { .. } => Action::Continue(start_code_spec(started)),
    }
}

/// Answers a call.
pub fn answer(call: PsciCall, stopped: bool, started: StartResult) -> (r: Action)
    ensures
        r == answer_spec(call, stopped, started),
{
    match call {
        PsciCall::Version => Action::Continue(PSCI_VERSION_0_2),
        PsciCall::CpuOff => if stopped {
            Action::CpuOff
        } else {
            Action::Continue(PSCI_DENIED)
        },
        PsciCall::SystemOffOrReset => Action::Continue(PSCI_SUCCESS),
        PsciCall::NotSupported => Action::Continue(PSCI_NOT_SUPPORTED),
        PsciCall::CpuOn { .. } => Action::Continue(start_code(started)),
    }
}

} // verus!
