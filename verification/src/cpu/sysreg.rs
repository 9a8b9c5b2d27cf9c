//! Trapped system register accesses that the monitor emulates.
use crate::sys_reg::{decode_sysreg, decoded, sysreg};
use vstd::prelude::*;

pub use crate::sys_reg::SysReg;

verus! {

/// How a trapped access is emulated.
#[derive(Debug, Clone, Copy, PartialEq, Eq)]
pub enum TrapAction {
    /// The read gives zero in register `rt`.
    ReadZero(u64),
    /// The write from register `rt` is ignored.
    IgnoreWrite(u64),
    /// The access is not emulated.
    Unhandled,
}

/// Decodes the syndrome of a trapped system register access.
pub fn decode(esr: u64) -> (r: (SysReg, u64, bool))
    ensures
        r == decoded(esr),
{
    decode_sysreg(esr)
}

/// The registers whose reads give zero: ID_AA64ISAR2_EL1, MDSCR_EL1,
/// OSDLR_EL1 and OSLAR_EL1.
pub open spec fn reads_as_zero(reg: SysReg) -> bool {
    reg == sysreg(3, 0, 0, 6, 2) || reg == sysreg(2, 0, 0, 2, 2) || reg == sysreg(2, 0, 1, 3, 4)
        || reg == sysreg(2, 0, 1, 0, 4)
}

/// The registers whose writes are ignored: MDSCR_EL1, OSDLR_EL1 and OSLAR_EL1.
pub open spec fn writes_ignored(reg: SysReg) -> bool {
    reg == sysreg(2, 0, 0, 2, 2) || reg == sysreg(2, 0, 1, 3, 4) || reg == sysreg(2, 0, 1, 0, 4)
}

/// How the access with syndrome `esr` is emulated.
pub open spec fn trap_spec(esr: u64) -> TrapAction {
    let (reg, rt, is_read) = decoded(esr);
    if is_read && reads_as_zero(reg) {
        TrapAction::ReadZero(rt)
    } else if !is_read && writes_ignored(reg) {
        TrapAction::IgnoreWrite(rt)
    } else {
        TrapAction::Unhandled
    }
}

fn same(a: SysReg, b: SysReg) -> (r: bool)
    ensures
        r == (a == b),
{
    a.op0 == b.op0 && a.op1 == b.op1 && a.crn == b.crn && a.crm == b.crm && a.op2 == b.op2
}

/// Decides how a trapped system register access is emulated; the monitor
/// then moves the value and steps past the instruction.
pub fn trap_action(esr: u64) -> (r: TrapAction)
    ensures
        r == trap_spec(esr),
{
    let (reg, rt, is_read) = decode(esr);
    let isar2 = crate::sys_reg::id_aa64isar2_el1();
    let mdscr = crate::sys_reg::mdscr_el1();
    let osdlr = crate::sys_reg::osdlr_el1();
    let oslar = crate::sys_reg::oslar_el1();
    let debug = same(reg, mdscr) || same(reg, osdlr) || same(reg, oslar);
    if is_read && (same(reg, isar2) || debug) {
        TrapAction::ReadZero(rt)
    } else if !is_read && debug {
        TrapAction::IgnoreWrite(rt)
    } else {
        TrapAction::Unhandled
    }
}

} // verus!
