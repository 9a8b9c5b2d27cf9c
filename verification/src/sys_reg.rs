//! AArch64 system registers as a trapped MSR or MRS names them.
use vstd::prelude::*;

verus! {

/// A system register by its encoding.
#[derive(Debug, Clone, Copy, PartialEq, Eq, Structural)]
pub struct SysReg {
    pub op0: u64,
    pub op1: u64,
    pub crn: u64,
    pub crm: u64,
    pub op2: u64,
}

/// The encoding of a register.
pub open spec fn sysreg(op0: u64, op1: u64, crn: u64, crm: u64, op2: u64) -> SysReg {
    SysReg { op0, op1, crn, crm, op2 }
}

/// ID_AA64ISAR2_EL1: instruction set attribute register 2.
pub fn id_aa64isar2_el1() -> (r: SysReg)
    ensures
        r == sysreg(3, 0, 0, 6, 2),
{
    SysReg { op0: 0b11, op1: 0b000, crn: 0b0000, crm: 0b0110, op2: 0b010 }
}

/// MDSCR_EL1: monitor debug system control register.
pub fn mdscr_el1() -> (r: SysReg)
    ensures
        r == sysreg(2, 0, 0, 2, 2),
{
    SysReg { op0: 2, op1: 0, crn: 0, crm: 2, op2: 2 }
}

/// OSDLR_EL1: OS double lock register.
pub fn osdlr_el1() -> (r: SysReg)
    ensures
        r == sysreg(2, 0, 1, 3, 4),
{
    SysReg { op0: 2, op1: 0, crn: 1, crm: 3, op2: 4 }
}

/// OSLAR_EL1: OS lock access register.
pub fn oslar_el1() -> (r: SysReg)
    ensures
        r == sysreg(2, 0, 1, 0, 4),
{
    SysReg { op0: 2, op1: 0, crn: 1, crm: 0, op2: 4 }
}

/// The instruction-specific syndrome: the low 25 bits of the syndrome register.
pub open spec fn iss(esr: u64) -> u64 {
    esr & 0x01ff_ffff
}

/// The bits `[shift, shift + width)` of the syndrome's ISS, `mask` being
/// `width` ones.
pub open spec fn iss_field(esr: u64, shift: u64, mask: u64) -> u64 {
    (iss(esr) >> shift) & mask
}

/// What a trapped MSR or MRS names: the register, the general-purpose
/// register `rt` that it moves through, and whether it reads (MRS).
pub open spec fn decoded(esr: u64) -> (SysReg, u64, bool) {
    (
        SysReg {
            op0: iss_field(esr, 20, 0b11),
            op1: iss_field(esr, 14, 0b111),
            crn: iss_field(esr, 10, 0b1111),
            crm: iss_field(esr, 1, 0b1111),
            op2: iss_field(esr, 17, 0b111),
        },
        iss_field(esr, 5, 0b11111),
        iss_field(esr, 0, 1) == 1,
    )
}

/// Decodes the syndrome of a trapped system register access.
pub fn decode_sysreg(esr: u64) -> (r: (SysReg, u64, bool))
    ensures
        r == decoded(esr),
        r.0.op0 < 4 && r.0.op1 < 8 && r.0.crn < 16 && r.0.crm < 16 && r.0.op2 < 8 && r.1 < 32,
{
    let iss = esr & 0x01ff_ffff;
    let op0 = (iss >> 20u64) & 0b11;
    let op2 = (iss >> 17u64) & 0b111;
    let op1 = (iss >> 14u64) & 0b111;
    let crn = (iss >> 10u64) & 0b1111;
    let rt = (iss >> 5u64) & 0b11111;
    let crm = (iss >> 1u64) & 0b1111;
    let is_read = (iss & 1) == 1;
    proof {
        assert(op0 < 4 && op1 < 8 && crn < 16 && crm < 16 && op2 < 8 && rt < 32) by (bit_vector)
            requires
                op0 == (iss >> 20u64) & 0b11,
                op2 == (iss >> 17u64) & 0b111,
                op1 == (iss >> 14u64) & 0b111,
                crn == (iss >> 10u64) & 0b1111,
                rt == (iss >> 5u64) & 0b11111,
                crm == (iss >> 1u64) & 0b1111,
        ;
        assert(iss >> 0u64 == iss) by (bit_vector);
    }
    (SysReg { op0, op1, crn, crm, op2 }, rt, is_read)
}

} // verus!
