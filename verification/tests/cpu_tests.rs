use varmint::cpu::psci::{answer, decode_call, start_code, Action, PsciCall, StartResult, PSCI_ALREADY_ON, PSCI_CPU_OFF, PSCI_CPU_ON_64, PSCI_DENIED, PSCI_NOT_SUPPORTED, PSCI_SUCCESS, PSCI_SYSTEM_RESET, PSCI_VERSION, PSCI_VERSION_0_2};
use varmint::cpu::sysreg::{decode, trap_action, TrapAction};
use varmint::cpu::{classify_exception, mpidr_for_vcpu, reg_from_rt, secondary_index, secondary_index_for_mpidr, ExitKind, SecondaryCpus};
use varmint::sys_reg::{decode_sysreg, mdscr_el1, oslar_el1, SysReg};

/// The syndrome of an MSR/MRS of `reg` through X`rt`.
fn esr(reg: SysReg, rt: u64, read: bool) -> u64 {
    (0x18u64 << 26)
        | (reg.op0 << 20)
        | (reg.op2 << 17)
        | (reg.op1 << 14)
        | (reg.crn << 10)
        | (rt << 5)
        | (reg.crm << 1)
        | (read as u64)
}

#[test]
fn sysreg_fields_are_decoded() {
    let e = esr(SysReg { op0: 3, op1: 0, crn: 0, crm: 6, op2: 2 }, 7, true);
    let (reg, rt, read) = decode_sysreg(e);
    assert_eq!(reg, SysReg { op0: 3, op1: 0, crn: 0, crm: 6, op2: 2 });
    assert_eq!(rt, 7);
    assert!(read);
    assert_eq!(decode(e), decode_sysreg(e));
}

#[test]
fn debug_registers_are_emulated() {
    assert_eq!(trap_action(esr(mdscr_el1(), 3, true)), TrapAction::ReadZero(3));
    assert_eq!(trap_action(esr(oslar_el1(), 4, false)), TrapAction::IgnoreWrite(4));
    let isar2 = SysReg { op0: 3, op1: 0, crn: 0, crm: 6, op2: 2 };
    assert_eq!(trap_action(esr(isar2, 1, true)), TrapAction::ReadZero(1));
    assert_eq!(trap_action(esr(isar2, 1, false)), TrapAction::Unhandled);
    let other = SysReg { op0: 3, op1: 3, crn: 14, crm: 0, op2: 1 };
    assert_eq!(trap_action(esr(other, 0, true)), TrapAction::Unhandled);
}

#[test]
fn exceptions_are_classified() {
    assert_eq!(classify_exception(0x16 << 26), ExitKind::Hvc);
    assert_eq!(classify_exception(0x18 << 26), ExitKind::SysReg);
    let abort = (0x24u64 << 26) | (2 << 22) | (5 << 16) | (1 << 6);
    assert_eq!(classify_exception(abort), ExitKind::DataAbort { is_write: true, rt: 5, size: 4 });
    assert_eq!(classify_exception(0x20 << 26), ExitKind::InstructionAbort);
    assert_eq!(classify_exception(0x3c << 26), ExitKind::Unexpected(0x3c));
}

#[test]
fn registers_and_cpus() {
    assert_eq!(reg_from_rt(30), Some(30));
    assert_eq!(reg_from_rt(31), None);
    assert_eq!(mpidr_for_vcpu(3), 3);
    assert_eq!(secondary_index(0, 4), None);
    assert_eq!(secondary_index(2, 4), Some(1));
    assert_eq!(secondary_index(5, 4), None);
    assert_eq!(secondary_index_for_mpidr(0x8000_0102, 4), Some(1));
}

#[test]
fn psci_calls_are_answered() {
    assert_eq!(decode_call(PSCI_VERSION, 0, 0, 0), PsciCall::Version);
    assert_eq!(
        decode_call(PSCI_CPU_ON_64, 1, 0x4000_0000, 9),
        PsciCall::CpuOn { target_mpidr: 1, entry_point: 0x4000_0000, context_id: 9 }
    );
    assert_eq!(decode_call(PSCI_SYSTEM_RESET, 0, 0, 0), PsciCall::SystemOffOrReset);
    assert_eq!(decode_call(0x1234, 0, 0, 0), PsciCall::NotSupported);
    assert_eq!(answer(PsciCall::Version, false, StartResult::Started), Action::Continue(PSCI_VERSION_0_2));
    assert_eq!(answer(decode_call(PSCI_CPU_OFF, 0, 0, 0), true, StartResult::Started), Action::CpuOff);
    assert_eq!(answer(PsciCall::CpuOff, false, StartResult::Started), Action::Continue(PSCI_DENIED));
    assert_eq!(answer(PsciCall::NotSupported, false, StartResult::Started), Action::Continue(PSCI_NOT_SUPPORTED));
    let on = PsciCall::CpuOn { target_mpidr: 1, entry_point: 0, context_id: 0 };
    assert_eq!(answer(on, false, StartResult::AlreadyOn), Action::Continue(PSCI_ALREADY_ON));
    assert_eq!(start_code(StartResult::Started), PSCI_SUCCESS);
    assert_eq!(start_code(StartResult::InvalidCpu), (-2i64) as u64);
}

#[test]
fn secondary_cpus_start_and_stop() {
    let mut cpus = SecondaryCpus::new(4);
    assert_eq!(cpus.cpu_for_mpidr(0), None);
    assert_eq!(cpus.cpu_for_mpidr(1), Some(0));
    assert_eq!(cpus.cpu_for_mpidr(0x103), Some(2));
    assert_eq!(cpus.cpu_for_mpidr(4), None);

    assert_eq!(cpus.claim(9), Err(StartResult::InvalidCpu));
    assert_eq!(cpus.claim(2), Ok(1));
    assert!(cpus.is_online(1));
    assert_eq!(cpus.settle(1, true), StartResult::Started);
    assert_eq!(cpus.claim(2), Err(StartResult::AlreadyOn));

    assert!(!cpus.stop(0));
    assert!(cpus.stop(2));
    assert!(!cpus.is_online(1));
    assert_eq!(cpus.claim(2), Ok(1));
}

#[test]
fn secondary_cpu_start_that_cannot_be_delivered_is_undone() {
    let mut cpus = SecondaryCpus::new(2);
    assert_eq!(cpus.claim(1), Ok(0));
    assert_eq!(cpus.settle(0, false), StartResult::Unavailable);
    assert!(!cpus.is_online(0));
    assert_eq!(cpus.claim(1), Ok(0));
}

#[test]
fn single_vcpu_machine_has_no_secondaries() {
    let mut cpus = SecondaryCpus::new(1);
    assert_eq!(cpus.claim(1), Err(StartResult::InvalidCpu));
    assert!(!cpus.stop(1));
}
