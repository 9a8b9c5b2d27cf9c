//! Decisions of the vCPU run loop: what an exit is, which secondary CPU a
//! request names, and which register an instruction moves through.
use vstd::prelude::*;

use self::psci::StartResult;

pub mod psci;
pub mod sysreg;

verus! {

pub const BOOT_VCPU_ID: usize = 0;

pub const FIRST_SECONDARY_VCPU_ID: usize = 1;

/// EL1h with all of DAIF masked: the state a vCPU enters the guest in.
pub const PSTATE_EL1H_DAIF_MASKED: u64 = 0x3c5;

pub const ESR_EC_HVC_AARCH64: u64 = 0x16;

pub const ESR_EC_SYSREG: u64 = 0x18;

/// The exception class of a syndrome: its bits 26 to 31.
pub open spec fn exception_class(esr: u64) -> u64 {
    (esr >> 26u64) & 0b111111
}

/// What the run loop does with an exception exit.
#[derive(Debug, Clone, Copy, PartialEq, Eq)]
pub enum ExitKind {
    /// A hypervisor call: PSCI.
    Hvc,
    /// A trapped MSR or MRS.
    SysReg,
    /// A data abort: an MMIO access of `size` bytes through register `rt`.
    DataAbort { is_write: bool, rt: u64, size: usize },
    /// An instruction abort.
    InstructionAbort,
    /// Any other exception class.
    Unexpected(u64),
}

/// The meaning of an exception syndrome.
pub open spec fn exit_kind(esr: u64) -> ExitKind {
    let ec = exception_class(esr);
    if ec == ESR_EC_HVC_AARCH64 {
        ExitKind::Hvc
    } else if ec == ESR_EC_SYSREG {
        ExitKind::SysReg
    } else if ec == 0x24 || ec == 0x25 {
        ExitKind::DataAbort {
            is_write: (esr >> 6u64) & 1 == 1,
            rt: (esr >> 16u64) & 0b11111,
            size: if (esr >> 22u64) & 0b11 == 0 {
                1
            } else if (esr >> 22u64) & 0b11 == 1 {
                2
            } else if (esr >> 22u64) & 0b11 == 2 {
                4
            } else {
                8
            },
        }
    } else if ec == 0x20 || ec == 0x21 {
        ExitKind::InstructionAbort
    } else {
        ExitKind::Unexpected(ec)
    }
}

/// A data abort reports the access it trapped as the syndrome encodes it:
/// `2^SAS` bytes (SAS is bits 23:22), written where WnR (bit 6) is set,
/// through the register that SRT (bits 20:16) names. Exactly the classes
/// 0x24 and 0x25 (bits 31:26) are data aborts.
pub proof fn lemma_data_abort_access(esr: u64)
    ensures
        exit_kind(esr) is DataAbort <==> (((esr >> 26u64) & 0x3f) == 0x24 || ((esr >> 26u64) & 0x3f) == 0x25),
        exit_kind(esr) matches ExitKind::DataAbort { is_write, rt, size } ==> {
            &&& size as u64 == 1u64 << ((esr >> 22u64) & 3u64)
            &&& is_write == (esr & 0x40u64 != 0)
            &&& rt == (esr >> 16u64) % 32
            &&& rt < 32
        },
{
    assert((esr >> 22u64) & 0b11 == 0 ==> 1u64 << ((esr >> 22u64) & 3u64) == 1) by (bit_vector);
    assert((esr >> 22u64) & 0b11 == 1 ==> 1u64 << ((esr >> 22u64) & 3u64) == 2) by (bit_vector);
    assert((esr >> 22u64) & 0b11 == 2 ==> 1u64 << ((esr >> 22u64) & 3u64) == 4) by (bit_vector);
    assert((esr >> 22u64) & 0b11 == 3 ==> 1u64 << ((esr >> 22u64) & 3u64) == 8) by (bit_vector);
    assert((esr >> 22u64) & 0b11 <= 3) by (bit_vector);
    assert(((esr >> 6u64) & 1 == 1) == (esr & 0x40u64 != 0)) by (bit_vector);
    assert((esr >> 16u64) & 0b11111 == (esr >> 16u64) % 32) by (bit_vector);
}

/// Classifies an exception exit by its syndrome.
pub fn classify_exception(esr: u64) -> (r: ExitKind)
    ensures
        r == exit_kind(esr),
{
    let ec = (esr >> 26u64) & 0b111111;
    if ec == ESR_EC_HVC_AARCH64 {
        ExitKind::Hvc
    } else if ec == ESR_EC_SYSREG {
        ExitKind::SysReg
    } else if ec == 0x24 || ec == 0x25 {
        let sas = (esr >> 22u64) & 0b11;
        let size: usize = if sas == 0 {
            1
        } else if sas == 1 {
            2
        } else if sas == 2 {
            4
        } else {
            8
        };
        ExitKind::DataAbort { is_write: (esr >> 6u64) & 1 == 1, rt: (esr >> 16u64) & 0b11111, size }
    } else if ec == 0x20 || ec == 0x21 {
        ExitKind::InstructionAbort
    } else {
        ExitKind::Unexpected(ec)
    }
}

/// The general-purpose register X`rt`; 31 names the zero register, which is none.
pub fn reg_from_rt(rt: u64) -> (r: Option<u8>)
    ensures
        rt < 31 ==> r == Some(rt as u8),
        rt >= 31 ==> r is None,
{
    if rt < 31 {
        Some(rt as u8)
    } else {
        None
    }
}

/// The MPIDR value of vCPU `vcpu_id`: its affinity level 0 is its number.
pub fn mpidr_for_vcpu(vcpu_id: usize) -> (r: u64)
    ensures
        r == mpidr_for_vcpu_spec(vcpu_id),
{
    vcpu_id as u64
}

/// The index among `count` secondary CPUs of vCPU `vcpu_id`.
pub fn secondary_index(vcpu_id: usize, count: usize) -> (r: Option<usize>)
    ensures
        r == (if FIRST_SECONDARY_VCPU_ID <= vcpu_id < FIRST_SECONDARY_VCPU_ID + count {
            Some((vcpu_id - FIRST_SECONDARY_VCPU_ID) as usize)
        } else {
            None::<usize>
        }),
{
    if vcpu_id >= FIRST_SECONDARY_VCPU_ID && vcpu_id - FIRST_SECONDARY_VCPU_ID < count {
        Some(vcpu_id - FIRST_SECONDARY_VCPU_ID)
    } else {
        None
    }
}

/// The index among `count` secondary CPUs of the CPU whose affinity level 0
/// is the low byte of `mpidr`.
pub fn secondary_index_for_mpidr(mpidr: u64, count: usize) -> (r: Option<usize>)
    ensures
        r == (if FIRST_SECONDARY_VCPU_ID <= mpidr % 256 < FIRST_SECONDARY_VCPU_ID + count {
            Some((mpidr % 256 - FIRST_SECONDARY_VCPU_ID) as usize)
        } else {
            None::<usize>
        }),
{
    let low = mpidr & 0xff;
    assert(low == mpidr % 256) by (bit_vector)
        requires
            low == mpidr & 0xff,
    ;
    secondary_index(low as usize, count)
}

/// The slot among `n` secondary CPUs of vCPU `vcpu_id`.
pub open spec fn vcpu_slot(vcpu_id: int, n: nat) -> Option<int> {
    if FIRST_SECONDARY_VCPU_ID <= vcpu_id < FIRST_SECONDARY_VCPU_ID + n {
        Some(vcpu_id - FIRST_SECONDARY_VCPU_ID)
    } else {
        None
    }
}

/// The slot among `n` secondary CPUs that an MPIDR names by its low byte.
pub open spec fn mpidr_slot(mpidr: u64, n: nat) -> Option<int> {
    vcpu_slot((mpidr % 256) as int, n)
}

/// A request to start the CPU named by `mpidr`, on the states `online` of the
/// secondary CPUs: the answer when it is refused, else the slot that it
/// claims; and the states afterwards.
pub open spec fn claim_spec(online: Seq<bool>, mpidr: u64) -> (Result<usize, StartResult>, Seq<bool>) {
    match mpidr_slot(mpidr, online.len()) {
        None => (Err(StartResult::InvalidCpu), online),
        Some(i) => if online[i] {
            (Err(StartResult::AlreadyOn), online)
        } else {
            (Ok(i as usize), online.update(i, true))
        },
    }
}

/// The secondary CPUs of the machine, and which of them are on. Slot `i`
/// stands for vCPU `i + FIRST_SECONDARY_VCPU_ID`.
pub struct SecondaryCpus {
    online: Vec<bool>,
}

impl View for SecondaryCpus {
    type V = Seq<bool>;

    closed spec fn view(&self) -> Seq<bool> {
        self.online@
    }
}

impl SecondaryCpus {
    /// The secondary CPUs of a machine with `vcpus` vCPUs, all off.
    pub fn new(vcpus: usize) -> (r: SecondaryCpus)
        ensures
            r@.len() == (if vcpus > FIRST_SECONDARY_VCPU_ID {
                vcpus - FIRST_SECONDARY_VCPU_ID
            } else {
                0
            }),
            forall|i: int| 0 <= i < r@.len() ==> !r@[i],
    {
        let mut online: Vec<bool> = Vec::new();
        let mut id: usize = FIRST_SECONDARY_VCPU_ID;
        while id < vcpus
            invariant
                FIRST_SECONDARY_VCPU_ID <= id,
                vcpus > FIRST_SECONDARY_VCPU_ID ==> id <= vcpus,
                vcpus <= FIRST_SECONDARY_VCPU_ID ==> id == FIRST_SECONDARY_VCPU_ID,
                online@.len() == id - FIRST_SECONDARY_VCPU_ID,
                forall|i: int| 0 <= i < online@.len() ==> !online@[i],
            decreases vcpus - id,
        {
            online.push(false);
            id = id + 1;
        }
        SecondaryCpus { online }
    }

    /// The slot of the CPU whose affinity level 0 is the low byte of `mpidr`.
    pub fn cpu_for_mpidr(&self, mpidr: u64) -> (r: Option<usize>)
        ensures
            r == (match mpidr_slot(mpidr, self@.len()) {
                Some(i) => Some(i as usize),
                None => None::<usize>,
            }),
    {
        secondary_index_for_mpidr(mpidr, self.online.len())
    }

    /// Whether the CPU in `slot` is on.
    pub fn is_online(&self, slot: usize) -> (r: bool)
        requires
            slot < self@.len(),
        ensures
            r == self@[slot as int],
    {
        self.online[slot]
    }

    /// The first half of a CPU_ON request: a CPU that does not exist or is
    /// already on refuses it; else the CPU is marked on and its slot returned,
    /// for the caller to hand the entry point to.
    pub fn claim(&mut self, mpidr: u64) -> (r: Result<usize, StartResult>)
        ensures
            (r, final(self)@) == claim_spec(old(self)@, mpidr),
    {
        match self.cpu_for_mpidr(mpidr) {
            None => Err(StartResult::InvalidCpu),
            Some(i) => {
                if self.online[i] {
                    Err(StartResult::AlreadyOn)
                } else {
                    self.online.set(i, true);
                    Ok(i)
                }
            },
        }
    }

    /// The second half of a CPU_ON request, once the entry point was handed
    /// over (`sent`) or could not be: in that case the CPU is off again.
    pub fn settle(&mut self, slot: usize, sent: bool) -> (r: StartResult)
        requires
            slot < old(self)@.len(),
        ensures
            sent ==> r == StartResult::Started && final(self)@ == old(self)@,
            !sent ==> r == StartResult::Unavailable && final(self)@ == old(self)@.update(
                slot as int,
                false,
            ),
    {
        if sent {
            StartResult::Started
        } else {
            self.online.set(slot, false);
            StartResult::Unavailable
        }
    }

    /// CPU_OFF from vCPU `vcpu_id`: a secondary CPU goes off; the boot CPU,
    /// or one that does not exist, is refused.
    pub fn stop(&mut self, vcpu_id: usize) -> (r: bool)
        ensures
            match vcpu_slot(vcpu_id as int, old(self)@.len()) {
                Some(i) => r && final(self)@ == old(self)@.update(i, false),
                None => !r && final(self)@ == old(self)@,
            },
    {
        match secondary_index(vcpu_id, self.online.len()) {
            Some(i) => {
                self.online.set(i, false);
                true
            },
            None => false,
        }
    }
}

/// A CPU that a CPU_ON request has just turned on refuses a second one as
/// already on.
pub proof fn lemma_claim_twice(online: Seq<bool>, mpidr: u64)
    requires
        claim_spec(online, mpidr).0 is Ok,
    ensures
        claim_spec(claim_spec(online, mpidr).1, mpidr) == (
            Err::<usize, StartResult>(StartResult::AlreadyOn),
            claim_spec(online, mpidr).1,
        ),
{
}

/// A start whose entry point could not be handed over leaves the CPUs as
/// they were before the request.
pub proof fn lemma_failed_start_undone(online: Seq<bool>, mpidr: u64)
    requires
        claim_spec(online, mpidr).0 is Ok,
    ensures
        claim_spec(online, mpidr).1.update(claim_spec(online, mpidr).0->Ok_0 as int, false)
            == online,
{
    let i = claim_spec(online, mpidr).0->Ok_0 as int;
    assert(claim_spec(online, mpidr).1.update(i, false) =~= online);
}

/// A secondary CPU that turned itself off can be started again through its
/// MPIDR.
pub proof fn lemma_stop_then_start(online: Seq<bool>, vcpu_id: usize)
    requires
        vcpu_id < 256,
        vcpu_slot(vcpu_id as int, online.len()) is Some,
    ensures
        ({
            let off = online.update(vcpu_slot(vcpu_id as int, online.len())->0, false);
            claim_spec(off, mpidr_for_vcpu_spec(vcpu_id)).0 == Ok::<usize, StartResult>(
                (vcpu_id - FIRST_SECONDARY_VCPU_ID) as usize,
            )
        }),
{
}

/// The MPIDR value of vCPU `vcpu_id`.
pub open spec fn mpidr_for_vcpu_spec(vcpu_id: usize) -> u64 {
    vcpu_id as u64
}

} // verus!
