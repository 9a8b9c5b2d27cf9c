//! The virtio-mmio register interface in front of a device.
use crate::bytes::le_value;
use crate::memory::{GuestMemory, MemState};
use crate::virtio::device::{CtxState, DeviceContext, ShmRegion, INT_VRING};
use crate::virtio::virtq::{idle_queue, Queue, QueueView};
use vstd::prelude::*;

verus! {

/// Offset of the device configuration space in the register window.
pub const CONFIG_BASE: u64 = 0x100;

/// Little-endian "virt".
pub const MAGIC: u32 = 0x74726976;

/// Transport version 2: the modern, non-legacy interface.
pub const VERSION: u32 = 2;

/// "vmnt".
pub const VENDOR_ID: u32 = 0x766d6e74;

/// The largest queue that a driver may set up.
pub const QUEUE_NUM_MAX: u32 = 256;

/// Offset of the queue notification register.
pub const QUEUE_NOTIFY_OFFSET: u64 = 0x050;

/// The registers below the configuration space.
#[derive(Debug, Copy, Clone, PartialEq, Eq)]
pub enum Reg {
    MagicValue,
    Version,
    DeviceId,
    VendorId,
    DeviceFeatures,
    DeviceFeaturesSel,
    DriverFeatures,
    DriverFeaturesSel,
    QueueSel,
    QueueNumMax,
    QueueNum,
    QueueReady,
    QueueNotify,
    InterruptStatus,
    InterruptAck,
    Status,
    QueueDescLow,
    QueueDescHigh,
    QueueDriverLow,
    QueueDriverHigh,
    QueueDeviceLow,
    QueueDeviceHigh,
    ConfigGeneration,
    ShmSel,
    ShmLenLow,
    ShmLenHigh,
    ShmBaseLow,
    ShmBaseHigh,
}

/// The register at `offset`, if there is one.
pub open spec fn reg_at(offset: u64) -> Option<Reg> {
    if offset == 0x000 {
        Some(Reg::MagicValue)
    } else if offset == 0x004 {
        Some(Reg::Version)
    } else if offset == 0x008 {
        Some(Reg::DeviceId)
    } else if offset == 0x00c {
        Some(Reg::VendorId)
    } else if offset == 0x010 {
        Some(Reg::DeviceFeatures)
    } else if offset == 0x014 {
        Some(Reg::DeviceFeaturesSel)
    } else if offset == 0x020 {
        Some(Reg::DriverFeatures)
    } else if offset == 0x024 {
        Some(Reg::DriverFeaturesSel)
    } else if offset == 0x030 {
        Some(Reg::QueueSel)
    } else if offset == 0x034 {
        Some(Reg::QueueNumMax)
    } else if offset == 0x038 {
        Some(Reg::QueueNum)
    } else if offset == 0x044 {
        Some(Reg::QueueReady)
    } else if offset == 0x050 {
        Some(Reg::QueueNotify)
    } else if offset == 0x060 {
        Some(Reg::InterruptStatus)
    } else if offset == 0x064 {
        Some(Reg::InterruptAck)
    } else if offset == 0x070 {
        Some(Reg::Status)
    } else if offset == 0x080 {
        Some(Reg::QueueDescLow)
    } else if offset == 0x084 {
        Some(Reg::QueueDescHigh)
    } else if offset == 0x090 {
        Some(Reg::QueueDriverLow)
    } else if offset == 0x094 {
        Some(Reg::QueueDriverHigh)
    } else if offset == 0x0a0 {
        Some(Reg::QueueDeviceLow)
    } else if offset == 0x0a4 {
        Some(Reg::QueueDeviceHigh)
    } else if offset == 0x0fc {
        Some(Reg::ConfigGeneration)
    } else if offset == 0x0ac {
        Some(Reg::ShmSel)
    } else if offset == 0x0b0 {
        Some(Reg::ShmLenLow)
    } else if offset == 0x0b4 {
        Some(Reg::ShmLenHigh)
    } else if offset == 0x0b8 {
        Some(Reg::ShmBaseLow)
    } else if offset == 0x0bc {
        Some(Reg::ShmBaseHigh)
    } else {
        None
    }
}

/// Decodes a register offset.
pub fn decode_reg(offset: u64) -> (r: Option<Reg>)
    ensures
        r == reg_at(offset),
{
    match offset {
        0x000 => Some(Reg::MagicValue),
        0x004 => Some(Reg::Version),
        0x008 => Some(Reg::DeviceId),
        0x00c => Some(Reg::VendorId),
        0x010 => Some(Reg::DeviceFeatures),
        0x014 => Some(Reg::DeviceFeaturesSel),
        0x020 => Some(Reg::DriverFeatures),
        0x024 => Some(Reg::DriverFeaturesSel),
        0x030 => Some(Reg::QueueSel),
        0x034 => Some(Reg::QueueNumMax),
        0x038 => Some(Reg::QueueNum),
        0x044 => Some(Reg::QueueReady),
        0x050 => Some(Reg::QueueNotify),
        0x060 => Some(Reg::InterruptStatus),
        0x064 => Some(Reg::InterruptAck),
        0x070 => Some(Reg::Status),
        0x080 => Some(Reg::QueueDescLow),
        0x084 => Some(Reg::QueueDescHigh),
        0x090 => Some(Reg::QueueDriverLow),
        0x094 => Some(Reg::QueueDriverHigh),
        0x0a0 => Some(Reg::QueueDeviceLow),
        0x0a4 => Some(Reg::QueueDeviceHigh),
        0x0fc => Some(Reg::ConfigGeneration),
        0x0ac => Some(Reg::ShmSel),
        0x0b0 => Some(Reg::ShmLenLow),
        0x0b4 => Some(Reg::ShmLenHigh),
        0x0b8 => Some(Reg::ShmBaseLow),
        0x0bc => Some(Reg::ShmBaseHigh),
        _ => None,
    }
}

/// Whether the transport serves an access of `size` bytes at `offset`:
/// sizes of 1, 2, 4 or 8 bytes, and 4 for a register.
/// Whether an access at `offset` works on the selected queue: a write of
/// its size, readiness or addresses, or a read of its readiness. Such an
/// access needs a selected queue that exists.
pub open spec fn needs_queue(offset: u64, is_write: bool) -> bool {
    offset < CONFIG_BASE && match reg_at(offset) {
        Some(Reg::QueueReady) => true,
        Some(Reg::QueueNum) | Some(Reg::QueueDescLow) | Some(Reg::QueueDescHigh) | Some(Reg::QueueDriverLow)
        | Some(Reg::QueueDriverHigh) | Some(Reg::QueueDeviceLow) | Some(Reg::QueueDeviceHigh) => is_write,
        _ => false,
    }
}

fn needs_queue_exec(offset: u64, is_write: bool) -> (r: bool)
    ensures
        r == needs_queue(offset, is_write),
{
    if offset >= CONFIG_BASE {
        return false;
    }
    match decode_reg(offset) {
        Some(Reg::QueueReady) => true,
        Some(Reg::QueueNum) | Some(Reg::QueueDescLow) | Some(Reg::QueueDescHigh) | Some(Reg::QueueDriverLow)
        | Some(Reg::QueueDriverHigh) | Some(Reg::QueueDeviceLow) | Some(Reg::QueueDeviceHigh) => is_write,
        _ => false,
    }
}

pub fn is_valid_access(offset: u64, size: usize) -> (r: bool)
    ensures
        r == valid_access(offset, size),
{
    let size_ok = size == 1 || size == 2 || size == 4 || size == 8;
    if !size_ok {
        return false;
    }
    offset >= CONFIG_BASE || decode_reg(offset).is_none() || size == 4
}

/// The 64-bit address whose halves are `lo` and `hi`.
pub open spec fn queue_addr_spec(lo: u32, hi: u32) -> u64 {
    (hi as int * 0x1_0000_0000 + lo as int) as u64
}

/// Combines the low and high halves of a queue address register pair.
pub fn queue_addr(lo: u32, hi: u32) -> (r: u64)
    ensures
        r == queue_addr_spec(lo, hi),
{
    let r = ((hi as u64) << 32u64) | (lo as u64);
    assert(r == hi as int * 0x1_0000_0000 + lo as int) by (bit_vector)
        requires
            r == ((hi as u64) << 32u64) | (lo as u64),
    ;
    r
}

/// The low 32 bits of `v`.
pub open spec fn low32(v: u64) -> u32 {
    (v % 0x1_0000_0000) as u32
}

/// The high 32 bits of `v`.
pub open spec fn high32(v: u64) -> u32 {
    (v / 0x1_0000_0000) as u32
}

fn split_low(v: u64) -> (r: u32)
    ensures
        r == low32(v),
{
    (v % 0x1_0000_0000) as u32
}

fn split_high(v: u64) -> (r: u32)
    ensures
        r == high32(v),
{
    (v / 0x1_0000_0000) as u32
}

/// A virtio device behind the transport.
pub trait Device: Sized {
    /// The virtio device type.
    spec fn device_id(&self) -> u32;

    /// The feature bits that the device offers.
    spec fn feature_bits(&self) -> u64;

    /// The number of queues.
    spec fn queue_count(&self) -> u16;

    /// The configuration space, from offset 0 on.
    spec fn config_space(&self) -> Seq<u8>;

    /// The shared memory region `id` as base and length, if there is one.
    spec fn shm_region(&self, id: u32) -> Option<(u64, u64)>;

    /// What a notification of queue `queue_idx` does: this device, the
    /// transport state `c` and guest memory `m` become `after`, `c2` and `m2`.
    spec fn notify_effect(&self, queue_idx: usize, c: CtxState, m: MemState, after: Self, c2: CtxState, m2: MemState) -> bool;

    /// What a reset does: this device becomes `after`.
    spec fn reset_effect(&self, after: Self) -> bool;

    fn id(&self) -> (r: u32)
        ensures
            r == self.device_id(),
    ;

    fn features(&self) -> (r: u64)
        ensures
            r == self.feature_bits(),
    ;

    fn num_queues(&self) -> (r: u16)
        ensures
            r == self.queue_count(),
    ;

    /// The bytes of the configuration space.
    fn read_config(&self) -> (r: Vec<u8>)
        ensures
            r@ == self.config_space(),
    ;

    /// A driver write into the configuration space.
    fn write_config(&mut self, offset: u64, data: &[u8])
        ensures
            final(self).queue_count() == old(self).queue_count(),
    ;

    /// The driver made buffers available on queue `queue_idx`.
    fn queue_notified(&mut self, queue_idx: usize, ctx: &mut DeviceContext, mem: &mut GuestMemory)
        ensures
            final(ctx).queues@.len() == old(ctx).queues@.len(),
            final(self).queue_count() == old(self).queue_count(),
            old(self).notify_effect(queue_idx, old(ctx)@, old(mem)@, *final(self), final(ctx)@, final(mem)@),
    ;

    /// The driver reset the device.
    fn reset(&mut self)
        ensures
            final(self).queue_count() == old(self).queue_count(),
            old(self).reset_effect(*final(self)),
    ;

    fn shared_memory_region(&self, id: u32) -> (r: Option<ShmRegion>)
        ensures
            match r {
                Some(s) => self.shm_region(id) == Some((s.base, s.len)),
                None => self.shm_region(id) is None,
            },
    ;
}

/// A device that also reacts to events from the host side.
pub trait ExternalEventHandler: Device + Sized {
    type Event;

    /// What handling `event` does: this device, the transport state `c` and
    /// guest memory `m` become `after`, `c2` and `m2`.
    spec fn event_effect(
        &self,
        event: Self::Event,
        c: CtxState,
        m: MemState,
        after: Self,
        c2: CtxState,
        m2: MemState,
    ) -> bool;

    fn on_event(&mut self, event: Self::Event, ctx: &mut DeviceContext, mem: &mut GuestMemory)
        ensures
            final(ctx).queues@.len() == old(ctx).queues@.len(),
            final(self).queue_count() == old(self).queue_count(),
            old(self).event_effect(event, old(ctx)@, old(mem)@, *final(self), final(ctx)@, final(mem)@),
    ;
}

/// The queue addresses and size that the driver is setting up.
#[derive(Copy, Clone, Debug, PartialEq, Eq)]
pub struct QueuePending {
    pub desc_lo: u32,
    pub desc_hi: u32,
    pub driver_lo: u32,
    pub driver_hi: u32,
    pub device_lo: u32,
    pub device_hi: u32,
    pub size: u16,
}

/// No queue set up yet.
pub open spec fn pending_zero() -> QueuePending {
    QueuePending {
        desc_lo: 0,
        desc_hi: 0,
        driver_lo: 0,
        driver_hi: 0,
        device_lo: 0,
        device_hi: 0,
        size: 0,
    }
}

fn new_pending() -> (r: QueuePending)
    ensures
        r == pending_zero(),
{
    QueuePending {
        desc_lo: 0,
        desc_hi: 0,
        driver_lo: 0,
        driver_hi: 0,
        device_lo: 0,
        device_hi: 0,
        size: 0,
    }
}

/// The bytes at `[offset, offset + len)` of `cfg`, zero past its end.
pub open spec fn config_window(cfg: Seq<u8>, offset: int, len: int) -> Seq<u8> {
    Seq::new(len as nat, |i: int| if 0 <= offset + i < cfg.len() { cfg[offset + i] } else { 0u8 })
}

/// The bytes of `cfg` from `offset` on, `len` of them, zero past its end.
pub fn config_bytes(cfg: &[u8], offset: u64, len: usize) -> (r: Vec<u8>)
    ensures
        r@ == config_window(cfg@, offset as int, len as int),
{
    let mut out: Vec<u8> = Vec::new();
    let n = cfg.len();
    let mut i: usize = 0;
    while i < len
        invariant
            i <= len,
            n == cfg@.len(),
            out@ == config_window(cfg@, offset as int, i as int),
        decreases len - i,
    {
        let b = if offset < n as u64 && (i as u64) < n as u64 - offset {
            cfg[offset as usize + i]
        } else {
            0u8
        };
        out.push(b);
        i = i + 1;
        proof {
            assert(out@ =~= config_window(cfg@, offset as int, i as int));
        }
    }
    out
}

/// Makes every queue of `qs` idle.
fn reset_queues(qs: &mut Vec<Queue>)
    ensures
        final(qs)@.len() == old(qs)@.len(),
        forall|k: int| 0 <= k < final(qs)@.len() ==> #[trigger] final(qs)@[k]@ == idle_queue(),
{
    let n = qs.len();
    let mut i: usize = 0;
    while i < n
        invariant
            n == qs@.len(),
            n == old(qs)@.len(),
            i <= n,
            forall|k: int| 0 <= k < i ==> #[trigger] qs@[k]@ == idle_queue(),
        decreases n - i,
    {
        let mut q = qs[i];
        q.reset();
        qs.set(i, q);
        i = i + 1;
    }
}

/// Clears every pending queue setup of `ps`.
fn reset_pending(ps: &mut Vec<QueuePending>)
    ensures
        final(ps)@.len() == old(ps)@.len(),
        forall|k: int| 0 <= k < final(ps)@.len() ==> #[trigger] final(ps)@[k] == pending_zero(),
{
    let n = ps.len();
    let mut i: usize = 0;
    while i < n
        invariant
            n == ps@.len(),
            n == old(ps)@.len(),
            i <= n,
            forall|k: int| 0 <= k < i ==> #[trigger] ps@[k] == pending_zero(),
        decreases n - i,
    {
        ps.set(i, new_pending());
        i = i + 1;
    }
}

/// The virtio-mmio transport around device `D`.
pub struct Transport<D: Device> {
    ctx: DeviceContext,
    queues_pending: Vec<QueuePending>,
    device: D,
    device_features_sel: u32,
    driver_features_sel: u32,
    queue_sel: u16,
    shm_sel: u32,
    status: u32,
}

/// What a register read gives, where it does not depend on the device's
/// configuration space.
pub open spec fn reg_value<D: Device>(t: &Transport<D>, reg: Reg) -> u32 {
    match reg {
        Reg::MagicValue => MAGIC,
        Reg::Version => VERSION,
        Reg::DeviceId => t.device().device_id(),
        Reg::VendorId => VENDOR_ID,
        Reg::DeviceFeatures => if t.features_sel() == 0 {
            low32(t.device().feature_bits())
        } else if t.features_sel() == 1 {
            high32(t.device().feature_bits())
        } else {
            0
        },
        Reg::QueueNumMax => QUEUE_NUM_MAX,
        Reg::QueueReady => if (t.queue_sel() as int) < t.queues().len()
            && t.queues()[t.queue_sel() as int].ready {
            1
        } else {
            0
        },
        Reg::InterruptStatus => t.interrupt_status(),
        Reg::Status => t.status(),
        Reg::ShmLenLow => match t.device().shm_region(t.shm_sel()) {
            Some((_b, l)) => low32(l),
            None => u32::MAX,
        },
        Reg::ShmLenHigh => match t.device().shm_region(t.shm_sel()) {
            Some((_b, l)) => high32(l),
            None => u32::MAX,
        },
        Reg::ShmBaseLow => match t.device().shm_region(t.shm_sel()) {
            Some((b, _l)) => low32(b),
            None => u32::MAX,
        },
        Reg::ShmBaseHigh => match t.device().shm_region(t.shm_sel()) {
            Some((b, _l)) => high32(b),
            None => u32::MAX,
        },
        _ => 0,
    }
}

/// An access size that the transport serves.
pub open spec fn valid_size(size: usize) -> bool {
    size == 1 || size == 2 || size == 4 || size == 8
}

/// An access that the transport serves: registers are 32 bits wide.
pub open spec fn valid_access(offset: u64, size: usize) -> bool {
    &&& valid_size(size)
    &&& (offset < CONFIG_BASE && reg_at(offset) is Some ==> size == 4)
}

/// What a driver read of `size` bytes at `offset` gives: the bytes of the
/// configuration space from `CONFIG_BASE` on, else the register's value.
pub open spec fn read_spec<D: Device>(t: &Transport<D>, offset: u64, size: usize) -> int {
    if offset >= CONFIG_BASE {
        le_value(config_window(t.device().config_space(), offset - CONFIG_BASE, size as int)) as int
    } else {
        match reg_at(offset) {
            Some(reg) => reg_value(t, reg) as int,
            None => 0,
        }
    }
}

/// What a driver write of `value` at `offset` does, taking the transport
/// from `t` to `u` and guest memory from `m` to `n`: only a queue
/// notification touches memory; a configuration write leaves the registers
/// and queues; a register write has its effect; a write elsewhere does
/// nothing.
pub open spec fn write_spec<D: Device>(
    t: &Transport<D>,
    u: &Transport<D>,
    m: crate::memory::MemState,
    n: crate::memory::MemState,
    offset: u64,
    value: u64,
) -> bool {
    &&& offset < CONFIG_BASE && (reg_at(offset) != Some(Reg::QueueNotify) || low32(value) as int >= t.queues().len())
        ==> n == m
    &&& offset < CONFIG_BASE && reg_at(offset) == Some(Reg::QueueNotify) && (low32(value) as int) < t.queues().len()
        ==> t.device().notify_effect(low32(value) as usize, t.context(), m, u.device(), u.context(), n)
    &&& offset >= CONFIG_BASE ==> u.same_regs(t) && u.queues() == t.queues() && u.pending() == t.pending()
    &&& offset < CONFIG_BASE ==> match reg_at(offset) {
        None => *u == *t,
        Some(reg) => write_effect(t, u, reg, low32(value)),
    }
}

impl<D: Device> Transport<D> {
    pub closed spec fn device(&self) -> D {
        self.device
    }

    /// The queues and interrupt status that the device works on.
    pub closed spec fn context(&self) -> CtxState {
        self.ctx@
    }

    pub closed spec fn queues(&self) -> Seq<QueueView> {
        crate::virtio::device::views(self.ctx.queues@)
    }

    pub closed spec fn pending(&self) -> Seq<QueuePending> {
        self.queues_pending@
    }

    pub closed spec fn interrupt_status(&self) -> u32 {
        self.ctx.interrupt_status
    }

    pub closed spec fn status(&self) -> u32 {
        self.status
    }

    pub closed spec fn features_sel(&self) -> u32 {
        self.device_features_sel
    }

    pub closed spec fn driver_sel(&self) -> u32 {
        self.driver_features_sel
    }

    pub closed spec fn queue_sel(&self) -> u16 {
        self.queue_sel
    }

    pub closed spec fn shm_sel(&self) -> u32 {
        self.shm_sel
    }

    /// One queue and one pending setup per device queue.
    pub open spec fn wf(&self) -> bool {
        &&& self.queues().len() == self.device().queue_count()
        &&& self.pending().len() == self.device().queue_count()
    }

    /// The state after a reset: everything idle, the device reset.
    pub open spec fn is_reset(&self) -> bool {
        &&& self.status() == 0
        &&& self.interrupt_status() == 0
        &&& self.features_sel() == 0
        &&& self.driver_sel() == 0
        &&& self.queue_sel() == 0
        &&& forall|i: int| 0 <= i < self.queues().len() ==> #[trigger] self.queues()[i] == idle_queue()
        &&& forall|i: int| 0 <= i < self.pending().len() ==> #[trigger] self.pending()[i] == pending_zero()
    }

    pub fn new(device: D) -> (t: Transport<D>)
        ensures
            t.wf(),
            t.device() == device,
            t.is_reset(),
            t.shm_sel() == 0,
    {
        let n = device.num_queues() as usize;
        let ctx = DeviceContext::new(n);
        let mut queues_pending: Vec<QueuePending> = Vec::new();
        let mut i: usize = 0;
        while i < n
            invariant
                i <= n,
                queues_pending@.len() == i,
                forall|k: int| 0 <= k < i ==> #[trigger] queues_pending@[k] == pending_zero(),
            decreases n - i,
        {
            queues_pending.push(new_pending());
            i = i + 1;
        }
        Transport {
            ctx,
            queues_pending,
            device,
            device_features_sel: 0,
            driver_features_sel: 0,
            queue_sel: 0,
            shm_sel: 0,
            status: 0,
        }
    }

    /// The interrupt line is asserted.
    pub fn is_asserted(&self) -> (r: bool)
        ensures
            r == (self.interrupt_status() != 0),
    {
        self.ctx.interrupt_status != 0
    }

    fn read_device_features(&self) -> (r: u32)
        ensures
            r == reg_value(self, Reg::DeviceFeatures),
    {
        let f = self.device.features();
        if self.device_features_sel == 0 {
            split_low(f)
        } else if self.device_features_sel == 1 {
            split_high(f)
        } else {
            0
        }
    }

    /// A driver read of `size` bytes at `offset`.
    pub fn read(&self, offset: u64, size: usize) -> (r: u64)
        requires
            valid_access(offset, size),
            needs_queue(offset, false) ==> self.sel_ok(),
        ensures
            r == read_spec(self, offset, size),
    {
        if offset >= CONFIG_BASE {
            let cfg = self.device.read_config();
            let bytes = config_bytes(cfg.as_slice(), offset - CONFIG_BASE, size);
            let mut v: u64 = 0;
            let mut i: usize = size;
            proof {
                reveal(vstd::arithmetic::power::pow);
                assert(vstd::arithmetic::power::pow(256, 0) == 1);
            }
            while i > 0
                invariant
                    i <= size,
                    size <= 8,
                    bytes@.len() == size,
                    v == le_value(bytes@.subrange(i as int, size as int)),
                    v < vstd::arithmetic::power::pow(256, (size - i) as nat),
                decreases i,
            {
                i = i - 1;
                proof {
                    let s = bytes@.subrange(i as int, size as int);
                    assert(s.drop_first() =~= bytes@.subrange(i + 1, size as int));
                    reveal(vstd::arithmetic::power::pow);
                    let p = vstd::arithmetic::power::pow(256, (size - i - 1) as nat);
                    assert(p <= 0x100000000000000) by {
                        vstd::arithmetic::power::lemma_pow_increases(256, (size - i - 1) as nat, 7);
                        reveal_with_fuel(vstd::arithmetic::power::pow, 8);
                    }
                    assert(v * 256 + 255 < 256 * p) by (nonlinear_arith)
                        requires
                            v < p,
                    ;
                }
                v = v * 256 + bytes[i] as u64;
            }
            proof {
                assert(bytes@.subrange(0, size as int) =~= bytes@);
            }
            return v;
        }
        let reg = match decode_reg(offset) {
            Some(r) => r,
            None => return 0,
        };
        let value: u32 = match reg {
            Reg::MagicValue => MAGIC,
            Reg::Version => VERSION,
            Reg::DeviceId => self.device.id(),
            Reg::VendorId => VENDOR_ID,
            Reg::DeviceFeatures => self.read_device_features(),
            Reg::QueueNumMax => QUEUE_NUM_MAX,
            Reg::QueueReady => {
                let q = self.queue_sel as usize;
                if q < self.ctx.queues.len() && self.ctx.queues[q].is_ready() {
                    1
                } else {
                    0
                }
            },
            Reg::InterruptStatus => self.ctx.interrupt_status,
            Reg::Status => self.status,
            Reg::ShmLenLow => match self.device.shared_memory_region(self.shm_sel) {
                Some(region) => split_low(region.len),
                None => u32::MAX,
            },
            Reg::ShmLenHigh => match self.device.shared_memory_region(self.shm_sel) {
                Some(region) => split_high(region.len),
                None => u32::MAX,
            },
            Reg::ShmBaseLow => match self.device.shared_memory_region(self.shm_sel) {
                Some(region) => split_low(region.base),
                None => u32::MAX,
            },
            Reg::ShmBaseHigh => match self.device.shared_memory_region(self.shm_sel) {
                Some(region) => split_high(region.base),
                None => u32::MAX,
            },
            _ => 0,
        };
        value as u64
    }

    /// The queue selected by `QueueSel`, if it exists.
    pub open spec fn sel_ok(&self) -> bool {
        (self.queue_sel() as int) < self.queues().len()
    }

    /// Whether the transport serves an access of `size` bytes at `offset`:
    /// a register is read and written whole, and an access to the selected
    /// queue needs a queue that exists.
    pub fn access_ok(&self, offset: u64, size: usize, is_write: bool) -> (r: bool)
        ensures
            r == (valid_access(offset, size) && (needs_queue(offset, is_write) ==> self.sel_ok())),
    {
        if !is_valid_access(offset, size) {
            return false;
        }
        if needs_queue_exec(offset, is_write) {
            proof {
                assert(self.queues().len() == self.ctx.queues@.len());
            }
            (self.queue_sel as usize) < self.ctx.queues.len()
        } else {
            true
        }
    }

    /// Everything but the pending setups and the queues is as in `o`.
    pub open spec fn same_regs(&self, o: &Self) -> bool {
        &&& self.status() == o.status()
        &&& self.interrupt_status() == o.interrupt_status()
        &&& self.features_sel() == o.features_sel()
        &&& self.driver_sel() == o.driver_sel()
        &&& self.queue_sel() == o.queue_sel()
        &&& self.shm_sel() == o.shm_sel()
    }

    /// Nothing but the pending setup of the selected queue differs from `o`,
    /// and that one is `p`.
    pub open spec fn pending_set(&self, o: &Self, p: QueuePending) -> bool {
        &&& self.same_regs(o)
        &&& self.device() == o.device()
        &&& self.queues() == o.queues()
        &&& if o.sel_ok() {
            self.pending() == o.pending().update(o.queue_sel() as int, p)
        } else {
            self.pending() == o.pending()
        }
    }

    /// The selected pending setup, where it exists.
    pub open spec fn sel_pending(&self) -> QueuePending {
        self.pending()[self.queue_sel() as int]
    }

    fn set_pending(&mut self, p: QueuePending)
        requires
            old(self).wf(),
        ensures
            final(self).wf(),
            final(self).pending_set(old(self), p),
    {
        let q = self.queue_sel as usize;
        if q < self.queues_pending.len() {
            self.queues_pending.set(q, p);
        }
    }

    fn current_pending(&self) -> (r: QueuePending)
        requires
            self.wf(),
        ensures
            self.sel_ok() ==> r == self.sel_pending(),
    {
        let q = self.queue_sel as usize;
        if q < self.queues_pending.len() {
            self.queues_pending[q]
        } else {
            new_pending()
        }
    }

    /// Puts every register and queue back to its initial value and resets the device.
    fn reset(&mut self)
        requires
            old(self).wf(),
        ensures
            final(self).wf(),
            final(self).is_reset(),
            final(self).shm_sel() == old(self).shm_sel(),
            old(self).device().reset_effect(final(self).device()),
            final(self).queues().len() == old(self).queues().len(),
            final(self).pending().len() == old(self).pending().len(),
    {
        self.status = 0;
        self.ctx.interrupt_status = 0;
        self.device_features_sel = 0;
        self.driver_features_sel = 0;
        self.queue_sel = 0;
        reset_queues(&mut self.ctx.queues);
        reset_pending(&mut self.queues_pending);
        self.device.reset();
        proof {
            assert forall|i: int| 0 <= i < self.queues().len() implies #[trigger] self.queues()[i]
                == idle_queue() by {
                assert(self.ctx.queues@[i]@ == idle_queue());
            }
        }
    }

    /// A driver write of `size` bytes of `value` at `offset`.
    pub fn write(&mut self, offset: u64, size: usize, value: u64, mem: &mut GuestMemory)
        requires
            old(self).wf(),
            valid_access(offset, size),
            needs_queue(offset, true) ==> old(self).sel_ok(),
        ensures
            final(self).wf(),
            write_spec(old(self), final(self), old(mem)@, final(mem)@, offset, value),
    {
        if offset >= CONFIG_BASE {
            let bytes = crate::bytes::u64_le(value);
            let data = vstd::slice::slice_subrange(bytes.as_slice(), 0, size);
            self.device.write_config(offset - CONFIG_BASE, data);
            return;
        }
        let reg = match decode_reg(offset) {
            Some(r) => r,
            None => return,
        };
        let v = split_low(value);
        match reg {
            Reg::DeviceFeaturesSel => self.device_features_sel = v,
            Reg::DriverFeaturesSel => self.driver_features_sel = v,
            Reg::QueueNum => {
                let p = self.current_pending();
                self.set_pending(QueuePending { size: v as u16, ..p });
            },
            Reg::QueueSel => self.queue_sel = v as u16,
            Reg::QueueReady => {
                let q = self.queue_sel as usize;
                if q < self.ctx.queues.len() {
                    if v == 1 {
                        let p = self.queues_pending[q];
                        let nq = Queue::new(
                            true,
                            p.size,
                            queue_addr(p.desc_lo, p.desc_hi),
                            queue_addr(p.driver_lo, p.driver_hi),
                            queue_addr(p.device_lo, p.device_hi),
                        );
                        self.ctx.queues.set(q, nq);
                        proof {
                            assert(self.queues() =~= old(self).queues().update(q as int, nq@));
                        }
                    } else {
                        let mut cur = self.ctx.queues[q];
                        cur.disable();
                        self.ctx.queues.set(q, cur);
                        proof {
                            assert(self.queues() =~= old(self).queues().update(q as int, cur@));
                        }
                    }
                }
            },
            Reg::QueueNotify => {
                let q = v as usize;
                if q < self.ctx.queues.len() {
                    self.device.queue_notified(q, &mut self.ctx, mem);
                }
            },
            Reg::InterruptAck => self.ctx.interrupt_status = self.ctx.interrupt_status & !v,
            Reg::Status => {
                if v == 0 {
                    self.reset();
                } else {
                    self.status = v;
                }
            },
            Reg::QueueDescLow => {
                let p = self.current_pending();
                self.set_pending(QueuePending { desc_lo: v, ..p });
            },
            Reg::QueueDescHigh => {
                let p = self.current_pending();
                self.set_pending(QueuePending { desc_hi: v, ..p });
            },
            Reg::QueueDriverLow => {
                let p = self.current_pending();
                self.set_pending(QueuePending { driver_lo: v, ..p });
            },
            Reg::QueueDriverHigh => {
                let p = self.current_pending();
                self.set_pending(QueuePending { driver_hi: v, ..p });
            },
            Reg::QueueDeviceLow => {
                let p = self.current_pending();
                self.set_pending(QueuePending { device_lo: v, ..p });
            },
            Reg::QueueDeviceHigh => {
                let p = self.current_pending();
                self.set_pending(QueuePending { device_hi: v, ..p });
            },
            Reg::ShmSel => self.shm_sel = v,
            _ => {},
        }
    }

    /// Hands a host-side event to the device.
    pub fn handle_external_event(&mut self, event: <D as ExternalEventHandler>::Event, mem: &mut GuestMemory)
        where D: ExternalEventHandler,
        requires
            old(self).wf(),
        ensures
            final(self).wf(),
            old(self).device().event_effect(
                event,
                old(self).context(),
                old(mem)@,
                final(self).device(),
                final(self).context(),
                final(mem)@,
            ),
            final(self).status() == old(self).status(),
            final(self).queue_sel() == old(self).queue_sel(),
            final(self).pending() == old(self).pending(),
    {
        self.device.on_event(event, &mut self.ctx, mem);
    }
}

/// What a write of `v` to register `reg` does to the transport `t`, giving `u`.
pub open spec fn write_effect<D: Device>(t: &Transport<D>, u: &Transport<D>, reg: Reg, v: u32) -> bool {
    match reg {
        Reg::DeviceFeaturesSel => u.features_sel() == v && u.status() == t.status()
            && u.interrupt_status() == t.interrupt_status() && u.driver_sel() == t.driver_sel()
            && u.queue_sel() == t.queue_sel() && u.shm_sel() == t.shm_sel() && u.device() == t.device()
            && u.queues() == t.queues() && u.pending() == t.pending(),
        Reg::DriverFeaturesSel => u.driver_sel() == v && u.status() == t.status()
            && u.interrupt_status() == t.interrupt_status() && u.features_sel() == t.features_sel()
            && u.queue_sel() == t.queue_sel() && u.shm_sel() == t.shm_sel() && u.device() == t.device()
            && u.queues() == t.queues() && u.pending() == t.pending(),
        Reg::QueueSel => u.queue_sel() == v as u16 && u.status() == t.status()
            && u.interrupt_status() == t.interrupt_status() && u.features_sel() == t.features_sel()
            && u.driver_sel() == t.driver_sel() && u.shm_sel() == t.shm_sel() && u.device() == t.device()
            && u.queues() == t.queues() && u.pending() == t.pending(),
        Reg::ShmSel => u.shm_sel() == v && u.status() == t.status()
            && u.interrupt_status() == t.interrupt_status() && u.features_sel() == t.features_sel()
            && u.driver_sel() == t.driver_sel() && u.queue_sel() == t.queue_sel() && u.device() == t.device()
            && u.queues() == t.queues() && u.pending() == t.pending(),
        Reg::QueueNum => u.pending_set(t, QueuePending { size: v as u16, ..t.sel_pending() }),
        Reg::QueueDescLow => u.pending_set(t, QueuePending { desc_lo: v, ..t.sel_pending() }),
        Reg::QueueDescHigh => u.pending_set(t, QueuePending { desc_hi: v, ..t.sel_pending() }),
        Reg::QueueDriverLow => u.pending_set(t, QueuePending { driver_lo: v, ..t.sel_pending() }),
        Reg::QueueDriverHigh => u.pending_set(t, QueuePending { driver_hi: v, ..t.sel_pending() }),
        Reg::QueueDeviceLow => u.pending_set(t, QueuePending { device_lo: v, ..t.sel_pending() }),
        Reg::QueueDeviceHigh => u.pending_set(t, QueuePending { device_hi: v, ..t.sel_pending() }),
        Reg::QueueReady => u.same_regs(t) && u.device() == t.device() && u.pending() == t.pending()
            && if t.sel_ok() {
            let i = t.queue_sel() as int;
            let p = t.pending()[i];
            u.queues() == t.queues().update(
                i,
                if v == 1 {
                    QueueView {
                        ready: true,
                        size: p.size,
                        desc_addr: queue_addr_spec(p.desc_lo, p.desc_hi),
                        avail_addr: queue_addr_spec(p.driver_lo, p.driver_hi),
                        used_addr: queue_addr_spec(p.device_lo, p.device_hi),
                        last_avail_idx: 0,
                        last_used_idx: 0,
                    }
                } else {
                    QueueView { ready: false, ..t.queues()[i] }
                },
            )
        } else {
            u.queues() == t.queues()
        },
        Reg::QueueNotify => u.status() == t.status() && u.features_sel() == t.features_sel()
            && u.driver_sel() == t.driver_sel() && u.queue_sel() == t.queue_sel() && u.shm_sel()
            == t.shm_sel() && u.pending() == t.pending() && ((v as int) >= t.queues().len() ==> *u
            == *t),
        Reg::InterruptAck => u.interrupt_status() == t.interrupt_status() & !v && u.status()
            == t.status() && u.features_sel() == t.features_sel() && u.driver_sel() == t.driver_sel()
            && u.queue_sel() == t.queue_sel() && u.shm_sel() == t.shm_sel() && u.device() == t.device()
            && u.queues() == t.queues() && u.pending() == t.pending(),
        Reg::Status => if v == 0 {
            u.is_reset() && u.shm_sel() == t.shm_sel() && t.device().reset_effect(u.device())
                && u.queues().len() == t.queues().len() && u.pending().len() == t.pending().len()
        } else {
            u.status() == v && u.interrupt_status() == t.interrupt_status() && u.features_sel()
                == t.features_sel() && u.driver_sel() == t.driver_sel() && u.queue_sel() == t.queue_sel()
                && u.shm_sel() == t.shm_sel() && u.device() == t.device() && u.queues() == t.queues()
                && u.pending() == t.pending()
        },
        _ => *u == *t,
    }
}

impl Transport<crate::virtio::gpu2d::Gpu> {
    /// What the window presents next, from the GPU's frame; the transport's
    /// registers, queues and interrupt status stay as they are.
    pub fn take_display_update(&mut self, last_sequence: u64, front: &mut Vec<u32>) -> (r: Option<
        crate::display::DisplayUpdate,
    >)
        requires
            old(self).wf(),
        ensures
            final(self).wf(),
            final(self).same_regs(old(self)),
            final(self).queues() == old(self).queues(),
            final(self).pending() == old(self).pending(),
            final(self).interrupt_status() == old(self).interrupt_status(),
            final(self).device().gpu_state() == old(self).device().gpu_state(),
            old(self).device().display().wf() ==> crate::display::update_spec(
                old(self).device().display(),
                final(self).device().display(),
                last_sequence,
                old(front)@,
                final(front)@,
                r,
            ),
    {
        self.device.take_update(last_sequence, front)
    }
}

} // verus!
