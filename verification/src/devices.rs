//! Routing of guest MMIO accesses to devices, and of host input to the
//! input devices.
use crate::irq::IrqLine;
use crate::machine::{
    UART_SIZE, UART_START, VIRTBLK_SIZE, VIRTBLK_START, VIRTCONSOLE_SIZE, VIRTCONSOLE_START, VIRTGPU_SIZE,
    VIRTGPU_START, VIRTINPUT_KEYBOARD_SIZE, VIRTINPUT_KEYBOARD_START, VIRTINPUT_MOUSE_SIZE,
    VIRTINPUT_MOUSE_START, VIRTINPUT_TABLET_SIZE, VIRTINPUT_TABLET_START, VIRTNET_SIZE, VIRTNET_START,
    VIRTSND_SIZE, VIRTSND_START,
};
use crate::memory::GuestMemory;
use crate::virtio::input::ExternalInput;
use crate::virtio::mmio::{needs_queue, read_spec, valid_access, write_spec, Device, Transport};
use vstd::prelude::*;

verus! {

/// The devices behind the MMIO window.
#[derive(Debug, Copy, Clone, PartialEq, Eq)]
pub enum MmioDevice {
    Uart,
    VirtioBlk,
    VirtioNet,
    VirtioGpu,
    VirtioInputKeyboard,
    VirtioInputTablet,
    VirtioInputMouse,
    VirtioSnd,
    VirtioConsole,
}

/// A device and the offset into its registers.
#[derive(Debug, Copy, Clone, PartialEq, Eq)]
pub struct MmioRoute {
    pub device: MmioDevice,
    pub offset: u64,
}

/// The regions of the MMIO window, in the order they are searched: base,
/// size, device.
pub open spec fn regions() -> Seq<(u64, u64, MmioDevice)> {
    seq![
        (UART_START, UART_SIZE, MmioDevice::Uart),
        (VIRTBLK_START, VIRTBLK_SIZE, MmioDevice::VirtioBlk),
        (VIRTNET_START, VIRTNET_SIZE, MmioDevice::VirtioNet),
        (VIRTGPU_START, VIRTGPU_SIZE, MmioDevice::VirtioGpu),
        (VIRTINPUT_KEYBOARD_START, VIRTINPUT_KEYBOARD_SIZE, MmioDevice::VirtioInputKeyboard),
        (VIRTINPUT_TABLET_START, VIRTINPUT_TABLET_SIZE, MmioDevice::VirtioInputTablet),
        (VIRTINPUT_MOUSE_START, VIRTINPUT_MOUSE_SIZE, MmioDevice::VirtioInputMouse),
        (VIRTSND_START, VIRTSND_SIZE, MmioDevice::VirtioSnd),
        (VIRTCONSOLE_START, VIRTCONSOLE_SIZE, MmioDevice::VirtioConsole),
    ]
}

/// The route of `addr`: the first region that holds it.
pub open spec fn route_spec(addr: u64) -> Option<MmioRoute>
{
    route_from(addr, 0)
}

pub open spec fn route_from(addr: u64, i: nat) -> Option<MmioRoute>
    decreases regions().len() - i,
{
    if i >= regions().len() {
        None
    } else {
        let (base, size, dev) = regions()[i as int];
        if base <= addr < base + size {
            Some(MmioRoute { device: dev, offset: (addr - base) as u64 })
        } else {
            route_from(addr, i + 1)
        }
    }
}

fn region_at(i: usize) -> (r: (u64, u64, MmioDevice))
    requires
        i < 9,
    ensures
        r == regions()[i as int],
{
    if i == 0 {
        (UART_START, UART_SIZE, MmioDevice::Uart)
    } else if i == 1 {
        (VIRTBLK_START, VIRTBLK_SIZE, MmioDevice::VirtioBlk)
    } else if i == 2 {
        (VIRTNET_START, VIRTNET_SIZE, MmioDevice::VirtioNet)
    } else if i == 3 {
        (VIRTGPU_START, VIRTGPU_SIZE, MmioDevice::VirtioGpu)
    } else if i == 4 {
        (VIRTINPUT_KEYBOARD_START, VIRTINPUT_KEYBOARD_SIZE, MmioDevice::VirtioInputKeyboard)
    } else if i == 5 {
        (VIRTINPUT_TABLET_START, VIRTINPUT_TABLET_SIZE, MmioDevice::VirtioInputTablet)
    } else if i == 6 {
        (VIRTINPUT_MOUSE_START, VIRTINPUT_MOUSE_SIZE, MmioDevice::VirtioInputMouse)
    } else if i == 7 {
        (VIRTSND_START, VIRTSND_SIZE, MmioDevice::VirtioSnd)
    } else {
        (VIRTCONSOLE_START, VIRTCONSOLE_SIZE, MmioDevice::VirtioConsole)
    }
}

/// Finds the device that a guest physical address belongs to.
pub fn classify(phys_addr: u64) -> (r: Option<MmioRoute>)
    ensures
        r == route_spec(phys_addr),
{
    let mut i: usize = 0;
    while i < 9
        invariant
            i <= 9,
            route_from(phys_addr, i as nat) == route_spec(phys_addr),
        decreases 9 - i,
    {
        let (base, size, device) = region_at(i);
        if base <= phys_addr && phys_addr < base + size {
            return Some(MmioRoute { device, offset: phys_addr - base });
        }
        i = i + 1;
    }
    None
}

/// The regions do not overlap: an address belongs to at most one device.
pub proof fn lemma_regions_disjoint(i: int, j: int)
    requires
        0 <= i < j < regions().len(),
    ensures
        regions()[i].0 + regions()[i].1 <= regions()[j].0 || regions()[j].0 + regions()[j].1
            <= regions()[i].0,
{
}

/// A guest access to a virtio device's registers: a read gives the value, a
/// write gives nothing; the second part is the new level of the device's
/// interrupt line where it changes.
pub fn handle_virtio_mmio<D: Device>(
    dev: &mut Transport<D>,
    irq: &mut IrqLine,
    offset: u64,
    size: usize,
    is_write: bool,
    value: u64,
    mem: &mut GuestMemory,
) -> (r: (Option<u64>, Option<bool>))
    requires
        old(dev).wf(),
        valid_access(offset, size),
        needs_queue(offset, is_write) ==> old(dev).sel_ok(),
    ensures
        final(dev).wf(),
        is_write ==> r.0 is None && write_spec(old(dev), final(dev), old(mem)@, final(mem)@, offset, value),
        !is_write ==> (r.0 matches Some(v) && v == read_spec(old(dev), offset, size)),
        !is_write ==> *final(dev) == *old(dev) && final(mem)@ == old(mem)@,
        final(irq).level() == (final(dev).interrupt_status() != 0),
        r.1 == (if final(irq).level() != old(irq).level() {
            Some(final(irq).level())
        } else {
            None::<bool>
        }),
        final(irq).intid() == old(irq).intid(),
{
    let result = if is_write {
        dev.write(offset, size, value, mem);
        None
    } else {
        Some(dev.read(offset, size))
    };
    let level = dev.is_asserted();
    let change = if irq.set(level) {
        Some(level)
    } else {
        None
    };
    (result, change)
}

/// Where a host input goes.
#[derive(Debug, Copy, Clone, PartialEq, Eq)]
pub enum InputTarget {
    Keyboard,
    Tablet,
    Mouse,
}

/// Input from the host window.
pub enum RuntimeInputEvent {
    Key { code: u16, pressed: bool },
    PointerMove { x: u32, y: u32, width: u32, height: u32 },
    PointerButton { button: u16, pressed: bool, relative: bool },
    Scroll { horizontal: bool, value: i32, relative: bool },
    RelativeMouseMotion { dx: i32, dy: i32 },
}

/// What host threads hand to the machine: a frame from the host network, a
/// byte typed on the terminal, window input, a new window size, a new host
/// clipboard, and a sound period that the output has played.
pub enum RuntimeEvent {
    NetRx(Vec<u8>),
    UartRx(u8),
    Input(RuntimeInputEvent),
    DisplayResized { width: u32, height: u32 },
    Clipboard(Vec<u8>),
    PeriodElapsed(u64),
}

/// Coalesces pointer moves: only the last position before another input,
/// or before the end of a batch of events, reaches the tablet.
pub struct PointerCoalescer {
    pending: Option<(u32, u32, u32, u32)>,
}

/// The tablet input for a pending position.
pub open spec fn flush_spec(pending: Option<(u32, u32, u32, u32)>) -> Seq<(InputTarget, ExternalInput)> {
    match pending {
        Some((x, y, w, h)) => seq![
            (InputTarget::Tablet, ExternalInput::AbsPosition { x, y, width: w, height: h }),
        ],
        None => Seq::empty(),
    }
}

/// Where a host input goes, other than a pointer move, and as what.
pub open spec fn routed(e: RuntimeInputEvent) -> Option<(InputTarget, ExternalInput)> {
    match e {
        RuntimeInputEvent::Key { code, pressed } => Some(
            (InputTarget::Keyboard, ExternalInput::Key { code, pressed }),
        ),
        RuntimeInputEvent::PointerButton { button, pressed, relative } => Some(
            (
                if relative {
                    InputTarget::Mouse
                } else {
                    InputTarget::Tablet
                },
                ExternalInput::PointerButton { button, pressed },
            ),
        ),
        RuntimeInputEvent::Scroll { horizontal, value, relative } => Some(
            (
                if relative {
                    InputTarget::Mouse
                } else {
                    InputTarget::Tablet
                },
                ExternalInput::Scroll { horizontal, value },
            ),
        ),
        RuntimeInputEvent::RelativeMouseMotion { dx, dy } => Some(
            (InputTarget::Mouse, ExternalInput::RelMotion { dx, dy }),
        ),
        RuntimeInputEvent::PointerMove { .. } => None,
    }
}

impl PointerCoalescer {
    /// The position that waits for the tablet.
    pub closed spec fn pending(&self) -> Option<(u32, u32, u32, u32)> {
        self.pending
    }

    pub fn new() -> (r: PointerCoalescer)
        ensures
            r.pending() is None,
    {
        PointerCoalescer { pending: None }
    }

    /// Takes one host input: a pointer move waits; any other input first
    /// sends the waiting position, then itself.
    pub fn push(&mut self, event: RuntimeInputEvent) -> (r: Vec<(InputTarget, ExternalInput)>)
        ensures
            match event {
                RuntimeInputEvent::PointerMove { x, y, width, height } => {
                    &&& r@.len() == 0
                    &&& final(self).pending() == Some((x, y, width, height))
                },
                _ => {
                    &&& r@ == flush_spec(old(self).pending()).push(routed(event)->0)
                    &&& final(self).pending() is None
                },
            },
    {
        let routed_input = match event {
            RuntimeInputEvent::PointerMove { x, y, width, height } => {
                self.pending = Some((x, y, width, height));
                return Vec::new();
            },
            RuntimeInputEvent::Key { code, pressed } => (
                InputTarget::Keyboard,
                ExternalInput::Key { code, pressed },
            ),
            RuntimeInputEvent::PointerButton { button, pressed, relative } => (
                if relative {
                    InputTarget::Mouse
                } else {
                    InputTarget::Tablet
                },
                ExternalInput::PointerButton { button, pressed },
            ),
            RuntimeInputEvent::Scroll { horizontal, value, relative } => (
                if relative {
                    InputTarget::Mouse
                } else {
                    InputTarget::Tablet
                },
                ExternalInput::Scroll { horizontal, value },
            ),
            RuntimeInputEvent::RelativeMouseMotion { dx, dy } => (
                InputTarget::Mouse,
                ExternalInput::RelMotion { dx, dy },
            ),
        };
        let mut r = self.flush();
        r.push(routed_input);
        r
    }

    /// Ends a batch: sends the waiting position, if any.
    pub fn flush(&mut self) -> (r: Vec<(InputTarget, ExternalInput)>)
        ensures
            r@ == flush_spec(old(self).pending()),
            final(self).pending() is None,
    {
        let mut r: Vec<(InputTarget, ExternalInput)> = Vec::new();
        match self.pending {
            Some((x, y, width, height)) => {
                r.push((InputTarget::Tablet, ExternalInput::AbsPosition { x, y, width, height }));
            },
            None => {},
        }
        self.pending = None;
        proof {
            assert(r@ =~= flush_spec(old(self).pending()));
        }
        r
    }
}

} // verus!
