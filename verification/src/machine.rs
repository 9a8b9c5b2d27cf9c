//! The guest's physical memory map and the device tree that describes it.
use vstd::prelude::*;

pub mod fdt;

verus! {

pub const RAM_START: u64 = 0x40000000;

pub const KERNEL_TEXT_OFFSET: u64 = 0x0;

pub const IMAGE_START: u64 = 0x40000000;

pub const INITRD_START: u64 = 0x48000000;

pub const DTB_START: u64 = 0x4F000000;

pub const GICD_START: u64 = 0x08000000;

pub const GICR_START: u64 = 0x080A0000;

pub const UART_START: u64 = 0x09000000;

pub const UART_SIZE: u64 = 0x1000;

pub const UART_SPI_OFFSET: u32 = 1;

pub const VIRTBLK_START: u64 = 0x0a000000;

pub const VIRTBLK_SIZE: u64 = 0x1000;

pub const VIRTBLK_SPI_OFFSET: u32 = 32;

pub const VIRTNET_START: u64 = 0x0a001000;

pub const VIRTNET_SIZE: u64 = 0x1000;

pub const VIRTNET_SPI_OFFSET: u32 = 33;

pub const VIRTGPU_START: u64 = 0x0a002000;

pub const VIRTGPU_SIZE: u64 = 0x1000;

pub const VIRTGPU_SPI_OFFSET: u32 = 34;

pub const VIRTINPUT_KEYBOARD_START: u64 = 0x0a003000;

pub const VIRTINPUT_KEYBOARD_SIZE: u64 = 0x1000;

pub const VIRTINPUT_KEYBOARD_SPI_OFFSET: u32 = 35;

pub const VIRTINPUT_TABLET_START: u64 = 0x0a004000;

pub const VIRTINPUT_TABLET_SIZE: u64 = 0x1000;

pub const VIRTINPUT_TABLET_SPI_OFFSET: u32 = 36;

pub const VIRTSND_START: u64 = 0x0a005000;

pub const VIRTSND_SIZE: u64 = 0x1000;

pub const VIRTSND_SPI_OFFSET: u32 = 37;

pub const VIRTCONSOLE_START: u64 = 0x0a006000;

pub const VIRTCONSOLE_SIZE: u64 = 0x1000;

pub const VIRTCONSOLE_SPI_OFFSET: u32 = 38;

pub const VIRTINPUT_MOUSE_START: u64 = 0x0a007000;

pub const VIRTINPUT_MOUSE_SIZE: u64 = 0x1000;

pub const VIRTINPUT_MOUSE_SPI_OFFSET: u32 = 39;

pub const GIC_PHANDLE: u32 = 1;

pub const CLOCK_PHANDLE: u32 = 2;

/// The end of `[start, start + len)`, if it fits in 64 bits.
pub fn checked_end(start: u64, len: usize) -> (r: Option<u64>)
    ensures
        match r {
            Some(e) => e == start + len,
            None => start + len > u64::MAX,
        },
{
    start.checked_add(len as u64)
}

/// Which boot region a layout error is about.
#[derive(Debug, Clone, Copy, PartialEq, Eq)]
pub enum Region {
    Ram,
    Kernel,
    Initrd,
    Fdt,
}

/// Why the boot images do not fit the memory map.
#[derive(Debug, Clone, Copy, PartialEq, Eq)]
pub enum LayoutError {
    /// The region's end does not fit in 64 bits.
    Overflow(Region),
    /// The kernel, ending here, runs into the initrd's place.
    KernelOverlapsInitrd(u64),
    /// The initrd, ending here, runs into the device tree's place.
    InitrdOverlapsFdt(u64),
    /// The device tree ends here, past the end of RAM.
    FdtPastRam(u64, u64),
}

/// The first way in which the boot images fail to fit, if any.
pub open spec fn layout_spec(memory_size: int, image_size: int, initrd: Option<int>, dtb_size: int) -> Option<
    LayoutError,
> {
    let ram_end = RAM_START + memory_size;
    let image_end = IMAGE_START + image_size;
    let dtb_end = DTB_START + dtb_size;
    if ram_end > u64::MAX {
        Some(LayoutError::Overflow(Region::Ram))
    } else if image_end > u64::MAX {
        Some(LayoutError::Overflow(Region::Kernel))
    } else if image_end > INITRD_START {
        Some(LayoutError::KernelOverlapsInitrd(image_end as u64))
    } else if initrd is Some && INITRD_START + initrd->0 > u64::MAX {
        Some(LayoutError::Overflow(Region::Initrd))
    } else if initrd is Some && INITRD_START + initrd->0 > DTB_START {
        Some(LayoutError::InitrdOverlapsFdt((INITRD_START + initrd->0) as u64))
    } else if dtb_end > u64::MAX {
        Some(LayoutError::Overflow(Region::Fdt))
    } else if dtb_end > ram_end {
        Some(LayoutError::FdtPastRam(dtb_end as u64, ram_end as u64))
    } else {
        None
    }
}

/// Checks that the kernel, the initrd and the device tree each fit in RAM
/// before the next one's place.
pub fn validate_boot_layout(memory_size: usize, image_size: usize, initrd: Option<usize>, dtb_size: usize) -> (r:
    Result<(), LayoutError>)
    ensures
        match r {
            Ok(()) => layout_spec(
                memory_size as int,
                image_size as int,
                match initrd {
                    Some(n) => Some(n as int),
                    None => None,
                },
                dtb_size as int,
            ) is None,
            Err(e) => layout_spec(
                memory_size as int,
                image_size as int,
                match initrd {
                    Some(n) => Some(n as int),
                    None => None,
                },
                dtb_size as int,
            ) == Some(e),
        },
{
    let ram_end = match checked_end(RAM_START, memory_size) {
        Some(e) => e,
        None => return Err(LayoutError::Overflow(Region::Ram)),
    };
    let image_end = match checked_end(IMAGE_START, image_size) {
        Some(e) => e,
        None => return Err(LayoutError::Overflow(Region::Kernel)),
    };
    if image_end > INITRD_START {
        return Err(LayoutError::KernelOverlapsInitrd(image_end));
    }
    if let Some(n) = initrd {
        let initrd_end = match checked_end(INITRD_START, n) {
            Some(e) => e,
            None => return Err(LayoutError::Overflow(Region::Initrd)),
        };
        if initrd_end > DTB_START {
            return Err(LayoutError::InitrdOverlapsFdt(initrd_end));
        }
    }
    let dtb_end = match checked_end(DTB_START, dtb_size) {
        Some(e) => e,
        None => return Err(LayoutError::Overflow(Region::Fdt)),
    };
    if dtb_end > ram_end {
        return Err(LayoutError::FdtPastRam(dtb_end, ram_end));
    }
    Ok(())
}

/// Why the interrupt controller cannot serve the VM.
#[derive(Debug, Clone, Copy, PartialEq, Eq)]
pub enum GicError {
    /// The hypervisor reports redistributors of size zero.
    NoRedistributorSize,
    /// More vCPUs than the redistributor region has room for; the limit.
    TooManyVcpus(u64),
    /// The distributor runs into the redistributors.
    DistributorOverlap,
    /// The redistributors run into the UART.
    RedistributorOverlap,
}

/// The size of the redistributor region of `vcpus` vCPUs, or why the GIC
/// layout fails.
pub open spec fn gic_spec(gicd_size: u64, gicr_region_size: u64, gicr_stride: u64, vcpus: u64) -> Result<u64, GicError> {
    if gicr_stride == 0 {
        Err(GicError::NoRedistributorSize)
    } else if vcpus > gicr_region_size / gicr_stride {
        Err(GicError::TooManyVcpus(gicr_region_size / gicr_stride))
    } else if !(GICR_START > GICD_START + gicd_size) {
        Err(GicError::DistributorOverlap)
    } else if !(UART_START >= GICR_START + gicr_stride * vcpus) {
        Err(GicError::RedistributorOverlap)
    } else {
        Ok((gicr_stride * vcpus) as u64)
    }
}

/// Sizes the redistributor region for `vcpus` vCPUs and checks that the GIC
/// fits between its neighbours.
pub fn gic_layout(gicd_size: u64, gicr_region_size: u64, gicr_stride: u64, vcpus: u64) -> (r: Result<u64, GicError>)
    ensures
        r == gic_spec(gicd_size, gicr_region_size, gicr_stride, vcpus),
{
    if gicr_stride == 0 {
        return Err(GicError::NoRedistributorSize);
    }
    let max_vcpus = gicr_region_size / gicr_stride;
    if vcpus > max_vcpus {
        return Err(GicError::TooManyVcpus(max_vcpus));
    }
    if gicd_size >= GICR_START - GICD_START {
        return Err(GicError::DistributorOverlap);
    }
    assert(gicr_stride * vcpus <= gicr_region_size) by (nonlinear_arith)
        requires
            gicr_stride > 0,
            vcpus <= gicr_region_size / gicr_stride,
    ;
    let gicr_size = gicr_stride * vcpus;
    if gicr_size > UART_START - GICR_START {
        return Err(GicError::RedistributorOverlap);
    }
    Ok(gicr_size)
}

} // verus!
