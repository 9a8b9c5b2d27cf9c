use varmint::devices::{classify, InputTarget, MmioDevice, MmioRoute, PointerCoalescer, RuntimeInputEvent};
use varmint::linux::{parse_image_header, ImageError, ARM64_IMAGE_MAGIC};
use varmint::machine::fdt::{build_fdt, machine_tree, PropValue};
use varmint::machine::{checked_end, gic_layout, validate_boot_layout, GicError, LayoutError, Region};
use varmint::virtio::input::ExternalInput;

#[test]
fn boot_images_must_fit() {
    assert_eq!(validate_boot_layout(512 << 20, 0x100_0000, Some(0x10_0000), 0x1000), Ok(()));
    assert_eq!(
        validate_boot_layout(512 << 20, 0x900_0000, None, 0x1000),
        Err(LayoutError::KernelOverlapsInitrd(0x4900_0000))
    );
    assert_eq!(
        validate_boot_layout(512 << 20, 0x100, Some(0x800_0000), 0x1000),
        Err(LayoutError::InitrdOverlapsFdt(0x5000_0000))
    );
    assert_eq!(
        validate_boot_layout(0x100_0000, 0x100, None, 0x1000),
        Err(LayoutError::FdtPastRam(0x4f00_1000, 0x4100_0000))
    );
    assert_eq!(validate_boot_layout(usize::MAX, 0, None, 0), Err(LayoutError::Overflow(Region::Ram)));
    assert_eq!(checked_end(u64::MAX, 1), None);
}

#[test]
fn gic_must_fit_between_neighbours() {
    assert_eq!(gic_layout(0x10000, 0x100_0000, 0x20000, 8), Ok(0x10_0000));
    assert_eq!(gic_layout(0x10000, 0x100_0000, 0, 8), Err(GicError::NoRedistributorSize));
    assert_eq!(gic_layout(0x10000, 0x40000, 0x20000, 8), Err(GicError::TooManyVcpus(2)));
    assert_eq!(gic_layout(0xa0000, 0x100_0000, 0x20000, 1), Err(GicError::DistributorOverlap));
    assert_eq!(gic_layout(0x10000, 0x1000_0000, 0x100_0000, 8), Err(GicError::RedistributorOverlap));
}

#[test]
fn device_tree_describes_the_machine() {
    let t = machine_tree(1 << 30, 2, "console=ttyAMA0", Some((0x4800_0000, 0x4810_0000)), 0x10000, 0x40000);
    assert_eq!(t.name, "");
    assert_eq!(t.children.len(), 17);
    assert_eq!(t.children[3].name, "cpus");
    assert_eq!(t.children[3].children.len(), 2);
    assert_eq!(t.children[3].children[1].name, "cpu@1");
    assert_eq!(t.children[4].name, "interrupt-controller@8000000");
    assert_eq!(t.children[6].name, "memory@40000000");
    assert_eq!(t.children[8].name, "serial@9000000");
    assert_eq!(t.children[16].name, "virtio_input_mouse@a007000");
    assert_eq!(t.children[1].props.len(), 4);
    match &t.children[1].props[0].value {
        PropValue::Str(s) => assert_eq!(s, "console=ttyAMA0"),
        _ => panic!("bootargs is a string"),
    }
    let ten = machine_tree(1 << 30, 11, "", None, 0x10000, 0x40000);
    assert_eq!(ten.children[3].children[10].name, "cpu@a");
    assert_eq!(ten.children[1].props.len(), 2);
}

#[test]
fn device_tree_blob_has_the_fdt_magic() {
    let blob = build_fdt(1 << 30, 2, "console=ttyAMA0", None, 0x10000, 0x40000).unwrap();
    assert_eq!(&blob[0..4], &[0xd0, 0x0d, 0xfe, 0xed]);
    let total = u32::from_be_bytes(blob[4..8].try_into().unwrap());
    assert_eq!(total as usize, blob.len());
}

#[test]
fn kernel_image_header() {
    let mut image = vec![0u8; 64];
    image[8..16].copy_from_slice(&0x80000u64.to_le_bytes());
    image[16..24].copy_from_slice(&0x1234_0000u64.to_le_bytes());
    image[56..60].copy_from_slice(&ARM64_IMAGE_MAGIC.to_le_bytes());
    let h = parse_image_header(&image).unwrap();
    assert_eq!(h.text_offset, 0x80000);
    assert_eq!(h.image_size, 0x1234_0000);
    assert_eq!(h.magic, ARM64_IMAGE_MAGIC);
    assert_eq!(parse_image_header(&image[..63]), Err(ImageError::TooShort));
    image[56] = 0;
    assert_eq!(parse_image_header(&image), Err(ImageError::BadMagic(0x644d5200)));
}

#[test]
fn mmio_addresses_are_routed() {
    assert_eq!(classify(0x0900_0018), Some(MmioRoute { device: MmioDevice::Uart, offset: 0x18 }));
    assert_eq!(classify(0x0a00_2050), Some(MmioRoute { device: MmioDevice::VirtioGpu, offset: 0x50 }));
    assert_eq!(classify(0x0a00_6fff), Some(MmioRoute { device: MmioDevice::VirtioConsole, offset: 0xfff }));
    assert_eq!(classify(0x0a00_8000), None);
    assert_eq!(classify(0), None);
}

#[test]
fn pointer_moves_are_coalesced() {
    let mut c = PointerCoalescer::new();
    assert!(c.push(RuntimeInputEvent::PointerMove { x: 1, y: 1, width: 10, height: 10 }).is_empty());
    assert!(c.push(RuntimeInputEvent::PointerMove { x: 2, y: 3, width: 10, height: 10 }).is_empty());
    let out = c.push(RuntimeInputEvent::Key { code: 30, pressed: true });
    assert_eq!(out.len(), 2);
    assert_eq!(out[0].0, InputTarget::Tablet);
    assert!(matches!(out[0].1, ExternalInput::AbsPosition { x: 2, y: 3, width: 10, height: 10 }));
    assert_eq!(out[1].0, InputTarget::Keyboard);
    let out = c.push(RuntimeInputEvent::Scroll { horizontal: false, value: -1, relative: true });
    assert_eq!(out.len(), 1);
    assert_eq!(out[0].0, InputTarget::Mouse);
    assert!(c.flush().is_empty());
    c.push(RuntimeInputEvent::PointerMove { x: 5, y: 6, width: 10, height: 10 });
    assert_eq!(c.flush().len(), 1);
}
