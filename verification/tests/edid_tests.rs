use varmint::virtio::edid::{build, checksum, manufacturer_id, millimeters_to_centimeters, write_u16_minus_one, write_u24};

#[test]
fn edid_blocks_check_out() {
    let e = build(1920, 1080, None).unwrap();
    assert_eq!(e.len(), 256);
    assert_eq!(&e[0..8], &[0x00, 0xff, 0xff, 0xff, 0xff, 0xff, 0xff, 0x00]);
    let sum0: u32 = e[0..128].iter().map(|b| *b as u32).sum();
    let sum1: u32 = e[128..256].iter().map(|b| *b as u32).sum();
    assert_eq!(sum0 % 256, 0);
    assert_eq!(sum1 % 256, 0);
}

#[test]
fn edid_helpers() {
    assert_eq!(checksum(&[1, 2, 3]), 250);
    assert_eq!(write_u24(0x123456), Some(vec![0x56, 0x34, 0x12]));
    assert_eq!(write_u24(0x1000000), None);
    assert_eq!(write_u16_minus_one(0), None);
    assert_eq!(write_u16_minus_one(0x100), Some(vec![0xff, 0x00]));
    assert_eq!(millimeters_to_centimeters(155), 15);
    assert_eq!(millimeters_to_centimeters(9999), 255);
    assert_eq!(manufacturer_id(b"VMT"), vec![0x59, 0xb4]);
}

#[test]
fn edid_refuses_zero_and_oversized_displays() {
    assert!(build(0, 768, None).is_none());
    assert!(build(1024, 0, None).is_none());
    assert!(build(32768, 100, None).is_none());
    assert!(build(100, 32768, None).is_none());
    assert!(build(32767, 32767, None).is_none());
    assert!(build(1024, 768, None).is_some());
    assert!(build(2000, 2000, None).is_some());
}

#[test]
fn manufacturer_letters_past_underscore_spill_over() {
    assert_eq!(manufacturer_id(b"VMa"), vec![0x59, 0xa1]);
    assert_eq!(manufacturer_id(b"AaA"), vec![0x04, 0x21]);
    assert_eq!(manufacturer_id(&[255, 64, 64]), vec![0xfc, 0x00]);
}
