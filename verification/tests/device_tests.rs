use varmint::memory::GuestMemory;
use varmint::virtio::device::DeviceContext;
use varmint::virtio::input::{ExternalInput, Input, EV_ABS, EV_KEY, EV_SYN, QUEUE_EVENT, SELECT_EV_BITS, SELECT_ID_NAME};
use varmint::virtio::mmio::{queue_addr, Device, ExternalEventHandler, Transport, MAGIC, VERSION};
use varmint::virtio::virtq::{Queue, DESC_F_WRITE};

#[test]
fn transport_identifies_itself() {
    let t = Transport::new(Input::keyboard());
    assert_eq!(t.read(0x000, 4), MAGIC as u64);
    assert_eq!(t.read(0x004, 4), VERSION as u64);
    assert_eq!(t.read(0x008, 4), 18);
    assert_eq!(t.read(0x0ff, 4), 0);
    assert!(!t.is_asserted());
}

#[test]
fn queue_address_halves() {
    assert_eq!(queue_addr(0x8000_0000, 0x1), 0x1_8000_0000);
    assert_eq!(queue_addr(0, 0), 0);
}

#[test]
fn keyboard_name_in_config() {
    let mut k = Input::keyboard();
    k.write_config(0, &[SELECT_ID_NAME, 0]);
    let cfg = k.read_config();
    assert_eq!(cfg.len(), 136);
    assert_eq!(cfg[0], SELECT_ID_NAME);
    assert_eq!(cfg[2], 16);
    assert_eq!(&cfg[8..24], b"varmint keyboard");
    assert!(cfg[24..].iter().all(|b| *b == 0));
}

#[test]
fn tablet_reports_absolute_axes() {
    let mut t = Input::tablet();
    t.write_config(0, &[SELECT_EV_BITS]);
    t.write_config(1, &[EV_ABS as u8]);
    let cfg = t.read_config();
    assert_eq!(cfg[2], 1);
    assert_eq!(cfg[8], 0b11);
    let mut k = Input::keyboard();
    k.write_config(0, &[SELECT_EV_BITS, EV_KEY as u8]);
    let cfg = k.read_config();
    assert_eq!(cfg[2], 14);
    assert_eq!(cfg[8], 0b1111_1110);
    assert_eq!(cfg[8 + 12], 0b1101_0111);
    assert_eq!(cfg[8 + 13], 0xff);
    k.reset();
    assert_eq!(k.read_config()[0], 0);
}

fn event_guest() -> (GuestMemory, DeviceContext) {
    let mut m = GuestMemory::new(0x10000);
    m.map(0);
    for i in 0..4u64 {
        let base = 0x1000 + i * 16;
        m.write(base, &(0x4000 + i * 0x100).to_le_bytes()).unwrap();
        m.write_u32(base + 8, 8).unwrap();
        m.write_u16(base + 12, DESC_F_WRITE).unwrap();
        m.write_u16(0x2004 + 2 * i, i as u16).unwrap();
    }
    m.write_u16(0x2002, 4).unwrap();
    let mut ctx = DeviceContext::new(2);
    ctx.queues[QUEUE_EVENT] = Queue::new(true, 8, 0x1000, 0x2000, 0x3000);
    (m, ctx)
}

#[test]
fn key_press_becomes_two_events() {
    let (mut m, mut ctx) = event_guest();
    let mut k = Input::keyboard();
    k.on_event(ExternalInput::Key { code: 30, pressed: true }, &mut ctx, &mut m);
    assert_eq!(m.read(0x4000, 8).unwrap(), vec![1, 0, 30, 0, 1, 0, 0, 0]);
    assert_eq!(m.read(0x4100, 8).unwrap(), vec![EV_SYN as u8, 0, 0, 0, 0, 0, 0, 0]);
    assert_eq!(m.read_u16(0x3002).unwrap(), 2);
}

#[test]
fn pointer_position_is_scaled() {
    let (mut m, mut ctx) = event_guest();
    let mut t = Input::tablet();
    t.on_event(ExternalInput::AbsPosition { x: 50, y: 100, width: 101, height: 201 }, &mut ctx, &mut m);
    let x = u32::from_le_bytes(m.read(0x4004, 4).unwrap().try_into().unwrap());
    let y = u32::from_le_bytes(m.read(0x4104, 4).unwrap().try_into().unwrap());
    assert_eq!(x, 50 * 32767 / 100);
    assert_eq!(y, 100 * 32767 / 200);
    t.on_event(ExternalInput::AbsPosition { x: 1, y: 1, width: 1, height: 10 }, &mut ctx, &mut m);
    assert_eq!(m.read_u16(0x3002).unwrap(), 3);
}

#[test]
fn queue_registers_need_a_selected_queue() {
    let mut t = Transport::new(Input::keyboard());
    let mut m = GuestMemory::new(0x1000);
    assert!(t.access_ok(0x044, 4, true));
    assert!(t.access_ok(0x044, 4, false));
    assert!(!t.access_ok(0x044, 2, true));
    t.write(0x030, 4, 7, &mut m);
    assert!(!t.access_ok(0x044, 4, true));
    assert!(!t.access_ok(0x044, 4, false));
    assert!(!t.access_ok(0x038, 4, true));
    assert!(t.access_ok(0x038, 4, false));
    assert!(t.access_ok(0x050, 4, true));
}
