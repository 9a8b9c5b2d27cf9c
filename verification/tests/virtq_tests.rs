use varmint::memory::GuestMemory;
use varmint::virtio::device::{ChainToken, DeviceContext};
use varmint::virtio::virtq::{Queue, DESC_F_NEXT, DESC_F_WRITE};

const DESC: u64 = 0x1000;
const AVAIL: u64 = 0x2000;
const USED: u64 = 0x3000;

fn put_desc(m: &mut GuestMemory, i: u64, addr: u64, len: u32, flags: u16, next: u16) {
    let base = DESC + i * 16;
    m.write(base, &addr.to_le_bytes()).unwrap();
    m.write_u32(base + 8, len).unwrap();
    m.write_u16(base + 12, flags).unwrap();
    m.write_u16(base + 14, next).unwrap();
}

fn guest() -> GuestMemory {
    let mut m = GuestMemory::new(0x10000);
    m.map(0);
    put_desc(&mut m, 0, 0x4000, 4, DESC_F_NEXT, 1);
    put_desc(&mut m, 1, 0x5000, 8, DESC_F_WRITE, 0);
    m.write(0x4000, &[9, 8, 7, 6]).unwrap();
    m.write_u16(AVAIL + 4, 0).unwrap();
    m.write_u16(AVAIL + 2, 1).unwrap();
    m
}

#[test]
fn a_chain_is_taken_and_returned() {
    let mut m = guest();
    let mut q = Queue::new(true, 8, DESC, AVAIL, USED);
    let head = q.pop_chain(&m).unwrap();
    assert_eq!(head, 0);
    assert_eq!(q.pop_chain(&m), None);
    let chain = q.collect_chain(head, &m).unwrap();
    assert_eq!(chain.readable_len(), 4);
    assert_eq!(chain.readable.len(), 1);
    assert_eq!(chain.writable.len(), 1);
    assert_eq!(chain.read_at(0, 4, &m), Some(vec![9, 8, 7, 6]));
    assert_eq!(chain.read_at(2, 4, &m), None);
    let written = chain.write_response(&[1, 2, 3], &mut m);
    assert_eq!(written, 3);
    assert_eq!(m.read(0x5000, 4).unwrap(), vec![1, 2, 3, 0]);
    q.push_used(&mut m, head, written);
    assert_eq!(m.read_u16(USED + 2).unwrap(), 1);
    assert_eq!(m.read_u32(USED + 4).unwrap(), 0);
    assert_eq!(m.read_u32(USED + 8).unwrap(), 3);
}

#[test]
fn descriptor_fields() {
    let m = guest();
    let q = Queue::new(true, 8, DESC, AVAIL, USED);
    let d0 = q.read_desc(0, &m).unwrap();
    assert_eq!(d0.next(), Some(1));
    assert!(!d0.is_writable());
    let d1 = q.read_desc(1, &m).unwrap();
    assert_eq!(d1.next(), None);
    assert!(d1.is_writable());
    assert!(q.read_desc(8, &m).is_none());
}

#[test]
fn reset_makes_a_queue_idle() {
    let mut q = Queue::new(true, 8, DESC, AVAIL, USED);
    q.reset();
    assert!(!q.is_ready());
    assert_eq!(q.size(), 0);
}

#[test]
fn deliver_fills_and_completes_a_chain() {
    let mut m = guest();
    let mut ctx = DeviceContext::new(1);
    ctx.queues[0] = Queue::new(true, 8, DESC, AVAIL, USED);
    let data: &[u8] = &[5, 6];
    assert!(ctx.deliver(0, &[data], &mut m));
    assert_eq!(m.read(0x5000, 2).unwrap(), vec![5, 6]);
    assert_eq!(m.read_u32(USED + 8).unwrap(), 2);
    assert_eq!(ctx.interrupt_status, 1);
    assert!(!ctx.deliver(0, &[data], &mut m));
    ctx.complete(ChainToken { queue_idx: 5, head_idx: 0 }, 1, &mut m);
    assert_eq!(m.read_u16(USED + 2).unwrap(), 1);
}
