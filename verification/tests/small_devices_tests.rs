use varmint::irq::IrqLine;
use varmint::memory::GuestMemory;
use varmint::stdio::{SerialEscape, SerialInput};
use varmint::uart::{Uart, UartEffect, UART_DR, UART_FR, UART_IMSC, UART_MIS, UART_RIS};
use varmint::virtio::blk::{grown_size, Blk, BlkError, DiskBackend};
use varmint::virtio::chain::{ChainData, Seg};
use varmint::virtio::device::ChainAction;
use varmint::virtio::mmio::Device;
use varmint::virtio::net::{plain_rx_hdr, tx_frame, FrameSink, Net};
use varmint::virtio::snd::{Request, Snd, PeriodSink, STATUS_BAD_MSG, STATUS_OK, STATUS_NOT_SUPP};
use std::cell::RefCell;

#[test]
fn uart_receive_interrupt_follows_the_mask() {
    let mut u = Uart::new(IrqLine::new(33));
    assert_eq!(u.read(UART_FR), (0x90, None));
    assert_eq!(u.enqueue(b'a'), None);
    assert_eq!(u.read(UART_RIS).0, 0x10);
    assert_eq!(u.read(UART_MIS).0, 0);
    assert_eq!(u.write(UART_IMSC, 0x10), UartEffect { serial: None, irq: Some(true) });
    assert_eq!(u.read(UART_FR).0, 0x80);
    assert_eq!(u.read(UART_DR), (b'a' as u32, Some(false)));
    assert_eq!(u.read(UART_DR), (0, None));
    assert_eq!(u.write(UART_DR, 0x141), UartEffect { serial: Some(0x41), irq: None });
}

#[test]
fn irq_line_reports_changes_only() {
    let mut l = IrqLine::new(7);
    assert_eq!(l.id(), 7);
    assert!(!l.set(false));
    assert!(l.set(true));
    assert!(!l.set(true));
}

#[test]
fn serial_escape_detaches() {
    let mut e = SerialEscape::new();
    assert_eq!(e.feed(b'x'), SerialInput::Forward(b'x'));
    assert_eq!(e.feed(0x1d), SerialInput::Prefix);
    assert_eq!(e.feed(b'q'), SerialInput::Unknown(b'q'));
    assert_eq!(e.feed(0x1d), SerialInput::Prefix);
    assert_eq!(e.feed(b'x'), SerialInput::Detach);
}

struct MemDisk {
    data: RefCell<Vec<u8>>,
    syncs: RefCell<u32>,
}

impl DiskBackend for MemDisk {
    fn read_at(&self, len: usize, offset: u64) -> Option<Vec<u8>> {
        let d = self.data.borrow();
        let start = offset as usize;
        if start >= d.len() {
            return Some(Vec::new());
        }
        Some(d[start..(start + len).min(d.len())].to_vec())
    }
    fn write_at(&self, data: &[u8], offset: u64) -> bool {
        let mut d = self.data.borrow_mut();
        let start = offset as usize;
        if start + data.len() > d.len() {
            return false;
        }
        d[start..start + data.len()].copy_from_slice(data);
        true
    }
    fn sync_all(&self) -> bool {
        *self.syncs.borrow_mut() += 1;
        true
    }
}

fn disk() -> MemDisk {
    MemDisk { data: RefCell::new((0..1024u32).map(|i| i as u8).collect()), syncs: RefCell::new(0) }
}

fn blk_request(m: &mut GuestMemory, ty: u32, sector: u64, data: Option<&[u8]>, read_len: u32) -> ChainData {
    let mut hdr = ty.to_le_bytes().to_vec();
    hdr.extend_from_slice(&0u32.to_le_bytes());
    hdr.extend_from_slice(&sector.to_le_bytes());
    m.write(0x1000, &hdr).unwrap();
    let mut readable = vec![Seg { addr: 0x1000, len: 16 }];
    let mut readable_len = 16;
    if let Some(d) = data {
        m.write(0x2000, d).unwrap();
        readable.push(Seg { addr: 0x2000, len: d.len() as u32 });
        readable_len += d.len();
    }
    let mut writable = Vec::new();
    if read_len > 0 {
        writable.push(Seg { addr: 0x3000, len: read_len });
    }
    writable.push(Seg { addr: 0x4000, len: 1 });
    ChainData { readable, readable_len, writable }
}

#[test]
fn block_reads_writes_and_flushes() {
    assert_eq!(Blk::new(disk(), 1000).err(), Some(BlkError::InvalidSize(1000)));
    assert_eq!(Blk::new(disk(), 0).err(), Some(BlkError::InvalidSize(0)));
    let mut b = Blk::new(disk(), 1024).unwrap();
    assert_eq!(b.read_config(), vec![2, 0, 0, 0, 0, 0, 0, 0]);
    let mut m = GuestMemory::new(0x10000);
    m.map(0);
    m.write_u8(0x4000, 0xff).unwrap();
    let c = blk_request(&mut m, 0, 1, None, 4);
    assert!(matches!(b.process_chain(&c, &mut m), ChainAction::Complete(5)));
    assert_eq!(m.read(0x3000, 4).unwrap(), vec![0, 1, 2, 3]);
    assert_eq!(m.read(0x4000, 1).unwrap(), vec![0]);
    let c = blk_request(&mut m, 1, 0, Some(&[9, 9]), 0);
    assert!(matches!(b.process_chain(&c, &mut m), ChainAction::Complete(1)));
    assert_eq!(m.read(0x4000, 1).unwrap(), vec![0]);
    let c = blk_request(&mut m, 4, 0, None, 0);
    assert!(matches!(b.process_chain(&c, &mut m), ChainAction::Complete(1)));
    let c = blk_request(&mut m, 8, 0, None, 0);
    assert!(matches!(b.process_chain(&c, &mut m), ChainAction::Complete(1)));
    assert_eq!(m.read(0x4000, 1).unwrap(), vec![2]);
    let c = blk_request(&mut m, 0, u64::MAX, None, 4);
    assert!(matches!(b.process_chain(&c, &mut m), ChainAction::Complete(1)));
    assert_eq!(m.read(0x4000, 1).unwrap(), vec![1]);
}

struct NoNet;

impl FrameSink for NoNet {
    fn write(&self, _frame: &[u8]) {}
}

struct Recorder(std::rc::Rc<std::cell::RefCell<Vec<Vec<u8>>>>);

impl FrameSink for Recorder {
    fn write(&self, frame: &[u8]) {
        self.0.borrow_mut().push(frame.to_vec());
    }
}

#[test]
fn network_header_and_frames() {
    assert_eq!(plain_rx_hdr(), vec![0, 0, 0, 0, 0, 0, 0, 0, 0, 0, 1, 0]);
    let mut n = Net::new([2, 0, 0, 0, 0, 1], NoNet);
    assert_eq!(n.read_config(), vec![2, 0, 0, 0, 0, 1]);
    assert_eq!(n.features(), (1u64 << 32) | 0x20);
    let mut m = GuestMemory::new(0x10000);
    m.map(0);
    let mut pkt = vec![0u8; 12];
    pkt.extend_from_slice(&[0xaa; 14]);
    m.write(0x1000, &pkt).unwrap();
    let c = ChainData { readable: vec![Seg { addr: 0x1000, len: 26 }], readable_len: 26, writable: Vec::new() };
    assert_eq!(tx_frame(&c, &m), Some(vec![0xaa; 14]));
    let short = ChainData { readable: vec![Seg { addr: 0x1000, len: 8 }], readable_len: 8, writable: Vec::new() };
    assert_eq!(tx_frame(&short, &m), None);
    assert_eq!(n.handle_tx(&c, &m), 0);
}

#[test]
fn network_transmit_hands_the_frame_to_the_backend() {
    let log = std::rc::Rc::new(std::cell::RefCell::new(Vec::new()));
    let mut n = Net::new([2, 0, 0, 0, 0, 1], Recorder(log.clone()));
    let mut m = GuestMemory::new(0x10000);
    m.map(0);
    let mut pkt = vec![0u8; 12];
    pkt.extend_from_slice(&[1, 2, 3, 4]);
    m.write(0x1000, &pkt).unwrap();
    let c = ChainData { readable: vec![Seg { addr: 0x1000, len: 16 }], readable_len: 16, writable: Vec::new() };
    let short = ChainData { readable: vec![Seg { addr: 0x1000, len: 8 }], readable_len: 8, writable: Vec::new() };
    assert_eq!(n.handle_tx(&short, &m), 0);
    assert_eq!(n.handle_tx(&c, &m), 0);
    assert_eq!(*log.borrow(), vec![vec![1u8, 2, 3, 4]]);
}

struct NullSink;

impl PeriodSink for NullSink {
    fn push(&mut self, _seq: u64, _bytes: &[u8]) -> bool {
        true
    }
    fn start(&mut self) {}
    fn stop(&mut self) {}
    fn reset(&mut self) {}
}

fn status(v: &[u8]) -> u32 {
    u32::from_le_bytes(v[0..4].try_into().unwrap())
}

#[test]
fn sound_stream_state_machine() {
    let mut s = Snd::new(NullSink);
    assert_eq!(status(&s.apply_request(Request::Start { stream_id: 0 })), STATUS_BAD_MSG);
    let params = Request::SetParams {
        stream_id: 0,
        buffer_bytes: 8192,
        period_bytes: 1024,
        features: 0,
        channels: 2,
        format: 5,
        rate: 7,
    };
    assert_eq!(status(&s.apply_request(params)), STATUS_OK);
    assert_eq!(status(&s.apply_request(Request::Prepare { stream_id: 0 })), STATUS_OK);
    assert_eq!(status(&s.apply_request(Request::Start { stream_id: 0 })), STATUS_OK);
    assert_eq!(status(&s.apply_request(params)), STATUS_BAD_MSG);
    assert_eq!(status(&s.apply_request(Request::Stop { stream_id: 0 })), STATUS_OK);
    assert_eq!(status(&s.apply_request(Request::Release { stream_id: 0 })), STATUS_OK);
    assert_eq!(status(&s.apply_request(Request::Jack)), STATUS_NOT_SUPP);
    let info = s.apply_request(Request::PcmInfo { start: 0, count: 1 });
    assert_eq!(status(&info), STATUS_OK);
    assert_eq!(status(&s.apply_request(Request::PcmInfo { start: 1, count: 1 })), STATUS_BAD_MSG);
}

#[test]
fn uart_bytes_reach_the_guest_in_order() {
    let mut u = Uart::new(IrqLine::new(33));
    for b in b"hey" {
        u.enqueue(*b);
    }
    let reads: Vec<u32> = (0..4).map(|_| u.read(UART_DR).0).collect();
    assert_eq!(reads, vec![b'h' as u32, b'e' as u32, b'y' as u32, 0]);
}

#[test]
fn disk_grows_to_the_configured_size_and_never_shrinks() {
    assert_eq!(grown_size(1 << 30, 24 << 30), 24 << 30);
    assert_eq!(grown_size(24 << 30, 1 << 30), 24 << 30);
    assert_eq!(grown_size(4096, 4096), 4096);
}
