use std::sync::mpsc::channel;
use varmint::clipboard::{ClipboardSync, Deframer, Sink};
use varmint::memory::GuestMemory;
use varmint::virtio::chain::{ChainData, Seg};
use varmint::virtio::console::{Console, ExternalEvent, Q_CLIP_RX, Q_CONTROL_RX, RX_CHUNK};
use varmint::virtio::device::DeviceContext;
use varmint::virtio::mmio::{Device, ExternalEventHandler};
use varmint::virtio::virtq::{Queue, DESC_F_WRITE};

fn frame(payload: &[u8]) -> Vec<u8> {
    let mut v = (payload.len() as u32).to_le_bytes().to_vec();
    v.extend_from_slice(payload);
    v
}

#[test]
fn deframer_recovers_frames_split_anywhere() {
    let mut stream = frame(b"hello");
    stream.extend(frame(b""));
    stream.extend(frame(b"world!"));
    let mut d = Deframer::new();
    let mut got = Vec::new();
    for piece in stream.chunks(3) {
        got.extend(d.push(piece));
    }
    assert_eq!(got, vec![b"hello".to_vec(), Vec::new(), b"world!".to_vec()]);
}

#[test]
fn deframer_skips_an_oversized_length() {
    let payload = vec![3u8; 0x010101];
    let mut stream = vec![0xff, 0xff, 0xff, 0xff];
    stream.extend(frame(&payload));
    let mut d = Deframer::new();
    assert_eq!(d.push(&stream), vec![payload]);
    let mut d = Deframer::new();
    let mut noisy = vec![0xff, 0xff];
    noisy.extend(frame(b"ok"));
    assert!(d.push(&noisy).is_empty());
}

#[test]
fn deframer_waits_for_the_rest() {
    let mut d = Deframer::new();
    assert!(d.push(&frame(b"abc")[..5]).is_empty());
    assert_eq!(d.push(b"bc"), vec![b"abc".to_vec()]);
}

#[test]
fn console_config_has_two_ports() {
    let (tx, _rx) = channel();
    let c = Console::new(Sink::new(tx));
    assert_eq!(c.read_config(), vec![0, 0, 0, 0, 2, 0, 0, 0, 0, 0, 0, 0]);
    assert_eq!(c.id(), 3);
    assert_eq!(c.num_queues(), 6);
    assert_eq!(c.features(), (1u64 << 32) | 2);
}

fn guest(queue: usize, buffers: u64, buf_len: u32) -> (GuestMemory, DeviceContext) {
    let mut m = GuestMemory::new(0x40000);
    m.map(0);
    for i in 0..buffers {
        let base = 0x1000 + i * 16;
        m.write(base, &(0x10000 + i * 0x2000).to_le_bytes()).unwrap();
        m.write_u32(base + 8, buf_len).unwrap();
        m.write_u16(base + 12, DESC_F_WRITE).unwrap();
        m.write_u16(0x2004 + 2 * i, i as u16).unwrap();
    }
    m.write_u16(0x2002, buffers as u16).unwrap();
    let mut ctx = DeviceContext::new(6);
    ctx.queues[queue] = Queue::new(true, 16, 0x1000, 0x2000, 0x3000);
    (m, ctx)
}

#[test]
fn host_clipboard_is_ignored_until_the_port_opens() {
    let (tx, _rx) = channel();
    let mut c = Console::new(Sink::new(tx));
    let (mut m, mut ctx) = guest(Q_CLIP_RX, 2, 0x2000);
    c.on_event(ExternalEvent::HostClipboard(b"text".to_vec()), &mut ctx, &mut m);
    assert_eq!(m.read_u16(0x3002).unwrap(), 0);
}

#[test]
fn device_ready_is_answered_with_a_port() {
    let (tx, _rx) = channel();
    let mut c = Console::new(Sink::new(tx));
    c.queue_control(1, 1, 0);
    let (mut m, mut ctx) = guest(Q_CONTROL_RX, 1, 64);
    c.pump_control_rx(&mut ctx, &mut m);
    assert_eq!(m.read(0x10000, 8).unwrap(), vec![1, 0, 0, 0, 1, 0, 0, 0]);
    assert_eq!(m.read_u32(0x3008).unwrap(), 8);
}

#[test]
fn large_payload_is_split_into_chunks() {
    let (tx, _rx) = channel();
    let mut c = Console::new(Sink::new(tx));
    let payload = vec![7u8; RX_CHUNK + 10];
    c.enqueue_rx(&payload);
    let (mut m, mut ctx) = guest(Q_CLIP_RX, 3, 0x2000);
    c.pump_clip_rx(&mut ctx, &mut m);
    assert_eq!(m.read_u16(0x3002).unwrap(), 2);
    assert_eq!(m.read_u32(0x3008).unwrap(), RX_CHUNK as u32);
    assert_eq!(m.read_u32(0x3010).unwrap(), 14);
    let first = m.read(0x10000, RX_CHUNK).unwrap();
    let second = m.read(0x12000, 14).unwrap();
    let mut d = Deframer::new();
    let mut got = d.push(&first);
    got.extend(d.push(&second));
    assert_eq!(got, vec![payload]);
}

#[test]
fn clipboard_sync_does_not_echo() {
    let mut s = ClipboardSync::new(5, None);
    assert!(s.guest_text(42));
    s.written(6);
    assert!(!s.poll(6));
    assert!(s.poll(7));
    assert!(!s.host_text(42));
    assert!(s.host_text(43));
    assert!(!s.guest_text(43));
}

#[test]
fn deframing_is_the_same_however_the_bytes_are_split() {
    let mut stream = Vec::new();
    for payload in [&b"hello"[..], &b""[..], &b"clipboard text"[..]] {
        stream.extend_from_slice(&(payload.len() as u32).to_le_bytes());
        stream.extend_from_slice(payload);
    }
    stream.extend_from_slice(&[9, 0]);
    let mut whole = Deframer::new();
    let all = whole.push(&stream);
    for cut in 0..=stream.len() {
        let mut split = Deframer::new();
        let mut frames = split.push(&stream[..cut]);
        frames.extend(split.push(&stream[cut..]));
        assert_eq!(frames, all);
    }
    assert_eq!(all, vec![b"hello".to_vec(), Vec::new(), b"clipboard text".to_vec()]);
}

#[test]
fn sink_hands_bytes_on_unchanged_and_in_order() {
    let (tx, rx) = channel();
    let mut sink = Sink::new(tx);
    sink.push(b"first".to_vec());
    sink.push(b"second".to_vec());
    assert_eq!(rx.recv().unwrap(), b"first".to_vec());
    assert_eq!(rx.recv().unwrap(), b"second".to_vec());
    drop(rx);
    sink.push(b"dropped".to_vec());
}

#[test]
fn clipboard_writes_reach_the_sink() {
    let (tx, rx) = channel();
    let mut c = Console::new(Sink::new(tx));
    let mut m = GuestMemory::new(0x10000);
    m.map(0);
    m.write(0x100, b"hello").unwrap();
    let chain = ChainData { readable: vec![Seg { addr: 0x100, len: 5 }], readable_len: 5, writable: vec![] };
    assert_eq!(c.handle_clip_tx(&chain, &m), 0);
    assert_eq!(rx.try_recv().unwrap(), b"hello".to_vec());
    let empty = ChainData { readable: vec![], readable_len: 0, writable: vec![] };
    assert_eq!(c.handle_clip_tx(&empty, &m), 0);
    assert!(rx.try_recv().is_err());
}
