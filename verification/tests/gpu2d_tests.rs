use varmint::memory::GuestMemory;
use varmint::virtio::device::DeviceContext;
use varmint::virtio::gpu2d::{ExternalEvent, Gpu};
use varmint::virtio::mmio::{is_valid_access, Device, ExternalEventHandler, Transport};
use varmint::virtio::virtq::Queue;

fn header(ty: u32) -> Vec<u8> {
    let mut h = ty.to_le_bytes().to_vec();
    h.extend_from_slice(&[0u8; 20]);
    h
}

fn words(ty: u32, rest: &[u32]) -> Vec<u8> {
    let mut r = header(ty);
    for w in rest {
        r.extend_from_slice(&w.to_le_bytes());
    }
    r
}

/// Guest memory with one control-queue chain per request: the request in a
/// readable buffer, then a writable buffer for the response at 0x6000 +
/// 0x100 * k.
fn gpu_guest(reqs: &[Vec<u8>]) -> (GuestMemory, DeviceContext) {
    let mut m = GuestMemory::new(0x20000);
    m.map(0);
    for (k, req) in reqs.iter().enumerate() {
        let k = k as u64;
        let req_addr = 0x4000 + k * 0x100;
        let resp_addr = 0x6000 + k * 0x100;
        m.write(req_addr, req).unwrap();
        let d = 0x1000 + 2 * k * 16;
        m.write(d, &req_addr.to_le_bytes()).unwrap();
        m.write_u32(d + 8, req.len() as u32).unwrap();
        m.write_u16(d + 12, 1).unwrap();
        m.write_u16(d + 14, (2 * k + 1) as u16).unwrap();
        let d2 = d + 16;
        m.write(d2, &resp_addr.to_le_bytes()).unwrap();
        m.write_u32(d2 + 8, 0x100).unwrap();
        m.write_u16(d2 + 12, 2).unwrap();
        m.write_u16(0x2004 + 2 * k, (2 * k) as u16).unwrap();
    }
    m.write_u16(0x2002, reqs.len() as u16).unwrap();
    let mut ctx = DeviceContext::new(2);
    ctx.queues[0] = Queue::new(true, 16, 0x1000, 0x2000, 0x3000);
    (m, ctx)
}

fn response_type(m: &GuestMemory, k: u64) -> u32 {
    m.read_u32(0x6000 + k * 0x100).unwrap()
}

#[test]
fn gpu_reports_the_window_size() {
    let (mut m, mut ctx) = gpu_guest(&[header(0x0100)]);
    let mut gpu = Gpu::new();
    gpu.on_event(ExternalEvent::DisplayResized { width: 800, height: 600 }, &mut ctx, &mut m);
    gpu.queue_notified(0, &mut ctx, &mut m);
    assert_eq!(response_type(&m, 0), 0x1101);
    assert_eq!(m.read_u32(0x6000 + 32).unwrap(), 800);
    assert_eq!(m.read_u32(0x6000 + 36).unwrap(), 600);
    assert_eq!(m.read_u32(0x6000 + 40).unwrap(), 1);
    assert_eq!(m.read_u16(0x3002).unwrap(), 1);
}

#[test]
fn gpu_config_has_the_display_event_after_a_resize() {
    let (mut m, mut ctx) = gpu_guest(&[]);
    let mut gpu = Gpu::new();
    assert_eq!(gpu.read_config(), vec![0, 0, 0, 0, 0, 0, 0, 0, 1, 0, 0, 0, 0, 0, 0, 0]);
    gpu.on_event(ExternalEvent::DisplayResized { width: 640, height: 480 }, &mut ctx, &mut m);
    assert_eq!(gpu.read_config()[0], 1);
    gpu.write_config(4, &[1, 0, 0, 0]);
    assert_eq!(gpu.read_config()[0], 0);
}

#[test]
fn gpu_flush_publishes_a_2d_frame() {
    let mut attach = words(0x0106, &[1, 1]);
    attach.extend_from_slice(&0x8000u64.to_le_bytes());
    attach.extend_from_slice(&16u32.to_le_bytes());
    attach.extend_from_slice(&0u32.to_le_bytes());
    let reqs = vec![
        words(0x0101, &[1, 2, 2, 2]),
        attach,
        words(0x0103, &[0, 0, 2, 2, 0, 1]),
        words(0x0105, &[0, 0, 2, 2, 0, 0, 1, 0]),
        words(0x0104, &[0, 0, 2, 2, 1, 0]),
    ];
    let (mut m, mut ctx) = gpu_guest(&reqs);
    for (i, px) in [0x11223344u32, 0x55667788, 0x99aabbcc, 0xddeeff00].iter().enumerate() {
        m.write_u32(0x8000 + 4 * i as u64, *px).unwrap();
    }
    let mut gpu = Gpu::new();
    gpu.queue_notified(0, &mut ctx, &mut m);
    for k in 0..5 {
        assert_eq!(response_type(&m, k), 0x1100, "command {k}");
    }
    let mut front = Vec::new();
    let update = gpu.take_update(0, &mut front).expect("a frame");
    assert_eq!((update.width, update.height), (2, 2));
    assert_eq!(front, vec![0x11223344, 0x55667788, 0x99aabbcc, 0xddeeff00]);
    assert!(gpu.take_update(update.sequence, &mut front).is_none());
}

#[test]
fn gpu_refuses_unknown_commands_and_answers_the_cursor_queue() {
    let (mut m, mut ctx) = gpu_guest(&[header(0x0207)]);
    let mut gpu = Gpu::new();
    gpu.queue_notified(0, &mut ctx, &mut m);
    assert_eq!(response_type(&m, 0), 0x1200);

    let (mut m, mut ctx) = gpu_guest(&[header(0x0300)]);
    ctx.queues[1] = Queue::new(true, 16, 0x1000, 0x2000, 0x3000);
    gpu.queue_notified(1, &mut ctx, &mut m);
    assert_eq!(response_type(&m, 0), 0x1100);
}

#[test]
fn gpu_transport_hands_out_frames() {
    let mut t = Transport::new(Gpu::new());
    let mut front = Vec::new();
    assert!(t.take_display_update(0, &mut front).is_none());
    assert_eq!(t.read(0x008, 4), 16);
}

#[test]
fn transport_access_sizes() {
    assert!(is_valid_access(0x070, 4));
    assert!(!is_valid_access(0x070, 2));
    assert!(is_valid_access(0x100, 1));
    assert!(is_valid_access(0x0f0, 2));
    assert!(!is_valid_access(0x100, 3));
}

#[test]
fn guest_memory_from_bytes() {
    let mut m = GuestMemory::from_bytes(vec![1, 2, 3, 4]);
    assert!(m.read(0, 1).is_err());
    m.map(0x1000);
    assert_eq!(m.read(0x1001, 2).unwrap(), vec![2, 3]);
}

#[test]
fn gpu_unknown_command_is_refused_unspecified() {
    let (mut m, mut ctx) = gpu_guest(&[header(0x0999)]);
    let mut gpu = Gpu::new();
    gpu.queue_notified(0, &mut ctx, &mut m);
    assert_eq!(response_type(&m, 0), 0x1200);
    assert_eq!(m.read_u16(0x3002).unwrap(), 1);
}

#[test]
fn gpu_cursor_queue_chain_is_answered_with_no_data() {
    let (mut m, mut ctx) = gpu_guest(&[header(0x0100)]);
    ctx.queues[1] = ctx.queues[0];
    ctx.queues[0] = Queue::new(false, 0, 0, 0, 0);
    let mut gpu = Gpu::new();
    gpu.queue_notified(1, &mut ctx, &mut m);
    assert_eq!(response_type(&m, 0), 0x1100);
    assert_eq!(m.read_u16(0x3002).unwrap(), 1);
}
