use varmint::virtio::virgl::{
    check_create_blob, check_submit, submit_fence, ResourceCreateBlob, VirglFence,
    capset_info_reply, check_create_3d, read_capset_index, read_transfer_3d, renderer_3d_resource, CapsetInfo,
    ResourceCreate3D, Transfer3D,
};
use varmint::memory::GuestMemory;
use varmint::virtio::gpu::{
    blob_mapping_range, check_map_blob, map_blob_reply, BlobMapping, BlobState, HOST_VISIBLE_SHM_BASE, RESP_ERR_UNSPEC,
    RESP_OK_MAP_INFO,
};
use varmint::virtio::chain::{ChainData, Seg};
use varmint::virtio::device::{ChainToken, DeviceContext};
use varmint::virtio::gpu::{
    align_down_u64, align_up, read_backing, resp_header, retire_fences, AttachOutcome, CtrlHeader, FlushPlan, GpuCore,
    GpuRect, MemEntry, PendingFence, RESP_ERR_INVALID_PARAMETER, RESP_ERR_INVALID_RESOURCE_ID, RESP_OK_NODATA,
};

fn hdr(flags: u32, fence: u64) -> CtrlHeader {
    CtrlHeader { type_: 0x0101, flags, fence_id: fence, ctx_id: 0, ring_idx: 0 }
}

#[test]
fn responses_carry_the_fence() {
    let r = resp_header(RESP_OK_NODATA, &hdr(1, 0x1122));
    assert_eq!(r.len(), 24);
    assert_eq!(&r[0..4], &[0x00, 0x11, 0, 0]);
    assert_eq!(&r[4..8], &[1, 0, 0, 0]);
    assert_eq!(&r[8..10], &[0x22, 0x11]);
    let r = resp_header(RESP_OK_NODATA, &hdr(2, 0x1122));
    assert_eq!(&r[4..16], &[0u8; 12]);
}

#[test]
fn alignment() {
    assert_eq!(align_up(5, 4), Some(8));
    assert_eq!(align_up(8, 4), Some(8));
    assert_eq!(align_up(5, 0), None);
    assert_eq!(align_up(usize::MAX, 4), None);
    assert_eq!(align_down_u64(0x1fff, 0x1000), 0x1000);
}

fn fence(ctx: u32, ring: Option<u8>, id: u64, head: u16) -> PendingFence {
    PendingFence { ctx_id: ctx, ring_idx: ring, fence_id: id, token: ChainToken { queue_idx: 0, head_idx: head }, written: 24 }
}

#[test]
fn fences_retire_on_their_timeline() {
    let mut pending = vec![fence(1, Some(0), 5, 0), fence(1, Some(1), 3, 1), fence(2, Some(0), 2, 2), fence(0, None, 9, 3), fence(1, Some(0), 7, 4)];
    let done = retire_fences(&mut pending, 1, Some(0), 6);
    assert_eq!(done.iter().map(|p| p.token.head_idx).collect::<Vec<_>>(), vec![0]);
    assert_eq!(pending.len(), 4);
    let done = retire_fences(&mut pending, 7, None, 10);
    assert_eq!(done.iter().map(|p| p.token.head_idx).collect::<Vec<_>>(), vec![3]);
    assert_eq!(pending.iter().map(|p| p.token.head_idx).collect::<Vec<_>>(), vec![1, 2, 4]);
}

fn guest() -> GuestMemory {
    let mut m = GuestMemory::new(0x20000);
    m.map(0);
    m
}

fn chain_with(m: &mut GuestMemory, req: &[u8]) -> ChainData {
    m.write(0x1000, req).unwrap();
    ChainData {
        readable: vec![Seg { addr: 0x1000, len: req.len() as u32 }],
        readable_len: req.len(),
        writable: vec![Seg { addr: 0x8000, len: 64 }],
    }
}

fn request(ty: u32, body: &[u32]) -> Vec<u8> {
    let mut v = ty.to_le_bytes().to_vec();
    v.extend_from_slice(&[0u8; 20]);
    for w in body {
        v.extend_from_slice(&w.to_le_bytes());
    }
    v
}

fn resp_type(m: &GuestMemory) -> u32 {
    m.read_u32(0x8000).unwrap()
}

#[test]
fn two_d_resource_life() {
    let mut m = guest();
    let mut gpu = GpuCore::new();
    let h = hdr(0, 0);
    let c = chain_with(&mut m, &request(0x0101, &[7, 2, 2, 2]));
    assert_eq!(gpu.cmd_resource_create_2d(&c, &h, &mut m), 24);
    assert_eq!(resp_type(&m), RESP_OK_NODATA);
    gpu.cmd_resource_create_2d(&c, &h, &mut m);
    assert_eq!(resp_type(&m), RESP_ERR_INVALID_RESOURCE_ID);
    let c = chain_with(&mut m, &request(0x0101, &[8, 1, 2, 2]));
    gpu.cmd_resource_create_2d(&c, &h, &mut m);
    assert_eq!(resp_type(&m), RESP_ERR_INVALID_PARAMETER);

    // Backing: one entry of 16 bytes at 0x4000.
    let mut att = request(0x0106, &[7, 1]);
    att.extend_from_slice(&0x4000u64.to_le_bytes());
    att.extend_from_slice(&16u32.to_le_bytes());
    att.extend_from_slice(&0u32.to_le_bytes());
    let c = chain_with(&mut m, &att);
    assert!(matches!(gpu.cmd_resource_attach_backing(&c, &h, &mut m), AttachOutcome::Done(24)));
    assert_eq!(resp_type(&m), RESP_OK_NODATA);

    let pixels: Vec<u8> = (1u8..=16).collect();
    m.write(0x4000, &pixels).unwrap();
    // Transfer the whole 2x2 rectangle from offset 0.
    let mut tr = request(0x0105, &[0, 0, 2, 2]);
    tr.extend_from_slice(&0u64.to_le_bytes());
    tr.extend_from_slice(&7u32.to_le_bytes());
    tr.extend_from_slice(&0u32.to_le_bytes());
    let c = chain_with(&mut m, &tr);
    gpu.cmd_transfer_to_host_2d(&c, &h, &mut m);
    assert_eq!(resp_type(&m), RESP_OK_NODATA);
    let (fb, w, hgt) = gpu.pixels(7).unwrap();
    assert_eq!((w, hgt), (2, 2));
    assert_eq!(fb, &pixels);

    // Put it on the scanout and flush.
    let c = chain_with(&mut m, &request(0x0103, &[0, 0, 2, 2, 0, 7]));
    assert_eq!(gpu.cmd_set_scanout(&c, &h, &mut m).1, Some((2, 2)));
    let c = chain_with(&mut m, &request(0x0104, &[0, 0, 1, 1, 7, 0]));
    assert_eq!(
        gpu.plan_flush(&c, &m),
        FlushPlan::Present2d { resource_id: 7, damage: GpuRect { x: 0, y: 0, width: 1, height: 1 } }
    );

    let c = chain_with(&mut m, &request(0x0102, &[7, 0]));
    let (_, kind) = gpu.cmd_resource_unref(&c, &h, &mut m);
    assert!(kind.is_some());
    assert!(gpu.scanout().is_none());
    assert!(gpu.pixels(7).is_none());
}

#[test]
fn backing_is_gathered_across_entries() {
    let mut m = guest();
    m.write(0x100, &[1, 2, 3]).unwrap();
    m.write(0x200, &[4, 5, 6, 7]).unwrap();
    let backing = vec![MemEntry { addr: 0x100, length: 3 }, MemEntry { addr: 0x200, length: 4 }];
    assert_eq!(read_backing(&backing, 1, 4, &m), Some(vec![2, 3, 4, 5]));
    assert_eq!(read_backing(&backing, 4, 3, &m), Some(vec![5, 6, 7]));
    assert_eq!(read_backing(&backing, 4, 4, &m), None);
}

#[test]
fn display_resize_raises_a_config_event() {
    let mut gpu = GpuCore::new();
    let mut ctx = DeviceContext::new(2);
    gpu.display_resized(0, 10, &mut ctx);
    assert_eq!(ctx.interrupt_status, 0);
    gpu.display_resized(1280, 800, &mut ctx);
    assert_eq!(ctx.interrupt_status, 2);
    let cfg = gpu.config_bytes(2);
    assert_eq!(cfg, vec![1, 0, 0, 0, 0, 0, 0, 0, 1, 0, 0, 0, 2, 0, 0, 0]);
    gpu.write_config(4, &[1, 0, 0, 0]);
    assert_eq!(gpu.config_bytes(2)[0], 0);
}

#[test]
fn map_blob_checks() {
    let blob = BlobState { size: 0x1800, mapped: false };
    assert_eq!(check_map_blob(Some(blob), 0x2000), Ok(HOST_VISIBLE_SHM_BASE + 0x2000));
    assert_eq!(check_map_blob(None, 0), Err(RESP_ERR_INVALID_RESOURCE_ID));
    assert_eq!(check_map_blob(Some(BlobState { size: 0, mapped: false }), 0), Err(RESP_ERR_INVALID_RESOURCE_ID));
    assert_eq!(check_map_blob(Some(BlobState { size: 16, mapped: true }), 0), Err(RESP_ERR_UNSPEC));
    assert_eq!(check_map_blob(Some(blob), 0x800), Err(RESP_ERR_INVALID_PARAMETER));
    // Rounded to two pages, the blob no longer fits below the end of the region.
    assert_eq!(check_map_blob(Some(blob), 0xffff_f000), Err(RESP_ERR_INVALID_PARAMETER));
    assert_eq!(check_map_blob(Some(blob), 0xffff_e000), Ok(HOST_VISIBLE_SHM_BASE + 0xffff_e000));
    assert_eq!(check_map_blob(Some(BlobState { size: u64::MAX, mapped: false }), 0), Err(RESP_ERR_INVALID_PARAMETER));
}

#[test]
fn blob_mapping_pages() {
    assert_eq!(blob_mapping_range(0x1_0234, 0x8_0000_0234, 0x100), Some((0x1_0000, 0x8_0000_0000, 0x1000)));
    assert_eq!(blob_mapping_range(0x1_0f00, 0x2_0f00, 0x200), Some((0x1_0000, 0x2_0000, 0x2000)));
    assert_eq!(blob_mapping_range(0x1_0000, 0x2_0000, 0x1000), Some((0x1_0000, 0x2_0000, 0x1000)));
    assert_eq!(blob_mapping_range(0x1_0010, 0x2_0020, 0x10), None);
    assert_eq!(blob_mapping_range(0x10, 0x10, usize::MAX), None);
}

#[test]
fn map_blob_answers_with_the_caching_bits_and_records_the_mapping() {
    let blob = BlobState { size: 0x1800, mapped: false };
    let r = map_blob_reply(Some(blob), 0x2000, Some(0x1f3), Some(0x7000_0000), true);
    assert_eq!(r.resp, RESP_OK_MAP_INFO);
    assert_eq!(r.map_info, 0x3);
    assert_eq!(r.blob, Some(BlobState { size: 0x1800, mapped: true }));
    assert_eq!(r.mapping, Some(BlobMapping { guest_addr: HOST_VISIBLE_SHM_BASE + 0x2000, size: 0x2000 }));
    assert!(!r.unmap);
}

#[test]
fn map_blob_refusals_leave_the_blob_alone() {
    let blob = BlobState { size: 0x1800, mapped: false };
    let r = map_blob_reply(None, 0, Some(1), Some(0x1000), true);
    assert_eq!((r.resp, r.blob, r.mapping, r.unmap), (RESP_ERR_INVALID_RESOURCE_ID, None, None, false));
    let r = map_blob_reply(Some(blob), 0x800, Some(1), Some(0x1000), true);
    assert_eq!((r.resp, r.blob, r.mapping, r.unmap), (RESP_ERR_INVALID_PARAMETER, Some(blob), None, false));
    let mapped = BlobState { size: 0x1800, mapped: true };
    let r = map_blob_reply(Some(mapped), 0, Some(1), Some(0x1000), true);
    assert_eq!((r.resp, r.blob, r.mapping), (RESP_ERR_UNSPEC, Some(mapped), None));
    let r = map_blob_reply(Some(blob), 0, None, Some(0x1000), true);
    assert_eq!((r.resp, r.blob, r.mapping, r.unmap), (RESP_ERR_UNSPEC, Some(blob), None, false));
    let r = map_blob_reply(Some(blob), 0, Some(1), None, true);
    assert_eq!((r.resp, r.blob, r.mapping, r.unmap), (RESP_ERR_UNSPEC, Some(blob), None, false));
    let r = map_blob_reply(Some(blob), 0, Some(1), Some(0x1010), true);
    assert_eq!((r.resp, r.blob, r.mapping, r.unmap), (RESP_ERR_UNSPEC, Some(blob), None, true));
    let r = map_blob_reply(Some(blob), 0, Some(1), Some(0x1000), false);
    assert_eq!((r.resp, r.blob, r.mapping, r.unmap), (RESP_ERR_UNSPEC, Some(blob), None, true));
}

#[test]
fn align_up_takes_any_alignment() {
    assert_eq!(align_up(10, 3), Some(12));
    assert_eq!(align_up(10, 0), None);
    assert_eq!(align_up(5, 4), Some(8));
}

#[test]
fn create_3d_requests_are_decoded_and_checked() {
    let mut m = guest();
    let gpu = GpuCore::new();
    let req = request(0x0200, &[7, 2, 67, 8, 640, 480, 1, 1, 0, 0, 3, 0]);
    let chain = chain_with(&mut m, &req);
    let info = ResourceCreate3D {
        target: 2,
        format: 67,
        bind: 8,
        width: 640,
        height: 480,
        depth: 1,
        array_size: 1,
        last_level: 0,
        nr_samples: 0,
        flags: 3,
    };
    assert_eq!(check_create_3d(&gpu, &chain, &m), Ok((7, info)));
    let short = chain_with(&mut m, &req[..40]);
    assert_eq!(check_create_3d(&gpu, &short, &m), Err(RESP_ERR_INVALID_PARAMETER));
    let mut gpu = GpuCore::new();
    gpu.insert_resource(7, renderer_3d_resource(info));
    assert_eq!(check_create_3d(&gpu, &chain, &m), Err(RESP_ERR_INVALID_RESOURCE_ID));
    let r = renderer_3d_resource(info);
    assert_eq!((r.format, r.width, r.height, r.backing.len(), r.framebuffer.len()), (67, 640, 480, 0, 0));
}

#[test]
fn transfer_3d_and_capset_info() {
    let mut m = guest();
    let mut req = request(0x0207, &[1, 2, 3, 4, 5, 6]);
    req.extend_from_slice(&0x1_0000_0020u64.to_le_bytes());
    for w in [9u32, 1, 256, 4096] {
        req.extend_from_slice(&w.to_le_bytes());
    }
    let chain = chain_with(&mut m, &req);
    let t = Transfer3D { x: 1, y: 2, z: 3, w: 4, h: 5, d: 6, level: 1, stride: 256, layer_stride: 4096, offset: 0x1_0000_0020 };
    assert_eq!(read_transfer_3d(&chain, &m), Some((9, t)));
    let short = chain_with(&mut m, &req[..60]);
    assert_eq!(read_transfer_3d(&short, &m), None);
    let caps = chain_with(&mut m, &request(0x0108, &[2, 0]));
    assert_eq!(read_capset_index(&caps, &m), Some(2));
    let body = capset_info_reply(CapsetInfo { id: 2, version: 1, size: 0x2f0 });
    assert_eq!(body, vec![2, 0, 0, 0, 1, 0, 0, 0, 0xf0, 2, 0, 0, 0, 0, 0, 0]);
}

#[test]
fn submit_checks_and_fences() {
    let mut m = guest();
    let mut req = request(0x0207, &[8, 0]);
    req.extend_from_slice(&[0u8; 8]);
    let chain = chain_with(&mut m, &req);
    assert_eq!(check_submit(&chain, &m), Ok(8));
    let long = chain_with(&mut m, &request(0x0207, &[9, 0]));
    assert_eq!(check_submit(&long, &m), Err(RESP_ERR_INVALID_PARAMETER));
    let short = chain_with(&mut m, &req[..20]);
    assert_eq!(check_submit(&short, &m), Err(RESP_ERR_INVALID_PARAMETER));
    assert_eq!(submit_fence(&hdr(0, 5)), None);
    assert_eq!(submit_fence(&hdr(1, 5)), Some(VirglFence { fence_id: 5, ctx_id: 0, ring_idx: None }));
    let mut ringed = hdr(3, 6);
    ringed.ctx_id = 4;
    ringed.ring_idx = 2;
    assert_eq!(submit_fence(&ringed), Some(VirglFence { fence_id: 6, ctx_id: 4, ring_idx: Some(2) }));
}

#[test]
fn create_blob_requests_are_checked() {
    let mut m = guest();
    let mut req = request(0x0208, &[11, 2, 1, 1]);
    req.extend_from_slice(&0x77u64.to_le_bytes());
    req.extend_from_slice(&0x3000u64.to_le_bytes());
    let blob = ResourceCreateBlob { blob_mem: 2, blob_flags: 1, blob_id: 0x77, size: 0x3000 };
    let missing_entry = chain_with(&mut m, &req);
    assert_eq!(check_create_blob(&GpuCore::new(), &missing_entry, &m), Err(RESP_ERR_INVALID_PARAMETER));
    let mut with_entry = req.clone();
    with_entry.extend_from_slice(&[0u8; 16]);
    let chain = chain_with(&mut m, &with_entry);
    assert_eq!(check_create_blob(&GpuCore::new(), &chain, &m), Ok((11, 1, blob)));
    let short = chain_with(&mut m, &req[..50]);
    assert_eq!(check_create_blob(&GpuCore::new(), &short, &m), Err(RESP_ERR_INVALID_PARAMETER));
}
