//! The virtio GPU's own logic: command headers and responses, the display
//! the guest sees, fences, and the 2D resources that live in guest memory.
//! What the 3D renderer does stays with the renderer.
use crate::bytes::{get_u32, get_u64, le_bytes, le_value, lemma_le_bytes_len, u32_le, u64_le};
use crate::memory::{read_spec, GuestMemory, MemState};
use crate::virtio::chain::{concat, fill_segs, ChainData, Seg};
use crate::virtio::edid::{build, edid_spec};
use std::collections::HashMap;
use crate::virtio::device::{ChainToken, DeviceContext, INT_CONFIG};
use vstd::prelude::*;

verus! {

pub const DEVICE_ID: u32 = 16;

pub const MAX_SCANOUTS: usize = 16;

pub const BYTES_PER_PIXEL: usize = 4;

/// Config event bit: the display changed.
pub const EVENT_DISPLAY: u32 = 1;

pub const FEATURE_VIRGL: u64 = 1;

pub const FEATURE_EDID: u64 = 2;

pub const FEATURE_RESOURCE_BLOB: u64 = 8;

pub const FEATURE_CONTEXT_INIT: u64 = 16;

pub const CMD_GET_DISPLAY_INFO: u32 = 0x0100;

pub const CMD_RESOURCE_CREATE_2D: u32 = 0x0101;

pub const CMD_RESOURCE_UNREF: u32 = 0x0102;

pub const CMD_SET_SCANOUT: u32 = 0x0103;

pub const CMD_RESOURCE_FLUSH: u32 = 0x0104;

pub const CMD_TRANSFER_TO_HOST_2D: u32 = 0x0105;

pub const CMD_RESOURCE_ATTACH_BACKING: u32 = 0x0106;

pub const CMD_RESOURCE_DETACH_BACKING: u32 = 0x0107;

pub const CMD_GET_EDID: u32 = 0x010a;

pub const RESP_OK_NODATA: u32 = 0x1100;

pub const RESP_OK_DISPLAY_INFO: u32 = 0x1101;

pub const RESP_OK_EDID: u32 = 0x1104;

pub const RESP_ERR_UNSPEC: u32 = 0x1200;

pub const RESP_ERR_INVALID_SCANOUT_ID: u32 = 0x1202;

pub const RESP_ERR_INVALID_RESOURCE_ID: u32 = 0x1203;

pub const RESP_ERR_INVALID_PARAMETER: u32 = 0x1205;

/// The request asks for a fence.
pub const FLAG_FENCE: u32 = 1;

/// The request names a ring.
pub const FLAG_RING_IDX: u32 = 2;

/// Bytes of a control header.
pub const HEADER_LEN: usize = 24;

/// The only pixel format of 2D resources: B8G8R8A8.
pub const FORMAT_B8G8R8A8: u32 = 2;

/// The widest and highest 2D resource.
pub const MAX_DIMENSION: u32 = 16384;

/// The header of every command and response.
#[derive(Debug, Copy, Clone, PartialEq, Eq)]
pub struct CtrlHeader {
    pub type_: u32,
    pub flags: u32,
    pub fence_id: u64,
    pub ctx_id: u32,
    pub ring_idx: u8,
}

/// The header that the 24 bytes `b` hold.
pub open spec fn header_spec(b: Seq<u8>) -> CtrlHeader {
    CtrlHeader {
        type_: le_value(b.subrange(0, 4)) as u32,
        flags: le_value(b.subrange(4, 8)) as u32,
        fence_id: le_value(b.subrange(8, 16)) as u64,
        ctx_id: le_value(b.subrange(16, 20)) as u32,
        ring_idx: b[20],
    }
}

/// The header of a command chain, if its first 24 readable bytes can be read.
pub open spec fn chain_header(chain: ChainData, mem: MemState) -> Option<CtrlHeader> {
    match chain.read_at_spec(0, HEADER_LEN as int, mem) {
        Some(b) => Some(header_spec(b)),
        None => None,
    }
}

/// Reads the header of a command chain.
pub fn read_header(chain: &ChainData, mem: &GuestMemory) -> (r: Option<CtrlHeader>)
    ensures
        r == chain_header(*chain, mem@),
{
    match chain.read_at(0, HEADER_LEN, mem) {
        None => None,
        Some(b) => Some(
            CtrlHeader {
                type_: get_u32(b.as_slice(), 0),
                flags: get_u32(b.as_slice(), 4),
                fence_id: get_u64(b.as_slice(), 8),
                ctx_id: get_u32(b.as_slice(), 16),
                ring_idx: b[20],
            },
        ),
    }
}

/// The header of the response of type `ty` to `req`: a fenced request gets
/// its fence back.
pub open spec fn resp_header_spec(ty: u32, req: CtrlHeader) -> Seq<u8> {
    let fenced = req.flags & FLAG_FENCE != 0;
    le_bytes(ty as nat, 4) + le_bytes(if fenced { FLAG_FENCE as nat } else { 0 }, 4) + le_bytes(
        if fenced {
            req.fence_id as nat
        } else {
            0
        },
        8,
    ) + le_bytes(0, 4) + seq![0u8, 0u8, 0u8, 0u8]
}

fn extend(dst: &mut Vec<u8>, src: Vec<u8>)
    ensures
        final(dst)@ == old(dst)@ + src@,
{
    let mut i: usize = 0;
    while i < src.len()
        invariant
            i <= src@.len(),
            dst@ == old(dst)@ + src@.subrange(0, i as int),
        decreases src@.len() - i,
    {
        dst.push(src[i]);
        i = i + 1;
        proof {
            assert(dst@ =~= old(dst)@ + src@.subrange(0, i as int));
        }
    }
    proof {
        assert(src@.subrange(0, i as int) =~= src@);
    }
}

fn u64_bytes(v: u64) -> (r: Vec<u8>)
    ensures
        r@ == le_bytes(v as nat, 8),
{
    let r = u64_le(v);
    proof {
        crate::bytes::lemma_le_unique(r@, v as nat);
    }
    r
}

/// The response header of type `ty` to `req`.
pub fn resp_header(ty: u32, req: &CtrlHeader) -> (r: Vec<u8>)
    ensures
        r@ == resp_header_spec(ty, *req),
        r@.len() == HEADER_LEN,
{
    let fenced = req.flags & FLAG_FENCE != 0;
    let mut r = u32_le(ty);
    extend(&mut r, u32_le(if fenced { FLAG_FENCE } else { 0 }));
    extend(&mut r, u64_bytes(if fenced { req.fence_id } else { 0 }));
    extend(&mut r, u32_le(0));
    extend(&mut r, vec![0u8, 0u8, 0u8, 0u8]);
    proof {
        lemma_le_bytes_len(ty as nat, 4);
        lemma_le_bytes_len(if fenced { FLAG_FENCE as nat } else { 0 }, 4);
        lemma_le_bytes_len(if fenced { req.fence_id as nat } else { 0 }, 8);
        lemma_le_bytes_len(0, 4);
    }
    r
}

/// `value + align - 1` with the bits of `align - 1` cleared: `value` rounded
/// up to a multiple of `align` where `align` is a power of two. `None` where
/// `align` is zero or the sum does not fit.
pub fn align_up(value: usize, align: usize) -> (r: Option<usize>)
    ensures
        align == 0 ==> r is None,
        align > 0 && value + align - 1 > usize::MAX ==> r is None,
        align > 0 && value + align - 1 <= usize::MAX ==> r == Some(
            ((value + align - 1) as usize & !((align - 1) as usize)) as usize,
        ),
{
    if align == 0 {
        return None;
    }
    let mask = align - 1;
    match value.checked_add(mask) {
        None => None,
        Some(v) => Some(v & !mask),
    }
}

/// `value` rounded down to a multiple of `align`, a power of two.
pub fn align_down_u64(value: u64, align: u64) -> (r: u64)
    requires
        align > 0,
    ensures
        r == value & !((align - 1) as u64),
{
    value & !(align - 1)
}

/// The shared memory region through which the guest sees host-visible blobs.
pub const HOST_VISIBLE_SHM_BASE: u64 = 0x8_0000_0000;

pub const HOST_VISIBLE_SHM_SIZE: u64 = 0x1_0000_0000;

/// The page size of guest mappings.
pub const HV_PAGE_SIZE: u64 = 0x1000;

/// The bits of a blob's map info that the guest is told: its caching.
pub const MAP_CACHE_MASK: u32 = 0x0f;

pub const RESP_OK_MAP_INFO: u32 = 0x1106;

/// A renderer blob as MAP_BLOB sees it: its size, and whether it is mapped
/// into the guest already.
#[derive(Debug, Copy, Clone, PartialEq, Eq)]
pub struct BlobState {
    pub size: u64,
    pub mapped: bool,
}

/// `v` rounded up to a whole number of pages.
pub open spec fn page_round_up(v: int) -> int {
    (v + HV_PAGE_SIZE - 1) / HV_PAGE_SIZE as int * HV_PAGE_SIZE
}

/// The guest address that MAP_BLOB places a blob at, or the response type
/// that refuses it: `blob` is the resource's blob, `None` where the resource
/// does not exist or is no blob; `offset` is the requested offset into the
/// host-visible region.
pub open spec fn map_blob_spec(blob: Option<BlobState>, offset: u64) -> Result<u64, u32> {
    match blob {
        None => Err(RESP_ERR_INVALID_RESOURCE_ID),
        Some(b) => if b.size == 0 {
            Err(RESP_ERR_INVALID_RESOURCE_ID)
        } else if b.mapped {
            Err(RESP_ERR_UNSPEC)
        } else if offset % HV_PAGE_SIZE != 0 {
            Err(RESP_ERR_INVALID_PARAMETER)
        } else if b.size + HV_PAGE_SIZE - 1 > u64::MAX {
            Err(RESP_ERR_INVALID_PARAMETER)
        } else if offset + page_round_up(b.size as int) > HOST_VISIBLE_SHM_SIZE {
            Err(RESP_ERR_INVALID_PARAMETER)
        } else {
            Ok((HOST_VISIBLE_SHM_BASE + offset) as u64)
        },
    }
}

/// Checks a MAP_BLOB request before the renderer is asked for the blob's
/// memory.
pub fn check_map_blob(blob: Option<BlobState>, offset: u64) -> (r: Result<u64, u32>)
    ensures
        r == map_blob_spec(blob, offset),
{
    let b = match blob {
        None => return Err(RESP_ERR_INVALID_RESOURCE_ID),
        Some(b) => b,
    };
    if b.size == 0 {
        return Err(RESP_ERR_INVALID_RESOURCE_ID);
    }
    if b.mapped {
        return Err(RESP_ERR_UNSPEC);
    }
    if offset & (HV_PAGE_SIZE - 1) != 0 {
        assert(offset & 0xfff != 0 ==> offset % 0x1000 != 0) by (bit_vector);
        return Err(RESP_ERR_INVALID_PARAMETER);
    }
    assert(offset & 0xfff == 0 ==> offset % 0x1000 == 0) by (bit_vector);
    let size = b.size;
    let sum = match size.checked_add(HV_PAGE_SIZE - 1) {
        None => return Err(RESP_ERR_INVALID_PARAMETER),
        Some(v) => v,
    };
    let rounded = sum & !(HV_PAGE_SIZE - 1);
    assert(rounded == sum & !0xfffu64);
    assert(sum & !0xfffu64 == (sum / 0x1000) * 0x1000) by (bit_vector);
    assert(rounded == page_round_up(size as int));
    match offset.checked_add(rounded) {
        None => Err(RESP_ERR_INVALID_PARAMETER),
        Some(end) => if end > HOST_VISIBLE_SHM_SIZE {
            Err(RESP_ERR_INVALID_PARAMETER)
        } else {
            Ok(HOST_VISIBLE_SHM_BASE + offset)
        },
    }
}

/// The page-aligned mapping that shows `size` bytes of host memory at
/// `host_addr` to the guest at `guest_addr`: host base, guest base and
/// length. `None` where the two addresses sit at different offsets into
/// their pages, or the length does not fit.
pub open spec fn blob_mapping_spec(host_addr: u64, guest_addr: u64, size: usize) -> Option<(u64, u64, usize)> {
    let host_delta = host_addr % HV_PAGE_SIZE;
    let guest_delta = guest_addr % HV_PAGE_SIZE;
    if host_delta != guest_delta {
        None
    } else if size + host_delta + HV_PAGE_SIZE - 1 > usize::MAX {
        None
    } else {
        Some(
            (
                (host_addr - host_delta) as u64,
                (guest_addr - guest_delta) as u64,
                page_round_up(size + host_delta) as usize,
            ),
        )
    }
}

/// Computes the mapping of a blob's host memory into the guest.
pub fn blob_mapping_range(host_addr: u64, guest_addr: u64, size: usize) -> (r: Option<(u64, u64, usize)>)
    ensures
        r == blob_mapping_spec(host_addr, guest_addr, size),
{
    let host_base = align_down_u64(host_addr, HV_PAGE_SIZE);
    let guest_base = align_down_u64(guest_addr, HV_PAGE_SIZE);
    assert(host_addr & !0xfffu64 == host_addr - host_addr % 0x1000) by (bit_vector);
    assert(guest_addr & !0xfffu64 == guest_addr - guest_addr % 0x1000) by (bit_vector);
    let host_delta = host_addr - host_base;
    let guest_delta = guest_addr - guest_base;
    if host_delta != guest_delta {
        return None;
    }
    if host_delta > usize::MAX as u64 {
        return None;
    }
    let delta = host_delta as usize;
    let total = match size.checked_add(delta) {
        None => return None,
        Some(t) => t,
    };
    let page: usize = 0x1000;
    assert(page & ((page - 1) as usize) == 0) by (bit_vector)
        requires
            page == 0x1000usize,
    ;
    match align_up(total, page) {
        None => None,
        Some(m) => {
            proof {
                let v: usize = (total + 0xfff) as usize;
                assert(v & !0xfffusize == (v / 0x1000) * 0x1000) by (bit_vector);
            }
            Some((host_base, guest_base, m))
        },
    }
}

/// A blob's mapping into the guest: its page-aligned guest address and
/// length.
#[derive(Debug, Copy, Clone, PartialEq, Eq)]
pub struct BlobMapping {
    pub guest_addr: u64,
    pub size: usize,
}

/// The answer to MAP_BLOB.
#[derive(Debug, Copy, Clone, PartialEq, Eq)]
pub struct MapBlobReply {
    /// The response type written to the guest.
    pub resp: u32,
    /// The map info that a success carries: the blob's caching bits.
    pub map_info: u32,
    /// The blob afterwards: marked mapped where the request succeeded,
    /// unchanged otherwise.
    pub blob: Option<BlobState>,
    /// The mapping the blob records where the request succeeded.
    pub mapping: Option<BlobMapping>,
    /// Whether the renderer is asked to release its mapping of the blob
    /// again: where it gave a pointer that could not be mapped.
    pub unmap: bool,
}

pub open spec fn map_refusal(blob: Option<BlobState>, resp: u32, unmap: bool) -> MapBlobReply {
    MapBlobReply { resp, map_info: 0, blob, mapping: None, unmap }
}

/// The answer to MAP_BLOB for resource blob `blob` at `offset`, given what
/// the host gave once the request passed its checks: the renderer's map
/// info and host pointer for the blob (`None` where it refused), and whether
/// the hypervisor mapped the range that `blob_mapping_spec` computes from
/// that pointer. A request refused by its checks, or by the renderer, leaves
/// the blob as it was; one whose pointer cannot be mapped also has the
/// renderer release its mapping. A success answers RESP_OK_MAP_INFO with
/// the caching bits of the map info and records the mapping on the blob.
pub open spec fn map_blob_reply_spec(
    blob: Option<BlobState>,
    offset: u64,
    map_info: Option<u32>,
    map_ptr: Option<u64>,
    hv_mapped: bool,
) -> MapBlobReply {
    match map_blob_spec(blob, offset) {
        Err(t) => map_refusal(blob, t, false),
        Ok(guest) => match (map_info, map_ptr) {
            (Some(info), Some(ptr)) => match blob_mapping_spec(ptr, guest, blob.unwrap().size as usize) {
                None => map_refusal(blob, RESP_ERR_UNSPEC, true),
                Some(m) => if !hv_mapped {
                    map_refusal(blob, RESP_ERR_UNSPEC, true)
                } else {
                    MapBlobReply {
                        resp: RESP_OK_MAP_INFO,
                        map_info: info & MAP_CACHE_MASK,
                        blob: Some(BlobState { mapped: true, ..blob.unwrap() }),
                        mapping: Some(BlobMapping { guest_addr: m.1, size: m.2 }),
                        unmap: false,
                    }
                },
            },
            _ => map_refusal(blob, RESP_ERR_UNSPEC, false),
        },
    }
}

/// Decides the answer to MAP_BLOB; see `map_blob_reply_spec`.
pub fn map_blob_reply(
    blob: Option<BlobState>,
    offset: u64,
    map_info: Option<u32>,
    map_ptr: Option<u64>,
    hv_mapped: bool,
) -> (r: MapBlobReply)
    ensures
        r == map_blob_reply_spec(blob, offset, map_info, map_ptr, hv_mapped),
{
    let guest = match check_map_blob(blob, offset) {
        Err(t) => return MapBlobReply { resp: t, map_info: 0, blob, mapping: None, unmap: false },
        Ok(g) => g,
    };
    let b = match blob {
        Some(b) => b,
        None => return MapBlobReply { resp: RESP_ERR_INVALID_RESOURCE_ID, map_info: 0, blob, mapping: None, unmap: false },
    };
    let (info, ptr) = match (map_info, map_ptr) {
        (Some(i), Some(p)) => (i, p),
        _ => return MapBlobReply { resp: RESP_ERR_UNSPEC, map_info: 0, blob, mapping: None, unmap: false },
    };
    let size = b.size as usize;
    match blob_mapping_range(ptr, guest, size) {
        None => MapBlobReply { resp: RESP_ERR_UNSPEC, map_info: 0, blob, mapping: None, unmap: true },
        Some(m) => if !hv_mapped {
            MapBlobReply { resp: RESP_ERR_UNSPEC, map_info: 0, blob, mapping: None, unmap: true }
        } else {
            MapBlobReply {
                resp: RESP_OK_MAP_INFO,
                map_info: info & MAP_CACHE_MASK,
                blob: Some(BlobState { mapped: true, ..b }),
                mapping: Some(BlobMapping { guest_addr: m.1, size: m.2 }),
                unmap: false,
            }
        },
    }
}

/// A command whose completion waits for a fence.
#[derive(Debug, Copy, Clone)]
pub struct PendingFence {
    pub ctx_id: u32,
    pub ring_idx: Option<u8>,
    pub fence_id: u64,
    pub token: ChainToken,
    pub written: u32,
}

/// Whether fence `fence_id` of context `ctx_id` on ring `ring_idx`
/// signals the pending command `p`: same timeline, and no older than it.
pub open spec fn signals(p: PendingFence, ctx_id: u32, ring_idx: Option<u8>, fence_id: u64) -> bool {
    let same_timeline = match (p.ring_idx, ring_idx) {
        (Some(pr), Some(sr)) => p.ctx_id == ctx_id && pr == sr,
        (None, None) => true,
        _ => false,
    };
    same_timeline && p.fence_id <= fence_id
}

/// Takes from `pending` the commands that a signalled fence completes, in
/// order; the others stay, in order.
pub fn retire_fences(pending: &mut Vec<PendingFence>, ctx_id: u32, ring_idx: Option<u8>, fence_id: u64) -> (done:
    Vec<PendingFence>)
    ensures
        done@ == old(pending)@.filter(|p: PendingFence| signals(p, ctx_id, ring_idx, fence_id)),
        final(pending)@ == old(pending)@.filter(|p: PendingFence| !signals(p, ctx_id, ring_idx, fence_id)),
{
    let ghost f = |p: PendingFence| signals(p, ctx_id, ring_idx, fence_id);
    let ghost nf = |p: PendingFence| !signals(p, ctx_id, ring_idx, fence_id);
    let mut done: Vec<PendingFence> = Vec::new();
    let mut kept: Vec<PendingFence> = Vec::new();
    let mut i: usize = 0;
    while i < pending.len()
        invariant
            i <= pending@.len(),
            pending@ == old(pending)@,
            f == (|p: PendingFence| signals(p, ctx_id, ring_idx, fence_id)),
            nf == (|p: PendingFence| !signals(p, ctx_id, ring_idx, fence_id)),
            done@ == pending@.subrange(0, i as int).filter(f),
            kept@ == pending@.subrange(0, i as int).filter(nf),
        decreases pending@.len() - i,
    {
        let p = pending[i];
        let same_timeline = match (p.ring_idx, ring_idx) {
            (Some(pr), Some(sr)) => p.ctx_id == ctx_id && pr == sr,
            (None, None) => true,
            _ => false,
        };
        proof {
            let s = pending@.subrange(0, i + 1);
            assert(s.drop_last() =~= pending@.subrange(0, i as int));
            pending@.subrange(0, i as int).lemma_filter_push(pending@[i as int], f);
            pending@.subrange(0, i as int).lemma_filter_push(pending@[i as int], nf);
            assert(pending@.subrange(0, i as int).push(pending@[i as int]) =~= s);
        }
        proof {
            assert(f(p) == (same_timeline && p.fence_id <= fence_id));
            assert(nf(p) == !f(p));
        }
        if same_timeline && p.fence_id <= fence_id {
            done.push(p);
        } else {
            kept.push(p);
        }
        i = i + 1;
    }
    proof {
        assert(pending@.subrange(0, i as int) =~= pending@);
    }
    *pending = kept;
    done
}


/// A guest buffer that backs a resource.
#[derive(Debug, Copy, Clone, PartialEq, Eq)]
pub struct MemEntry {
    pub addr: u64,
    pub length: u32,
}

/// Where a resource's pixels live.
#[derive(Debug, Copy, Clone, PartialEq, Eq)]
pub enum ResourceKind {
    /// In guest memory, copied to the host by transfers.
    Local2d,
    /// With the 3D renderer.
    Renderer3d,
    /// A blob of the 3D renderer.
    RendererBlob,
}

/// A resource.
#[derive(Debug)]
pub struct Resource {
    pub format: u32,
    pub width: u32,
    pub height: u32,
    pub backing: Vec<MemEntry>,
    pub framebuffer: Vec<u8>,
    pub kind: ResourceKind,
}

/// The model of a resource.
pub struct ResourceView {
    pub format: u32,
    pub width: u32,
    pub height: u32,
    pub backing: Seq<MemEntry>,
    pub framebuffer: Seq<u8>,
    pub kind: ResourceKind,
}

impl View for Resource {
    type V = ResourceView;

    open spec fn view(&self) -> ResourceView {
        ResourceView {
            format: self.format,
            width: self.width,
            height: self.height,
            backing: self.backing@,
            framebuffer: self.framebuffer@,
            kind: self.kind,
        }
    }
}

/// The rectangle of a resource that the scanout shows.
#[derive(Debug, Copy, Clone, PartialEq, Eq)]
pub struct GpuRect {
    pub x: u32,
    pub y: u32,
    pub width: u32,
    pub height: u32,
}

/// The resource on the one scanout, and the rectangle of it that shows.
#[derive(Debug, Copy, Clone, PartialEq, Eq)]
pub struct Scanout {
    pub resource_id: u32,
    pub rect: GpuRect,
}

/// The GPU's state outside the 3D renderer.
pub struct GpuCore {
    resources: HashMap<u32, Resource>,
    scanout: Option<Scanout>,
    display_width: u32,
    display_height: u32,
    edid_compatibility_mode: Option<(u32, u32)>,
    events_read: u32,
}

/// The model of the GPU's state.
pub struct GpuView {
    pub resources: Map<u32, ResourceView>,
    pub scanout: Option<Scanout>,
    pub display_width: u32,
    pub display_height: u32,
    pub edid_compatibility_mode: Option<(u32, u32)>,
    pub events_read: u32,
}

impl View for GpuCore {
    type V = GpuView;

    closed spec fn view(&self) -> GpuView {
        GpuView {
            resources: self.resources@.map_values(|r: Resource| r@),
            scanout: self.scanout,
            display_width: self.display_width,
            display_height: self.display_height,
            edid_compatibility_mode: self.edid_compatibility_mode,
            events_read: self.events_read,
        }
    }
}

/// The reply of type `ty` to `hdr`, written into the chain's writable buffers.
pub open spec fn reply_spec(chain: ChainData, mem: MemState, ty: u32, hdr: CtrlHeader) -> (MemState, nat) {
    fill_segs(chain.writable@, resp_header_spec(ty, hdr), mem)
}

/// The request bytes at the front of a chain.
pub open spec fn request(chain: ChainData, mem: MemState, len: int) -> Option<Seq<u8>> {
    chain.read_at_spec(0, len, mem)
}

pub open spec fn u32_at(b: Seq<u8>, off: int) -> u32 {
    le_value(b.subrange(off, off + 4)) as u32
}

/// The display as GET_DISPLAY_INFO reports it: scanout 0 enabled at the
/// display's size, the other fifteen zero.
pub open spec fn display_info_spec(width: u32, height: u32) -> Seq<u8> {
    le_bytes(0, 4) + le_bytes(0, 4) + le_bytes(width as nat, 4) + le_bytes(height as nat, 4) + le_bytes(
        1,
        4,
    ) + le_bytes(0, 4) + Seq::new(15 * 24, |i: int| 0u8)
}

/// The answer to CREATE_2D: the response type and whether the resource is made.
pub open spec fn create_2d_spec(resources: Map<u32, ResourceView>, req: Option<Seq<u8>>) -> u32 {
    match req {
        None => RESP_ERR_INVALID_PARAMETER,
        Some(b) => {
            let id = u32_at(b, 24);
            let format = u32_at(b, 28);
            let w = u32_at(b, 32);
            let h = u32_at(b, 36);
            if resources.contains_key(id) {
                RESP_ERR_INVALID_RESOURCE_ID
            } else if format != FORMAT_B8G8R8A8 {
                RESP_ERR_INVALID_PARAMETER
            } else if w == 0 || h == 0 || w > MAX_DIMENSION || h > MAX_DIMENSION {
                RESP_ERR_INVALID_PARAMETER
            } else {
                RESP_OK_NODATA
            }
        },
    }
}

/// A new 2D resource of `width` by `height` with nothing behind it yet.
pub open spec fn new_2d(format: u32, width: u32, height: u32) -> ResourceView {
    ResourceView {
        format,
        width,
        height,
        backing: Seq::empty(),
        framebuffer: Seq::empty(),
        kind: ResourceKind::Local2d,
    }
}

impl GpuCore {
    pub fn new() -> (r: GpuCore)
        ensures
            r@.resources == Map::<u32, ResourceView>::empty(),
            r@.scanout is None,
            r@.display_width == 0 && r@.display_height == 0,
            r@.edid_compatibility_mode is None,
            r@.events_read == 0,
    {
        let r = GpuCore {
            resources: HashMap::new(),
            scanout: None,
            display_width: 0,
            display_height: 0,
            edid_compatibility_mode: None,
            events_read: 0,
        };
        proof {
            assert(r@.resources =~= Map::<u32, ResourceView>::empty());
        }
        r
    }

    /// The configuration space: pending events, a clear register that
    /// reads zero, one scanout, and `num_capsets` capability sets.
    pub fn config_bytes(&self, num_capsets: u32) -> (r: Vec<u8>)
        ensures
            r@ == le_bytes(self@.events_read as nat, 4) + le_bytes(0, 4) + le_bytes(1, 4) + le_bytes(
                num_capsets as nat,
                4,
            ),
    {
        let mut r = u32_le(self.events_read);
        extend(&mut r, u32_le(0));
        extend(&mut r, u32_le(1));
        extend(&mut r, u32_le(num_capsets));
        r
    }

    /// A driver write to the configuration space: four bytes at the clear
    /// register clear those event bits.
    pub fn write_config(&mut self, offset: u64, data: &[u8])
        ensures
            offset == 4 && data@.len() == 4 ==> final(self)@ == (GpuView {
                events_read: old(self)@.events_read & !(le_value(data@) as u32),
                ..old(self)@
            }),
            !(offset == 4 && data@.len() == 4) ==> final(self)@ == old(self)@,
    {
        if offset == 4 && data.len() == 4 {
            let clear = get_u32(data, 0);
            proof {
                assert(data@.subrange(0, 4) =~= data@);
            }
            self.events_read = self.events_read & !clear;
        }
    }

    /// The host display changed size: the guest is told through a config
    /// event. The first size is also the one EDID keeps offering.
    pub fn display_resized(&mut self, width: u32, height: u32, ctx: &mut DeviceContext)
        ensures
            width == 0 || height == 0 ==> final(self)@ == old(self)@ && final(ctx)@ == old(ctx)@,
            width != 0 && height != 0 ==> {
                &&& final(self)@ == (GpuView {
                    display_width: width,
                    display_height: height,
                    events_read: old(self)@.events_read | EVENT_DISPLAY,
                    edid_compatibility_mode: match old(self)@.edid_compatibility_mode {
                        Some(m) => Some(m),
                        None => Some((width, height)),
                    },
                    ..old(self)@
                })
                &&& final(ctx)@ == (old(ctx)@.0, old(ctx)@.1 | INT_CONFIG)
            },
            final(ctx).queues@.len() == old(ctx).queues@.len(),
    {
        if width == 0 || height == 0 {
            return;
        }
        if self.edid_compatibility_mode.is_none() {
            self.edid_compatibility_mode = Some((width, height));
        }
        self.display_width = width;
        self.display_height = height;
        self.events_read = self.events_read | EVENT_DISPLAY;
        ctx.config_changed();
    }

    /// The driver reset the device: every resource and the scanout are gone.
    pub fn reset(&mut self)
        ensures
            final(self)@ == (GpuView {
                resources: Map::<u32, ResourceView>::empty(),
                scanout: None,
                ..old(self)@
            }),
    {
        self.resources = HashMap::new();
        self.scanout = None;
        proof {
            assert(self@.resources =~= Map::<u32, ResourceView>::empty());
        }
    }

    /// Answers GET_DISPLAY_INFO.
    pub fn cmd_get_display_info(&self, chain: &ChainData, hdr: &CtrlHeader, mem: &mut GuestMemory) -> (r: u32)
        ensures
            display_info_done(self@, *chain, *hdr, old(mem)@, final(mem)@, r),
    {
        let h = resp_header(RESP_OK_DISPLAY_INFO, hdr);
        let mut body = u32_le(0);
        extend(&mut body, u32_le(0));
        extend(&mut body, u32_le(self.display_width));
        extend(&mut body, u32_le(self.display_height));
        extend(&mut body, u32_le(1));
        extend(&mut body, u32_le(0));
        let mut i: usize = 0;
        let ghost head = body@;
        while i < 15 * 24
            invariant
                i <= 15 * 24,
                body@ == head + Seq::new(i as nat, |k: int| 0u8),
            decreases 15 * 24 - i,
        {
            body.push(0);
            i = i + 1;
            proof {
                assert(body@ =~= head + Seq::new(i as nat, |k: int| 0u8));
            }
        }
        proof {
            lemma_le_bytes_len(0, 4);
            lemma_le_bytes_len(1, 4);
            lemma_le_bytes_len(self.display_width as nat, 4);
            lemma_le_bytes_len(self.display_height as nat, 4);
        }
        let mut all = h;
        extend(&mut all, body);
        chain.write_response(all.as_slice(), mem)
    }

    /// Writes a bare response of type `ty`.
    pub fn reply(chain: &ChainData, ty: u32, hdr: &CtrlHeader, mem: &mut GuestMemory) -> (r: u32)
        ensures
            (final(mem)@, r as nat) == reply_spec(*chain, old(mem)@, ty, *hdr),
    {
        let h = resp_header(ty, hdr);
        chain.write_response(h.as_slice(), mem)
    }

    /// Answers CREATE_2D.
    pub fn cmd_resource_create_2d(&mut self, chain: &ChainData, hdr: &CtrlHeader, mem: &mut GuestMemory) -> (r: u32)
        ensures
            create_2d_done(old(self)@, final(self)@, *chain, *hdr, old(mem)@, final(mem)@, r),
    {
        broadcast use vstd::std_specs::hash::group_hash_axioms;
        let b = match chain.read_at(0, 40, mem) {
            None => return Self::reply(chain, RESP_ERR_INVALID_PARAMETER, hdr, mem),
            Some(b) => b,
        };
        let id = get_u32(b.as_slice(), 24);
        let format = get_u32(b.as_slice(), 28);
        let width = get_u32(b.as_slice(), 32);
        let height = get_u32(b.as_slice(), 36);
        if self.resources.contains_key(&id) {
            return Self::reply(chain, RESP_ERR_INVALID_RESOURCE_ID, hdr, mem);
        }
        if format != FORMAT_B8G8R8A8 {
            return Self::reply(chain, RESP_ERR_INVALID_PARAMETER, hdr, mem);
        }
        if width == 0 || height == 0 || width > MAX_DIMENSION || height > MAX_DIMENSION {
            return Self::reply(chain, RESP_ERR_INVALID_PARAMETER, hdr, mem);
        }
        let res = Resource {
            format,
            width,
            height,
            backing: Vec::new(),
            framebuffer: Vec::new(),
            kind: ResourceKind::Local2d,
        };
        self.resources.insert(id, res);
        proof {
            assert(self@.resources =~= old(self)@.resources.insert(id, new_2d(format, width, height)));
        }
        Self::reply(chain, RESP_OK_NODATA, hdr, mem)
    }
}


/// The scanout after `id` is gone: cleared where it showed `id`.
pub open spec fn scanout_without(s: Option<Scanout>, id: u32) -> Option<Scanout> {
    match s {
        Some(sc) => if sc.resource_id == id {
            None
        } else {
            s
        },
        None => None,
    }
}

impl GpuCore {
    /// The resource on the scanout, if any.
    pub fn scanout(&self) -> (r: Option<Scanout>)
        ensures
            r == self@.scanout,
    {
        self.scanout
    }

    /// Adds a resource that the 3D renderer made.
    pub fn insert_resource(&mut self, id: u32, resource: Resource)
        ensures
            final(self)@ == (GpuView { resources: old(self)@.resources.insert(id, resource@), ..old(self)@ }),
    {
        broadcast use vstd::std_specs::hash::group_hash_axioms;
        let ghost v = resource@;
        self.resources.insert(id, resource);
        proof {
            assert(self@.resources =~= old(self)@.resources.insert(id, v));
        }
    }

    /// Whether resource `id` exists, and its kind.
    pub fn resource_kind(&self, id: u32) -> (r: Option<ResourceKind>)
        ensures
            match r {
                Some(k) => self@.resources.contains_key(id) && self@.resources[id].kind == k,
                None => !self@.resources.contains_key(id),
            },
    {
        broadcast use vstd::std_specs::hash::group_hash_axioms;
        match self.resources.get(&id) {
            Some(res) => Some(res.kind),
            None => None,
        }
    }

    /// Removes resource `id`, taking it off the scanout; gives its kind, so
    /// that the renderer can release one of its own.
    pub fn destroy_resource(&mut self, id: u32) -> (r: Option<ResourceKind>)
        ensures
            match r {
                Some(k) => old(self)@.resources.contains_key(id) && old(self)@.resources[id].kind == k
                    && final(self)@ == (GpuView {
                    resources: old(self)@.resources.remove(id),
                    scanout: scanout_without(old(self)@.scanout, id),
                    ..old(self)@
                }),
                None => !old(self)@.resources.contains_key(id) && final(self)@ == old(self)@,
            },
    {
        broadcast use vstd::std_specs::hash::group_hash_axioms;
        let removed = self.resources.remove(&id);
        match removed {
            None => {
                proof {
                    assert(self@.resources =~= old(self)@.resources);
                }
                None
            },
            Some(res) => {
                match self.scanout {
                    Some(sc) => {
                        if sc.resource_id == id {
                            self.scanout = None;
                        }
                    },
                    None => {},
                }
                proof {
                    assert(self@.resources =~= old(self)@.resources.remove(id));
                }
                Some(res.kind)
            },
        }
    }

    /// Answers RESOURCE_UNREF; gives the kind of the resource released.
    pub fn cmd_resource_unref(&mut self, chain: &ChainData, hdr: &CtrlHeader, mem: &mut GuestMemory) -> (r: (
        u32,
        Option<ResourceKind>,
    ))
        ensures
            unref_done(old(self)@, final(self)@, *chain, *hdr, old(mem)@, final(mem)@, r),
    {
        let b = match chain.read_at(0, 32, mem) {
            None => return (Self::reply(chain, RESP_ERR_INVALID_PARAMETER, hdr, mem), None),
            Some(b) => b,
        };
        let id = get_u32(b.as_slice(), 24);
        match self.destroy_resource(id) {
            None => (Self::reply(chain, RESP_ERR_INVALID_RESOURCE_ID, hdr, mem), None),
            Some(k) => (Self::reply(chain, RESP_OK_NODATA, hdr, mem), Some(k)),
        }
    }

    /// Answers SET_SCANOUT; gives the size the window must take where a
    /// resource is put on the scanout.
    pub fn cmd_set_scanout(&mut self, chain: &ChainData, hdr: &CtrlHeader, mem: &mut GuestMemory) -> (r: (
        u32,
        Option<(u32, u32)>,
    ))
        ensures
            set_scanout_done(old(self)@, final(self)@, *chain, *hdr, old(mem)@, final(mem)@, r),
    {
        broadcast use vstd::std_specs::hash::group_hash_axioms;
        let b = match chain.read_at(0, 48, mem) {
            None => return (Self::reply(chain, RESP_ERR_INVALID_PARAMETER, hdr, mem), None),
            Some(b) => b,
        };
        let rect = GpuRect {
            x: get_u32(b.as_slice(), 24),
            y: get_u32(b.as_slice(), 28),
            width: get_u32(b.as_slice(), 32),
            height: get_u32(b.as_slice(), 36),
        };
        let id = get_u32(b.as_slice(), 44);
        if id == 0 {
            self.scanout = None;
            return (Self::reply(chain, RESP_OK_NODATA, hdr, mem), None);
        }
        if !self.resources.contains_key(&id) {
            return (Self::reply(chain, RESP_ERR_INVALID_RESOURCE_ID, hdr, mem), None);
        }
        self.scanout = Some(Scanout { resource_id: id, rect });
        (Self::reply(chain, RESP_OK_NODATA, hdr, mem), Some((rect.width, rect.height)))
    }

    /// Answers DETACH_BACKING; gives whether the renderer must drop the
    /// backing of a resource of its own.
    pub fn cmd_resource_detach_backing(&mut self, chain: &ChainData, hdr: &CtrlHeader, mem: &mut GuestMemory) -> (r:
        (u32, bool))
        ensures
            detach_done(old(self)@, final(self)@, *chain, *hdr, old(mem)@, final(mem)@, r),
    {
        broadcast use vstd::std_specs::hash::group_hash_axioms;
        let b = match chain.read_at(0, 32, mem) {
            None => return (Self::reply(chain, RESP_ERR_INVALID_PARAMETER, hdr, mem), false),
            Some(b) => b,
        };
        let id = get_u32(b.as_slice(), 24);
        let mut res = match self.resources.remove(&id) {
            None => {
                proof {
                    assert(self@.resources =~= old(self)@.resources);
                }
                return (Self::reply(chain, RESP_ERR_INVALID_RESOURCE_ID, hdr, mem), false);
            },
            Some(res) => res,
        };
        if res.backing.len() == 0 {
            let ghost v = res@;
            self.resources.insert(id, res);
            proof {
                assert(self@.resources =~= old(self)@.resources);
            }
            return (Self::reply(chain, RESP_ERR_UNSPEC, hdr, mem), false);
        }
        let renderer = !matches!(res.kind, ResourceKind::Local2d);
        res.backing = Vec::new();
        let ghost v = res@;
        self.resources.insert(id, res);
        proof {
            assert(self@.resources =~= old(self)@.resources.insert(id, v));
        }
        (Self::reply(chain, RESP_OK_NODATA, hdr, mem), renderer)
    }
}


/// The entries that an ATTACH_BACKING request lists after its 32 bytes:
/// `n` of them, 16 bytes each; `None` where one cannot be read.
pub open spec fn entries_spec(chain: ChainData, mem: MemState, n: nat) -> Option<Seq<MemEntry>>
    decreases n,
{
    if n == 0 {
        Some(Seq::empty())
    } else {
        match entries_spec(chain, mem, (n - 1) as nat) {
            None => None,
            Some(es) => match chain.read_at_spec(32 + (n - 1) * 16, 16, mem) {
                None => None,
                Some(b) => Some(
                    es.push(
                        MemEntry {
                            addr: le_value(b.subrange(0, 8)) as u64,
                            length: le_value(b.subrange(8, 12)) as u32,
                        },
                    ),
                ),
            },
        }
    }
}

/// What ATTACH_BACKING comes to.
pub enum AttachOutcome {
    /// Answered, with this many bytes written.
    Done(u32),
    /// The resource belongs to the renderer, which must take these entries
    /// before the request is answered.
    Renderer { resource_id: u32, entries: Vec<MemEntry> },
}

/// `len` bytes from `off` on in the buffers `backing` taken back to back, if
/// they are there and can be read.
pub open spec fn gather(backing: Seq<MemEntry>, off: int, len: int, mem: MemState) -> Option<Seq<u8>>
    decreases backing.len(),
{
    if backing.len() == 0 {
        None
    } else {
        let e = backing[0];
        if off >= e.length {
            gather(backing.drop_first(), off - e.length, len, mem)
        } else {
            let avail = e.length - off;
            let n = if avail < len {
                avail
            } else {
                len
            };
            if e.addr + off > u64::MAX {
                None
            } else {
                match read_spec(mem, e.addr + off, n) {
                    Err(_) => None,
                    Ok(bytes) => if n == len {
                        Some(bytes)
                    } else {
                        match gather(backing.drop_first(), 0, len - n, mem) {
                            None => None,
                            Some(rest) => Some(bytes + rest),
                        }
                    },
                }
            }
        }
    }
}

/// Reads `len` bytes at `off` of a resource's backing.
pub fn read_backing(backing: &Vec<MemEntry>, off: usize, len: usize, mem: &GuestMemory) -> (r: Option<Vec<u8>>)
    ensures
        r matches Some(v) ==> v@.len() == len,
        match r {
            Some(v) => gather(backing@, off as int, len as int, mem@) == Some(v@),
            None => gather(backing@, off as int, len as int, mem@) is None,
        },
{
    let ghost target = gather(backing@, off as int, len as int, mem@);
    let mut out: Vec<u8> = Vec::new();
    let mut src_offset: usize = off;
    let mut i: usize = 0;
    proof {
        assert(backing@.skip(0) =~= backing@);
    }
    while i < backing.len()
        invariant
            i <= backing@.len(),
            out@.len() < len || (out@.len() == 0 && len == 0),
            target == gather(backing@, off as int, len as int, mem@),
            target == match gather(backing@.skip(i as int), src_offset as int, (len - out@.len()) as int, mem@) {
                None => None,
                Some(rest) => Some(out@ + rest),
            },
        decreases backing@.len() - i,
    {
        let e = backing[i];
        let ghost rest = backing@.skip(i as int);
        proof {
            assert(rest[0] == e);
            assert(rest.drop_first() =~= backing@.skip(i + 1));
        }
        let entry_len = e.length as usize;
        if src_offset >= entry_len {
            src_offset = src_offset - entry_len;
            i = i + 1;
            continue;
        }
        let available = entry_len - src_offset;
        let need = len - out.len();
        let copy_len = if available < need {
            available
        } else {
            need
        };
        let addr = match e.addr.checked_add(src_offset as u64) {
            Some(a) => a,
            None => return None,
        };
        let bytes = match mem.read(addr, copy_len) {
            Ok(b) => b,
            Err(_) => return None,
        };
        let ghost before = out@;
        extend(&mut out, bytes);
        if out.len() == len {
            proof {
                assert(out@ =~= before + bytes@);
                assert(before + bytes@ + Seq::<u8>::empty() =~= out@);
            }
            return Some(out);
        }
        proof {
            assert(before + (bytes@ + Seq::<u8>::empty()) =~= out@);
        }
        src_offset = 0;
        i = i + 1;
        proof {
            let g = gather(backing@.skip(i as int), 0, (len - out@.len()) as int, mem@);
            match g {
                Some(r2) => {
                    assert(before + (bytes@ + r2) =~= out@ + r2);
                },
                None => {},
            }
        }
    }
    None
}

impl GpuCore {
    /// Answers ATTACH_BACKING for a resource in guest memory; one of the
    /// renderer's is handed back with its entries.
    pub fn cmd_resource_attach_backing(&mut self, chain: &ChainData, hdr: &CtrlHeader, mem: &mut GuestMemory) -> (r:
        AttachOutcome)
        requires
            chain.wf(),
        ensures
            attach_done(old(self)@, final(self)@, *chain, *hdr, old(mem)@, final(mem)@, r),
    {
        broadcast use vstd::std_specs::hash::group_hash_axioms;
        let b = match chain.read_at(0, 32, mem) {
            None => return AttachOutcome::Done(Self::reply(chain, RESP_ERR_INVALID_PARAMETER, hdr, mem)),
            Some(b) => b,
        };
        let id = get_u32(b.as_slice(), 24);
        let n = get_u32(b.as_slice(), 28);
        if 32 + (n as u64) * 16 > chain.readable_len() as u64 {
            return AttachOutcome::Done(Self::reply(chain, RESP_ERR_INVALID_PARAMETER, hdr, mem));
        }
        let kind = match self.resources.get(&id) {
            None => return AttachOutcome::Done(Self::reply(chain, RESP_ERR_INVALID_RESOURCE_ID, hdr, mem)),
            Some(res) => {
                if res.backing.len() != 0 {
                    return AttachOutcome::Done(Self::reply(chain, RESP_ERR_UNSPEC, hdr, mem));
                }
                res.kind
            },
        };
        if n == 0 {
            return AttachOutcome::Done(Self::reply(chain, RESP_OK_NODATA, hdr, mem));
        }
        let mut entries: Vec<MemEntry> = Vec::new();
        let mut i: u32 = 0;
        while i < n
            invariant
                i <= n,
                32 + (n as int) * 16 <= chain.readable_len,
                mem@ == old(mem)@,
                self@ == old(self)@,
                request(*chain, old(mem)@, 32) == Some(b@),
                id == u32_at(b@, 24),
                n == u32_at(b@, 28),
                old(self)@.resources.contains_key(id),
                old(self)@.resources[id].kind == kind,
                old(self)@.resources[id].backing.len() == 0,
                entries_spec(*chain, mem@, i as nat) == Some(entries@),
            decreases n - i,
        {
            let off = 32 + (i as usize) * 16;
            let eb = match chain.read_at(off, 16, mem) {
                None => {
                    proof {
                        lemma_entries_none(*chain, mem@, (i + 1) as nat, n as nat);
                    }
                    return AttachOutcome::Done(Self::reply(chain, RESP_ERR_INVALID_PARAMETER, hdr, mem));
                },
                Some(eb) => eb,
            };
            entries.push(MemEntry { addr: get_u64(eb.as_slice(), 0), length: get_u32(eb.as_slice(), 8) });
            i = i + 1;
        }
        if !matches!(kind, ResourceKind::Local2d) {
            return AttachOutcome::Renderer { resource_id: id, entries };
        }
        let mut res = self.resources.remove(&id).unwrap();
        res.backing = entries;
        let ghost v = res@;
        self.resources.insert(id, res);
        proof {
            assert(self@.resources =~= old(self)@.resources.insert(id, v));
        }
        AttachOutcome::Done(Self::reply(chain, RESP_OK_NODATA, hdr, mem))
    }

    /// Records the backing that the renderer took for resource `id`.
    pub fn set_backing(&mut self, id: u32, entries: Vec<MemEntry>)
        ensures
            old(self)@.resources.contains_key(id) ==> final(self)@ == (GpuView {
                resources: old(self)@.resources.insert(
                    id,
                    ResourceView { backing: entries@, ..old(self)@.resources[id] },
                ),
                ..old(self)@
            }),
            !old(self)@.resources.contains_key(id) ==> final(self)@ == old(self)@,
    {
        broadcast use vstd::std_specs::hash::group_hash_axioms;
        match self.resources.remove(&id) {
            None => {
                proof {
                    assert(self@.resources =~= old(self)@.resources);
                }
            },
            Some(mut res) => {
                res.backing = entries;
                let ghost v = res@;
                self.resources.insert(id, res);
                proof {
                    assert(self@.resources =~= old(self)@.resources.insert(id, v));
                }
            },
        }
    }
}

/// An entry that cannot be read leaves the whole list unread.
proof fn lemma_entries_none(chain: ChainData, mem: MemState, k: nat, n: nat)
    requires
        k <= n,
        entries_spec(chain, mem, k) is None,
    ensures
        entries_spec(chain, mem, n) is None,
    decreases n - k,
{
    if k < n {
        lemma_entries_none(chain, mem, k + 1, n);
    }
}


/// Row `row` of a transfer: `w4` bytes of the backing at `off + row * stride`.
pub open spec fn row_data(backing: Seq<MemEntry>, mem: MemState, off: int, stride: int, w4: int, row: int) -> Option<Seq<u8>> {
    if off + row * stride > usize::MAX {
        None
    } else {
        gather(backing, off + row * stride, w4, mem)
    }
}

/// The first `k` rows of a transfer, if they can all be read.
pub open spec fn rows_spec(backing: Seq<MemEntry>, mem: MemState, off: int, stride: int, w4: int, k: nat) -> Option<
    Seq<Seq<u8>>,
>
    decreases k,
{
    if k == 0 {
        Some(Seq::empty())
    } else {
        match rows_spec(backing, mem, off, stride, w4, (k - 1) as nat) {
            None => None,
            Some(rs) => match row_data(backing, mem, off, stride, w4, k - 1) {
                None => None,
                Some(d) => Some(rs.push(d)),
            },
        }
    }
}

/// `fb` with row `r` of `rows` written at `(y + r) * stride + x4`.
pub open spec fn apply_rows(fb: Seq<u8>, rows: Seq<Seq<u8>>, y: int, x4: int, stride: int) -> Seq<u8>
    decreases rows.len(),
{
    if rows.len() == 0 {
        fb
    } else {
        let prev = apply_rows(fb, rows.drop_last(), y, x4, stride);
        crate::memory::overwrite(prev, (y + rows.len() - 1) * stride + x4, rows.last())
    }
}

/// `fb` cut or grown with zeros to `n` bytes.
pub open spec fn resized_bytes(fb: Seq<u8>, n: nat) -> Seq<u8> {
    Seq::new(n, |i: int| if i < fb.len() { fb[i] } else { 0u8 })
}

fn resize_bytes(v: &mut Vec<u8>, n: usize)
    ensures
        final(v)@ == resized_bytes(old(v)@, n as nat),
{
    if n <= v.len() {
        v.truncate(n);
        proof {
            assert(v@ =~= resized_bytes(old(v)@, n as nat));
        }
    } else {
        while v.len() < n
            invariant
                old(v)@.len() <= v@.len() <= n,
                v@ == resized_bytes(old(v)@, v@.len()),
            decreases n - v@.len(),
        {
            v.push(0);
            proof {
                assert(v@ =~= resized_bytes(old(v)@, v@.len()));
            }
        }
    }
}

proof fn lemma_rows_none(backing: Seq<MemEntry>, mem: MemState, off: int, stride: int, w4: int, k: nat, n: nat)
    requires
        k <= n,
        rows_spec(backing, mem, off, stride, w4, k) is None,
    ensures
        rows_spec(backing, mem, off, stride, w4, n) is None,
    decreases n - k,
{
    if k < n {
        lemma_rows_none(backing, mem, off, stride, w4, k + 1, n);
    }
}

/// The answer to TRANSFER_TO_HOST_2D: its type, and the rows read where
/// it succeeds.
pub open spec fn transfer_spec(v: GpuView, mem: MemState, req: Option<Seq<u8>>) -> (u32, Option<Seq<Seq<u8>>>) {
    match req {
        None => (RESP_ERR_INVALID_PARAMETER, None),
        Some(b) => {
            let x = u32_at(b, 24);
            let y = u32_at(b, 28);
            let w = u32_at(b, 32);
            let h = u32_at(b, 36);
            let off = le_value(b.subrange(40, 48));
            let id = u32_at(b, 48);
            let res = v.resources[id];
            let stride = res.width * 4;
            if !v.resources.contains_key(id) {
                (RESP_ERR_INVALID_RESOURCE_ID, None)
            } else if res.kind != ResourceKind::Local2d {
                (RESP_OK_NODATA, None)
            } else if x + w > res.width || y + h > res.height {
                (RESP_ERR_INVALID_PARAMETER, None)
            } else if res.height * stride > usize::MAX {
                (RESP_ERR_INVALID_PARAMETER, None)
            } else {
                match rows_spec(res.backing, mem, off as int, stride, w * 4, h as nat) {
                    None => (RESP_ERR_INVALID_PARAMETER, None),
                    Some(rows) => (RESP_OK_NODATA, Some(rows)),
                }
            }
        },
    }
}

proof fn lemma_row_fits(y: int, r: int, h: int, x: int, w: int, width: int, height: int)
    requires
        0 <= y,
        0 <= r < h,
        y + h <= height,
        0 <= x,
        0 <= w,
        x + w <= width,
    ensures
        (y + r) * (width * 4) + x * 4 + w * 4 <= height * (width * 4),
        0 <= (y + r) * (width * 4),
{
    assert((y + r) * (width * 4) + x * 4 + w * 4 <= height * (width * 4)) by (nonlinear_arith)
        requires
            0 <= y,
            0 <= r < h,
            y + h <= height,
            0 <= x,
            0 <= w,
            x + w <= width,
    ;
    assert(0 <= (y + r) * (width * 4)) by (nonlinear_arith)
        requires
            0 <= y,
            0 <= r,
            0 <= width,
    ;
}

impl GpuCore {
    /// Answers TRANSFER_TO_HOST_2D: copies a rectangle of a 2D resource
    /// from its backing into the host's copy of its pixels, row by row.
    pub fn cmd_transfer_to_host_2d(&mut self, chain: &ChainData, hdr: &CtrlHeader, mem: &mut GuestMemory) -> (r: u32)
        ensures
            transfer_done(old(self)@, final(self)@, *chain, *hdr, old(mem)@, final(mem)@, r),
    {
        broadcast use vstd::std_specs::hash::group_hash_axioms;
        let b = match chain.read_at(0, 56, mem) {
            None => return Self::reply(chain, RESP_ERR_INVALID_PARAMETER, hdr, mem),
            Some(b) => b,
        };
        let x = get_u32(b.as_slice(), 24);
        let y = get_u32(b.as_slice(), 28);
        let w = get_u32(b.as_slice(), 32);
        let h = get_u32(b.as_slice(), 36);
        let off = get_u64(b.as_slice(), 40);
        let id = get_u32(b.as_slice(), 48);
        let mut res = match self.resources.remove(&id) {
            None => {
                proof {
                    assert(self@.resources =~= old(self)@.resources);
                }
                return Self::reply(chain, RESP_ERR_INVALID_RESOURCE_ID, hdr, mem);
            },
            Some(res) => res,
        };
        let ghost res0 = res@;
        if !matches!(res.kind, ResourceKind::Local2d) || x as u64 + w as u64 > res.width as u64 || y as u64
            + h as u64 > res.height as u64 {
            let local = matches!(res.kind, ResourceKind::Local2d);
            self.resources.insert(id, res);
            proof {
                assert(self@.resources =~= old(self)@.resources);
            }
            if !local {
                return Self::reply(chain, RESP_OK_NODATA, hdr, mem);
            }
            return Self::reply(chain, RESP_ERR_INVALID_PARAMETER, hdr, mem);
        }
        let stride: u64 = res.width as u64 * 4;
        let fb_len: u64 = match (res.height as u64).checked_mul(stride) {
            Some(n) => n,
            None => {
                self.resources.insert(id, res);
                proof {
                    assert(self@.resources =~= old(self)@.resources);
                }
                return Self::reply(chain, RESP_ERR_INVALID_PARAMETER, hdr, mem);
            },
        };
        if fb_len > usize::MAX as u64 {
            self.resources.insert(id, res);
            proof {
                assert(self@.resources =~= old(self)@.resources);
            }
            return Self::reply(chain, RESP_ERR_INVALID_PARAMETER, hdr, mem);
        }
        resize_bytes(&mut res.framebuffer, fb_len as usize);
        let ghost fb0 = res.framebuffer@;
        let mut row: u32 = 0;
        let ghost mut rows: Seq<Seq<u8>> = Seq::empty();
        while row < h
            invariant
                row <= h,
                res.framebuffer@.len() == fb_len,
                fb_len == res0.height * (res0.width * 4),
                fb_len <= usize::MAX,
                stride == res0.width * 4,
                x + w <= res0.width,
                y + h <= res0.height,
                res.backing@ == res0.backing,
                res.width == res0.width,
                res.height == res0.height,
                res.kind == res0.kind,
                res.format == res0.format,
                self@.resources == old(self)@.resources.remove(id),
                self@.scanout == old(self)@.scanout,
                self@.display_width == old(self)@.display_width,
                self@.display_height == old(self)@.display_height,
                self@.events_read == old(self)@.events_read,
                self@.edid_compatibility_mode == old(self)@.edid_compatibility_mode,
                old(self)@.resources.contains_key(id),
                old(self)@.resources[id] == res0,
                res0.kind == ResourceKind::Local2d,
                mem@ == old(mem)@,
                request(*chain, old(mem)@, 56) == Some(b@),
                x == u32_at(b@, 24),
                y == u32_at(b@, 28),
                w == u32_at(b@, 32),
                h == u32_at(b@, 36),
                off == le_value(b@.subrange(40, 48)),
                id == u32_at(b@, 48),
                rows.len() == row,
                rows_spec(res0.backing, mem@, off as int, stride as int, w * 4, row as nat) == Some(rows),
                res.framebuffer@ == apply_rows(fb0, rows, y as int, x * 4, stride as int),
            decreases h - row,
        {
            proof {
                lemma_row_fits(y as int, row as int, h as int, x as int, w as int, res0.width as int, res0.height as int);
                assert((row as u128) * (stride as u128) <= 0xffff_ffffu128 * 0xffff_ffff_ffff_ffffu128) by (nonlinear_arith)
                    requires
                        row <= 0xffff_ffffu32,
                        stride <= 0xffff_ffff_ffff_ffffu64,
                ;
            }
            let w4: usize = (w as usize) * 4;
            let src = (off as u128) + (row as u128) * (stride as u128);
            let fail = if src > usize::MAX as u128 {
                proof {
                    lemma_rows_none(res0.backing, mem@, off as int, stride as int, w * 4, (row + 1) as nat, h as nat);
                }
                true
            } else {
                match read_backing(&res.backing, src as usize, w4, mem) {
                    None => {
                        proof {
                            lemma_rows_none(res0.backing, mem@, off as int, stride as int, w * 4, (row + 1) as nat, h as nat);
                        }
                        true
                    },
                    Some(d) => {
                        let dst: usize = ((y as u64 + row as u64) * stride) as usize + (x as usize) * 4;
                        let ghost prev = res.framebuffer@;
                        let mut j: usize = 0;
                        while j < d.len()
                            invariant
                                j <= d@.len(),
                                d@.len() == w4,
                                dst + w4 <= fb_len,
                                res.framebuffer@.len() == fb_len,
                                res.framebuffer@ == crate::memory::overwrite(prev, dst as int, d@.subrange(0, j as int)),
                                prev.len() == fb_len,
                                fb_len <= usize::MAX,
                                res.backing@ == res0.backing,
                                res.width == res0.width,
                                res.height == res0.height,
                                res.kind == res0.kind,
                                res.format == res0.format,
                            decreases d@.len() - j,
                        {
                            res.framebuffer.set(dst + j, d[j]);
                            j = j + 1;
                            proof {
                                assert(res.framebuffer@ =~= crate::memory::overwrite(prev, dst as int, d@.subrange(0, j as int)));
                            }
                        }
                        proof {
                            assert(d@.subrange(0, j as int) =~= d@);
                            let nrows = rows.push(d@);
                            assert(nrows.drop_last() =~= rows);
                            rows = nrows;
                        }
                        false
                    },
                }
            };
            assert(fail ==> rows_spec(res0.backing, mem@, off as int, stride as int, w * 4, h as nat) is None);
            if fail {
                let ghost v = res@;
                self.resources.insert(id, res);
                proof {
                    assert(self@.resources.dom() =~= old(self)@.resources.dom());
                    assert(self@.resources[id] == v);
                    assert forall|k: u32| k != id && #[trigger] old(self)@.resources.contains_key(k) implies self@.resources[k]
                        == old(self)@.resources[k] by {
                        assert(self@.resources[k] == old(self)@.resources.remove(id)[k]);
                    }
                }
                return Self::reply(chain, RESP_ERR_INVALID_PARAMETER, hdr, mem);
            }
            row = row + 1;
        }
        let ghost v = res@;
        let ghost before = self.resources@;
        let ghost rv = res;
        self.resources.insert(id, res);
        proof {
            assert(self.resources@ == before.insert(id, rv));
            assert(rv@ == v);
            assert(before.map_values(|r: Resource| r@) == old(self)@.resources.remove(id));
            assert(self@.resources =~= before.map_values(|r: Resource| r@).insert(id, v));
            assert(self@.resources =~= old(self)@.resources.insert(id, v));
        }
        Self::reply(chain, RESP_OK_NODATA, hdr, mem)
    }
}


/// The larger of `a` and `b`.
pub open spec fn max_u32(a: u32, b: u32) -> u32 {
    if a >= b {
        a
    } else {
        b
    }
}

/// What GET_EDID answers for scanout `scanout` of a `width` by `height`
/// display: the response type and the EDID, at least 32 pixels each way.
pub open spec fn edid_reply(req: Option<Seq<u8>>, width: u32, height: u32) -> (u32, Option<Seq<u8>>) {
    match req {
        None => (RESP_ERR_INVALID_PARAMETER, None),
        Some(b) => if u32_at(b, 24) != 0 {
            (RESP_ERR_INVALID_SCANOUT_ID, None)
        } else {
            match edid_spec(max_u32(width, 32), max_u32(height, 32)) {
                None => (RESP_ERR_INVALID_PARAMETER, None),
                Some(e) => (RESP_OK_EDID, Some(e)),
            }
        },
    }
}

/// What to do with a RESOURCE_FLUSH.
#[derive(Debug, Copy, Clone, PartialEq, Eq)]
pub enum FlushPlan {
    /// Answer at once with this response type; nothing to show.
    Reply(u32),
    /// Show `damage` of the 2D resource on the scanout from its pixels.
    Present2d { resource_id: u32, damage: GpuRect },
    /// The resource on the scanout belongs to the renderer.
    Renderer { resource_id: u32, damage: GpuRect, kind: ResourceKind },
}

/// The plan for a RESOURCE_FLUSH request `req`.
pub open spec fn flush_spec(v: GpuView, req: Option<Seq<u8>>) -> FlushPlan {
    match req {
        None => FlushPlan::Reply(RESP_ERR_INVALID_PARAMETER),
        Some(b) => {
            let damage = GpuRect { x: u32_at(b, 24), y: u32_at(b, 28), width: u32_at(b, 32), height: u32_at(b, 36) };
            let id = u32_at(b, 40);
            if !(v.scanout matches Some(sc) && sc.resource_id == id) {
                FlushPlan::Reply(RESP_OK_NODATA)
            } else if !v.resources.contains_key(id) {
                FlushPlan::Reply(RESP_ERR_INVALID_RESOURCE_ID)
            } else if v.resources[id].kind == ResourceKind::Local2d {
                FlushPlan::Present2d { resource_id: id, damage }
            } else {
                FlushPlan::Renderer { resource_id: id, damage, kind: v.resources[id].kind }
            }
        },
    }
}

impl GpuCore {
    /// Answers GET_EDID.
    pub fn cmd_get_edid(&self, chain: &ChainData, hdr: &CtrlHeader, mem: &mut GuestMemory) -> (r: u32)
        ensures
            edid_done(self@, *chain, *hdr, old(mem)@, final(mem)@, r),
    {
        let b = match chain.read_at(0, 32, mem) {
            None => return Self::reply(chain, RESP_ERR_INVALID_PARAMETER, hdr, mem),
            Some(b) => b,
        };
        if get_u32(b.as_slice(), 24) != 0 {
            return Self::reply(chain, RESP_ERR_INVALID_SCANOUT_ID, hdr, mem);
        }
        let width = if self.display_width >= 32 {
            self.display_width
        } else {
            32
        };
        let height = if self.display_height >= 32 {
            self.display_height
        } else {
            32
        };
        let edid = match build(width, height, self.edid_compatibility_mode) {
            None => return Self::reply(chain, RESP_ERR_INVALID_PARAMETER, hdr, mem),
            Some(e) => e,
        };
        proof {
            crate::virtio::edid::lemma_edid_checksums(width, height);
        }
        let mut all = resp_header(RESP_OK_EDID, hdr);
        extend(&mut all, u32_le(edid.len() as u32));
        extend(&mut all, u32_le(0));
        let ghost e = edid@;
        extend(&mut all, edid);
        proof {
            lemma_le_bytes_len(e.len(), 4);
            lemma_le_bytes_len(0, 4);
        }
        chain.write_response(all.as_slice(), mem)
    }

    /// Decides what a RESOURCE_FLUSH does.
    pub fn plan_flush(&self, chain: &ChainData, mem: &GuestMemory) -> (r: FlushPlan)
        ensures
            r == flush_spec(self@, request(*chain, mem@, 48)),
    {
        broadcast use vstd::std_specs::hash::group_hash_axioms;
        let b = match chain.read_at(0, 48, mem) {
            None => return FlushPlan::Reply(RESP_ERR_INVALID_PARAMETER),
            Some(b) => b,
        };
        let damage = GpuRect {
            x: get_u32(b.as_slice(), 24),
            y: get_u32(b.as_slice(), 28),
            width: get_u32(b.as_slice(), 32),
            height: get_u32(b.as_slice(), 36),
        };
        let id = get_u32(b.as_slice(), 40);
        let on_scanout = match self.scanout {
            Some(sc) => sc.resource_id == id,
            None => false,
        };
        if !on_scanout {
            return FlushPlan::Reply(RESP_OK_NODATA);
        }
        match self.resources.get(&id) {
            None => FlushPlan::Reply(RESP_ERR_INVALID_RESOURCE_ID),
            Some(res) => match res.kind {
                ResourceKind::Local2d => FlushPlan::Present2d { resource_id: id, damage },
                k => FlushPlan::Renderer { resource_id: id, damage, kind: k },
            },
        }
    }

    /// The pixels of resource `id`, with its width and height.
    pub fn pixels(&self, id: u32) -> (r: Option<(&Vec<u8>, u32, u32)>)
        ensures
            match r {
                Some((fb, w, h)) => self@.resources.contains_key(id) && fb@ == self@.resources[id].framebuffer
                    && w == self@.resources[id].width && h == self@.resources[id].height,
                None => !self@.resources.contains_key(id),
            },
    {
        broadcast use vstd::std_specs::hash::group_hash_axioms;
        match self.resources.get(&id) {
            None => None,
            Some(res) => Some((&res.framebuffer, res.width, res.height)),
        }
    }
}

/// The answer to GET_DISPLAY_INFO on `chain`: the bytes written and returned in `r`,
/// and the state `c1` that follows `c0`.
pub open spec fn display_info_done(c0: GpuView, chain: ChainData, hdr: CtrlHeader, m0: MemState, m1: MemState, r: u32) -> bool {
    (m1, r as nat) == fill_segs(
        chain.writable@,
        resp_header_spec(RESP_OK_DISPLAY_INFO, hdr) + display_info_spec(
            c0.display_width,
            c0.display_height,
        ),
        m0,
    )
}

/// The answer to GET_EDID on `chain`: the bytes written and returned in `r`,
/// and the state `c1` that follows `c0`.
pub open spec fn edid_done(c0: GpuView, chain: ChainData, hdr: CtrlHeader, m0: MemState, m1: MemState, r: u32) -> bool {
    let e = edid_reply(request(chain, m0, 32), c0.display_width, c0.display_height);
    match e.1 {
        None => (m1, r as nat) == reply_spec(chain, m0, e.0, hdr),
        Some(edid) => (m1, r as nat) == fill_segs(
            chain.writable@,
            resp_header_spec(e.0, hdr) + le_bytes(edid.len(), 4) + le_bytes(0, 4) + edid,
            m0,
        ),
    }
}

/// The answer to CREATE_2D on `chain`: the bytes written and returned in `r`,
/// and the state `c1` that follows `c0`.
pub open spec fn create_2d_done(c0: GpuView, c1: GpuView, chain: ChainData, hdr: CtrlHeader, m0: MemState, m1: MemState, r: u32) -> bool {
    let req = request(chain, m0, 40);
    let ty = create_2d_spec(c0.resources, req);
    &&& (m1, r as nat) == reply_spec(chain, m0, ty, hdr)
    &&& ty == RESP_OK_NODATA ==> c1 == (GpuView {
        resources: c0.resources.insert(
            u32_at(req->0, 24),
            new_2d(u32_at(req->0, 28), u32_at(req->0, 32), u32_at(req->0, 36)),
        ),
        ..c0
    })
    &&& ty != RESP_OK_NODATA ==> c1 == c0
}

/// The answer to RESOURCE_UNREF on `chain`: the bytes written and returned in `r`,
/// and the state `c1` that follows `c0`.
pub open spec fn unref_done(c0: GpuView, c1: GpuView, chain: ChainData, hdr: CtrlHeader, m0: MemState, m1: MemState, r: (u32, Option<ResourceKind>)) -> bool {
    let req = request(chain, m0, 32);
    let id = u32_at(req->0, 24);
    let ty = if req is None {
        RESP_ERR_INVALID_PARAMETER
    } else if !c0.resources.contains_key(id) {
        RESP_ERR_INVALID_RESOURCE_ID
    } else {
        RESP_OK_NODATA
    };
    &&& (m1, r.0 as nat) == reply_spec(chain, m0, ty, hdr)
    &&& ty == RESP_OK_NODATA ==> {
        &&& r.1 == Some(c0.resources[id].kind)
        &&& c1 == (GpuView {
            resources: c0.resources.remove(id),
            scanout: scanout_without(c0.scanout, id),
            ..c0
        })
    }
    &&& ty != RESP_OK_NODATA ==> r.1 is None && c1 == c0
}

/// The answer to SET_SCANOUT on `chain`: the bytes written and returned in `r`,
/// and the state `c1` that follows `c0`.
pub open spec fn set_scanout_done(c0: GpuView, c1: GpuView, chain: ChainData, hdr: CtrlHeader, m0: MemState, m1: MemState, r: (u32, Option<(u32, u32)>)) -> bool {
    let req = request(chain, m0, 48);
    let b = req->0;
    let rect = GpuRect { x: u32_at(b, 24), y: u32_at(b, 28), width: u32_at(b, 32), height: u32_at(b, 36) };
    let id = u32_at(b, 44);
    let ty = if req is None {
        RESP_ERR_INVALID_PARAMETER
    } else if id != 0 && !c0.resources.contains_key(id) {
        RESP_ERR_INVALID_RESOURCE_ID
    } else {
        RESP_OK_NODATA
    };
    &&& (m1, r.0 as nat) == reply_spec(chain, m0, ty, hdr)
    &&& ty != RESP_OK_NODATA ==> r.1 is None && c1 == c0
    &&& ty == RESP_OK_NODATA && id == 0 ==> r.1 is None && c1 == (GpuView {
        scanout: None,
        ..c0
    })
    &&& ty == RESP_OK_NODATA && id != 0 ==> r.1 == Some((rect.width, rect.height))
        && c1 == (GpuView {
        scanout: Some(Scanout { resource_id: id, rect }),
        ..c0
    })
}

/// The answer to DETACH_BACKING on `chain`: the bytes written and returned in `r`,
/// and the state `c1` that follows `c0`.
pub open spec fn detach_done(c0: GpuView, c1: GpuView, chain: ChainData, hdr: CtrlHeader, m0: MemState, m1: MemState, r: (u32, bool)) -> bool {
    let req = request(chain, m0, 32);
    let id = u32_at(req->0, 24);
    let res = c0.resources[id];
    let ty = if req is None {
        RESP_ERR_INVALID_PARAMETER
    } else if !c0.resources.contains_key(id) {
        RESP_ERR_INVALID_RESOURCE_ID
    } else if res.backing.len() == 0 {
        RESP_ERR_UNSPEC
    } else {
        RESP_OK_NODATA
    };
    &&& (m1, r.0 as nat) == reply_spec(chain, m0, ty, hdr)
    &&& ty != RESP_OK_NODATA ==> !r.1 && c1 == c0
    &&& ty == RESP_OK_NODATA ==> {
        &&& r.1 == (res.kind != ResourceKind::Local2d)
        &&& c1 == (GpuView {
            resources: c0.resources.insert(id, ResourceView { backing: Seq::empty(), ..res }),
            ..c0
        })
    }
}

/// The answer to ATTACH_BACKING on `chain`: the bytes written and returned in `r`,
/// and the state `c1` that follows `c0`.
pub open spec fn attach_done(c0: GpuView, c1: GpuView, chain: ChainData, hdr: CtrlHeader, m0: MemState, m1: MemState, r: AttachOutcome) -> bool {
    let req = request(chain, m0, 32);
    let id = u32_at(req->0, 24);
    let n = u32_at(req->0, 28) as nat;
    let res = c0.resources[id];
    let es = entries_spec(chain, m0, n);
    let ty = if req is None {
        RESP_ERR_INVALID_PARAMETER
    } else if 32 + n * 16 > chain.readable_len {
        RESP_ERR_INVALID_PARAMETER
    } else if !c0.resources.contains_key(id) {
        RESP_ERR_INVALID_RESOURCE_ID
    } else if res.backing.len() != 0 {
        RESP_ERR_UNSPEC
    } else if n == 0 {
        RESP_OK_NODATA
    } else if es is None {
        RESP_ERR_INVALID_PARAMETER
    } else {
        RESP_OK_NODATA
    };
    let to_renderer = ty == RESP_OK_NODATA && n != 0 && res.kind != ResourceKind::Local2d;
    &&& to_renderer ==> (r matches AttachOutcome::Renderer { resource_id, entries } && resource_id
        == id && entries@ == es->0 && c1 == c0 && m1 == m0)
    &&& !to_renderer ==> (r matches AttachOutcome::Done(w) && (m1, w as nat)
        == reply_spec(chain, m0, ty, hdr))
    &&& !to_renderer && ty == RESP_OK_NODATA && n != 0 ==> c1 == (GpuView {
        resources: c0.resources.insert(id, ResourceView { backing: es->0, ..res }),
        ..c0
    })
    &&& !to_renderer && !(ty == RESP_OK_NODATA && n != 0) ==> c1 == c0
}

/// The answer to TRANSFER_TO_HOST_2D on `chain`: the bytes written and returned in `r`,
/// and the state `c1` that follows `c0`.
pub open spec fn transfer_done(c0: GpuView, c1: GpuView, chain: ChainData, hdr: CtrlHeader, m0: MemState, m1: MemState, r: u32) -> bool {
    let req = request(chain, m0, 56);
    let t = transfer_spec(c0, m0, req);
    let b = req->0;
    let id = u32_at(b, 48);
    let res = c0.resources[id];
    let fb_len = (res.height * (res.width * 4)) as nat;
    &&& (m1, r as nat) == reply_spec(chain, m0, t.0, hdr)
    &&& match t.1 {
        Some(rows) => c1 == (GpuView {
            resources: c0.resources.insert(
                id,
                ResourceView {
                    framebuffer: apply_rows(
                        resized_bytes(res.framebuffer, fb_len),
                        rows,
                        u32_at(b, 28) as int,
                        u32_at(b, 24) * 4,
                        res.width * 4,
                    ),
                    ..res
                },
            ),
            ..c0
        }),
        None => {
            ||| c1 == c0
            ||| {
                &&& t.0 == RESP_ERR_INVALID_PARAMETER
                &&& c1.resources.dom() == c0.resources.dom()
                &&& c1.resources[id].framebuffer.len() == fb_len
                &&& c1.resources[id].backing == res.backing
                &&& c1.resources[id].kind == res.kind
                &&& c1.resources[id].width == res.width
                &&& c1.resources[id].height == res.height
                &&& c1.resources[id].format == res.format
                &&& forall|k: u32| k != id && #[trigger] c0.resources.contains_key(k)
                    ==> c1.resources[k] == c0.resources[k]
                &&& c1.scanout == c0.scanout
                &&& c1.display_width == c0.display_width
                &&& c1.display_height == c0.display_height
                &&& c1.events_read == c0.events_read
                &&& c1.edid_compatibility_mode == c0.edid_compatibility_mode
            }
        },
    }
}

} // verus!
