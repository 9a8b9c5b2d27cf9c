//! The 3D commands of the GPU as the 3D renderer takes them: the requests
//! decoded into the renderer's descriptions, the checks made before the
//! renderer is called, and the bookkeeping and replies after it answered.
use crate::bytes::{get_u32, get_u64, le_bytes, le_value, lemma_le_bytes_len, u32_le};
use crate::memory::{GuestMemory, MemState};
use crate::virtio::chain::ChainData;
use crate::virtio::gpu::{
    request, u32_at, CtrlHeader, GpuCore, GpuView, Resource, ResourceKind, ResourceView, FLAG_FENCE, FLAG_RING_IDX,
    RESP_ERR_INVALID_PARAMETER, RESP_ERR_INVALID_RESOURCE_ID,
};
use vstd::prelude::*;

verus! {

/// The length of a RESOURCE_CREATE_3D request.
pub const CREATE_3D_LEN: usize = 72;

/// The length of a TRANSFER_TO_HOST_3D or TRANSFER_FROM_HOST_3D request.
pub const TRANSFER_3D_LEN: usize = 72;

/// The length of the head of a SUBMIT_3D request, before its commands.
pub const SUBMIT_3D_LEN: usize = 32;

/// The length of a RESOURCE_CREATE_BLOB request before its memory entries.
pub const CREATE_BLOB_LEN: usize = 56;

/// The length of a GET_CAPSET_INFO request.
pub const CAPSET_INFO_LEN: usize = 32;

pub const RESP_OK_CAPSET_INFO: u32 = 0x1102;

/// A 3D resource as the renderer is asked to make it.
#[derive(Debug, Copy, Clone, PartialEq, Eq)]
pub struct ResourceCreate3D {
    pub target: u32,
    pub format: u32,
    pub bind: u32,
    pub width: u32,
    pub height: u32,
    pub depth: u32,
    pub array_size: u32,
    pub last_level: u32,
    pub nr_samples: u32,
    pub flags: u32,
}

/// A box of a 3D resource that the renderer copies from or to the
/// resource's backing.
#[derive(Debug, Copy, Clone, PartialEq, Eq)]
pub struct Transfer3D {
    pub x: u32,
    pub y: u32,
    pub z: u32,
    pub w: u32,
    pub h: u32,
    pub d: u32,
    pub level: u32,
    pub stride: u32,
    pub layer_stride: u32,
    pub offset: u64,
}

/// A blob resource as the renderer is asked to make it.
#[derive(Debug, Copy, Clone, PartialEq, Eq)]
pub struct ResourceCreateBlob {
    pub blob_mem: u32,
    pub blob_flags: u32,
    pub blob_id: u64,
    pub size: u64,
}

/// A fence that the renderer signals: on a context's ring, or on the global
/// timeline where there is no ring.
#[derive(Debug, Copy, Clone, PartialEq, Eq)]
pub struct VirglFence {
    pub fence_id: u64,
    pub ctx_id: u32,
    pub ring_idx: Option<u32>,
}

/// A capability set of the renderer: its id, highest version and size.
#[derive(Debug, Copy, Clone, PartialEq, Eq)]
pub struct CapsetInfo {
    pub id: u32,
    pub version: u32,
    pub size: u32,
}

pub open spec fn u64_at(b: Seq<u8>, off: int) -> u64 {
    le_value(b.subrange(off, off + 8)) as u64
}

/// The resource id and description of a RESOURCE_CREATE_3D request `b`.
pub open spec fn create_3d_spec(b: Seq<u8>) -> (u32, ResourceCreate3D) {
    (
        u32_at(b, 24),
        ResourceCreate3D {
            target: u32_at(b, 28),
            format: u32_at(b, 32),
            bind: u32_at(b, 36),
            width: u32_at(b, 40),
            height: u32_at(b, 44),
            depth: u32_at(b, 48),
            array_size: u32_at(b, 52),
            last_level: u32_at(b, 56),
            nr_samples: u32_at(b, 60),
            flags: u32_at(b, 64),
        },
    )
}

/// The resource id and box of a 3D transfer request `b`.
pub open spec fn transfer_3d_spec(b: Seq<u8>) -> (u32, Transfer3D) {
    (
        u32_at(b, 56),
        Transfer3D {
            x: u32_at(b, 24),
            y: u32_at(b, 28),
            z: u32_at(b, 32),
            w: u32_at(b, 36),
            h: u32_at(b, 40),
            d: u32_at(b, 44),
            level: u32_at(b, 60),
            stride: u32_at(b, 64),
            layer_stride: u32_at(b, 68),
            offset: u64_at(b, 48),
        },
    )
}

/// Decodes a RESOURCE_CREATE_3D request.
pub fn decode_create_3d(b: &[u8]) -> (r: (u32, ResourceCreate3D))
    requires
        b@.len() >= CREATE_3D_LEN,
    ensures
        r == create_3d_spec(b@),
{
    (
        get_u32(b, 24),
        ResourceCreate3D {
            target: get_u32(b, 28),
            format: get_u32(b, 32),
            bind: get_u32(b, 36),
            width: get_u32(b, 40),
            height: get_u32(b, 44),
            depth: get_u32(b, 48),
            array_size: get_u32(b, 52),
            last_level: get_u32(b, 56),
            nr_samples: get_u32(b, 60),
            flags: get_u32(b, 64),
        },
    )
}

/// Decodes a 3D transfer request.
pub fn decode_transfer_3d(b: &[u8]) -> (r: (u32, Transfer3D))
    requires
        b@.len() >= TRANSFER_3D_LEN,
    ensures
        r == transfer_3d_spec(b@),
{
    (
        get_u32(b, 56),
        Transfer3D {
            x: get_u32(b, 24),
            y: get_u32(b, 28),
            z: get_u32(b, 32),
            w: get_u32(b, 36),
            h: get_u32(b, 40),
            d: get_u32(b, 44),
            level: get_u32(b, 60),
            stride: get_u32(b, 64),
            layer_stride: get_u32(b, 68),
            offset: get_u64(b, 48),
        },
    )
}

/// What RESOURCE_CREATE_3D asks of the renderer, or the response type that
/// refuses it: a request too short to read, or for an id that is taken.
pub open spec fn create_3d_check_spec(v: GpuView, chain: ChainData, mem: MemState) -> Result<(u32, ResourceCreate3D), u32> {
    match request(chain, mem, CREATE_3D_LEN as int) {
        None => Err(RESP_ERR_INVALID_PARAMETER),
        Some(b) => if v.resources.contains_key(create_3d_spec(b).0) {
            Err(RESP_ERR_INVALID_RESOURCE_ID)
        } else {
            Ok(create_3d_spec(b))
        },
    }
}

/// Checks a RESOURCE_CREATE_3D request before the renderer is asked to make
/// the resource.
pub fn check_create_3d(gpu: &GpuCore, chain: &ChainData, mem: &GuestMemory) -> (r: Result<(u32, ResourceCreate3D), u32>)
    ensures
        r == create_3d_check_spec(gpu@, *chain, mem@),
{
    let b = match chain.read_at(0, CREATE_3D_LEN, mem) {
        None => return Err(RESP_ERR_INVALID_PARAMETER),
        Some(b) => b,
    };
    let (id, info) = decode_create_3d(b.as_slice());
    match gpu.resource_kind(id) {
        Some(_) => Err(RESP_ERR_INVALID_RESOURCE_ID),
        None => Ok((id, info)),
    }
}

/// The resource that a 3D resource the renderer made is recorded as: its
/// format and size, no backing and no pixels of its own.
pub open spec fn renderer_3d_view(info: ResourceCreate3D) -> ResourceView {
    ResourceView {
        format: info.format,
        width: info.width,
        height: info.height,
        backing: Seq::empty(),
        framebuffer: Seq::empty(),
        kind: ResourceKind::Renderer3d,
    }
}

/// Records a 3D resource that the renderer made.
pub fn renderer_3d_resource(info: ResourceCreate3D) -> (r: Resource)
    ensures
        r@ == renderer_3d_view(info),
{
    let r = Resource {
        format: info.format,
        width: info.width,
        height: info.height,
        backing: Vec::new(),
        framebuffer: Vec::new(),
        kind: ResourceKind::Renderer3d,
    };
    proof {
        assert(r@.backing =~= Seq::<crate::virtio::gpu::MemEntry>::empty());
        assert(r@.framebuffer =~= Seq::<u8>::empty());
    }
    r
}

/// What a 3D transfer asks of the renderer: `None` where the request is too
/// short to read, which is refused with RESP_ERR_INVALID_PARAMETER.
pub fn read_transfer_3d(chain: &ChainData, mem: &GuestMemory) -> (r: Option<(u32, Transfer3D)>)
    ensures
        r == match request(*chain, mem@, TRANSFER_3D_LEN as int) {
            None => None,
            Some(b) => Some(transfer_3d_spec(b)),
        },
{
    match chain.read_at(0, TRANSFER_3D_LEN, mem) {
        None => None,
        Some(b) => Some(decode_transfer_3d(b.as_slice())),
    }
}

/// The capability set index that a GET_CAPSET_INFO request asks about;
/// `None` where it is too short to read.
pub fn read_capset_index(chain: &ChainData, mem: &GuestMemory) -> (r: Option<u32>)
    ensures
        r == match request(*chain, mem@, CAPSET_INFO_LEN as int) {
            None => None,
            Some(b) => Some(u32_at(b, 24)),
        },
{
    match chain.read_at(0, CAPSET_INFO_LEN, mem) {
        None => None,
        Some(b) => Some(get_u32(b.as_slice(), 24)),
    }
}

/// The body of the answer to GET_CAPSET_INFO after its header: the set's
/// id, highest version and size, and padding.
pub open spec fn capset_info_body(info: CapsetInfo) -> Seq<u8> {
    le_bytes(info.id as nat, 4) + le_bytes(info.version as nat, 4) + le_bytes(info.size as nat, 4) + le_bytes(0, 4)
}

/// Builds the body of the answer to GET_CAPSET_INFO.
pub fn capset_info_reply(info: CapsetInfo) -> (r: Vec<u8>)
    ensures
        r@ == capset_info_body(info),
        r@.len() == 16,
{
    let mut r = u32_le(info.id);
    let mut b = u32_le(info.version);
    r.append(&mut b);
    let mut c = u32_le(info.size);
    r.append(&mut c);
    let mut d = u32_le(0);
    r.append(&mut d);
    proof {
        lemma_le_bytes_len(info.id as nat, 4);
        lemma_le_bytes_len(info.version as nat, 4);
        lemma_le_bytes_len(info.size as nat, 4);
        lemma_le_bytes_len(0, 4);
    }
    r
}

/// The size of the commands that a SUBMIT_3D request carries after its
/// head, or the response type that refuses it: a head too short to read,
/// or commands longer than the readable buffers hold after the head.
pub open spec fn submit_check_spec(chain: ChainData, mem: MemState) -> Result<u32, u32> {
    match request(chain, mem, SUBMIT_3D_LEN as int) {
        None => Err(RESP_ERR_INVALID_PARAMETER),
        Some(b) => if u32_at(b, 24) + SUBMIT_3D_LEN > chain.readable_len {
            Err(RESP_ERR_INVALID_PARAMETER)
        } else {
            Ok(u32_at(b, 24))
        },
    }
}

/// Checks a SUBMIT_3D request before its commands go to the renderer.
pub fn check_submit(chain: &ChainData, mem: &GuestMemory) -> (r: Result<u32, u32>)
    ensures
        r == submit_check_spec(*chain, mem@),
{
    let b = match chain.read_at(0, SUBMIT_3D_LEN, mem) {
        None => return Err(RESP_ERR_INVALID_PARAMETER),
        Some(b) => b,
    };
    let size = get_u32(b.as_slice(), 24);
    let room = if chain.readable_len() >= SUBMIT_3D_LEN {
        chain.readable_len() - SUBMIT_3D_LEN
    } else {
        0
    };
    if size as usize > room {
        Err(RESP_ERR_INVALID_PARAMETER)
    } else {
        Ok(size)
    }
}

/// The fence that a fenced 3D command asks the renderer for: on the
/// context's ring where the header names one, else on the global timeline.
pub open spec fn submit_fence_spec(hdr: CtrlHeader) -> Option<VirglFence> {
    if hdr.flags & FLAG_FENCE == 0 {
        None
    } else {
        Some(
            VirglFence {
                fence_id: hdr.fence_id,
                ctx_id: hdr.ctx_id,
                ring_idx: if hdr.flags & FLAG_RING_IDX != 0 {
                    Some(hdr.ring_idx as u32)
                } else {
                    None
                },
            },
        )
    }
}

/// The fence to create for the command with header `hdr`, if it is fenced.
pub fn submit_fence(hdr: &CtrlHeader) -> (r: Option<VirglFence>)
    ensures
        r == submit_fence_spec(*hdr),
{
    if hdr.flags & FLAG_FENCE == 0 {
        return None;
    }
    let ring_idx = if hdr.flags & FLAG_RING_IDX != 0 {
        Some(hdr.ring_idx as u32)
    } else {
        None
    };
    Some(VirglFence { fence_id: hdr.fence_id, ctx_id: hdr.ctx_id, ring_idx })
}

/// The resource id, number of memory entries and description of a
/// RESOURCE_CREATE_BLOB request `b`.
pub open spec fn create_blob_spec(b: Seq<u8>) -> (u32, u32, ResourceCreateBlob) {
    (
        u32_at(b, 24),
        u32_at(b, 36),
        ResourceCreateBlob {
            blob_mem: u32_at(b, 28),
            blob_flags: u32_at(b, 32),
            blob_id: u64_at(b, 40),
            size: u64_at(b, 48),
        },
    )
}

/// What RESOURCE_CREATE_BLOB asks of the renderer, or the response type
/// that refuses it: a request too short to read, an id that is taken, or
/// memory entries that run past the readable buffers.
pub open spec fn create_blob_check_spec(v: GpuView, chain: ChainData, mem: MemState) -> Result<
    (u32, u32, ResourceCreateBlob),
    u32,
> {
    match request(chain, mem, CREATE_BLOB_LEN as int) {
        None => Err(RESP_ERR_INVALID_PARAMETER),
        Some(b) => {
            let (id, n, blob) = create_blob_spec(b);
            if v.resources.contains_key(id) {
                Err(RESP_ERR_INVALID_RESOURCE_ID)
            } else if n > 0 && CREATE_BLOB_LEN + n * 16 > chain.readable_len {
                Err(RESP_ERR_INVALID_PARAMETER)
            } else {
                Ok((id, n, blob))
            }
        },
    }
}

/// Checks a RESOURCE_CREATE_BLOB request before its memory entries are read
/// and the renderer is asked to make the blob.
pub fn check_create_blob(gpu: &GpuCore, chain: &ChainData, mem: &GuestMemory) -> (r: Result<
    (u32, u32, ResourceCreateBlob),
    u32,
>)
    ensures
        r == create_blob_check_spec(gpu@, *chain, mem@),
{
    let b = match chain.read_at(0, CREATE_BLOB_LEN, mem) {
        None => return Err(RESP_ERR_INVALID_PARAMETER),
        Some(b) => b,
    };
    let id = get_u32(b.as_slice(), 24);
    let n = get_u32(b.as_slice(), 36);
    let blob = ResourceCreateBlob {
        blob_mem: get_u32(b.as_slice(), 28),
        blob_flags: get_u32(b.as_slice(), 32),
        blob_id: get_u64(b.as_slice(), 40),
        size: get_u64(b.as_slice(), 48),
    };
    if gpu.resource_kind(id).is_some() {
        return Err(RESP_ERR_INVALID_RESOURCE_ID);
    }
    if n > 0 && (CREATE_BLOB_LEN as u64) + (n as u64) * 16 > chain.readable_len() as u64 {
        return Err(RESP_ERR_INVALID_PARAMETER);
    }
    Ok((id, n, blob))
}

} // verus!
