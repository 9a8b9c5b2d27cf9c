//! The GPU device as the guest's driver sees it when no 3D renderer is
//! attached: 2D resources in guest memory, one scanout, EDID, and the frame
//! that the window presents.
use crate::display::{publish_spec, resize_spec, update_spec, DisplayBuffer, DisplayUpdate, Rect};
use crate::bytes::le_value;
use crate::memory::{GuestMemory, MemState};
use crate::virtio::chain::ChainData;
use crate::virtio::virtq::ChainAcc;
use crate::virtio::device::{after_action, next_chain, raise, served, ChainAction, ChainToken, CtxState, DeviceContext, ShmRegion, INT_CONFIG, MAX_BAD_CHAINS};
use crate::virtio::gpu::{
    chain_header, read_header, reply_spec, request, flush_spec, display_info_done, edid_done, create_2d_done,
    unref_done, set_scanout_done, attach_done, detach_done, transfer_done, ResourceKind, AttachOutcome, CtrlHeader, FlushPlan, GpuCore, CMD_GET_DISPLAY_INFO, CMD_GET_EDID,
    CMD_RESOURCE_ATTACH_BACKING, CMD_RESOURCE_CREATE_2D, CMD_RESOURCE_DETACH_BACKING,
    CMD_RESOURCE_FLUSH, CMD_RESOURCE_UNREF, CMD_SET_SCANOUT, CMD_TRANSFER_TO_HOST_2D, DEVICE_ID,
    FEATURE_EDID, RESP_ERR_UNSPEC, RESP_OK_NODATA, GpuView, GpuRect, ResourceView, EVENT_DISPLAY,
};
use crate::virtio::mmio::{Device, ExternalEventHandler};
use vstd::prelude::*;

verus! {

/// VIRTIO_F_VERSION_1.
pub const FEATURE_VERSION_1: u64 = 0x1_0000_0000;

/// The control queue; the other one is the cursor queue.
pub const CONTROL_QUEUE: usize = 0;

/// The GPU device: its state and the frame it publishes.
pub struct Gpu {
    core: GpuCore,
    display: DisplayBuffer,
}

/// A host-side event for the GPU.
pub enum ExternalEvent {
    /// The window now has this size.
    DisplayResized { width: u32, height: u32 },
}

/// What showing `damage` of resource `resource_id` does to the frame `d0`,
/// given the GPU state `v`: the frame becomes `d1`.
pub open spec fn present_spec(v: GpuView, d0: DisplayBuffer, d1: DisplayBuffer, resource_id: u32, damage: GpuRect) -> bool {
    let res = v.resources[resource_id];
    let rect = v.scanout->0.rect;
    if d0.wf() && v.scanout is Some && v.resources.contains_key(resource_id)
        && res.width * 4 <= usize::MAX {
        &&& d1.wf()
        &&& exists|published: bool|
            #[trigger] publish_spec(
                d0,
                d1,
                res.framebuffer,
                (res.width * 4) as usize,
                Rect {
                    x: rect.x as usize,
                    y: rect.y as usize,
                    width: rect.width as usize,
                    height: rect.height as usize,
                },
                Rect {
                    x: damage.x as usize,
                    y: damage.y as usize,
                    width: damage.width as usize,
                    height: damage.height as usize,
                },
                published,
            )
    } else {
        d1 == d0
    }
}

/// What giving the frame `d0` the size `width` by `height` does: it becomes `d1`.
pub open spec fn presentation_spec(d0: DisplayBuffer, d1: DisplayBuffer, width: u32, height: u32) -> bool {
    if d0.wf() && width * height <= usize::MAX {
        d1.wf() && resize_spec(d0, d1, width as usize, height as usize)
    } else {
        d1 == d0
    }
}

/// The header that answers a chain whose own header cannot be read.
pub open spec fn zero_header() -> CtrlHeader {
    CtrlHeader { type_: 0, flags: 0, fence_id: 0, ctx_id: 0, ring_idx: 0 }
}

/// What answering one command chain of queue `queue_idx` does: the GPU goes
/// from `g0` to `g1`, guest memory from `m0` to `m1`, and `r` bytes are
/// written into the chain.
pub open spec fn chain_served(g0: Gpu, g1: Gpu, queue_idx: usize, chain: ChainData, m0: MemState, m1: MemState, r: u32) -> bool {
    let c0 = g0.gpu_state()@;
    let c1 = g1.gpu_state()@;
    let d0 = g0.display();
    let d1 = g1.display();
    let unchanged = c1 == c0 && d1 == d0;
    match chain_header(chain, m0) {
        None => unchanged && (m1, r as nat) == reply_spec(chain, m0, RESP_ERR_UNSPEC, zero_header()),
        Some(hdr) => {
            let ty = hdr.type_;
            if queue_idx != CONTROL_QUEUE {
                unchanged && (m1, r as nat) == reply_spec(chain, m0, RESP_OK_NODATA, hdr)
            } else if ty == CMD_GET_DISPLAY_INFO {
                unchanged && display_info_done(c0, chain, hdr, m0, m1, r)
            } else if ty == CMD_GET_EDID {
                unchanged && edid_done(c0, chain, hdr, m0, m1, r)
            } else if ty == CMD_RESOURCE_CREATE_2D {
                d1 == d0 && create_2d_done(c0, c1, chain, hdr, m0, m1, r)
            } else if ty == CMD_RESOURCE_UNREF {
                d1 == d0 && exists|k: Option<ResourceKind>| #[trigger] unref_done(c0, c1, chain, hdr, m0, m1, (r, k))
            } else if ty == CMD_SET_SCANOUT {
                exists|size: Option<(u32, u32)>|
                    #[trigger] set_scanout_done(c0, c1, chain, hdr, m0, m1, (r, size)) && match size {
                        None => d1 == d0,
                        Some((w, h)) => presentation_spec(d0, d1, w, h),
                    }
            } else if ty == CMD_RESOURCE_ATTACH_BACKING {
                d1 == d0 && exists|o: AttachOutcome, m: MemState|
                    #[trigger] attach_done(c0, c1, chain, hdr, m0, m, o) && match o {
                        AttachOutcome::Done(w) => m1 == m && r == w,
                        AttachOutcome::Renderer { .. } => (m1, r as nat) == reply_spec(chain, m, RESP_ERR_UNSPEC, hdr),
                    }
            } else if ty == CMD_RESOURCE_DETACH_BACKING {
                d1 == d0 && exists|b: bool| #[trigger] detach_done(c0, c1, chain, hdr, m0, m1, (r, b))
            } else if ty == CMD_TRANSFER_TO_HOST_2D {
                d1 == d0 && transfer_done(c0, c1, chain, hdr, m0, m1, r)
            } else if ty == CMD_RESOURCE_FLUSH {
                c1 == c0 && match flush_spec(c0, request(chain, m0, 48)) {
                    FlushPlan::Reply(t) => d1 == d0 && (m1, r as nat) == reply_spec(chain, m0, t, hdr),
                    FlushPlan::Present2d { resource_id, damage } => present_spec(c0, d0, d1, resource_id, damage)
                        && (m1, r as nat) == reply_spec(chain, m0, RESP_OK_NODATA, hdr),
                    FlushPlan::Renderer { .. } => d1 == d0 && (m1, r as nat) == reply_spec(
                        chain,
                        m0,
                        RESP_ERR_UNSPEC,
                        hdr,
                    ),
                }
            } else {
                unchanged && (m1, r as nat) == reply_spec(chain, m0, RESP_ERR_UNSPEC, hdr)
            }
        },
    }
}

/// The handling of one command chain of queue `queue_idx`, as
/// [`chain_served`] says; the chain is always returned at once, and the
/// transport state is left to the caller.
pub open spec fn gpu_step(queue_idx: usize) -> spec_fn(Gpu, ChainAcc, ChainToken, CtxState, MemState, Gpu, CtxState, MemState, ChainAction) -> bool {
    |g0: Gpu, c: ChainAcc, tok: ChainToken, c0: CtxState, m0: MemState, g1: Gpu, c1: CtxState, m1: MemState, a: ChainAction|
        exists|chain: ChainData, w: u32|
            #[trigger] chain_served(g0, g1, queue_idx, chain, m0, m1, w) && c1 == c0 && chain.wf() && c == (
                chain.readable@,
                chain.writable@,
                chain.readable_len as int,
            ) && a == ChainAction::Complete(w)
}

impl Gpu {
    pub closed spec fn gpu_state(&self) -> GpuCore {
        self.core
    }

    pub closed spec fn display(&self) -> DisplayBuffer {
        self.display
    }

    /// A GPU with no resources and an empty frame.
    pub fn new() -> (r: Gpu)
        ensures
            r.gpu_state()@.resources == Map::<u32, crate::virtio::gpu::ResourceView>::empty(),
            r.gpu_state()@.scanout is None,
            r.display().width() == 0 && r.display().height() == 0,
            r.display().sequence() == 0,
    {
        Gpu { core: GpuCore::new(), display: DisplayBuffer::new() }
    }

    /// What the window presents next, as [`DisplayBuffer::take_update`] gives it.
    pub fn take_update(&mut self, last_sequence: u64, front: &mut Vec<u32>) -> (r: Option<DisplayUpdate>)
        ensures
            final(self).gpu_state() == old(self).gpu_state(),
            old(self).display().wf() ==> final(self).display().wf() && update_spec(
                old(self).display(),
                final(self).display(),
                last_sequence,
                old(front)@,
                final(front)@,
                r,
            ),
            !old(self).display().wf() ==> r is None && final(front)@ == old(front)@,
    {
        if self.display.is_wf() {
            self.display.take_update(last_sequence, front)
        } else {
            None
        }
    }

    /// Shows the scanout's rectangle: the frame takes its size.
    fn configure_presentation(&mut self, width: u32, height: u32)
        ensures
            final(self).gpu_state() == old(self).gpu_state(),
            presentation_spec(old(self).display(), final(self).display(), width, height),
    {
        let w = width as usize;
        let h = height as usize;
        if w.checked_mul(h).is_some() && self.display.is_wf() {
            self.display.resize(w, h);
        }
    }

    /// Copies the damaged part of a 2D resource on the scanout into the frame.
    fn present_2d(&mut self, resource_id: u32, damage: GpuRect)
        ensures
            final(self).gpu_state() == old(self).gpu_state(),
            present_spec(old(self).gpu_state()@, old(self).display(), final(self).display(), resource_id, damage),
    {
        if !self.display.is_wf() {
            return ;
        }
        let rect = match self.core.scanout() {
            Some(sc) => sc.rect,
            None => return ,
        };
        match self.core.pixels(resource_id) {
            None => {},
            Some((fb, width, _height)) => {
                let stride = (width as usize).checked_mul(4);
                if let Some(stride) = stride {
                    let source = Rect {
                        x: rect.x as usize,
                        y: rect.y as usize,
                        width: rect.width as usize,
                        height: rect.height as usize,
                    };
                    let dmg = Rect {
                        x: damage.x as usize,
                        y: damage.y as usize,
                        width: damage.width as usize,
                        height: damage.height as usize,
                    };
                    let published = self.display.publish_pixels(fb.as_slice(), stride, source, dmg);
                    assert(publish_spec(
                        old(self).display(),
                        self.display(),
                        fb@,
                        stride,
                        source,
                        dmg,
                        published,
                    ));
                }
            },
        }
    }

    /// Answers one command chain; gives the bytes written into it.
    fn process_chain(&mut self, queue_idx: usize, chain: &ChainData, mem: &mut GuestMemory) -> (r: u32)
        requires
            chain.wf(),
        ensures
            chain_served(*old(self), *final(self), queue_idx, *chain, old(mem)@, final(mem)@, r),
    {
        let hdr = match read_header(chain, mem) {
            None => {
                let zero = CtrlHeader { type_: 0, flags: 0, fence_id: 0, ctx_id: 0, ring_idx: 0 };
                return GpuCore::reply(chain, RESP_ERR_UNSPEC, &zero, mem);
            },
            Some(h) => h,
        };
        if queue_idx != CONTROL_QUEUE {
            return GpuCore::reply(chain, RESP_OK_NODATA, &hdr, mem);
        }
        let ty = hdr.type_;
        if ty == CMD_GET_DISPLAY_INFO {
            self.core.cmd_get_display_info(chain, &hdr, mem)
        } else if ty == CMD_GET_EDID {
            self.core.cmd_get_edid(chain, &hdr, mem)
        } else if ty == CMD_RESOURCE_CREATE_2D {
            self.core.cmd_resource_create_2d(chain, &hdr, mem)
        } else if ty == CMD_RESOURCE_UNREF {
            let out = self.core.cmd_resource_unref(chain, &hdr, mem);
            proof {
                assert(unref_done(old(self).gpu_state()@, self.gpu_state()@, *chain, hdr, old(mem)@, mem@, (out.0, out.1)));
            }
            out.0
        } else if ty == CMD_SET_SCANOUT {
            let (written, size) = self.core.cmd_set_scanout(chain, &hdr, mem);
            if let Some((width, height)) = size {
                self.configure_presentation(width, height);
            }
            proof {
                assert(set_scanout_done(old(self).gpu_state()@, self.gpu_state()@, *chain, hdr, old(mem)@, mem@, (written, size)));
            }
            written
        } else if ty == CMD_RESOURCE_ATTACH_BACKING {
            let out = self.core.cmd_resource_attach_backing(chain, &hdr, mem);
            let ghost m_mid = mem@;
            proof {
                assert(attach_done(old(self).gpu_state()@, self.gpu_state()@, *chain, hdr, old(mem)@, m_mid, out));
            }
            match out {
                AttachOutcome::Done(written) => written,
                AttachOutcome::Renderer { .. } => GpuCore::reply(chain, RESP_ERR_UNSPEC, &hdr, mem),
            }
        } else if ty == CMD_RESOURCE_DETACH_BACKING {
            let out = self.core.cmd_resource_detach_backing(chain, &hdr, mem);
            proof {
                assert(detach_done(old(self).gpu_state()@, self.gpu_state()@, *chain, hdr, old(mem)@, mem@, (out.0, out.1)));
            }
            out.0
        } else if ty == CMD_TRANSFER_TO_HOST_2D {
            self.core.cmd_transfer_to_host_2d(chain, &hdr, mem)
        } else if ty == CMD_RESOURCE_FLUSH {
            match self.core.plan_flush(chain, mem) {
                FlushPlan::Reply(t) => GpuCore::reply(chain, t, &hdr, mem),
                FlushPlan::Present2d { resource_id, damage } => {
                    self.present_2d(resource_id, damage);
                    GpuCore::reply(chain, RESP_OK_NODATA, &hdr, mem)
                },
                FlushPlan::Renderer { .. } => GpuCore::reply(chain, RESP_ERR_UNSPEC, &hdr, mem),
            }
        } else {
            GpuCore::reply(chain, RESP_ERR_UNSPEC, &hdr, mem)
        }
    }
}

impl Device for Gpu {
    open spec fn notify_effect(&self, queue_idx: usize, c: CtxState, m: MemState, after: Self, c2: CtxState, m2: MemState) -> bool {
        &&& served(
            c,
            m,
            *self,
            queue_idx as int,
            MAX_BAD_CHAINS as nat,
            gpu_step(queue_idx),
            c2,
            m2,
            after,
        )
    }

    open spec fn reset_effect(&self, after: Self) -> bool {
        &&& after.display() == self.display()
        &&& after.gpu_state()@ == (GpuView {
            resources: Map::<u32, ResourceView>::empty(),
            scanout: None,
            ..self.gpu_state()@
        })
    }

    open spec fn device_id(&self) -> u32 {
        DEVICE_ID
    }

    open spec fn feature_bits(&self) -> u64 {
        FEATURE_VERSION_1 | FEATURE_EDID
    }

    open spec fn queue_count(&self) -> u16 {
        2
    }

    /// Pending events, the clear register, one scanout, no capability set.
    closed spec fn config_space(&self) -> Seq<u8> {
        crate::bytes::le_bytes(self.core@.events_read as nat, 4) + crate::bytes::le_bytes(0, 4)
            + crate::bytes::le_bytes(1, 4) + crate::bytes::le_bytes(0, 4)
    }

    open spec fn shm_region(&self, id: u32) -> Option<(u64, u64)> {
        None
    }

    fn id(&self) -> (r: u32) {
        DEVICE_ID
    }

    fn features(&self) -> (r: u64) {
        FEATURE_VERSION_1 | FEATURE_EDID
    }

    fn num_queues(&self) -> (r: u16) {
        2
    }

    fn read_config(&self) -> (r: Vec<u8>) {
        self.core.config_bytes(0)
    }

    fn write_config(&mut self, offset: u64, data: &[u8])
        ensures
            final(self).display() == old(self).display(),
            offset == 4 && data@.len() == 4 ==> final(self).gpu_state()@ == (GpuView {
                events_read: old(self).gpu_state()@.events_read & !(le_value(data@) as u32),
                ..old(self).gpu_state()@
            }),
            !(offset == 4 && data@.len() == 4) ==> final(self).gpu_state()@ == old(self).gpu_state()@,
    {
        self.core.write_config(offset, data);
    }

    fn queue_notified(&mut self, queue_idx: usize, ctx: &mut DeviceContext, mem: &mut GuestMemory)
        ensures
            served(
                old(ctx)@,
                old(mem)@,
                *old(self),
                queue_idx as int,
                MAX_BAD_CHAINS as nat,
                gpu_step(queue_idx),
                final(ctx)@,
                final(mem)@,
                *final(self),
            ),
    {
        let ghost step = gpu_step(queue_idx);
        let mut fuel: u32 = MAX_BAD_CHAINS;
        while fuel > 0
            invariant
                ctx.queues@.len() == old(ctx).queues@.len(),
                step == gpu_step(queue_idx),
                forall|c2: CtxState, m2: MemState, d2: Gpu|
                    #[trigger] served(ctx@, mem@, *self, queue_idx as int, fuel as nat, step, c2, m2, d2) ==> served(
                        old(ctx)@,
                        old(mem)@,
                        *old(self),
                        queue_idx as int,
                        MAX_BAD_CHAINS as nat,
                        step,
                        c2,
                        m2,
                        d2,
                    ),
            decreases fuel,
        {
            let ghost c0 = ctx@;
            let ghost m0 = mem@;
            let ghost g0 = *self;
            let ghost f0 = fuel;
            match ctx.pop_chain(queue_idx, mem) {
                Some(chain) => {
                    let ghost c_popped = ctx@;
                    let written = self.process_chain(queue_idx, &chain.data, mem);
                    let ghost m_done = mem@;
                    ctx.complete(chain.token, written, mem);
                    fuel = fuel - 1;
                    proof {
                        let s = next_chain(c0.0, m0, queue_idx as int, MAX_BAD_CHAINS as nat);
                        let got = s.3->0;
                        let tok = ChainToken { queue_idx: (queue_idx as int) as usize, head_idx: got.1 };
                        let action = ChainAction::Complete(written);
                        assert(tok == chain.token);
                        assert(c_popped == (s.0, raise(c0.1, s.2)));
                        assert(step(g0, got.0, tok, c_popped, s.1, *self, c_popped, m_done, action));
                        assert(after_action(c_popped, m_done, tok, action) == (ctx@, mem@));
                        assert forall|c2: CtxState, m2: MemState, d2: Gpu|
                            #[trigger] served(ctx@, mem@, *self, queue_idx as int, fuel as nat, step, c2, m2, d2)
                            implies served(c0, m0, g0, queue_idx as int, f0 as nat, step, c2, m2, d2) by {
                            assert(served(
                                after_action(c_popped, m_done, tok, action).0,
                                after_action(c_popped, m_done, tok, action).1,
                                *self,
                                queue_idx as int,
                                (f0 - 1) as nat,
                                step,
                                c2,
                                m2,
                                d2,
                            ));
                        }
                    }
                },
                None => {
                    fuel = 0;
                    proof {
                        assert forall|c2: CtxState, m2: MemState, d2: Gpu|
                            #[trigger] served(ctx@, mem@, *self, queue_idx as int, fuel as nat, step, c2, m2, d2)
                            implies served(c0, m0, g0, queue_idx as int, f0 as nat, step, c2, m2, d2) by {}
                    }
                },
            }
        }
        assert(served(ctx@, mem@, *self, queue_idx as int, 0, step, ctx@, mem@, *self));
    }

    fn reset(&mut self)
        ensures
            final(self).display() == old(self).display(),
            final(self).gpu_state()@ == (GpuView {
                resources: Map::<u32, ResourceView>::empty(),
                scanout: None,
                ..old(self).gpu_state()@
            }),
    {
        self.core.reset();
    }

    fn shared_memory_region(&self, id: u32) -> (r: Option<ShmRegion>) {
        None
    }
}

impl ExternalEventHandler for Gpu {
    type Event = ExternalEvent;

    open spec fn event_effect(
        &self,
        event: ExternalEvent,
        c: CtxState,
        m: MemState,
        after: Self,
        c2: CtxState,
        m2: MemState,
    ) -> bool {
        &&& m2 == m
        &&& after.display() == self.display()
        &&& match event {
            ExternalEvent::DisplayResized { width, height } => {
                &&& width == 0 || height == 0 ==> after.gpu_state()@ == self.gpu_state()@ && c2 == c
                &&& width != 0 && height != 0 ==> {
                    &&& after.gpu_state()@ == (GpuView {
                        display_width: width,
                        display_height: height,
                        events_read: self.gpu_state()@.events_read | EVENT_DISPLAY,
                        edid_compatibility_mode: match self.gpu_state()@.edid_compatibility_mode {
                            Some(mm) => Some(mm),
                            None => Some((width, height)),
                        },
                        ..self.gpu_state()@
                    })
                    &&& c2 == (c.0, c.1 | INT_CONFIG)
                }
            },
        }
    }

    fn on_event(&mut self, event: ExternalEvent, ctx: &mut DeviceContext, mem: &mut GuestMemory)
        ensures
            final(mem)@ == old(mem)@,
            final(self).display() == old(self).display(),
            match event {
                ExternalEvent::DisplayResized { width, height } => {
                    &&& width == 0 || height == 0 ==> final(self).gpu_state()@ == old(self).gpu_state()@
                        && final(ctx)@ == old(ctx)@
                    &&& width != 0 && height != 0 ==> {
                        &&& final(self).gpu_state()@ == (GpuView {
                            display_width: width,
                            display_height: height,
                            events_read: old(self).gpu_state()@.events_read | EVENT_DISPLAY,
                            edid_compatibility_mode: match old(self).gpu_state()@.edid_compatibility_mode {
                                Some(m) => Some(m),
                                None => Some((width, height)),
                            },
                            ..old(self).gpu_state()@
                        })
                        &&& final(ctx)@ == (old(ctx)@.0, old(ctx)@.1 | INT_CONFIG)
                    }
                },
            },
    {
        match event {
            ExternalEvent::DisplayResized { width, height } => {
                self.core.display_resized(width, height, ctx);
            },
        }
    }
}

} // verus!
