//! What a device sees of its transport: its queues and the interrupt status.
use crate::memory::{GuestMemory, MemState};
use crate::virtio::chain::{concat, fill_segs, ChainData};
use crate::virtio::virtq::{collect_spec, pop_spec, push_spec, ChainAcc, Queue, QueueView};
use vstd::prelude::*;

verus! {

/// Interrupt status bit: a used ring was updated.
pub const INT_VRING: u32 = 1;

/// Interrupt status bit: the configuration changed.
pub const INT_CONFIG: u32 = 2;

/// The feature bit of a device that follows virtio 1.0 or later.
pub const FEATURE_VERSION_1: u64 = 0x1_0000_0000;

/// How often a device may find a bad chain before it stops looking for a good
/// one in the same call: one ring's worth of indices.
pub const MAX_BAD_CHAINS: u32 = 0x10000;

/// What a device did with a chain.
pub enum ChainAction {
    /// Return the chain now, with this many bytes written.
    Complete(u32),
    /// The device returns the chain later.
    Deferred,
}

/// Names a chain that a device holds on to.
#[derive(Debug, Copy, Clone)]
pub struct ChainToken {
    pub queue_idx: usize,
    pub head_idx: u16,
}

/// A chain taken from a queue.
pub struct AvailableChain {
    pub data: ChainData,
    pub token: ChainToken,
}

/// A shared memory region that a device offers.
pub struct ShmRegion {
    pub base: u64,
    pub len: u64,
}

/// The transport state that a device works on.
pub struct DeviceContext {
    pub queues: Vec<Queue>,
    pub interrupt_status: u32,
}

/// The model of a [`DeviceContext`]: the queues and the interrupt status.
pub type CtxState = (Seq<QueueView>, u32);

/// The view of a sequence of queues.
pub open spec fn views(qs: Seq<Queue>) -> Seq<QueueView> {
    qs.map_values(|q: Queue| q@)
}

/// `status` with the used-ring bit set where `raised`.
pub open spec fn raise(status: u32, raised: bool) -> u32 {
    if raised {
        status | INT_VRING
    } else {
        status
    }
}

/// Taking the next good chain of queue `idx`: chains that cannot be
/// collected are returned at once with nothing written, at most `fuel` of
/// them. Gives the queues, the memory, whether a chain was returned, and the
/// good chain with its head, if one was found.
pub open spec fn next_chain(qs: Seq<QueueView>, mem: MemState, idx: int, fuel: nat) -> (
    Seq<QueueView>,
    MemState,
    bool,
    Option<(ChainAcc, u16)>,
)
    decreases fuel,
{
    if idx < 0 || idx >= qs.len() || fuel == 0 {
        (qs, mem, false, None)
    } else {
        let (q2, h) = pop_spec(qs[idx], mem);
        match h {
            None => (qs.update(idx, q2), mem, false, None),
            Some(head) => match collect_spec(q2, head, mem) {
                Some(c) => (qs.update(idx, q2), mem, false, Some((c, head))),
                None => {
                    let (q3, m3) = push_spec(q2, mem, head, 0);
                    let r = next_chain(qs.update(idx, q3), m3, idx, (fuel - 1) as nat);
                    (r.0, r.1, true, r.3)
                },
            },
        }
    }
}

/// Completing the chain `token` with `written` bytes: recorded where the
/// queue exists and is ready.
pub open spec fn complete_spec(ctx: CtxState, mem: MemState, token: ChainToken, written: u32) -> (
    CtxState,
    MemState,
) {
    let i = token.queue_idx as int;
    if i < ctx.0.len() && ctx.0[i].ready {
        let (q, m) = push_spec(ctx.0[i], mem, token.head_idx, written);
        ((ctx.0.update(i, q), ctx.1 | INT_VRING), m)
    } else {
        (ctx, mem)
    }
}

/// Taking the chains of queue `idx`, at most `fuel` good ones, and handing
/// each to a device whose handling of one chain `step` relates (device,
/// chain, its token, transport state and memory before; device, transport
/// state and memory after; what it did with the chain): the device goes from
/// `dev` to `dev2`, the transport state from `ctx` to `ctx2`, memory from
/// `mem` to `mem2`. A chain answered with `Complete(n)` is returned with `n`
/// bytes written; a deferred one stays with the device.
pub open spec fn served<S>(
    ctx: CtxState,
    mem: MemState,
    dev: S,
    idx: int,
    fuel: nat,
    step: spec_fn(S, ChainAcc, ChainToken, CtxState, MemState, S, CtxState, MemState, ChainAction) -> bool,
    ctx2: CtxState,
    mem2: MemState,
    dev2: S,
) -> bool
    decreases fuel,
{
    if fuel == 0 {
        ctx2 == ctx && mem2 == mem && dev2 == dev
    } else {
        let s = next_chain(ctx.0, mem, idx, MAX_BAD_CHAINS as nat);
        let c1: CtxState = (s.0, raise(ctx.1, s.2));
        match s.3 {
            None => ctx2 == c1 && mem2 == s.1 && dev2 == dev,
            Some((chain, head)) => {
                let token = ChainToken { queue_idx: idx as usize, head_idx: head };
                exists|d1: S, c: CtxState, m1: MemState, a: ChainAction|
                    #[trigger] step(dev, chain, token, c1, s.1, d1, c, m1, a) && served(
                        after_action(c, m1, token, a).0,
                        after_action(c, m1, token, a).1,
                        d1,
                        idx,
                        (fuel - 1) as nat,
                        step,
                        ctx2,
                        mem2,
                        dev2,
                    )
            },
        }
    }
}

/// The transport state and memory after a device did `a` with the chain `token`.
pub open spec fn after_action(ctx: CtxState, mem: MemState, token: ChainToken, a: ChainAction) -> (CtxState, MemState) {
    match a {
        ChainAction::Complete(w) => complete_spec(ctx, mem, token, w),
        ChainAction::Deferred => (ctx, mem),
    }
}

/// Taking the chains of queue `idx`, at most `fuel` good ones, and
/// returning each at once with nothing written: the transport state and
/// memory afterwards.
pub open spec fn drain_spec(ctx: CtxState, mem: MemState, idx: int, fuel: nat) -> (CtxState, MemState)
    decreases fuel,
{
    if fuel == 0 {
        (ctx, mem)
    } else {
        let s = next_chain(ctx.0, mem, idx, MAX_BAD_CHAINS as nat);
        let c1: CtxState = (s.0, raise(ctx.1, s.2));
        match s.3 {
            None => (c1, s.1),
            Some((_chain, head)) => {
                let (c2, m2) = complete_spec(c1, s.1, ChainToken { queue_idx: idx as usize, head_idx: head }, 0);
                drain_spec(c2, m2, idx, (fuel - 1) as nat)
            },
        }
    }
}

/// Handing `data` to the driver on queue `idx`: the next good chain is
/// filled and completed. Gives the state after, and whether a chain was found.
pub open spec fn deliver_spec(ctx: CtxState, mem: MemState, idx: int, data: Seq<u8>) -> (
    CtxState,
    MemState,
    bool,
) {
    let r = next_chain(ctx.0, mem, idx, MAX_BAD_CHAINS as nat);
    let c1: CtxState = (r.0, raise(ctx.1, r.2));
    match r.3 {
        None => (c1, r.1, false),
        Some((chain, head)) => {
            let (m2, w) = fill_segs(chain.1, data, r.1);
            let (c3, m3) = complete_spec(
                c1,
                m2,
                ChainToken { queue_idx: idx as usize, head_idx: head },
                w as u32,
            );
            (c3, m3, true)
        },
    }
}

impl View for DeviceContext {
    type V = CtxState;

    open spec fn view(&self) -> CtxState {
        (views(self.queues@), self.interrupt_status)
    }
}

impl DeviceContext {
    /// A context with `n` idle queues and no interrupt pending.
    pub fn new(n: usize) -> (r: DeviceContext)
        ensures
            r.queues@.len() == n,
            forall|i: int| 0 <= i < n ==> #[trigger] r.queues@[i]@ == crate::virtio::virtq::idle_queue(),
            r.interrupt_status == 0,
    {
        let mut queues: Vec<Queue> = Vec::new();
        let mut i: usize = 0;
        while i < n
            invariant
                i <= n,
                queues@.len() == i,
                forall|k: int| 0 <= k < i ==> #[trigger] queues@[k]@ == crate::virtio::virtq::idle_queue(),
            decreases n - i,
        {
            queues.push(Queue::new(false, 0, 0, 0, 0));
            i = i + 1;
        }
        DeviceContext { queues, interrupt_status: 0 }
    }

    /// Takes the next chain of queue `queue_idx` that can be collected.
    /// Chains that cannot are returned to the driver at once, with nothing
    /// written, and raise the used-ring interrupt.
    pub fn pop_chain(&mut self, queue_idx: usize, mem: &mut GuestMemory) -> (r: Option<AvailableChain>)
        ensures
            final(self).queues@.len() == old(self).queues@.len(),
            ({
                let s = next_chain(old(self)@.0, old(mem)@, queue_idx as int, MAX_BAD_CHAINS as nat);
                &&& final(self)@.0 == s.0
                &&& final(mem)@ == s.1
                &&& final(self)@.1 == raise(old(self)@.1, s.2)
                &&& match r {
                    None => s.3 is None,
                    Some(c) => c.data.wf() && c.token.queue_idx == queue_idx && s.3 == Some(
                        (
                            (c.data.readable@, c.data.writable@, c.data.readable_len as int),
                            c.token.head_idx,
                        ),
                    ),
                }
            }),
    {
        let ghost target = next_chain(old(self)@.0, old(mem)@, queue_idx as int, MAX_BAD_CHAINS as nat);
        let ghost status0 = self.interrupt_status;
        let mut fuel: u32 = MAX_BAD_CHAINS;
        let mut raised = false;
        loop
            invariant
                target == next_chain(old(self)@.0, old(mem)@, queue_idx as int, MAX_BAD_CHAINS as nat),
                status0 == old(self)@.1,
                self.queues@.len() == old(self).queues@.len(),
                self.interrupt_status == raise(status0, raised),
                ({
                    let s = next_chain(self@.0, mem@, queue_idx as int, fuel as nat);
                    &&& s.0 == target.0
                    &&& s.1 == target.1
                    &&& s.3 == target.3
                    &&& (raised || s.2) == target.2
                }),
            decreases fuel,
        {
            if queue_idx >= self.queues.len() || fuel == 0 {
                return None;
            }
            let ghost before = self.queues@;
            let mut q = self.queues[queue_idx];
            let head_idx = match q.pop_chain(mem) {
                Some(h) => h,
                None => {
                    self.queues.set(queue_idx, q);
                    proof {
                        assert(views(self.queues@) =~= views(before).update(queue_idx as int, q@));
                    }
                    return None;
                },
            };
            let ghost popped = q@;
            match q.collect_chain(head_idx, mem) {
                Some(data) => {
                    self.queues.set(queue_idx, q);
                    proof {
                        assert(views(self.queues@) =~= views(before).update(queue_idx as int, q@));
                    }
                    return Some(AvailableChain { data, token: ChainToken { queue_idx, head_idx } });
                },
                None => {
                    q.push_used(mem, head_idx, 0);
                    self.queues.set(queue_idx, q);
                    proof {
                        assert(views(self.queues@) =~= views(before).update(queue_idx as int, popped).update(
                            queue_idx as int,
                            q@,
                        ));
                        assert(views(before).update(queue_idx as int, popped).update(queue_idx as int, q@)
                            =~= views(before).update(queue_idx as int, q@));
                        let x = status0;
                        assert((x | INT_VRING) | INT_VRING == x | INT_VRING) by (bit_vector);
                    }
                    self.interrupt_status = self.interrupt_status | INT_VRING;
                    raised = true;
                    fuel = fuel - 1;
                },
            }
        }
    }

    /// Returns the chain `token` to the driver with `written` bytes, if its
    /// queue exists and is ready, and raises the used-ring interrupt.
    pub fn complete(&mut self, token: ChainToken, written: u32, mem: &mut GuestMemory)
        ensures
            (final(self)@, final(mem)@) == complete_spec(old(self)@, old(mem)@, token, written),
            final(self).queues@.len() == old(self).queues@.len(),
    {
        if token.queue_idx >= self.queues.len() {
            return;
        }
        let mut q = self.queues[token.queue_idx];
        if q.is_ready() {
            q.push_used(mem, token.head_idx, written);
            self.queues.set(token.queue_idx, q);
            self.interrupt_status = self.interrupt_status | INT_VRING;
            proof {
                assert(views(self.queues@) =~= views(old(self).queues@).update(
                    token.queue_idx as int,
                    q@,
                ));
            }
        }
    }

    /// Copies `parts` into the next good chain of queue `queue_idx` and
    /// returns it; `false` where the queue has no chain to take.
    pub fn deliver(&mut self, queue_idx: usize, parts: &[&[u8]], mem: &mut GuestMemory) -> (r: bool)
        requires
            concat(parts@).len() <= u32::MAX,
        ensures
            (final(self)@, final(mem)@, r) == deliver_spec(
                old(self)@,
                old(mem)@,
                queue_idx as int,
                concat(parts@),
            ),
            final(self).queues@.len() == old(self).queues@.len(),
    {
        let chain = match self.pop_chain(queue_idx, mem) {
            Some(c) => c,
            None => return false,
        };
        let written = chain.data.write_parts(parts, mem);
        self.complete(chain.token, written, mem);
        true
    }

    /// Raises the configuration-change interrupt.
    pub fn config_changed(&mut self)
        ensures
            final(self)@ == (old(self)@.0, old(self)@.1 | INT_CONFIG),
            final(self).queues@.len() == old(self).queues@.len(),
    {
        self.interrupt_status = self.interrupt_status | INT_CONFIG;
    }
}

} // verus!
