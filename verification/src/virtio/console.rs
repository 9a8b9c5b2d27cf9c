//! The virtio console: port 0 is an unused console, port 1 carries the
//! shared clipboard in length-prefixed frames.
use crate::bytes::{get_u16, get_u32, le_bytes, le_value, lemma_le_bytes_len, u16_le, u32_le};
use crate::clipboard::{deframe, frame, lemma_deframe_frame, Sink, MAX_FRAME};
use crate::memory::{GuestMemory, MemState};
use crate::virtio::chain::{concat, lemma_concat_one, ChainData};
use crate::virtio::device::{
    deliver_spec, drain_spec, ChainAction, CtxState, DeviceContext, ShmRegion, FEATURE_VERSION_1, MAX_BAD_CHAINS,
};
use crate::virtio::mmio::{Device, ExternalEventHandler};
use std::collections::VecDeque;
use vstd::prelude::*;

verus! {

pub const DEVICE_ID: u32 = 3;

pub const FEATURE_MULTIPORT: u64 = 2;

pub const Q_PORT0_RX: usize = 0;

pub const Q_PORT0_TX: usize = 1;

pub const Q_CONTROL_RX: usize = 2;

pub const Q_CONTROL_TX: usize = 3;

pub const Q_CLIP_RX: usize = 4;

pub const Q_CLIP_TX: usize = 5;

pub const NUM_QUEUES: u16 = 6;

pub const CLIP_PORT: u32 = 1;

pub const DEVICE_READY: u16 = 0;

pub const DEVICE_ADD: u16 = 1;

pub const PORT_READY: u16 = 3;

pub const CONSOLE_PORT: u16 = 4;

pub const PORT_OPEN: u16 = 6;

pub const PORT_NAME: u16 = 7;

pub const FRAME_LEN_PREFIX: usize = 4;

/// The largest piece of a frame that one receive buffer is offered.
pub const RX_CHUNK: usize = 4096;

/// "clipboard".
pub open spec fn port_name_spec() -> Seq<u8> {
    seq![99u8, 108u8, 105u8, 112u8, 98u8, 111u8, 97u8, 114u8, 100u8]
}

fn port_name() -> (r: Vec<u8>)
    ensures
        r@ == port_name_spec(),
{
    let r = vec![99u8, 108u8, 105u8, 112u8, 98u8, 111u8, 97u8, 114u8, 100u8];
    proof {
        assert(r@ =~= port_name_spec());
    }
    r
}

/// The console configuration space.
pub struct ConsoleConfig {
    pub cols: u16,
    pub rows: u16,
    pub max_nr_ports: u32,
    pub emerg_wr: u32,
}

/// The configuration bytes: no size, two ports, no emergency write.
pub open spec fn config_spec() -> Seq<u8> {
    le_bytes(0, 2) + le_bytes(0, 2) + le_bytes(2, 4) + le_bytes(0, 4)
}

impl ConsoleConfig {
    pub fn new() -> (c: ConsoleConfig)
        ensures
            c.cols == 0 && c.rows == 0 && c.max_nr_ports == 2 && c.emerg_wr == 0,
    {
        ConsoleConfig { cols: 0, rows: 0, max_nr_ports: 2, emerg_wr: 0 }
    }

    pub fn to_bytes(&self) -> (r: Vec<u8>)
        ensures
            r@ == le_bytes(self.cols as nat, 2) + le_bytes(self.rows as nat, 2) + le_bytes(
                self.max_nr_ports as nat,
                4,
            ) + le_bytes(self.emerg_wr as nat, 4),
    {
        let mut r = u16_le(self.cols);
        let b = u16_le(self.rows);
        append(&mut r, b.as_slice());
        let c = u32_le(self.max_nr_ports);
        append(&mut r, c.as_slice());
        let d = u32_le(self.emerg_wr);
        append(&mut r, d.as_slice());
        r
    }
}

/// A control message: port, event, value.
pub open spec fn control_msg(id: u32, event: u16, value: u16) -> Seq<u8> {
    le_bytes(id as nat, 4) + le_bytes(event as nat, 2) + le_bytes(value as nat, 2)
}

fn append(dst: &mut Vec<u8>, src: &[u8])
    ensures
        final(dst)@ == old(dst)@ + src@,
{
    let mut i: usize = 0;
    while i < src.len()
        invariant
            i <= src@.len(),
            dst@ == old(dst)@ + src@.subrange(0, i as int),
        decreases src@.len() - i,
    {
        dst.push(src[i]);
        i = i + 1;
        proof {
            assert(dst@ =~= old(dst)@ + src@.subrange(0, i as int));
        }
    }
    proof {
        assert(src@.subrange(0, i as int) =~= src@);
    }
}

fn control_bytes(id: u32, event: u16, value: u16) -> (r: Vec<u8>)
    ensures
        r@ == control_msg(id, event, value),
        r@.len() == 8,
{
    let mut r = u32_le(id);
    let e = u16_le(event);
    append(&mut r, e.as_slice());
    let v = u16_le(value);
    append(&mut r, v.as_slice());
    proof {
        lemma_le_bytes_len(id as nat, 4);
        lemma_le_bytes_len(event as nat, 2);
        lemma_le_bytes_len(value as nat, 2);
    }
    r
}

/// The pieces of `s`, each `n` bytes long but the last.
pub open spec fn chunks(s: Seq<u8>, n: nat) -> Seq<Seq<u8>>
    decreases s.len(),
{
    if s.len() == 0 || n == 0 {
        Seq::empty()
    } else if s.len() <= n {
        seq![s]
    } else {
        seq![s.subrange(0, n as int)] + chunks(s.subrange(n as int, s.len() as int), n)
    }
}

/// The byte strings of `ss`, one after the other.
pub open spec fn flatten(ss: Seq<Seq<u8>>) -> Seq<u8>
    decreases ss.len(),
{
    if ss.len() == 0 {
        Seq::empty()
    } else {
        ss[0] + flatten(ss.drop_first())
    }
}

/// Cutting into chunks loses and adds no byte.
pub proof fn lemma_chunks_flatten(s: Seq<u8>, n: nat)
    requires
        n > 0,
    ensures
        flatten(chunks(s, n)) == s,
        forall|i: int| 0 <= i < chunks(s, n).len() ==> #[trigger] chunks(s, n)[i].len() <= n,
    decreases s.len(),
{
    if s.len() == 0 {
        assert(s =~= Seq::<u8>::empty());
    } else if s.len() <= n {
        assert(chunks(s, n) == seq![s]);
        assert(seq![s].drop_first() =~= Seq::<Seq<u8>>::empty());
        assert(flatten(seq![s]) == s + flatten(Seq::<Seq<u8>>::empty()));
        assert(s + Seq::<u8>::empty() =~= s);
        assert forall|i: int| 0 <= i < chunks(s, n).len() implies #[trigger] chunks(s, n)[i].len() <= n by {
            assert(i == 0);
        }
    } else {
        let rest = s.subrange(n as int, s.len() as int);
        lemma_chunks_flatten(rest, n);
        let c = chunks(s, n);
        assert(c.drop_first() =~= chunks(rest, n));
        assert(c[0] == s.subrange(0, n as int));
        assert(flatten(c) == c[0] + flatten(c.drop_first()));
        assert(s.subrange(0, n as int) + rest =~= s);
        assert forall|i: int| 0 <= i < c.len() implies #[trigger] c[i].len() <= n by {
            if i > 0 {
                assert(c[i] == chunks(rest, n)[i - 1]);
            }
        }
    }
}

/// The byte strings of `q`.
pub open spec fn msgs(q: Seq<Vec<u8>>) -> Seq<Seq<u8>> {
    q.map_values(|v: Vec<u8>| v@)
}

/// The console device.
pub struct Console {
    config: ConsoleConfig,
    clipboard: Sink,
    rx_to_guest: VecDeque<Vec<u8>>,
    ctrl_to_guest: VecDeque<Vec<u8>>,
    port_open: bool,
}

/// Every message that waits for the guest has a length that a `u32` holds.
pub open spec fn small_msgs(q: Seq<Vec<u8>>) -> bool {
    forall|i: int| 0 <= i < q.len() ==> #[trigger] q[i]@.len() <= u32::MAX
}

impl Console {
    #[verifier::type_invariant]
    spec fn inv(&self) -> bool {
        &&& small_msgs(self.rx_to_guest@)
        &&& small_msgs(self.ctrl_to_guest@)
        &&& self.config.cols == 0
        &&& self.config.rows == 0
        &&& self.config.max_nr_ports == 2
        &&& self.config.emerg_wr == 0
    }

    /// The sink that takes what the guest writes on the clipboard port.
    pub closed spec fn clipboard_sink(&self) -> Sink {
        self.clipboard
    }

    /// The frames' pieces that wait for a clipboard receive buffer.
    pub closed spec fn rx_queue(&self) -> Seq<Seq<u8>> {
        msgs(self.rx_to_guest@)
    }

    /// The control messages that wait for a control receive buffer.
    pub closed spec fn ctrl_queue(&self) -> Seq<Seq<u8>> {
        msgs(self.ctrl_to_guest@)
    }

    /// The guest has opened the clipboard port.
    pub closed spec fn is_open(&self) -> bool {
        self.port_open
    }

    pub fn new(clipboard: Sink) -> (c: Console)
        ensures
            c.rx_queue().len() == 0,
            c.ctrl_queue().len() == 0,
            !c.is_open(),
            c.clipboard_sink() == clipboard,
    {
        let c = Console {
            config: ConsoleConfig::new(),
            clipboard,
            rx_to_guest: VecDeque::new(),
            ctrl_to_guest: VecDeque::new(),
            port_open: false,
        };
        proof {
            assert(msgs(c.rx_to_guest@) =~= Seq::<Seq<u8>>::empty());
            assert(msgs(c.ctrl_to_guest@) =~= Seq::<Seq<u8>>::empty());
        }
        c
    }

    /// Queues a control message for the guest.
    pub fn queue_control(&mut self, id: u32, event: u16, value: u16)
        ensures
            final(self).ctrl_queue() == old(self).ctrl_queue().push(control_msg(id, event, value)),
            final(self).rx_queue() == old(self).rx_queue(),
            final(self).is_open() == old(self).is_open(),
    {
        proof {
            use_type_invariant(&*self);
        }
        let m = control_bytes(id, event, value);
        let mut q: VecDeque<Vec<u8>> = VecDeque::new();
        std::mem::swap(&mut q, &mut self.ctrl_to_guest);
        q.push_back(m);
        self.ctrl_to_guest = q;
        proof {
            assert(msgs(self.ctrl_to_guest@) =~= msgs(old(self).ctrl_to_guest@).push(
                control_msg(id, event, value),
            ));
        }
    }

    /// Queues a control message followed by a name. The message is handed
    /// to the guest in one buffer, whose byte count is a `u32`.
    pub fn queue_control_with_name(&mut self, id: u32, event: u16, value: u16, name: &[u8])
        requires
            name@.len() + 8 <= u32::MAX,
        ensures
            final(self).ctrl_queue() == old(self).ctrl_queue().push(
                control_msg(id, event, value) + name@,
            ),
            final(self).rx_queue() == old(self).rx_queue(),
            final(self).is_open() == old(self).is_open(),
    {
        proof {
            use_type_invariant(&*self);
        }
        let mut m = control_bytes(id, event, value);
        append(&mut m, name);
        let mut q: VecDeque<Vec<u8>> = VecDeque::new();
        std::mem::swap(&mut q, &mut self.ctrl_to_guest);
        q.push_back(m);
        self.ctrl_to_guest = q;
        proof {
            assert(msgs(self.ctrl_to_guest@) =~= msgs(old(self).ctrl_to_guest@).push(
                control_msg(id, event, value) + name@,
            ));
        }
    }
}


/// Handing the messages of `q` to the driver on queue `idx`, one chain each,
/// in order, until the queue has no chain left: gives the context, the
/// memory and the messages that still wait.
pub open spec fn pump_spec(ctx: CtxState, mem: MemState, idx: int, q: Seq<Seq<u8>>) -> (
    CtxState,
    MemState,
    Seq<Seq<u8>>,
)
    decreases q.len(),
{
    if q.len() == 0 {
        (ctx, mem, q)
    } else {
        let (c2, m2, ok) = deliver_spec(ctx, mem, idx, q[0]);
        if !ok {
            (c2, m2, q)
        } else {
            pump_spec(c2, m2, idx, q.drop_first())
        }
    }
}

/// Delivers the messages of `q` on queue `idx` while the driver offers chains.
fn pump_queue(q: &mut VecDeque<Vec<u8>>, idx: usize, ctx: &mut DeviceContext, mem: &mut GuestMemory)
    requires
        small_msgs(old(q)@),
    ensures
        small_msgs(final(q)@),
        ({
            let r = pump_spec(old(ctx)@, old(mem)@, idx as int, msgs(old(q)@));
            &&& final(ctx)@ == r.0
            &&& final(mem)@ == r.1
            &&& msgs(final(q)@) == r.2
        }),
        final(ctx).queues@.len() == old(ctx).queues@.len(),
{
    let ghost target = pump_spec(old(ctx)@, old(mem)@, idx as int, msgs(old(q)@));
    loop
        invariant
            small_msgs(q@),
            pump_spec(ctx@, mem@, idx as int, msgs(q@)) == target,
            target == pump_spec(old(ctx)@, old(mem)@, idx as int, msgs(old(q)@)),
            ctx.queues@.len() == old(ctx).queues@.len(),
        ensures
            small_msgs(q@),
            ctx@ == target.0,
            mem@ == target.1,
            msgs(q@) == target.2,
            ctx.queues@.len() == old(ctx).queues@.len(),
        decreases q@.len(),
    {
        if q.len() == 0 {
            return;
        }
        let ok = {
            let m: &Vec<u8> = &q[0];
            let part: &[u8] = m.as_slice();
            proof {
                lemma_concat_one(part);
                assert(q@[0]@.len() <= u32::MAX);
            }
            let parts: Vec<&[u8]> = vec![part];
            proof {
                assert(parts@ =~= seq![part]);
            }
            ctx.deliver(idx, parts.as_slice(), mem)
        };
        if !ok {
            return;
        }
        let ghost before = q@;
        let _ = q.pop_front();
        proof {
            assert(msgs(q@) =~= msgs(before).drop_first());
            assert forall|i: int| 0 <= i < q@.len() implies #[trigger] q@[i]@.len() <= u32::MAX by {
                assert(q@[i] == before[i + 1]);
            }
        }
    }
}

/// What a message on the control transmit queue does to the control
/// messages that wait and to whether the clipboard port is open.
pub open spec fn control_effect(id: u32, event: u16, value: u16, ctrl: Seq<Seq<u8>>, open: bool) -> (
    Seq<Seq<u8>>,
    bool,
) {
    if event == DEVICE_READY {
        (ctrl.push(control_msg(CLIP_PORT, DEVICE_ADD, 0)), open)
    } else if event == PORT_READY && id == CLIP_PORT {
        (
            ctrl.push(control_msg(CLIP_PORT, CONSOLE_PORT, 0)).push(
                control_msg(CLIP_PORT, PORT_NAME, 1) + port_name_spec(),
            ).push(control_msg(CLIP_PORT, PORT_OPEN, 1)),
            open,
        )
    } else if event == PORT_OPEN && id == CLIP_PORT {
        (ctrl, value != 0)
    } else {
        (ctrl, open)
    }
}

/// The control message at the front of a chain's readable bytes, if there
/// are eight of them.
pub open spec fn chain_control(chain: ChainData, mem: MemState) -> Option<(u32, u16, u16)> {
    match chain.read_at_spec(0, 8, mem) {
        Some(b) => Some(
            (
                le_value(b.subrange(0, 4)) as u32,
                le_value(b.subrange(4, 6)) as u16,
                le_value(b.subrange(6, 8)) as u16,
            ),
        ),
        None => None,
    }
}

impl Console {
    /// Answers a control message from the guest.
    pub fn handle_control_tx(&mut self, chain: &ChainData, mem: &GuestMemory)
        requires
            chain.wf(),
        ensures
            final(self).rx_queue() == old(self).rx_queue(),
            match chain_control(*chain, mem@) {
                Some((id, event, value)) => {
                    let e = control_effect(id, event, value, old(self).ctrl_queue(), old(self).is_open());
                    final(self).ctrl_queue() == e.0 && final(self).is_open() == e.1
                },
                None => final(self).ctrl_queue() == old(self).ctrl_queue() && final(self).is_open()
                    == old(self).is_open(),
            },
    {
        proof {
            use_type_invariant(&*self);
        }
        let b = match chain.read_at(0, 8, mem) {
            Some(b) => b,
            None => return,
        };
        let id = get_u32(b.as_slice(), 0);
        let event = get_u16(b.as_slice(), 4);
        let value = get_u16(b.as_slice(), 6);
        if event == DEVICE_READY {
            self.queue_control(CLIP_PORT, DEVICE_ADD, 0);
        } else if event == PORT_READY {
            if id == CLIP_PORT {
                self.queue_control(CLIP_PORT, CONSOLE_PORT, 0);
                let name = port_name();
                self.queue_control_with_name(CLIP_PORT, PORT_NAME, 1, name.as_slice());
                self.queue_control(CLIP_PORT, PORT_OPEN, 1);
            }
        } else if event == PORT_OPEN {
            if id == CLIP_PORT {
                self.port_open = value != 0;
            }
        }
    }

    /// Passes what the guest wrote on the clipboard port to the clipboard
    /// sink, all the chain's readable bytes in one piece where there are any
    /// and they can be read; nothing is written back.
    pub fn handle_clip_tx(&mut self, chain: &ChainData, mem: &GuestMemory) -> (r: u32)
        ensures
            r == 0,
            final(self).clipboard_sink().sender() == old(self).clipboard_sink().sender(),
            final(self).clipboard_sink().sent() == match chain.read_at_spec(0, chain.readable_len as int, mem@) {
                Some(b) if chain.readable_len > 0 => old(self).clipboard_sink().sent().push(b),
                _ => old(self).clipboard_sink().sent(),
            },
            final(self).rx_queue() == old(self).rx_queue(),
            final(self).ctrl_queue() == old(self).ctrl_queue(),
            final(self).is_open() == old(self).is_open(),
    {
        proof {
            use_type_invariant(&*self);
        }
        let total = chain.readable_len();
        if total == 0 {
            return 0;
        }
        match chain.read_at(0, total, mem) {
            Some(buf) => {
                self.clipboard.push(buf);
            },
            None => {},
        }
        0
    }

    /// Frames `payload` and queues it, in pieces of at most `RX_CHUNK`
    /// bytes, for the clipboard receive queue.
    pub fn enqueue_rx(&mut self, payload: &[u8])
        requires
            payload@.len() + FRAME_LEN_PREFIX <= usize::MAX,
        ensures
            final(self).rx_queue() == old(self).rx_queue() + chunks(frame(payload@), RX_CHUNK as nat),
            final(self).ctrl_queue() == old(self).ctrl_queue(),
            final(self).is_open() == old(self).is_open(),
    {
        proof {
            use_type_invariant(&*self);
        }
        let len32: u32 = (payload.len() as u64 % 0x1_0000_0000u64) as u32;
        let mut framed = u32_le(len32);
        append(&mut framed, payload);
        proof {
            assert(framed@ == frame(payload@));
            lemma_le_bytes_len(len32 as nat, 4);
        }
        let mut q: VecDeque<Vec<u8>> = VecDeque::new();
        std::mem::swap(&mut q, &mut self.rx_to_guest);
        let ghost q0 = q@;
        let n = framed.len();
        proof {
            assert(framed@.subrange(0, n as int) =~= framed@);
        }
        let mut start: usize = 0;
        while start < n
            invariant
                n == framed@.len(),
                start <= n,
                small_msgs(q@),
                msgs(q@) + chunks(framed@.subrange(start as int, n as int), RX_CHUNK as nat)
                    == msgs(q0) + chunks(framed@, RX_CHUNK as nat),
            decreases n - start,
        {
            let end = if n - start > RX_CHUNK {
                start + RX_CHUNK
            } else {
                n
            };
            let mut piece: Vec<u8> = Vec::new();
            let mut i = start;
            while i < end
                invariant
                    start <= i <= end,
                    end <= n,
                    n == framed@.len(),
                    piece@ == framed@.subrange(start as int, i as int),
                decreases end - i,
            {
                piece.push(framed[i]);
                i = i + 1;
                proof {
                    assert(piece@ =~= framed@.subrange(start as int, i as int));
                }
            }
            let ghost qb = q@;
            let ghost rest = framed@.subrange(start as int, n as int);
            let ghost pv = piece@;
            q.push_back(piece);
            proof {
                assert(rest.subrange(0, (end - start) as int) =~= pv);
                assert(q@.len() == qb.len() + 1);
                assert(q@[qb.len() as int]@ == pv);
                assert(msgs(q@) =~= msgs(qb).push(rest.subrange(0, (end - start) as int)));
                if rest.len() <= RX_CHUNK {
                    assert(rest.subrange(0, (end - start) as int) =~= rest);
                    assert(chunks(rest, RX_CHUNK as nat) == seq![rest]);
                    assert(framed@.subrange(end as int, n as int) =~= Seq::<u8>::empty());
                    assert(chunks(framed@.subrange(end as int, n as int), RX_CHUNK as nat) =~= Seq::<
                        Seq<u8>,
                    >::empty());
                    assert(msgs(qb) + seq![rest] =~= msgs(q@) + Seq::<Seq<u8>>::empty());
                } else {
                    assert(rest.subrange(RX_CHUNK as int, rest.len() as int) =~= framed@.subrange(
                        end as int,
                        n as int,
                    ));
                    assert(end - start == RX_CHUNK);
                    assert(chunks(rest, RX_CHUNK as nat) == seq![rest.subrange(0, 4096)] + chunks(
                        rest.subrange(4096, rest.len() as int),
                        RX_CHUNK as nat,
                    ));
                    assert(msgs(qb) + chunks(rest, RX_CHUNK as nat) =~= msgs(q@) + chunks(
                        framed@.subrange(end as int, n as int),
                        RX_CHUNK as nat,
                    ));
                }
                assert forall|k: int| 0 <= k < q@.len() implies #[trigger] q@[k]@.len() <= u32::MAX by {
                    if k < qb.len() {
                        assert(q@[k] == qb[k]);
                    }
                }
            }
            start = end;
        }
        proof {
            assert(framed@.subrange(n as int, n as int) =~= Seq::<u8>::empty());
            assert(msgs(q@) + Seq::<Seq<u8>>::empty() =~= msgs(q@));
        }
        self.rx_to_guest = q;
    }

    /// Hands waiting control messages to the guest while it offers buffers.
    pub fn pump_control_rx(&mut self, ctx: &mut DeviceContext, mem: &mut GuestMemory)
        ensures
            ({
                let r = pump_spec(old(ctx)@, old(mem)@, Q_CONTROL_RX as int, old(self).ctrl_queue());
                &&& final(ctx)@ == r.0
                &&& final(mem)@ == r.1
                &&& final(self).ctrl_queue() == r.2
            }),
            final(self).rx_queue() == old(self).rx_queue(),
            final(self).is_open() == old(self).is_open(),
            final(ctx).queues@.len() == old(ctx).queues@.len(),
    {
        proof {
            use_type_invariant(&*self);
        }
        let mut q: VecDeque<Vec<u8>> = VecDeque::new();
        std::mem::swap(&mut q, &mut self.ctrl_to_guest);
        pump_queue(&mut q, Q_CONTROL_RX, ctx, mem);
        self.ctrl_to_guest = q;
    }

    /// Hands waiting clipboard pieces to the guest while it offers buffers.
    pub fn pump_clip_rx(&mut self, ctx: &mut DeviceContext, mem: &mut GuestMemory)
        ensures
            ({
                let r = pump_spec(old(ctx)@, old(mem)@, Q_CLIP_RX as int, old(self).rx_queue());
                &&& final(ctx)@ == r.0
                &&& final(mem)@ == r.1
                &&& final(self).rx_queue() == r.2
            }),
            final(self).ctrl_queue() == old(self).ctrl_queue(),
            final(self).is_open() == old(self).is_open(),
            final(ctx).queues@.len() == old(ctx).queues@.len(),
    {
        proof {
            use_type_invariant(&*self);
        }
        let mut q: VecDeque<Vec<u8>> = VecDeque::new();
        std::mem::swap(&mut q, &mut self.rx_to_guest);
        pump_queue(&mut q, Q_CLIP_RX, ctx, mem);
        self.rx_to_guest = q;
    }
}


impl Console {
    /// Returns every available chain of queue `queue_idx` with nothing written.
    pub fn drain_and_complete(&mut self, queue_idx: usize, ctx: &mut DeviceContext, mem: &mut GuestMemory)
        ensures
            final(ctx).queues@.len() == old(ctx).queues@.len(),
            final(self).rx_queue() == old(self).rx_queue(),
            final(self).ctrl_queue() == old(self).ctrl_queue(),
            final(self).is_open() == old(self).is_open(),
            (final(ctx)@, final(mem)@) == drain_spec(old(ctx)@, old(mem)@, queue_idx as int, MAX_BAD_CHAINS as nat),
    {
        let mut fuel: u32 = MAX_BAD_CHAINS;
        while fuel > 0
            invariant
                ctx.queues@.len() == old(ctx).queues@.len(),
                drain_spec(ctx@, mem@, queue_idx as int, fuel as nat) == drain_spec(
                    old(ctx)@,
                    old(mem)@,
                    queue_idx as int,
                    MAX_BAD_CHAINS as nat,
                ),
            decreases fuel,
        {
            match ctx.pop_chain(queue_idx, mem) {
                Some(chain) => {
                    ctx.complete(chain.token, 0, mem);
                    fuel = fuel - 1;
                },
                None => {
                    fuel = 0;
                },
            }
        }
    }
}

impl Device for Console {
    open spec fn notify_effect(&self, queue_idx: usize, c: CtxState, m: MemState, after: Self, c2: CtxState, m2: MemState) -> bool {
        &&& queue_idx == Q_CONTROL_RX ==> ({
            let r = pump_spec(c, m, Q_CONTROL_RX as int, self.ctrl_queue());
            &&& c2 == r.0
            &&& m2 == r.1
            &&& after.ctrl_queue() == r.2
            &&& after.rx_queue() == self.rx_queue()
        })
        &&& queue_idx == Q_CLIP_RX ==> ({
            let r = pump_spec(c, m, Q_CLIP_RX as int, self.rx_queue());
            &&& c2 == r.0
            &&& m2 == r.1
            &&& after.rx_queue() == r.2
            &&& after.ctrl_queue() == self.ctrl_queue()
        })
        &&& (queue_idx == Q_PORT0_RX || queue_idx >= NUM_QUEUES) ==> c2 == c
            && m2 == m && after.rx_queue() == self.rx_queue()
            && after.ctrl_queue() == self.ctrl_queue()
        &&& queue_idx != Q_CONTROL_TX ==> after.is_open() == self.is_open()
    }

    open spec fn reset_effect(&self, after: Self) -> bool {
        &&& after.rx_queue().len() == 0
        &&& after.ctrl_queue().len() == 0
        &&& !after.is_open()
    }

    open spec fn device_id(&self) -> u32 {
        DEVICE_ID
    }

    open spec fn feature_bits(&self) -> u64 {
        FEATURE_VERSION_1 | FEATURE_MULTIPORT
    }

    open spec fn queue_count(&self) -> u16 {
        NUM_QUEUES
    }

    open spec fn config_space(&self) -> Seq<u8> {
        config_spec()
    }

    open spec fn shm_region(&self, id: u32) -> Option<(u64, u64)> {
        None
    }

    fn id(&self) -> (r: u32) {
        DEVICE_ID
    }

    fn features(&self) -> (r: u64) {
        FEATURE_VERSION_1 | FEATURE_MULTIPORT
    }

    fn num_queues(&self) -> (r: u16) {
        NUM_QUEUES
    }

    fn read_config(&self) -> (r: Vec<u8>) {
        proof {
            use_type_invariant(self);
        }
        self.config.to_bytes()
    }

    fn write_config(&mut self, offset: u64, data: &[u8]) {
    }

    fn queue_notified(&mut self, queue_idx: usize, ctx: &mut DeviceContext, mem: &mut GuestMemory)
        ensures
            queue_idx == Q_CONTROL_RX ==> ({
                let r = pump_spec(old(ctx)@, old(mem)@, Q_CONTROL_RX as int, old(self).ctrl_queue());
                &&& final(ctx)@ == r.0
                &&& final(mem)@ == r.1
                &&& final(self).ctrl_queue() == r.2
                &&& final(self).rx_queue() == old(self).rx_queue()
            }),
            queue_idx == Q_CLIP_RX ==> ({
                let r = pump_spec(old(ctx)@, old(mem)@, Q_CLIP_RX as int, old(self).rx_queue());
                &&& final(ctx)@ == r.0
                &&& final(mem)@ == r.1
                &&& final(self).rx_queue() == r.2
                &&& final(self).ctrl_queue() == old(self).ctrl_queue()
            }),
            (queue_idx == Q_PORT0_RX || queue_idx >= NUM_QUEUES) ==> final(ctx)@ == old(ctx)@
                && final(mem)@ == old(mem)@ && final(self).rx_queue() == old(self).rx_queue()
                && final(self).ctrl_queue() == old(self).ctrl_queue(),
            queue_idx != Q_CONTROL_TX ==> final(self).is_open() == old(self).is_open(),
    {
        if queue_idx == Q_PORT0_TX {
            self.drain_and_complete(queue_idx, ctx, mem);
        } else if queue_idx == Q_CONTROL_RX {
            self.pump_control_rx(ctx, mem);
        } else if queue_idx == Q_CONTROL_TX {
            let mut fuel: u32 = MAX_BAD_CHAINS;
            while fuel > 0
                invariant
                    ctx.queues@.len() == old(ctx).queues@.len(),
                decreases fuel,
            {
                match ctx.pop_chain(queue_idx, mem) {
                    Some(chain) => {
                        self.handle_control_tx(&chain.data, mem);
                        ctx.complete(chain.token, 0, mem);
                        fuel = fuel - 1;
                    },
                    None => {
                        fuel = 0;
                    },
                }
            }
            self.pump_control_rx(ctx, mem);
        } else if queue_idx == Q_CLIP_RX {
            self.pump_clip_rx(ctx, mem);
        } else if queue_idx == Q_CLIP_TX {
            let mut fuel: u32 = MAX_BAD_CHAINS;
            while fuel > 0
                invariant
                    ctx.queues@.len() == old(ctx).queues@.len(),
                    self.rx_queue() == old(self).rx_queue(),
                    self.ctrl_queue() == old(self).ctrl_queue(),
                    self.is_open() == old(self).is_open(),
                decreases fuel,
            {
                match ctx.pop_chain(queue_idx, mem) {
                    Some(chain) => {
                        let written = self.handle_clip_tx(&chain.data, mem);
                        ctx.complete(chain.token, written, mem);
                        fuel = fuel - 1;
                    },
                    None => {
                        fuel = 0;
                    },
                }
            }
        }
    }

    fn reset(&mut self)
        ensures
            final(self).rx_queue().len() == 0,
            final(self).ctrl_queue().len() == 0,
            !final(self).is_open(),
    {
        proof {
            use_type_invariant(&*self);
        }
        self.rx_to_guest = VecDeque::new();
        self.ctrl_to_guest = VecDeque::new();
        self.port_open = false;
    }

    fn shared_memory_region(&self, id: u32) -> (r: Option<ShmRegion>) {
        None
    }
}

/// What the host tells the console.
pub enum ExternalEvent {
    /// The host clipboard changed to these bytes.
    HostClipboard(Vec<u8>),
}

impl ExternalEventHandler for Console {
    type Event = ExternalEvent;

    open spec fn event_effect(
        &self,
        event: ExternalEvent,
        c: CtxState,
        m: MemState,
        after: Self,
        c2: CtxState,
        m2: MemState,
    ) -> bool {
        &&& match event {
            ExternalEvent::HostClipboard(p) => {
                let q = if self.is_open() && p@.len() + FRAME_LEN_PREFIX <= usize::MAX {
                    self.rx_queue() + chunks(frame(p@), RX_CHUNK as nat)
                } else {
                    self.rx_queue()
                };
                let r = pump_spec(c, m, Q_CLIP_RX as int, q);
                &&& c2 == r.0
                &&& m2 == r.1
                &&& after.rx_queue() == r.2
            },
        }
        &&& after.ctrl_queue() == self.ctrl_queue()
        &&& after.is_open() == self.is_open()
    }

    fn on_event(&mut self, event: ExternalEvent, ctx: &mut DeviceContext, mem: &mut GuestMemory)
        ensures
            match event {
                ExternalEvent::HostClipboard(p) => {
                    let q = if old(self).is_open() && p@.len() + FRAME_LEN_PREFIX <= usize::MAX {
                        old(self).rx_queue() + chunks(frame(p@), RX_CHUNK as nat)
                    } else {
                        old(self).rx_queue()
                    };
                    let r = pump_spec(old(ctx)@, old(mem)@, Q_CLIP_RX as int, q);
                    &&& final(ctx)@ == r.0
                    &&& final(mem)@ == r.1
                    &&& final(self).rx_queue() == r.2
                },
            },
            final(self).ctrl_queue() == old(self).ctrl_queue(),
            final(self).is_open() == old(self).is_open(),
    {
        match event {
            ExternalEvent::HostClipboard(payload) => {
                if self.port_open {
                    if payload.len() <= usize::MAX - FRAME_LEN_PREFIX {
                        self.enqueue_rx(payload.as_slice());
                    }
                }
            },
        }
        self.pump_clip_rx(ctx, mem);
    }
}


/// The pieces that the console queues for a host clipboard payload, read
/// back to back by the other side's deframer, give that payload whole,
/// whatever follows them.
pub proof fn lemma_clipboard_round_trip(payload: Seq<u8>, rest: Seq<u8>)
    requires
        payload.len() <= MAX_FRAME,
    ensures
        deframe(flatten(chunks(frame(payload), RX_CHUNK as nat)) + rest) == (
            seq![payload] + deframe(rest).0,
            deframe(rest).1,
        ),
{
    lemma_chunks_flatten(frame(payload), RX_CHUNK as nat);
    lemma_deframe_frame(payload, rest);
}

} // verus!
