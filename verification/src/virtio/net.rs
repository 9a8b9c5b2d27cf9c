//! The virtio network device: frames pass between the guest and a host
//! backend, each behind a header that offers no offloads.
use crate::memory::{GuestMemory, MemState};
use crate::virtio::chain::{concat, read_segs, ChainData};
use crate::virtio::virtq::ChainAcc;
use crate::virtio::device::{complete_spec, next_chain, raise, ChainToken, deliver_spec, drain_spec, CtxState, DeviceContext, ShmRegion, FEATURE_VERSION_1, MAX_BAD_CHAINS};
use crate::virtio::mmio::{Device, ExternalEventHandler};
use vstd::prelude::*;

verus! {

pub const DEVICE_ID: u32 = 1;

/// The device has a MAC address in its configuration space.
pub const FEATURE_MAC: u64 = 0x20;

/// Frames from the host to the guest.
pub const QUEUE_RX: usize = 0;

/// Frames from the guest to the host.
pub const QUEUE_TX: usize = 1;

/// Bytes of the header in front of every frame.
pub const HEADER_LEN: usize = 12;

/// Where the device sends the guest's frames.
pub trait FrameSink {
    /// Sends one Ethernet frame to the host network.
    fn write(&self, frame: &[u8]);
}

/// A frame sink together with the record of the frames handed to it.
pub struct SentFrames<B: FrameSink> {
    sink: B,
    sent: Ghost<Seq<Seq<u8>>>,
}

impl<B: FrameSink> SentFrames<B> {
    /// The frames handed to the sink so far, oldest first.
    pub closed spec fn sent(&self) -> Seq<Seq<u8>> {
        self.sent@
    }

    pub fn new(sink: B) -> (r: SentFrames<B>)
        ensures
            r.sent() == Seq::<Seq<u8>>::empty(),
    {
        SentFrames { sink, sent: Ghost(Seq::empty()) }
    }

    /// Hands `frame` to the sink.
    pub fn write(&mut self, frame: &[u8])
        ensures
            final(self).sent() == old(self).sent().push(frame@),
    {
        self.sink.write(frame);
        self.sent = Ghost(self.sent@.push(frame@));
    }
}

/// The header in front of a received frame: no checksum or segmentation
/// offload, one buffer.
pub open spec fn rx_header() -> Seq<u8> {
    seq![0u8, 0u8, 0u8, 0u8, 0u8, 0u8, 0u8, 0u8, 0u8, 0u8, 1u8, 0u8]
}

/// Builds the header in front of a received frame.
pub fn plain_rx_hdr() -> (r: Vec<u8>)
    ensures
        r@ == rx_header(),
{
    let r = vec![0u8, 0u8, 0u8, 0u8, 0u8, 0u8, 0u8, 0u8, 0u8, 0u8, 1u8, 0u8];
    proof {
        assert(r@ =~= rx_header());
    }
    r
}

/// The frame that a transmit chain carries: what follows the header, if the
/// chain is long enough and its buffers can be read.
pub open spec fn tx_frame_spec(chain: ChainData, mem: MemState) -> Option<Seq<u8>> {
    if chain.readable_len < HEADER_LEN {
        None
    } else {
        chain.read_at_spec(HEADER_LEN as int, chain.readable_len - HEADER_LEN, mem)
    }
}

/// Reads the frame that a transmit chain carries.
pub fn tx_frame(chain: &ChainData, mem: &GuestMemory) -> (r: Option<Vec<u8>>)
    ensures
        match r {
            Some(v) => tx_frame_spec(*chain, mem@) == Some(v@),
            None => tx_frame_spec(*chain, mem@) is None,
        },
{
    let total = chain.readable_len();
    if total < HEADER_LEN {
        return None;
    }
    chain.read_at(HEADER_LEN, total - HEADER_LEN, mem)
}

/// The frame that a transmit chain of readable buffers `acc.0`, `acc.2`
/// bytes long, carries.
pub open spec fn acc_frame(acc: ChainAcc, mem: MemState) -> Option<Seq<u8>> {
    if acc.2 < HEADER_LEN {
        None
    } else {
        read_segs(acc.0, HEADER_LEN as int, acc.2 - HEADER_LEN, mem)
    }
}

/// The frames that draining queue `idx` as [`drain_spec`] does hands to the
/// backend, oldest first: one for each chain taken that carries a frame.
pub open spec fn tx_frames(ctx: CtxState, mem: MemState, idx: int, fuel: nat) -> Seq<Seq<u8>>
    decreases fuel,
{
    if fuel == 0 {
        Seq::empty()
    } else {
        let s = next_chain(ctx.0, mem, idx, MAX_BAD_CHAINS as nat);
        let c1: CtxState = (s.0, raise(ctx.1, s.2));
        match s.3 {
            None => Seq::empty(),
            Some((chain, head)) => {
                let (c2, m2) = complete_spec(c1, s.1, ChainToken { queue_idx: idx as usize, head_idx: head }, 0);
                let here = match acc_frame(chain, s.1) {
                    Some(f) => seq![f],
                    None => Seq::empty(),
                };
                here + tx_frames(c2, m2, idx, (fuel - 1) as nat)
            },
        }
    }
}

/// The network device in front of backend `B`.
pub struct Net<B: FrameSink> {
    mac: [u8; 6],
    backend: SentFrames<B>,
}

impl<B: FrameSink> Net<B> {
    /// The MAC address that the guest reads.
    pub closed spec fn mac(&self) -> Seq<u8> {
        self.mac@
    }

    pub fn new(mac: [u8; 6], backend: B) -> (r: Net<B>)
        ensures
            r.mac() == mac@,
            r.frames_sent() == Seq::<Seq<u8>>::empty(),
    {
        Net { mac, backend: SentFrames::new(backend) }
    }

    /// The frames handed to the backend so far, oldest first.
    pub closed spec fn frames_sent(&self) -> Seq<Seq<u8>> {
        self.backend.sent()
    }

    /// Sends the frame of a transmit chain to the backend; the guest is
    /// given nothing back.
    pub fn handle_tx(&mut self, chain: &ChainData, mem: &GuestMemory) -> (r: u32)
        ensures
            r == 0,
            final(self).mac() == old(self).mac(),
            final(self).frames_sent() == match tx_frame_spec(*chain, mem@) {
                Some(frame) => old(self).frames_sent().push(frame),
                None => old(self).frames_sent(),
            },
    {
        match tx_frame(chain, mem) {
            Some(eth) => {
                self.backend.write(eth.as_slice());
            },
            None => {},
        }
        0
    }
}

fn mac_bytes(mac: &[u8; 6]) -> (r: Vec<u8>)
    ensures
        r@ == mac@,
{
    let mut r: Vec<u8> = Vec::new();
    let mut i: usize = 0;
    while i < 6
        invariant
            i <= 6,
            mac@.len() == 6,
            r@ == mac@.subrange(0, i as int),
        decreases 6 - i,
    {
        r.push(mac[i]);
        i = i + 1;
        proof {
            assert(r@ =~= mac@.subrange(0, i as int));
        }
    }
    proof {
        assert(mac@.subrange(0, 6) =~= mac@);
    }
    r
}

impl<B: FrameSink> Device for Net<B> {
    open spec fn notify_effect(&self, queue_idx: usize, c: CtxState, m: MemState, after: Self, c2: CtxState, m2: MemState) -> bool {
        &&& after.mac() == self.mac()
        &&& queue_idx != QUEUE_TX ==> c2 == c && m2 == m && after.frames_sent() == self.frames_sent()
        &&& queue_idx == QUEUE_TX ==> after.frames_sent() == self.frames_sent() + tx_frames(
            c,
            m,
            queue_idx as int,
            MAX_BAD_CHAINS as nat,
        )
        &&& queue_idx == QUEUE_TX ==> (c2, m2) == drain_spec(
            c,
            m,
            queue_idx as int,
            MAX_BAD_CHAINS as nat,
        )
    }

    open spec fn reset_effect(&self, after: Self) -> bool {
        &&& after.mac() == self.mac()
    }

    open spec fn device_id(&self) -> u32 {
        DEVICE_ID
    }

    open spec fn feature_bits(&self) -> u64 {
        FEATURE_VERSION_1 | FEATURE_MAC
    }

    open spec fn queue_count(&self) -> u16 {
        2
    }

    open spec fn config_space(&self) -> Seq<u8> {
        self.mac()
    }

    open spec fn shm_region(&self, id: u32) -> Option<(u64, u64)> {
        None
    }

    fn id(&self) -> (r: u32) {
        DEVICE_ID
    }

    fn features(&self) -> (r: u64) {
        FEATURE_VERSION_1 | FEATURE_MAC
    }

    fn num_queues(&self) -> (r: u16) {
        2
    }

    fn read_config(&self) -> (r: Vec<u8>) {
        mac_bytes(&self.mac)
    }

    fn write_config(&mut self, offset: u64, data: &[u8]) {
    }

    fn queue_notified(&mut self, queue_idx: usize, ctx: &mut DeviceContext, mem: &mut GuestMemory)
        ensures
            final(self).mac() == old(self).mac(),
            queue_idx != QUEUE_TX ==> final(ctx)@ == old(ctx)@ && final(mem)@ == old(mem)@
                && final(self).frames_sent() == old(self).frames_sent(),
            queue_idx == QUEUE_TX ==> (final(ctx)@, final(mem)@) == drain_spec(
                old(ctx)@,
                old(mem)@,
                queue_idx as int,
                MAX_BAD_CHAINS as nat,
            ),
            queue_idx == QUEUE_TX ==> final(self).frames_sent() == old(self).frames_sent() + tx_frames(
                old(ctx)@,
                old(mem)@,
                queue_idx as int,
                MAX_BAD_CHAINS as nat,
            ),
    {
        if queue_idx == QUEUE_TX {
            let mut fuel: u32 = MAX_BAD_CHAINS;
            proof {
                assert(old(self).frames_sent() + Seq::<Seq<u8>>::empty() =~= old(self).frames_sent());
            }
            while fuel > 0
                invariant
                    ctx.queues@.len() == old(ctx).queues@.len(),
                    self.mac() == old(self).mac(),
                    drain_spec(ctx@, mem@, queue_idx as int, fuel as nat) == drain_spec(
                        old(ctx)@,
                        old(mem)@,
                        queue_idx as int,
                        MAX_BAD_CHAINS as nat,
                    ),
                    self.frames_sent() + tx_frames(ctx@, mem@, queue_idx as int, fuel as nat)
                        == old(self).frames_sent() + tx_frames(
                        old(ctx)@,
                        old(mem)@,
                        queue_idx as int,
                        MAX_BAD_CHAINS as nat,
                    ),
                decreases fuel,
            {
                let ghost c0 = ctx@;
                let ghost m0 = mem@;
                let ghost sent0 = self.frames_sent();
                let ghost f0 = fuel;
                match ctx.pop_chain(queue_idx, mem) {
                    Some(chain) => {
                        let written = self.handle_tx(&chain.data, mem);
                        ctx.complete(chain.token, written, mem);
                        fuel = fuel - 1;
                        proof {
                            let s = next_chain(c0.0, m0, queue_idx as int, MAX_BAD_CHAINS as nat);
                            let got = s.3->0;
                            assert(tx_frame_spec(chain.data, s.1) == acc_frame(got.0, s.1));
                            let here = match acc_frame(got.0, s.1) {
                                Some(f) => seq![f],
                                None => Seq::<Seq<u8>>::empty(),
                            };
                            assert(self.frames_sent() =~= sent0 + here);
                            assert(tx_frames(c0, m0, queue_idx as int, f0 as nat) == here + tx_frames(
                                ctx@,
                                mem@,
                                queue_idx as int,
                                fuel as nat,
                            ));
                            assert(sent0 + (here + tx_frames(ctx@, mem@, queue_idx as int, fuel as nat))
                                =~= (sent0 + here) + tx_frames(ctx@, mem@, queue_idx as int, fuel as nat));
                        }
                    },
                    None => {
                        fuel = 0;
                        proof {
                            assert(tx_frames(c0, m0, queue_idx as int, f0 as nat) =~= Seq::<Seq<u8>>::empty());
                            assert(tx_frames(ctx@, mem@, queue_idx as int, 0) =~= Seq::<Seq<u8>>::empty());
                        }
                    },
                }
            }
            proof {
                assert(tx_frames(ctx@, mem@, queue_idx as int, 0) =~= Seq::<Seq<u8>>::empty());
                assert(self.frames_sent() + Seq::<Seq<u8>>::empty() =~= self.frames_sent());
            }
        }
    }

    fn reset(&mut self)
        ensures
            final(self).mac() == old(self).mac(),
    {
    }

    fn shared_memory_region(&self, id: u32) -> (r: Option<ShmRegion>) {
        None
    }
}

impl<B: FrameSink> ExternalEventHandler for Net<B> {
    /// A frame from the host network.
    type Event = Vec<u8>;

    open spec fn event_effect(
        &self,
        frame: Vec<u8>,
        c: CtxState,
        m: MemState,
        after: Self,
        c2: CtxState,
        m2: MemState,
    ) -> bool {
        &&& after.mac() == self.mac()
        &&& frame@.len() + HEADER_LEN <= u32::MAX ==> ({
            let r = deliver_spec(c, m, QUEUE_RX as int, rx_header() + frame@);
            c2 == r.0 && m2 == r.1
        })
        &&& frame@.len() + HEADER_LEN > u32::MAX ==> c2 == c && m2 == m
    }

    fn on_event(&mut self, frame: Vec<u8>, ctx: &mut DeviceContext, mem: &mut GuestMemory)
        ensures
            final(self).mac() == old(self).mac(),
            frame@.len() + HEADER_LEN <= u32::MAX ==> ({
                let r = deliver_spec(old(ctx)@, old(mem)@, QUEUE_RX as int, rx_header() + frame@);
                final(ctx)@ == r.0 && final(mem)@ == r.1
            }),
            frame@.len() + HEADER_LEN > u32::MAX ==> final(ctx)@ == old(ctx)@ && final(mem)@ == old(
                mem,
            )@,
    {
        if frame.len() > u32::MAX as usize - HEADER_LEN {
            return;
        }
        let header = plain_rx_hdr();
        let parts: Vec<&[u8]> = vec![header.as_slice(), frame.as_slice()];
        proof {
            let ps = parts@;
            assert(ps.drop_last() =~= seq![ps[0]]);
            assert(seq![ps[0]].drop_last() =~= Seq::<&[u8]>::empty());
            assert(concat(seq![ps[0]]) == concat(Seq::<&[u8]>::empty()) + ps[0]@);
            assert(Seq::<u8>::empty() + ps[0]@ =~= rx_header());
            assert(concat(ps) == concat(ps.drop_last()) + ps[1]@);
        }
        let _ = ctx.deliver(QUEUE_RX, parts.as_slice(), mem);
    }
}

} // verus!
