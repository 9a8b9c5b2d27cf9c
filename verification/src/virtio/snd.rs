//! The virtio sound device: one stereo 48 kHz output stream of 16-bit samples.
use crate::bytes::{get_u32, le_bytes, le_value, lemma_le_bytes_len, u32_le, u64_le};
use crate::memory::{GuestMemory, MemState};
use crate::virtio::chain::{fill_segs, ChainData};
use crate::virtio::virtq::ChainAcc;
use crate::virtio::device::{after_action, complete_spec, next_chain, raise, served, FEATURE_VERSION_1, ChainAction, ChainToken, CtxState, DeviceContext, ShmRegion, MAX_BAD_CHAINS};
use crate::virtio::mmio::{Device, ExternalEventHandler};
use std::collections::VecDeque;
use vstd::prelude::*;

verus! {

pub const DEVICE_ID: u32 = 25;

pub const NUM_JACKS: u32 = 0;

pub const NUM_STREAMS: u32 = 1;

pub const NUM_CHMAPS: u32 = 1;

pub const STREAM_ID: u32 = 0;

pub const CHMAP_MAX_SIZE: usize = 18;

pub const CODE_JACK_INFO: u32 = 0x0001;

pub const CODE_JACK_REMAP: u32 = 0x0002;

pub const CODE_PCM_INFO: u32 = 0x0100;

pub const CODE_PCM_SET_PARAMS: u32 = 0x0101;

pub const CODE_PCM_PREPARE: u32 = 0x0102;

pub const CODE_PCM_RELEASE: u32 = 0x0103;

pub const CODE_PCM_START: u32 = 0x0104;

pub const CODE_PCM_STOP: u32 = 0x0105;

pub const CODE_CHMAP_INFO: u32 = 0x0200;

pub const STATUS_OK: u32 = 0x8000;

pub const STATUS_BAD_MSG: u32 = 0x8001;

pub const STATUS_NOT_SUPP: u32 = 0x8002;

pub const STATUS_IO_ERR: u32 = 0x8003;

/// `S16` in the PCM format numbering.
pub const PCM_FORMAT_S16: u8 = 5;

/// 48000 Hz in the PCM rate numbering.
pub const PCM_RATE_48000: u8 = 7;

pub const DIRECTION_OUTPUT: u8 = 0;

pub const CHMAP_FL: u8 = 3;

pub const CHMAP_FR: u8 = 4;

pub const QUEUE_CONTROL: usize = 0;

pub const QUEUE_EVENT: usize = 1;

pub const QUEUE_TX: usize = 2;

pub const QUEUE_RX: usize = 3;

/// Where the output stream is in its life cycle.
#[derive(Debug, Copy, Clone, PartialEq, Eq, Structural)]
pub enum StreamState {
    Initial,
    ParamsSet,
    Prepared,
    Running,
}

/// Where the host plays the periods that the guest submits.
pub trait PeriodSink {
    /// Queues a period for playback; `false` where it cannot be taken.
    fn push(&mut self, seq: u64, bytes: &[u8]) -> bool;

    fn start(&mut self);

    fn stop(&mut self);

    /// Stops playback and drops every queued period.
    fn reset(&mut self);
}

/// A period sink together with the record of what it was told: the
/// commands given to it and the periods offered to it, oldest first.
pub struct SinkLog<S: PeriodSink> {
    sink: S,
    commands: Ghost<Seq<SinkAction>>,
    offered: Ghost<Seq<(u64, Seq<u8>)>>,
}

impl<S: PeriodSink> SinkLog<S> {
    /// The commands given to the sink so far, oldest first.
    pub closed spec fn commands(&self) -> Seq<SinkAction> {
        self.commands@
    }

    /// The periods offered to the sink so far, with their sequence numbers,
    /// oldest first.
    pub closed spec fn offered(&self) -> Seq<(u64, Seq<u8>)> {
        self.offered@
    }

    pub fn new(sink: S) -> (r: SinkLog<S>)
        ensures
            r.commands() == Seq::<SinkAction>::empty(),
            r.offered() == Seq::<(u64, Seq<u8>)>::empty(),
    {
        SinkLog { sink, commands: Ghost(Seq::empty()), offered: Ghost(Seq::empty()) }
    }

    /// Offers period `seq` to the sink; `false` where it was not taken.
    pub fn push(&mut self, seq: u64, bytes: &[u8]) -> (r: bool)
        ensures
            final(self).offered() == old(self).offered().push((seq, bytes@)),
            final(self).commands() == old(self).commands(),
    {
        let r = self.sink.push(seq, bytes);
        self.offered = Ghost(self.offered@.push((seq, bytes@)));
        r
    }

    pub fn start(&mut self)
        ensures
            final(self).commands() == old(self).commands().push(SinkAction::Start),
            final(self).offered() == old(self).offered(),
    {
        self.sink.start();
        self.commands = Ghost(self.commands@.push(SinkAction::Start));
    }

    pub fn stop(&mut self)
        ensures
            final(self).commands() == old(self).commands().push(SinkAction::Stop),
            final(self).offered() == old(self).offered(),
    {
        self.sink.stop();
        self.commands = Ghost(self.commands@.push(SinkAction::Stop));
    }

    /// Stops playback and drops every queued period.
    pub fn reset(&mut self)
        ensures
            final(self).commands() == old(self).commands().push(SinkAction::Release),
            final(self).offered() == old(self).offered(),
    {
        self.sink.reset();
        self.commands = Ghost(self.commands@.push(SinkAction::Release));
    }
}

/// The sink's commands after it is told `a`.
pub open spec fn after_command(commands: Seq<SinkAction>, a: SinkAction) -> Seq<SinkAction> {
    if a is Nothing {
        commands
    } else {
        commands.push(a)
    }
}

/// The parameters and state of the output stream.
pub struct Stream {
    pub state: StreamState,
    pub buffer_bytes: u32,
    pub period_scratch: Vec<u8>,
    pub channels: u8,
    pub format: u8,
    pub rate: u8,
}

/// The model of a [`Stream`]: state, buffer size, period size, channels, format, rate.
pub struct StreamModel {
    pub state: StreamState,
    pub buffer_bytes: u32,
    pub period_bytes: nat,
    pub channels: u8,
    pub format: u8,
    pub rate: u8,
}

impl View for Stream {
    type V = StreamModel;

    open spec fn view(&self) -> StreamModel {
        StreamModel {
            state: self.state,
            buffer_bytes: self.buffer_bytes,
            period_bytes: self.period_scratch@.len(),
            channels: self.channels,
            format: self.format,
            rate: self.rate,
        }
    }
}

/// A stream that has not been configured.
pub open spec fn initial_stream() -> StreamModel {
    StreamModel {
        state: StreamState::Initial,
        buffer_bytes: 0,
        period_bytes: 0,
        channels: 0,
        format: 0,
        rate: 0,
    }
}

impl Stream {
    pub fn new() -> (s: Stream)
        ensures
            s@ == initial_stream(),
    {
        Stream {
            state: StreamState::Initial,
            buffer_bytes: 0,
            period_scratch: Vec::new(),
            channels: 0,
            format: 0,
            rate: 0,
        }
    }
}

/// A period that was queued for playback and whose chain is held until the
/// host has played it.
#[derive(Copy, Clone)]
pub struct PendingPeriod {
    pub seq: u64,
    pub token: ChainToken,
    pub written: u32,
}

/// A control request, as decoded from the front of a control chain.
#[derive(Debug, Copy, Clone, PartialEq, Eq)]
pub enum Request {
    /// The header could not be read, or the code is unknown, or the body of a
    /// known request could not be read.
    Bad,
    PcmInfo { start: u32, count: u32 },
    SetParams {
        stream_id: u32,
        buffer_bytes: u32,
        period_bytes: u32,
        features: u32,
        channels: u8,
        format: u8,
        rate: u8,
    },
    Prepare { stream_id: u32 },
    Start { stream_id: u32 },
    Stop { stream_id: u32 },
    Release { stream_id: u32 },
    ChmapInfo { start: u32, count: u32 },
    Jack,
}

/// The `u32` at byte `i` of `b`.
pub open spec fn u32_at(b: Seq<u8>, i: int) -> u32 {
    le_value(b.subrange(i, i + 4)) as u32
}

/// The request that the first bytes of the readable buffers hold; `r(n)` is
/// what reading the first `n` of them gives.
pub open spec fn request_spec(c: &ChainData, mem: MemState) -> Request {
    match c.read_at_spec(0, 4, mem) {
        None => Request::Bad,
        Some(h) => {
            let code = u32_at(h, 0);
            if code == CODE_PCM_INFO || code == CODE_CHMAP_INFO {
                match c.read_at_spec(0, 16, mem) {
                    None => Request::Bad,
                    Some(q) => if code == CODE_PCM_INFO {
                        Request::PcmInfo { start: u32_at(q, 4), count: u32_at(q, 8) }
                    } else {
                        Request::ChmapInfo { start: u32_at(q, 4), count: u32_at(q, 8) }
                    },
                }
            } else if code == CODE_PCM_SET_PARAMS {
                match c.read_at_spec(0, 24, mem) {
                    None => Request::Bad,
                    Some(p) => Request::SetParams {
                        stream_id: u32_at(p, 4),
                        buffer_bytes: u32_at(p, 8),
                        period_bytes: u32_at(p, 12),
                        features: u32_at(p, 16),
                        channels: p[20],
                        format: p[21],
                        rate: p[22],
                    },
                }
            } else if code == CODE_PCM_PREPARE || code == CODE_PCM_START || code == CODE_PCM_STOP
                || code == CODE_PCM_RELEASE {
                match c.read_at_spec(0, 8, mem) {
                    None => Request::Bad,
                    Some(p) => {
                        let stream_id = u32_at(p, 4);
                        if code == CODE_PCM_PREPARE {
                            Request::Prepare { stream_id }
                        } else if code == CODE_PCM_START {
                            Request::Start { stream_id }
                        } else if code == CODE_PCM_STOP {
                            Request::Stop { stream_id }
                        } else {
                            Request::Release { stream_id }
                        }
                    },
                }
            } else if code == CODE_JACK_INFO || code == CODE_JACK_REMAP {
                Request::Jack
            } else {
                Request::Bad
            }
        },
    }
}

/// The four bytes of a status header.
pub open spec fn status_bytes(code: u32) -> Seq<u8> {
    le_bytes(code as nat, 4)
}

/// The PCM information record of the one output stream.
pub open spec fn pcm_info_record() -> Seq<u8> {
    le_bytes(0, 4) + le_bytes(0, 4) + le_bytes(32, 8) + le_bytes(128, 8) + seq![
        DIRECTION_OUTPUT,
        2u8,
        2u8,
        0u8,
        0u8,
        0u8,
        0u8,
        0u8
    ]
}

/// The channel map record: front left, front right.
pub open spec fn chmap_record() -> Seq<u8> {
    le_bytes(0, 4) + seq![DIRECTION_OUTPUT, 2u8, CHMAP_FL, CHMAP_FR] + Seq::new(
        (CHMAP_MAX_SIZE - 2) as nat,
        |_i: int| 0u8,
    )
}

/// `n` copies of `rec`, one after the other.
pub open spec fn repeat(rec: Seq<u8>, n: nat) -> Seq<u8>
    decreases n,
{
    if n == 0 {
        Seq::empty()
    } else {
        repeat(rec, (n - 1) as nat) + rec
    }
}

/// What the device does with a control request: the stream after, the
/// response, and what it tells the period sink.
pub enum SinkAction {
    Nothing,
    Start,
    Stop,
    Release,
}

/// The stream after `req`, the response to it, and what the sink is told.
pub open spec fn control_spec(s: StreamModel, req: Request) -> (StreamModel, Seq<u8>, SinkAction) {
    match req {
        Request::Bad => (s, status_bytes(STATUS_BAD_MSG), SinkAction::Nothing),
        Request::Jack => (s, status_bytes(STATUS_NOT_SUPP), SinkAction::Nothing),
        Request::PcmInfo { start, count } => if start + count > NUM_STREAMS {
            (s, status_bytes(STATUS_BAD_MSG), SinkAction::Nothing)
        } else {
            (s, status_bytes(STATUS_OK) + repeat(pcm_info_record(), count as nat), SinkAction::Nothing)
        },
        Request::ChmapInfo { start, count } => if start + count > NUM_CHMAPS {
            (s, status_bytes(STATUS_BAD_MSG), SinkAction::Nothing)
        } else {
            (s, status_bytes(STATUS_OK) + repeat(chmap_record(), count as nat), SinkAction::Nothing)
        },
        Request::SetParams {
            stream_id,
            buffer_bytes,
            period_bytes,
            features,
            channels,
            format,
            rate,
        } => if stream_id != STREAM_ID || s.state == StreamState::Running {
            (s, status_bytes(STATUS_BAD_MSG), SinkAction::Nothing)
        } else if format != PCM_FORMAT_S16 || rate != PCM_RATE_48000 || channels != 2 || features
            != 0 {
            (s, status_bytes(STATUS_NOT_SUPP), SinkAction::Nothing)
        } else if period_bytes == 0 || buffer_bytes % period_bytes != 0 || period_bytes % 4 != 0 {
            (s, status_bytes(STATUS_BAD_MSG), SinkAction::Nothing)
        } else {
            (
                StreamModel {
                    state: StreamState::ParamsSet,
                    buffer_bytes,
                    period_bytes: period_bytes as nat,
                    channels,
                    format,
                    rate,
                },
                status_bytes(STATUS_OK),
                SinkAction::Nothing,
            )
        },
        Request::Prepare { stream_id } => if stream_id != STREAM_ID || s.state
            == StreamState::Initial || s.state == StreamState::Running {
            (s, status_bytes(STATUS_BAD_MSG), SinkAction::Nothing)
        } else {
            (StreamModel { state: StreamState::Prepared, ..s }, status_bytes(STATUS_OK), SinkAction::Nothing)
        },
        Request::Start { stream_id } => if stream_id != STREAM_ID || s.state != StreamState::Prepared {
            (s, status_bytes(STATUS_BAD_MSG), SinkAction::Nothing)
        } else {
            (StreamModel { state: StreamState::Running, ..s }, status_bytes(STATUS_OK), SinkAction::Start)
        },
        Request::Stop { stream_id } => if stream_id != STREAM_ID || s.state != StreamState::Running {
            (s, status_bytes(STATUS_BAD_MSG), SinkAction::Nothing)
        } else {
            (StreamModel { state: StreamState::Prepared, ..s }, status_bytes(STATUS_OK), SinkAction::Stop)
        },
        Request::Release { stream_id } => if stream_id != STREAM_ID || !(s.state
            == StreamState::ParamsSet || s.state == StreamState::Prepared) {
            (s, status_bytes(STATUS_BAD_MSG), SinkAction::Nothing)
        } else {
            (StreamModel { state: StreamState::Initial, ..s }, status_bytes(STATUS_OK), SinkAction::Release)
        },
    }
}

/// Pausing and resuming: on a stream that START set playing, STOP
/// succeeds, tells the sink to stop and gives back the stream as it was
/// before START, so that START succeeds again and plays it as before.
pub proof fn lemma_stop_undoes_start(s: StreamModel)
    requires
        control_spec(s, Request::Start { stream_id: STREAM_ID }).1 == status_bytes(STATUS_OK),
    ensures
        ({
            let (s1, _r1, a1) = control_spec(s, Request::Start { stream_id: STREAM_ID });
            let (s2, r2, a2) = control_spec(s1, Request::Stop { stream_id: STREAM_ID });
            let (s3, r3, a3) = control_spec(s2, Request::Start { stream_id: STREAM_ID });
            &&& a1 == SinkAction::Start
            &&& s1.state == StreamState::Running
            &&& r2 == status_bytes(STATUS_OK)
            &&& a2 == SinkAction::Stop
            &&& s2 == s
            &&& r3 == status_bytes(STATUS_OK)
            &&& a3 == SinkAction::Start
            &&& s3 == s1
        }),
{
    assert(status_bytes(STATUS_OK)[0] == 0u8);
    assert(status_bytes(STATUS_BAD_MSG)[0] == 1u8);
    assert(s.state == StreamState::Prepared);
}

/// A request that is not answered OK changes neither the stream nor the
/// sink: only a successful request moves the stream on or tells the sink
/// anything.
pub proof fn lemma_refusal_changes_nothing(s: StreamModel, req: Request)
    ensures
        control_spec(s, req).0 != s ==> control_spec(s, req).1 == status_bytes(STATUS_OK),
        control_spec(s, req).2 != SinkAction::Nothing ==> control_spec(s, req).1 == status_bytes(STATUS_OK),
{
}

/// A stream that PREPARE readied can be started: START then succeeds,
/// tells the sink to start and leaves the stream running with the same
/// parameters.
pub proof fn lemma_prepare_then_start(s: StreamModel)
    requires
        control_spec(s, Request::Prepare { stream_id: STREAM_ID }).1 == status_bytes(STATUS_OK),
    ensures
        ({
            let s1 = control_spec(s, Request::Prepare { stream_id: STREAM_ID }).0;
            let (s2, r2, a2) = control_spec(s1, Request::Start { stream_id: STREAM_ID });
            &&& r2 == status_bytes(STATUS_OK)
            &&& a2 == SinkAction::Start
            &&& s2 == StreamModel { state: StreamState::Running, ..s }
        }),
{
    assert(status_bytes(STATUS_OK)[0] == 0u8);
    assert(status_bytes(STATUS_BAD_MSG)[0] == 1u8);
}

/// The virtio sound device.
pub struct Snd<S: PeriodSink> {
    pub period_sink: SinkLog<S>,
    pub stream: Stream,
    pub pending: VecDeque<PendingPeriod>,
    pub next_period: u64,
    pub consumed_through: Option<u64>,
    pub tx_completions_since_notify: usize,
}

/// Reads the control request at the front of `chain`.
pub fn read_request(chain: &ChainData, mem: &GuestMemory) -> (r: Request)
    ensures
        r == request_spec(chain, mem@),
{
    let h = match chain.read_at(0, 4, mem) {
        Some(h) => h,
        None => return Request::Bad,
    };
    let code = get_u32(h.as_slice(), 0);
    proof {
        assert(h@.subrange(0, 4) =~= h@);
    }
    if code == CODE_PCM_INFO || code == CODE_CHMAP_INFO {
        let q = match chain.read_at(0, 16, mem) {
            Some(q) => q,
            None => return Request::Bad,
        };
        let start = get_u32(q.as_slice(), 4);
        let count = get_u32(q.as_slice(), 8);
        if code == CODE_PCM_INFO {
            Request::PcmInfo { start, count }
        } else {
            Request::ChmapInfo { start, count }
        }
    } else if code == CODE_PCM_SET_PARAMS {
        let p = match chain.read_at(0, 24, mem) {
            Some(p) => p,
            None => return Request::Bad,
        };
        Request::SetParams {
            stream_id: get_u32(p.as_slice(), 4),
            buffer_bytes: get_u32(p.as_slice(), 8),
            period_bytes: get_u32(p.as_slice(), 12),
            features: get_u32(p.as_slice(), 16),
            channels: p[20],
            format: p[21],
            rate: p[22],
        }
    } else if code == CODE_PCM_PREPARE || code == CODE_PCM_START || code == CODE_PCM_STOP || code
        == CODE_PCM_RELEASE {
        let p = match chain.read_at(0, 8, mem) {
            Some(p) => p,
            None => return Request::Bad,
        };
        let stream_id = get_u32(p.as_slice(), 4);
        if code == CODE_PCM_PREPARE {
            Request::Prepare { stream_id }
        } else if code == CODE_PCM_START {
            Request::Start { stream_id }
        } else if code == CODE_PCM_STOP {
            Request::Stop { stream_id }
        } else {
            Request::Release { stream_id }
        }
    } else if code == CODE_JACK_INFO || code == CODE_JACK_REMAP {
        Request::Jack
    } else {
        Request::Bad
    }
}

fn append_bytes(dst: &mut Vec<u8>, src: &[u8])
    ensures
        final(dst)@ == old(dst)@ + src@,
{
    let mut i: usize = 0;
    while i < src.len()
        invariant
            i <= src@.len(),
            dst@ == old(dst)@ + src@.subrange(0, i as int),
        decreases src@.len() - i,
    {
        dst.push(src[i]);
        i = i + 1;
        proof {
            assert(dst@ =~= old(dst)@ + src@.subrange(0, i as int));
        }
    }
    proof {
        assert(src@.subrange(0, i as int) =~= src@);
    }
}

fn pcm_info() -> (r: Vec<u8>)
    ensures
        r@ == pcm_info_record(),
{
    let mut r = u32_le(0);
    let a = u32_le(0);
    append_bytes(&mut r, a.as_slice());
    let f = u64_le(32);
    append_bytes(&mut r, f.as_slice());
    let rt = u64_le(128);
    append_bytes(&mut r, rt.as_slice());
    let tail = vec![DIRECTION_OUTPUT, 2u8, 2u8, 0u8, 0u8, 0u8, 0u8, 0u8];
    append_bytes(&mut r, tail.as_slice());
    proof {
        lemma_le_u64_bytes(32);
        lemma_le_u64_bytes(128);
        assert(f@ == le_bytes(32, 8));
        assert(rt@ == le_bytes(128, 8));
        assert(r@ =~= pcm_info_record());
    }
    r
}

/// The eight bytes that encode `v` are the ones `le_bytes` names.
proof fn lemma_le_u64_bytes(v: u64)
    ensures
        forall|s: Seq<u8>| s.len() == 8 && le_value(s) == v ==> s == le_bytes(v as nat, 8),
{
    assert forall|s: Seq<u8>| s.len() == 8 && le_value(s) == v implies s == le_bytes(
        v as nat,
        8,
    ) by {
        crate::bytes::lemma_le_unique(s, v as nat);
    }
}

fn chmap_info() -> (r: Vec<u8>)
    ensures
        r@ == chmap_record(),
{
    let mut r = u32_le(0);
    let head = vec![DIRECTION_OUTPUT, 2u8, CHMAP_FL, CHMAP_FR];
    append_bytes(&mut r, head.as_slice());
    let zeros = vec![0u8; CHMAP_MAX_SIZE - 2];
    append_bytes(&mut r, zeros.as_slice());
    proof {
        assert(r@ =~= chmap_record());
    }
    r
}

fn status(code: u32) -> (r: Vec<u8>)
    ensures
        r@ == status_bytes(code),
{
    u32_le(code)
}

/// The response to a query for `count` records of `rec`.
fn records(rec: &Vec<u8>, count: u32) -> (r: Vec<u8>)
    requires
        count <= 1,
    ensures
        r@ == status_bytes(STATUS_OK) + repeat(rec@, count as nat),
{
    let mut r = status(STATUS_OK);
    if count == 1 {
        append_bytes(&mut r, rec.as_slice());
        proof {
            reveal_with_fuel(repeat, 2);
            assert(repeat(rec@, 1) =~= rec@);
        }
    } else {
        proof {
            assert(status_bytes(STATUS_OK) + repeat(rec@, 0) =~= status_bytes(STATUS_OK));
        }
    }
    r
}

impl<S: PeriodSink> Snd<S> {
    pub fn new(period_sink: S) -> (r: Snd<S>)
        ensures
            r.stream@ == initial_stream(),
            r.pending@.len() == 0,
            r.next_period == 0,
            r.consumed_through is None,
            r.tx_completions_since_notify == 0,
            r.period_sink.commands() == Seq::<SinkAction>::empty(),
            r.period_sink.offered() == Seq::<(u64, Seq<u8>)>::empty(),
    {
        Snd {
            period_sink: SinkLog::new(period_sink),
            stream: Stream::new(),
            pending: VecDeque::new(),
            next_period: 0,
            consumed_through: None,
            tx_completions_since_notify: 0,
        }
    }

    /// Decides a control request: updates the stream, tells the sink, and
    /// gives the response bytes.
    pub fn apply_request(&mut self, req: Request) -> (r: Vec<u8>)
        ensures
            (final(self).stream@, r@) == (control_spec(old(self).stream@, req).0, control_spec(
                old(self).stream@,
                req,
            ).1),
            final(self).pending == old(self).pending,
            final(self).next_period == old(self).next_period,
            final(self).consumed_through == old(self).consumed_through,
            final(self).tx_completions_since_notify == old(self).tx_completions_since_notify,
            final(self).period_sink.commands() == after_command(
                old(self).period_sink.commands(),
                control_spec(old(self).stream@, req).2,
            ),
            final(self).period_sink.offered() == old(self).period_sink.offered(),
    {
        match req {
            Request::Bad => status(STATUS_BAD_MSG),
            Request::Jack => status(STATUS_NOT_SUPP),
            Request::PcmInfo { start, count } => {
                if start as u64 + count as u64 > NUM_STREAMS as u64 {
                    return status(STATUS_BAD_MSG);
                }
                let rec = pcm_info();
                records(&rec, count)
            },
            Request::ChmapInfo { start, count } => {
                if start as u64 + count as u64 > NUM_CHMAPS as u64 {
                    return status(STATUS_BAD_MSG);
                }
                let rec = chmap_info();
                records(&rec, count)
            },
            Request::SetParams {
                stream_id,
                buffer_bytes,
                period_bytes,
                features,
                channels,
                format,
                rate,
            } => {
                if stream_id != STREAM_ID || self.stream.state == StreamState::Running {
                    return status(STATUS_BAD_MSG);
                }
                if format != PCM_FORMAT_S16 || rate != PCM_RATE_48000 || channels != 2 || features
                    != 0 {
                    return status(STATUS_NOT_SUPP);
                }
                if period_bytes == 0 || buffer_bytes % period_bytes != 0 || period_bytes % 4 != 0 {
                    return status(STATUS_BAD_MSG);
                }
                self.stream.buffer_bytes = buffer_bytes;
                self.stream.period_scratch = vec![0u8; period_bytes as usize];
                self.stream.channels = channels;
                self.stream.format = format;
                self.stream.rate = rate;
                self.stream.state = StreamState::ParamsSet;
                status(STATUS_OK)
            },
            Request::Prepare { stream_id } => {
                if stream_id != STREAM_ID || self.stream.state == StreamState::Initial
                    || self.stream.state == StreamState::Running {
                    return status(STATUS_BAD_MSG);
                }
                self.stream.state = StreamState::Prepared;
                status(STATUS_OK)
            },
            Request::Start { stream_id } => {
                if stream_id != STREAM_ID || self.stream.state != StreamState::Prepared {
                    return status(STATUS_BAD_MSG);
                }
                self.stream.state = StreamState::Running;
                self.period_sink.start();
                status(STATUS_OK)
            },
            Request::Stop { stream_id } => {
                if stream_id != STREAM_ID || self.stream.state != StreamState::Running {
                    return status(STATUS_BAD_MSG);
                }
                self.period_sink.stop();
                self.stream.state = StreamState::Prepared;
                status(STATUS_OK)
            },
            Request::Release { stream_id } => {
                if stream_id != STREAM_ID || !(self.stream.state == StreamState::ParamsSet
                    || self.stream.state == StreamState::Prepared) {
                    return status(STATUS_BAD_MSG);
                }
                self.period_sink.reset();
                self.stream.state = StreamState::Initial;
                status(STATUS_OK)
            },
        }
    }

    /// Writes a four-byte status header as the response.
    pub fn respond_status(&self, chain: &ChainData, code: u32, mem: &mut GuestMemory) -> (r: u32)
        ensures
            (final(mem)@, r as nat) == fill_segs(chain.writable@, status_bytes(code), old(mem)@),
    {
        let hdr = status(code);
        proof {
            lemma_le_bytes_len(code as nat, 4);
        }
        chain.write_response(hdr.as_slice(), mem)
    }

    /// Writes a PCM status (status, then zero latency) as the response.
    pub fn respond_pcm_status(&self, chain: &ChainData, code: u32, mem: &mut GuestMemory) -> (r: u32)
        ensures
            (final(mem)@, r as nat) == fill_segs(chain.writable@, pcm_status_bytes(code), old(mem)@),
    {
        let mut b = status(code);
        let z = u32_le(0);
        append_bytes(&mut b, z.as_slice());
        proof {
            lemma_le_bytes_len(code as nat, 4);
            lemma_le_bytes_len(0, 4);
        }
        chain.write_response(b.as_slice(), mem)
    }

    /// The number of periods in the buffer, at least one.
    pub open spec fn max_without_refill(&self) -> int {
        let pb = self.stream@.period_bytes as int;
        let periods: int = if pb == 0 {
            1
        } else {
            self.stream.buffer_bytes as int / pb
        };
        if periods <= 1 {
            1
        } else {
            periods - 1
        }
    }

    fn max_without_refill_exec(&self) -> (r: usize)
        ensures
            r == self.max_without_refill(),
    {
        let pb = self.stream.period_scratch.len();
        let periods: usize = if pb == 0 {
            1
        } else {
            (self.stream.buffer_bytes as u64 / pb as u64) as usize
        };
        if periods <= 1 {
            1
        } else {
            periods - 1
        }
    }

    /// Returns the held periods that the host has played, oldest first, while
    /// fewer than a buffer's worth less one have been returned since the
    /// guest last refilled the queue.
    pub fn publish_consumed(&mut self, ctx: &mut DeviceContext, mem: &mut GuestMemory)
        ensures
            final(ctx).queues@.len() == old(ctx).queues@.len(),
            publish_done(*old(self), *final(self), old(ctx)@, old(mem)@, final(ctx)@, final(mem)@),
    {
        let consumed = match self.consumed_through {
            Some(c) => c,
            None => {
                proof {
                    assert(self.pending@.skip(0) =~= self.pending@);
                    assert(self.pending@.take(0) =~= Seq::<PendingPeriod>::empty());
                }
                return;
            },
        };
        let max = self.max_without_refill_exec();
        let ghost p0 = self.pending@;
        let ghost tx0 = self.tx_completions_since_notify;
        let ghost budget = max - tx0;
        let ghost c0 = ctx@;
        let ghost m0 = mem@;
        let ghost k: int = 0;
        proof {
            assert(p0.skip(0) =~= p0);
            assert(p0.take(0) =~= Seq::<PendingPeriod>::empty());
        }
        while self.tx_completions_since_notify < max && self.pending.len() > 0
            && self.pending[0].seq <= consumed
            invariant
                0 <= k <= p0.len(),
                self.pending@ == p0.skip(k),
                self.tx_completions_since_notify == tx0 + k,
                max as int == budget + tx0,
                ready_count(p0, consumed, budget) == k + ready_count(p0.skip(k), consumed, budget - k),
                (ctx@, mem@) == complete_all(c0, m0, p0.take(k)),
                ctx.queues@.len() == old(ctx).queues@.len(),
                self.stream@ == old(self).stream@,
                self.next_period == old(self).next_period,
                self.consumed_through == old(self).consumed_through,
            decreases p0.len() - k,
        {
            let period = self.pending.pop_front().unwrap();
            proof {
                lemma_complete_all_push(c0, m0, p0.take(k), period);
                assert(p0.take(k + 1) =~= p0.take(k).push(period));
                assert(p0.skip(k).drop_first() =~= p0.skip(k + 1));
            }
            ctx.complete(period.token, period.written, mem);
            self.tx_completions_since_notify = self.tx_completions_since_notify + 1;
            proof {
                k = k + 1;
                assert(self.pending@ =~= p0.skip(k));
            }
        }
        proof {
            assert(ready_count(p0.skip(k), consumed, budget - k) == 0);
        }
    }
}

impl<S: PeriodSink> Snd<S> {
    /// Handles one control request and answers it in the chain.
    pub fn control(&mut self, chain: &ChainData, ctx: &mut DeviceContext, mem: &mut GuestMemory) -> (r:
        ChainAction)
        ensures
            final(ctx).queues@.len() == old(ctx).queues@.len(),
            control_done(*old(self), *final(self), *chain, old(ctx)@, old(mem)@, final(ctx)@, final(mem)@, r),
    {
        let req = read_request(chain, mem);
        let released = match req {
            Request::Release { stream_id } => stream_id == STREAM_ID && (self.stream.state
                == StreamState::ParamsSet || self.stream.state == StreamState::Prepared),
            _ => false,
        };
        let ghost d = control_spec(self.stream@, req);
        let resp = self.apply_request(req);
        proof {
            lemma_response_len(old(self).stream@, req);
        }
        if released {
            self.consumed_through = None;
            self.tx_completions_since_notify = 0;
            let n = self.pending.len();
            let ghost p0 = self.pending@;
            let ghost c0 = ctx@;
            let ghost m0 = mem@;
            let mut i: usize = 0;
            proof {
                assert(p0.skip(0) =~= p0);
                assert(p0.take(0) =~= Seq::<PendingPeriod>::empty());
            }
            while i < n
                invariant
                    i <= n,
                    n == p0.len(),
                    self.pending@ == p0.skip(i as int),
                    (ctx@, mem@) == complete_all(c0, m0, p0.take(i as int)),
                    ctx.queues@.len() == old(ctx).queues@.len(),
                    self.stream@ == d.0,
                    self.next_period == old(self).next_period,
                    self.consumed_through is None,
                    self.tx_completions_since_notify == 0,
                    self.period_sink.commands() == after_command(old(self).period_sink.commands(), d.2),
                    self.period_sink.offered() == old(self).period_sink.offered(),
                decreases n - i,
            {
                let p = self.pending.pop_front().unwrap();
                proof {
                    lemma_complete_all_push(c0, m0, p0.take(i as int), p);
                    assert(p0.take(i + 1) =~= p0.take(i as int).push(p));
                    assert(p0.skip(i as int).drop_first() =~= p0.skip(i + 1));
                }
                ctx.complete(p.token, p.written, mem);
                i = i + 1;
            }
            proof {
                assert(p0.take(n as int) =~= p0);
            }
            let ghost done = (ctx@, mem@);
            let mut fuel: u32 = MAX_BAD_CHAINS;
            while fuel > 0
                invariant
                    ctx.queues@.len() == old(ctx).queues@.len(),
                    self.pending@.len() == 0,
                    self.stream@ == d.0,
                    self.next_period == old(self).next_period,
                    self.consumed_through is None,
                    self.tx_completions_since_notify == 0,
                    self.period_sink.commands() == after_command(old(self).period_sink.commands(), d.2),
                    self.period_sink.offered() == old(self).period_sink.offered(),
                    refuse_all(ctx@, mem@, QUEUE_TX as int, fuel as nat, pcm_status_bytes(STATUS_IO_ERR))
                        == refuse_all(
                        done.0,
                        done.1,
                        QUEUE_TX as int,
                        MAX_BAD_CHAINS as nat,
                        pcm_status_bytes(STATUS_IO_ERR),
                    ),
                decreases fuel,
            {
                match ctx.pop_chain(QUEUE_TX, mem) {
                    Some(c) => {
                        let w = self.respond_pcm_status(&c.data, STATUS_IO_ERR, mem);
                        ctx.complete(c.token, w, mem);
                        fuel = fuel - 1;
                    },
                    None => {
                        fuel = 0;
                    },
                }
            }
        }
        let w = chain.write_response(resp.as_slice(), mem);
        ChainAction::Complete(w)
    }

    /// Takes one period from the TX queue and queues it for playback. The
    /// chain is held until the host has played it; it is returned at once
    /// where it cannot be read or played.
    pub fn submit_period(&mut self, chain: &ChainData, token: ChainToken, mem: &mut GuestMemory) -> (r:
        ChainAction)
        ensures
            submit_done(*old(self), *final(self), *chain, token, old(mem)@, final(mem)@, r),
    {
        let x = match chain.read_at(0, 4, mem) {
            Some(x) => x,
            None => return ChainAction::Complete(0),
        };
        let stream_id = get_u32(x.as_slice(), 0);
        proof {
            assert(x@.subrange(0, 4) =~= x@);
        }
        if stream_id != STREAM_ID || !(self.stream.state == StreamState::Prepared || self.stream.state
            == StreamState::Running) {
            let w = self.respond_pcm_status(chain, STATUS_IO_ERR, mem);
            return ChainAction::Complete(w);
        }
        let period_len = self.stream.period_scratch.len();
        let payload = match chain.read_at(4, period_len, mem) {
            Some(p) => p,
            None => return ChainAction::Complete(0),
        };
        if !self.period_sink.push(self.next_period, payload.as_slice()) {
            let w = self.respond_pcm_status(chain, STATUS_IO_ERR, mem);
            return ChainAction::Complete(w);
        }
        self.stream.period_scratch = payload;
        let written = self.respond_pcm_status(chain, STATUS_OK, mem);
        self.pending.push_back(PendingPeriod { seq: self.next_period, token, written });
        self.next_period = self.next_period.wrapping_add(1);
        ChainAction::Deferred
    }
}

proof fn lemma_response_len(s: StreamModel, req: Request)
    ensures
        control_spec(s, req).1.len() <= 64,
{
    lemma_le_bytes_len(STATUS_OK as nat, 4);
    lemma_le_bytes_len(STATUS_BAD_MSG as nat, 4);
    lemma_le_bytes_len(STATUS_NOT_SUPP as nat, 4);
    lemma_le_bytes_len(0, 4);
    lemma_le_bytes_len(0, 8);
    lemma_le_bytes_len(32, 8);
    lemma_le_bytes_len(128, 8);
    reveal_with_fuel(repeat, 2);
    match req {
        Request::PcmInfo { start, count } => {
            if start + count <= NUM_STREAMS && count == 1 {
                assert(repeat(pcm_info_record(), 1) =~= pcm_info_record());
            }
        },
        Request::ChmapInfo { start, count } => {
            if start + count <= NUM_CHMAPS && count == 1 {
                assert(repeat(chmap_record(), 1) =~= chmap_record());
            }
        },
        _ => {},
    }
}

/// A PCM status response: `code`, then zero latency.
pub open spec fn pcm_status_bytes(code: u32) -> Seq<u8> {
    le_bytes(code as nat, 4) + le_bytes(0, 4)
}

/// How many periods from the front of `pending` can be returned: those
/// played through `consumed`, at most `budget` of them.
pub open spec fn ready_count(pending: Seq<PendingPeriod>, consumed: u64, budget: int) -> int
    decreases pending.len(),
{
    if budget <= 0 || pending.len() == 0 || pending[0].seq > consumed {
        0
    } else {
        1 + ready_count(pending.drop_first(), consumed, budget - 1)
    }
}

/// Taking the chains of queue `idx`, at most `fuel` good ones, and answering
/// each at once with `reply`: the transport state and memory afterwards.
pub open spec fn refuse_all(ctx: CtxState, mem: MemState, idx: int, fuel: nat, reply: Seq<u8>) -> (CtxState, MemState)
    decreases fuel,
{
    if fuel == 0 {
        (ctx, mem)
    } else {
        let s = next_chain(ctx.0, mem, idx, MAX_BAD_CHAINS as nat);
        let c1: CtxState = (s.0, raise(ctx.1, s.2));
        match s.3 {
            None => (c1, s.1),
            Some((chain, head)) => {
                let f = fill_segs(chain.1, reply, s.1);
                let c2 = complete_spec(c1, f.0, ChainToken { queue_idx: idx as usize, head_idx: head }, f.1 as u32);
                refuse_all(c2.0, c2.1, idx, (fuel - 1) as nat, reply)
            },
        }
    }
}

/// What one control request does: the device goes from `s0` to `s1`, the
/// transport state from `c0` to `c1`, memory from `m0` to `m1`, and the chain
/// is answered at once. Releasing the stream first returns the held periods,
/// oldest first, then refuses what waits on the TX queue.
pub open spec fn control_done<P: PeriodSink>(
    s0: Snd<P>,
    s1: Snd<P>,
    chain: ChainData,
    c0: CtxState,
    m0: MemState,
    c1: CtxState,
    m1: MemState,
    r: ChainAction,
) -> bool {
    let req = request_spec(&chain, m0);
    let d = control_spec(s0.stream@, req);
    &&& s1.stream@ == d.0
    &&& s1.next_period == s0.next_period
    &&& r is Complete
    &&& s1.period_sink.commands() == after_command(s0.period_sink.commands(), d.2)
    &&& s1.period_sink.offered() == s0.period_sink.offered()
    &&& !(d.2 is Release) ==> {
        &&& c1 == c0
        &&& s1.pending == s0.pending
        &&& s1.consumed_through == s0.consumed_through
        &&& s1.tx_completions_since_notify == s0.tx_completions_since_notify
        &&& r matches ChainAction::Complete(w) && (m1, w as nat) == fill_segs(chain.writable@, d.1, m0)
    }
    &&& d.2 is Release ==> {
        let done = complete_all(c0, m0, s0.pending@);
        let refused = refuse_all(
            done.0,
            done.1,
            QUEUE_TX as int,
            MAX_BAD_CHAINS as nat,
            pcm_status_bytes(STATUS_IO_ERR),
        );
        &&& c1 == refused.0
        &&& r matches ChainAction::Complete(w) && (m1, w as nat) == fill_segs(chain.writable@, d.1, refused.1)
        &&& s1.pending@.len() == 0
        &&& s1.consumed_through is None
        &&& s1.tx_completions_since_notify == 0
    }
}

/// The period that a TX chain offers to the sink: its bytes after the
/// stream id, where the chain names the stream, the stream is prepared or
/// running, and a period's worth can be read.
pub open spec fn offered_period<P: PeriodSink>(s0: Snd<P>, chain: ChainData, m0: MemState) -> Option<Seq<u8>> {
    match chain.read_at_spec(0, 4, m0) {
        None => None,
        Some(x) => if u32_at(x, 0) != STREAM_ID || !(s0.stream.state == StreamState::Prepared
            || s0.stream.state == StreamState::Running) {
            None
        } else {
            chain.read_at_spec(4, s0.stream@.period_bytes as int, m0)
        },
    }
}

/// What submitting one period does: the device goes from `s0` to `s1` and
/// memory from `m0` to `m1`. A period that is played is held with its
/// `token` until the host has played it; the others are answered at once.
pub open spec fn submit_done<P: PeriodSink>(s0: Snd<P>, s1: Snd<P>, chain: ChainData, token: ChainToken, m0: MemState, m1: MemState, r: ChainAction) -> bool {
    &&& s1.stream@ == s0.stream@
    &&& s1.consumed_through == s0.consumed_through
    &&& s1.tx_completions_since_notify == s0.tx_completions_since_notify
    &&& s1.period_sink.commands() == s0.period_sink.commands()
    &&& s1.period_sink.offered() == match offered_period(s0, chain, m0) {
        Some(p) => s0.period_sink.offered().push((s0.next_period, p)),
        None => s0.period_sink.offered(),
    }
    &&& match chain.read_at_spec(0, 4, m0) {
        None => r matches ChainAction::Complete(w) && w == 0 && m1 == m0
            && s1.pending == s0.pending && s1.next_period == s0.next_period,
        Some(x) => if u32_at(x, 0) != STREAM_ID || !(s0.stream.state
            == StreamState::Prepared || s0.stream.state == StreamState::Running) {
            r matches ChainAction::Complete(w) && (m1, w as nat) == fill_segs(
                chain.writable@,
                pcm_status_bytes(STATUS_IO_ERR),
                m0,
            ) && s1.pending == s0.pending && s1.next_period == s0.next_period
        } else if chain.read_at_spec(4, s0.stream@.period_bytes as int, m0) is None {
            r matches ChainAction::Complete(w) && w == 0 && m1 == m0
                && s1.pending == s0.pending && s1.next_period == s0.next_period
        } else {
            match r {
                ChainAction::Complete(w) => (m1, w as nat) == fill_segs(
                    chain.writable@,
                    pcm_status_bytes(STATUS_IO_ERR),
                    m0,
                ) && s1.pending == s0.pending && s1.next_period
                    == s0.next_period,
                ChainAction::Deferred => {
                    let f = fill_segs(chain.writable@, pcm_status_bytes(STATUS_OK), m0);
                    &&& m1 == f.0
                    &&& s1.pending@ == s0.pending@.push(
                        PendingPeriod { seq: s0.next_period, token, written: f.1 as u32 },
                    )
                    &&& s1.next_period == s0.next_period.wrapping_add(1)
                },
            }
        }
    }
}

/// What returning the played periods does: the device goes from `s0` to
/// `s1`, the transport state from `c0` to `c1`, memory from `m0` to `m1`.
pub open spec fn publish_done<P: PeriodSink>(s0: Snd<P>, s1: Snd<P>, c0: CtxState, m0: MemState, c1: CtxState, m1: MemState) -> bool {
    &&& s1.stream@ == s0.stream@
    &&& s1.next_period == s0.next_period
    &&& s1.consumed_through == s0.consumed_through
    &&& ({
        let k = if s0.consumed_through is None {
            0
        } else {
            ready_count(
                s0.pending@,
                s0.consumed_through->0,
                s0.max_without_refill() - s0.tx_completions_since_notify,
            )
        };
        &&& s1.pending@ == s0.pending@.skip(k)
        &&& s1.tx_completions_since_notify == s0.tx_completions_since_notify + k
        &&& (c1, m1) == complete_all(c0, m0, s0.pending@.take(k))
    })
}

/// The device before a period of the TX queue is submitted: the count of
/// periods returned since the last notification starts again at the first
/// chain of the notification.
pub open spec fn tx_reset<P: PeriodSink>(st: (Snd<P>, bool)) -> Snd<P> {
    if st.1 {
        st.0
    } else {
        Snd { tx_completions_since_notify: 0, ..st.0 }
    }
}

/// The device after a period was submitted with `a`: one answered at once
/// counts as returned.
pub open spec fn tx_counted<P: PeriodSink>(s: Snd<P>, a: ChainAction) -> Snd<P> {
    if a is Complete {
        Snd { tx_completions_since_notify: s.tx_completions_since_notify.saturating_add(1), ..s }
    } else {
        s
    }
}

/// The handling of one chain of the control queue, as [`control_done`] says.
pub open spec fn control_step<P: PeriodSink>() -> spec_fn(
    Snd<P>,
    ChainAcc,
    ChainToken,
    CtxState,
    MemState,
    Snd<P>,
    CtxState,
    MemState,
    ChainAction,
) -> bool {
    |s0: Snd<P>, c: ChainAcc, tok: ChainToken, c0: CtxState, m0: MemState, s1: Snd<P>, c1: CtxState, m1: MemState, a: ChainAction|
        exists|chain: ChainData|
            #[trigger] control_done(s0, s1, chain, c0, m0, c1, m1, a) && chain.wf() && c == (
                chain.readable@,
                chain.writable@,
                chain.readable_len as int,
            )
}

/// The handling of one chain of the TX queue, as [`submit_done`] says, on a
/// device paired with whether a chain was taken yet in this notification.
pub open spec fn tx_step<P: PeriodSink>() -> spec_fn(
    (Snd<P>, bool),
    ChainAcc,
    ChainToken,
    CtxState,
    MemState,
    (Snd<P>, bool),
    CtxState,
    MemState,
    ChainAction,
) -> bool {
    |st0: (Snd<P>, bool), c: ChainAcc, tok: ChainToken, c0: CtxState, m0: MemState, st1: (Snd<P>, bool), c1: CtxState, m1: MemState, a: ChainAction|
        exists|chain: ChainData, s_sub: Snd<P>|
            #[trigger] submit_done(tx_reset(st0), s_sub, chain, tok, m0, m1, a) && chain.wf() && c == (
                chain.readable@,
                chain.writable@,
                chain.readable_len as int,
            ) && c1 == c0 && st1 == (tx_counted(s_sub, a), true)
}

/// Completing the chains of `periods` in order.
pub open spec fn complete_all(ctx: CtxState, mem: MemState, periods: Seq<PendingPeriod>) -> (
    CtxState,
    MemState,
)
    decreases periods.len(),
{
    if periods.len() == 0 {
        (ctx, mem)
    } else {
        let r = complete_all(ctx, mem, periods.drop_last());
        complete_spec(r.0, r.1, periods.last().token, periods.last().written)
    }
}

proof fn lemma_complete_all_push(ctx: CtxState, mem: MemState, ps: Seq<PendingPeriod>, p: PendingPeriod)
    ensures
        complete_all(ctx, mem, ps.push(p)) == ({
            let r = complete_all(ctx, mem, ps);
            complete_spec(r.0, r.1, p.token, p.written)
        }),
{
    assert(ps.push(p).drop_last() =~= ps);
}

/// The configuration space: jacks, streams and channel maps, as `u32` each.
pub open spec fn snd_config() -> Seq<u8> {
    le_bytes(NUM_JACKS as nat, 4) + le_bytes(NUM_STREAMS as nat, 4) + le_bytes(NUM_CHMAPS as nat, 4)
}

impl<S: PeriodSink> Device for Snd<S> {
    open spec fn notify_effect(&self, queue_idx: usize, c: CtxState, m: MemState, after: Self, c2: CtxState, m2: MemState) -> bool {
        &&& queue_idx == QUEUE_CONTROL ==> served(
            c,
            m,
            *self,
            queue_idx as int,
            MAX_BAD_CHAINS as nat,
            control_step(),
            c2,
            m2,
            after,
        )
        &&& queue_idx == QUEUE_TX ==> exists|c1: CtxState, m1: MemState, st: (Snd<S>, bool)|
            #[trigger] served(
                c,
                m,
                (*self, false),
                queue_idx as int,
                MAX_BAD_CHAINS as nat,
                tx_step(),
                c1,
                m1,
                st,
            ) && if st.1 {
                publish_done(st.0, after, c1, m1, c2, m2)
            } else {
                after == st.0 && c2 == c1 && m2 == m1
            }
        &&& queue_idx != QUEUE_CONTROL && queue_idx != QUEUE_TX ==> after == *self && c2
            == c && m2 == m
    }

    open spec fn reset_effect(&self, after: Self) -> bool {
        &&& after.stream@ == initial_stream()
        &&& after.pending@.len() == 0
        &&& after.consumed_through is None
        &&& after.tx_completions_since_notify == 0
        &&& after.next_period == self.next_period
        &&& after.period_sink.commands() == self.period_sink.commands().push(SinkAction::Release)
        &&& after.period_sink.offered() == self.period_sink.offered()
    }

    open spec fn device_id(&self) -> u32 {
        DEVICE_ID
    }

    open spec fn feature_bits(&self) -> u64 {
        FEATURE_VERSION_1
    }

    open spec fn queue_count(&self) -> u16 {
        4
    }

    open spec fn config_space(&self) -> Seq<u8> {
        snd_config()
    }

    open spec fn shm_region(&self, id: u32) -> Option<(u64, u64)> {
        None
    }

    fn id(&self) -> (r: u32) {
        DEVICE_ID
    }

    fn features(&self) -> (r: u64) {
        FEATURE_VERSION_1
    }

    fn num_queues(&self) -> (r: u16) {
        4
    }

    fn read_config(&self) -> (r: Vec<u8>) {
        let mut c = u32_le(NUM_JACKS);
        let b = u32_le(NUM_STREAMS);
        append_bytes(&mut c, b.as_slice());
        let d = u32_le(NUM_CHMAPS);
        append_bytes(&mut c, d.as_slice());
        c
    }

    fn write_config(&mut self, offset: u64, data: &[u8]) {
    }

    fn queue_notified(&mut self, queue_idx: usize, ctx: &mut DeviceContext, mem: &mut GuestMemory)
        ensures
            queue_idx == QUEUE_CONTROL ==> served(
                old(ctx)@,
                old(mem)@,
                *old(self),
                queue_idx as int,
                MAX_BAD_CHAINS as nat,
                control_step(),
                final(ctx)@,
                final(mem)@,
                *final(self),
            ),
            queue_idx == QUEUE_TX ==> exists|c: CtxState, m: MemState, st: (Snd<S>, bool)|
                #[trigger] served(
                    old(ctx)@,
                    old(mem)@,
                    (*old(self), false),
                    queue_idx as int,
                    MAX_BAD_CHAINS as nat,
                    tx_step(),
                    c,
                    m,
                    st,
                ) && if st.1 {
                    publish_done(st.0, *final(self), c, m, final(ctx)@, final(mem)@)
                } else {
                    *final(self) == st.0 && final(ctx)@ == c && final(mem)@ == m
                },
            queue_idx != QUEUE_CONTROL && queue_idx != QUEUE_TX ==> *final(self) == *old(self) && final(ctx)@
                == old(ctx)@ && final(mem)@ == old(mem)@,
    {
        if queue_idx == QUEUE_CONTROL {
            let ghost step = control_step::<S>();
            let mut fuel: u32 = MAX_BAD_CHAINS;
            while fuel > 0
                invariant
                    ctx.queues@.len() == old(ctx).queues@.len(),
                    step == control_step::<S>(),
                    forall|c2: CtxState, m2: MemState, d2: Snd<S>|
                        #[trigger] served(ctx@, mem@, *self, queue_idx as int, fuel as nat, step, c2, m2, d2)
                            ==> served(
                            old(ctx)@,
                            old(mem)@,
                            *old(self),
                            queue_idx as int,
                            MAX_BAD_CHAINS as nat,
                            step,
                            c2,
                            m2,
                            d2,
                        ),
                decreases fuel,
            {
                let ghost c0 = ctx@;
                let ghost m0 = mem@;
                let ghost s0 = *self;
                let ghost f0 = fuel;
                match ctx.pop_chain(queue_idx, mem) {
                    Some(chain) => {
                        let ghost c_popped = ctx@;
                        let action = self.control(&chain.data, ctx, mem);
                        let ghost c_done = ctx@;
                        let ghost m_done = mem@;
                        if let ChainAction::Complete(written) = action {
                            ctx.complete(chain.token, written, mem);
                        }
                        fuel = fuel - 1;
                        proof {
                            let s = next_chain(c0.0, m0, queue_idx as int, MAX_BAD_CHAINS as nat);
                            let got = s.3->0;
                            let tok = ChainToken { queue_idx: (queue_idx as int) as usize, head_idx: got.1 };
                            assert(tok == chain.token);
                            assert(c_popped == (s.0, raise(c0.1, s.2)));
                            assert(step(s0, got.0, tok, c_popped, s.1, *self, c_done, m_done, action));
                            assert(after_action(c_done, m_done, tok, action) == (ctx@, mem@));
                            assert forall|c2: CtxState, m2: MemState, d2: Snd<S>|
                                #[trigger] served(ctx@, mem@, *self, queue_idx as int, fuel as nat, step, c2, m2, d2)
                                implies served(c0, m0, s0, queue_idx as int, f0 as nat, step, c2, m2, d2) by {
                                assert(served(
                                    after_action(c_done, m_done, tok, action).0,
                                    after_action(c_done, m_done, tok, action).1,
                                    *self,
                                    queue_idx as int,
                                    (f0 - 1) as nat,
                                    step,
                                    c2,
                                    m2,
                                    d2,
                                ));
                            }
                        }
                    },
                    None => {
                        fuel = 0;
                        proof {
                            assert forall|c2: CtxState, m2: MemState, d2: Snd<S>|
                                #[trigger] served(ctx@, mem@, *self, queue_idx as int, fuel as nat, step, c2, m2, d2)
                                implies served(c0, m0, s0, queue_idx as int, f0 as nat, step, c2, m2, d2) by {}
                        }
                    },
                }
            }
            assert(served(ctx@, mem@, *self, queue_idx as int, 0, step, ctx@, mem@, *self));
        } else if queue_idx == QUEUE_TX {
            let ghost step = tx_step::<S>();
            let mut added = false;
            let mut fuel: u32 = MAX_BAD_CHAINS;
            while fuel > 0
                invariant
                    ctx.queues@.len() == old(ctx).queues@.len(),
                    step == tx_step::<S>(),
                    forall|c2: CtxState, m2: MemState, d2: (Snd<S>, bool)|
                        #[trigger] served(ctx@, mem@, (*self, added), queue_idx as int, fuel as nat, step, c2, m2, d2)
                            ==> served(
                            old(ctx)@,
                            old(mem)@,
                            (*old(self), false),
                            queue_idx as int,
                            MAX_BAD_CHAINS as nat,
                            step,
                            c2,
                            m2,
                            d2,
                        ),
                decreases fuel,
            {
                let ghost c0 = ctx@;
                let ghost m0 = mem@;
                let ghost st0 = (*self, added);
                let ghost f0 = fuel;
                match ctx.pop_chain(queue_idx, mem) {
                    Some(chain) => {
                        let ghost c_popped = ctx@;
                        if !added {
                            self.tx_completions_since_notify = 0;
                            added = true;
                        }
                        proof {
                            assert(*self == tx_reset(st0));
                        }
                        let action = self.submit_period(&chain.data, chain.token, mem);
                        let ghost s_sub = *self;
                        let ghost m_done = mem@;
                        if let ChainAction::Complete(written) = action {
                            ctx.complete(chain.token, written, mem);
                            self.tx_completions_since_notify =
                            self.tx_completions_since_notify.saturating_add(1);
                        }
                        fuel = fuel - 1;
                        proof {
                            let s = next_chain(c0.0, m0, queue_idx as int, MAX_BAD_CHAINS as nat);
                            let got = s.3->0;
                            let tok = ChainToken { queue_idx: (queue_idx as int) as usize, head_idx: got.1 };
                            let st1 = (*self, added);
                            assert(tok == chain.token);
                            assert(c_popped == (s.0, raise(c0.1, s.2)));
                            assert(st1 == (tx_counted(s_sub, action), true));
                            assert(step(st0, got.0, tok, c_popped, s.1, st1, c_popped, m_done, action));
                            assert(after_action(c_popped, m_done, tok, action) == (ctx@, mem@));
                            assert forall|c2: CtxState, m2: MemState, d2: (Snd<S>, bool)|
                                #[trigger] served(ctx@, mem@, st1, queue_idx as int, fuel as nat, step, c2, m2, d2)
                                implies served(c0, m0, st0, queue_idx as int, f0 as nat, step, c2, m2, d2) by {
                                assert(served(
                                    after_action(c_popped, m_done, tok, action).0,
                                    after_action(c_popped, m_done, tok, action).1,
                                    st1,
                                    queue_idx as int,
                                    (f0 - 1) as nat,
                                    step,
                                    c2,
                                    m2,
                                    d2,
                                ));
                            }
                        }
                    },
                    None => {
                        fuel = 0;
                        proof {
                            assert forall|c2: CtxState, m2: MemState, d2: (Snd<S>, bool)|
                                #[trigger] served(ctx@, mem@, (*self, added), queue_idx as int, fuel as nat, step, c2, m2, d2)
                                implies served(c0, m0, st0, queue_idx as int, f0 as nat, step, c2, m2, d2) by {}
                        }
                    },
                }
            }
            let ghost c_end = ctx@;
            let ghost m_end = mem@;
            let ghost st_end = (*self, added);
            assert(served(ctx@, mem@, st_end, queue_idx as int, 0, step, c_end, m_end, st_end));
            if added {
                self.publish_consumed(ctx, mem);
            }
            assert(served(old(ctx)@, old(mem)@, (*old(self), false), queue_idx as int, MAX_BAD_CHAINS as nat, step, c_end, m_end, st_end));
        }
    }

    fn reset(&mut self)
        ensures
            final(self).stream@ == initial_stream(),
            final(self).pending@.len() == 0,
            final(self).consumed_through is None,
            final(self).tx_completions_since_notify == 0,
            final(self).next_period == old(self).next_period,
            final(self).period_sink.commands() == old(self).period_sink.commands().push(SinkAction::Release),
            final(self).period_sink.offered() == old(self).period_sink.offered(),
    {
        self.period_sink.reset();
        self.pending.clear();
        self.consumed_through = None;
        self.tx_completions_since_notify = 0;
        self.stream = Stream::new();
    }

    fn shared_memory_region(&self, id: u32) -> (r: Option<ShmRegion>) {
        None
    }
}

/// What the host tells the sound device.
pub enum ExternalEvent {
    /// The host has played every period through this one.
    PeriodElapsed(u64),
}

impl<S: PeriodSink> ExternalEventHandler for Snd<S> {
    type Event = ExternalEvent;

    open spec fn event_effect(
        &self,
        event: ExternalEvent,
        c: CtxState,
        m: MemState,
        after: Self,
        c2: CtxState,
        m2: MemState,
    ) -> bool {
        match event {
            ExternalEvent::PeriodElapsed(seq) => {
                let k = ready_count(self.pending@, seq, self.max_without_refill() - self.tx_completions_since_notify);
                &&& after.consumed_through == Some(seq)
                &&& after.stream@ == self.stream@
                &&& after.next_period == self.next_period
                &&& after.pending@ == self.pending@.skip(k)
                &&& after.tx_completions_since_notify == self.tx_completions_since_notify + k
                &&& (c2, m2) == complete_all(c, m, self.pending@.take(k))
            },
        }
    }

    fn on_event(&mut self, event: ExternalEvent, ctx: &mut DeviceContext, mem: &mut GuestMemory)
        ensures
            match event {
                ExternalEvent::PeriodElapsed(seq) => {
                    let k = ready_count(
                        old(self).pending@,
                        seq,
                        old(self).max_without_refill() - old(self).tx_completions_since_notify,
                    );
                    &&& final(self).consumed_through == Some(seq)
                    &&& final(self).stream@ == old(self).stream@
                    &&& final(self).next_period == old(self).next_period
                    &&& final(self).pending@ == old(self).pending@.skip(k)
                    &&& final(self).tx_completions_since_notify == old(self).tx_completions_since_notify + k
                    &&& (final(ctx)@, final(mem)@) == complete_all(old(ctx)@, old(mem)@, old(self).pending@.take(k))
                },
            },
    {
        match event {
            ExternalEvent::PeriodElapsed(seq) => {
                self.consumed_through = Some(seq);
                self.publish_consumed(ctx, mem);
            },
        }
    }
}

} // verus!
