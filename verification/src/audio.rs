//! The real-time side of sound output: the guest's periods travel through a
//! lock-free ring to the output unit's render callback, which fills each
//! buffer from them, drops periods of an earlier stream generation, and
//! reports the last period played through. Playing and the generation are
//! flags that other threads change at any time.
use crate::virtio::snd::PeriodSink;
use std::sync::atomic::{AtomicBool, AtomicU64, Ordering};
use vstd::prelude::*;

verus! {

/// The largest period that the ring takes.
pub const MAX_PERIOD_BYTES: usize = 16384;

/// How many periods the ring holds.
pub const RING_CAPACITY: usize = 8;

/// How many times the callback looks for more to play, at most, beyond one
/// look for each byte of its buffer.
pub const EXTRA_LOOKS: usize = 1024;

#[verifier::external_type_specification]
#[verifier::external_body]
#[verifier::reject_recursive_types(T)]
pub struct ExConsumer<T>(rtrb::Consumer<T>);

#[verifier::external_type_specification]
#[verifier::external_body]
#[verifier::reject_recursive_types(T)]
pub struct ExProducer<T>(rtrb::Producer<T>);

/// A period of samples, the stream generation it was queued in, and its
/// sequence number.
pub struct Period {
    pub seq: u64,
    pub generation: u64,
    pub data: Vec<u8>,
}

/// Whether the stream plays, and its generation: a reset starts a new one,
/// which makes every period queued before it stale.
pub struct PlaybackState {
    pub running: AtomicBool,
    pub generation: AtomicU64,
}

impl PlaybackState {
    pub fn new() -> (r: PlaybackState) {
        PlaybackState { running: AtomicBool::new(false), generation: AtomicU64::new(0) }
    }
}

/// `RingBuffer::new`: an empty ring of `capacity` periods, split into its
/// two ends.
#[verifier::external_body]
fn ring_new(capacity: usize) -> (rtrb::Producer<Period>, rtrb::Consumer<Period>)
    requires
        capacity <= usize::MAX / 2,
{
    rtrb::RingBuffer::new(capacity)
}

/// `Consumer::pop`: the oldest period in the ring, if there is one. The
/// producer pushes from another thread, so which one comes, if any, is not
/// stated.
#[verifier::external_body]
fn ring_pop(c: &mut rtrb::Consumer<Period>) -> (r: Option<Period>) {
    c.pop().ok()
}

/// `Producer::push`: `true` where the ring had room for the period. The
/// consumer pops from another thread, so when there is room is not stated.
#[verifier::external_body]
fn ring_push(p: &mut rtrb::Producer<Period>, period: Period) -> (r: bool) {
    p.push(period).is_ok()
}

/// The queueing end of the ring: the sound device's `PeriodSink`.
pub struct RingSink<'a> {
    producer: rtrb::Producer<Period>,
    playback: &'a PlaybackState,
}

/// The playing end of the ring, driven by the render callback.
pub struct Renderer<'a> {
    consumer: rtrb::Consumer<Period>,
    playback: &'a PlaybackState,
    current: Option<(Period, usize)>,
    popped: Ghost<Seq<Playing>>,
}

/// A ring between the sound device and the render callback, for the stream
/// whose flags are `playback`.
pub fn channel<'a>(playback: &'a PlaybackState) -> (r: (RingSink<'a>, Renderer<'a>))
    ensures
        r.1.wf(),
        r.1.current() is None,
        r.1.popped() == Seq::<Playing>::empty(),
{
    let (producer, consumer) = ring_new(RING_CAPACITY);
    (RingSink { producer, playback }, Renderer { consumer, playback, current: None, popped: Ghost(Seq::empty()) })
}

fn copy_bytes(bytes: &[u8]) -> (r: Vec<u8>)
    ensures
        r@ == bytes@,
{
    let mut r: Vec<u8> = Vec::new();
    let mut i: usize = 0;
    while i < bytes.len()
        invariant
            i <= bytes@.len(),
            r@ == bytes@.subrange(0, i as int),
        decreases bytes@.len() - i,
    {
        r.push(bytes[i]);
        i = i + 1;
        proof {
            assert(r@ =~= bytes@.subrange(0, i as int));
        }
    }
    proof {
        assert(bytes@.subrange(0, i as int) =~= bytes@);
    }
    r
}

impl<'a> PeriodSink for RingSink<'a> {
    /// Queues a period of the current generation; refused where it is longer
    /// than `MAX_PERIOD_BYTES` or the ring is full.
    fn push(&mut self, seq: u64, bytes: &[u8]) -> (r: bool)
        ensures
            bytes@.len() > MAX_PERIOD_BYTES ==> !r,
    {
        if bytes.len() > MAX_PERIOD_BYTES {
            return false;
        }
        let generation = self.playback.generation.load(Ordering::Acquire);
        let period = Period { seq, generation, data: copy_bytes(bytes) };
        ring_push(&mut self.producer, period)
    }

    fn start(&mut self) {
        self.playback.running.store(true, Ordering::Release);
    }

    fn stop(&mut self) {
        self.playback.running.store(false, Ordering::Release);
    }

    fn reset(&mut self) {
        self.playback.running.store(false, Ordering::Release);
        self.playback.generation.fetch_add(1, Ordering::AcqRel);
    }
}

/// `s` with `data` copied over it from `at` on.
pub open spec fn copied_over(s: Seq<u8>, at: int, data: Seq<u8>) -> Seq<u8> {
    s.subrange(0, at) + data + s.subrange(at + data.len(), s.len() as int)
}

/// What the callback still has to play: the period's sequence number,
/// generation and bytes, and how far it has played.
pub struct Playing {
    pub seq: u64,
    pub generation: u64,
    pub data: Seq<u8>,
    pub offset: int,
}

/// Playing `c` into `out` from `filled` on: the buffer afterwards, the new
/// fill, and what is left to play, `None` where the period ran out.
pub open spec fn play_spec(c: Playing, out: Seq<u8>, filled: int) -> (Seq<u8>, int, Option<Playing>) {
    let room = out.len() - filled;
    let left = c.data.len() - c.offset;
    let n = if left < room {
        left
    } else {
        room
    };
    (
        copied_over(out, filled, c.data.subrange(c.offset, c.offset + n)),
        filled + n,
        if c.offset + n == c.data.len() {
            None
        } else {
            Some(Playing { offset: c.offset + n, ..c })
        },
    )
}

/// A period that does not fit in what is left of one buffer goes on at the
/// start of the next: the first buffer's tail and the second buffer's head
/// are together the period's bytes from where it stood, in order.
pub proof fn lemma_play_continues(c: Playing, a: Seq<u8>, fa: int, b: Seq<u8>)
    requires
        0 <= c.offset <= c.data.len(),
        0 <= fa <= a.len(),
        c.data.len() - c.offset > a.len() - fa,
        b.len() >= c.data.len() - c.offset - (a.len() - fa),
    ensures
        ({
            let (a2, fa2, rest) = play_spec(c, a, fa);
            let (b2, fb, done) = play_spec(rest->0, b, 0);
            &&& fa2 == a.len()
            &&& rest is Some
            &&& done is None
            &&& a2.subrange(fa, a.len() as int) + b2.subrange(0, fb) == c.data.subrange(
                c.offset,
                c.data.len() as int,
            )
        }),
{
    let (a2, fa2, rest) = play_spec(c, a, fa);
    let k = a.len() - fa;
    let r = rest->0;
    assert(r.offset == c.offset + k);
    let (b2, fb, done) = play_spec(r, b, 0);
    assert(a2.subrange(fa, a.len() as int) =~= c.data.subrange(c.offset, c.offset + k));
    assert(b2.subrange(0, fb) =~= c.data.subrange(c.offset + k, c.data.len() as int));
    assert(c.data.subrange(c.offset, c.offset + k) + c.data.subrange(c.offset + k, c.data.len() as int)
        =~= c.data.subrange(c.offset, c.data.len() as int));
}

/// What is left to play of `c`.
pub open spec fn rest_of(c: Playing) -> Seq<u8> {
    c.data.subrange(c.offset, c.data.len() as int)
}

/// `c` taken from the ring, before any of it was played.
pub open spec fn fresh(p: Period) -> Playing {
    Playing { seq: p.seq, generation: p.generation, data: p.data@, offset: 0 }
}

/// `played` is what playing some of `srcs` gives, in their order, each one
/// from where it stood to its end; the others are skipped.
pub open spec fn plays_whole(srcs: Seq<Playing>, played: Seq<u8>) -> bool
    decreases srcs.len(),
{
    if srcs.len() == 0 {
        played.len() == 0
    } else {
        let r = rest_of(srcs[0]);
        ||| plays_whole(srcs.drop_first(), played)
        ||| (played.len() >= r.len() && played.subrange(0, r.len() as int) == r && plays_whole(
            srcs.drop_first(),
            played.subrange(r.len() as int, played.len() as int),
        ))
    }
}

/// Playing, after `srcs`, the source `p` to its end (or skipping it) keeps
/// `plays_whole`.
pub proof fn lemma_plays_append(srcs: Seq<Playing>, played: Seq<u8>, p: Playing, whole: bool)
    requires
        plays_whole(srcs, played),
    ensures
        plays_whole(srcs.push(p), if whole { played + rest_of(p) } else { played }),
    decreases srcs.len(),
{
    let t = if whole { rest_of(p) } else { Seq::<u8>::empty() };
    let out = played + t;
    assert(out =~= (if whole { played + rest_of(p) } else { played }));
    let s2 = srcs.push(p);
    if srcs.len() == 0 {
        assert(played.len() == 0);
        assert(s2.drop_first() =~= Seq::<Playing>::empty());
        assert(s2[0] == p);
        assert(plays_whole(Seq::<Playing>::empty(), Seq::<u8>::empty()));
        if whole {
            assert(out =~= rest_of(p));
            assert(out.subrange(0, rest_of(p).len() as int) =~= rest_of(p));
            assert(out.subrange(rest_of(p).len() as int, out.len() as int) =~= Seq::<u8>::empty());
        } else {
            assert(out =~= Seq::<u8>::empty());
        }
        assert(plays_whole(s2, out));
    } else {
        assert(s2[0] == srcs[0]);
        assert(s2.drop_first() =~= srcs.drop_first().push(p));
        let r = rest_of(srcs[0]);
        if plays_whole(srcs.drop_first(), played) {
            lemma_plays_append(srcs.drop_first(), played, p, whole);
            assert(plays_whole(s2.drop_first(), out));
        } else {
            let tail = played.subrange(r.len() as int, played.len() as int);
            assert(played.len() >= r.len() && played.subrange(0, r.len() as int) == r && plays_whole(
                srcs.drop_first(),
                tail,
            ));
            lemma_plays_append(srcs.drop_first(), tail, p, whole);
            assert(out.subrange(0, r.len() as int) =~= played.subrange(0, r.len() as int));
            assert(out.subrange(r.len() as int, out.len() as int) =~= tail + t);
            assert(tail + t =~= (if whole { tail + rest_of(p) } else { tail }));
            assert(plays_whole(s2.drop_first(), out.subrange(r.len() as int, out.len() as int)));
        }
        assert(plays_whole(s2, out));
    }
}

/// What a render call played into its buffer, `played`, from its sources
/// `srcs` (the period being played when it was called, then the periods it
/// took from the ring, in order), given the period `cur` being played when
/// it returned: where `cur` is none, some of the sources played whole;
/// else `cur` is the last source, the sources before it played whole, then
/// `cur` from where it stood to where it stands now.
pub open spec fn rendered_from(srcs: Seq<Playing>, played: Seq<u8>, cur: Option<Playing>) -> bool {
    match cur {
        None => plays_whole(srcs, played),
        Some(c) => {
            let last = srcs.last();
            let k = c.offset - last.offset;
            &&& srcs.len() > 0
            &&& c.seq == last.seq
            &&& c.generation == last.generation
            &&& c.data == last.data
            &&& 0 <= last.offset <= c.offset <= c.data.len()
            &&& k <= played.len()
            &&& plays_whole(srcs.drop_last(), played.subrange(0, played.len() - k))
            &&& played.subrange(played.len() - k, played.len() as int) == c.data.subrange(
                last.offset,
                c.offset,
            )
        },
    }
}

pub open spec fn as_seq(c: Option<Playing>) -> Seq<Playing> {
    match c {
        Some(p) => seq![p],
        None => Seq::empty(),
    }
}

impl<'a> Renderer<'a> {
    /// Every period taken from the ring so far, as it was taken, oldest
    /// first.
    pub closed spec fn popped(&self) -> Seq<Playing> {
        self.popped@
    }

    pub closed spec fn current(&self) -> Option<Playing> {
        match self.current {
            Some((p, off)) => Some(Playing { seq: p.seq, generation: p.generation, data: p.data@, offset: off as int }),
            None => None,
        }
    }

    /// The period being played has not been played past its end.
    pub open spec fn wf(&self) -> bool {
        self.current() matches Some(c) ==> 0 <= c.offset <= c.data.len()
    }

    /// Drops the period being played where it is not of `generation`.
    pub fn drop_stale(&mut self, generation: u64)
        requires
            old(self).wf(),
        ensures
            final(self).wf(),
            final(self).popped() == old(self).popped(),
            final(self).current() == (if old(self).current() matches Some(c) && c.generation != generation {
                None
            } else {
                old(self).current()
            }),
    {
        let stale = match &self.current {
            Some((p, _)) => p.generation != generation,
            None => false,
        };
        if stale {
            self.current = None;
        }
    }

    /// Offers a period from the ring while nothing plays: it is taken where it
    /// is of `generation`, else dropped.
    pub fn offer(&mut self, period: Period, generation: u64) -> (taken: bool)
        requires
            old(self).current() is None,
        ensures
            final(self).wf(),
            final(self).popped() == old(self).popped(),
            taken == (period.generation == generation),
            taken ==> final(self).current() == Some(
                Playing { seq: period.seq, generation: period.generation, data: period.data@, offset: 0 },
            ),
            !taken ==> final(self).current() is None,
    {
        if period.generation == generation {
            self.current = Some((period, 0));
            true
        } else {
            false
        }
    }

    /// Plays the current period into `out` from `filled` on, as much of it as
    /// fits; gives the new fill, and the sequence number and generation of
    /// the period where it has been played to its end, which then is gone.
    pub fn play_current(&mut self, out: &mut Vec<u8>, filled: usize) -> (r: (usize, Option<(u64, u64)>))
        requires
            old(self).wf(),
            old(self).current() is Some,
            filled <= old(out)@.len(),
        ensures
            final(self).wf(),
            final(self).popped() == old(self).popped(),
            ({
                let c = old(self).current()->0;
                let (o, f, rest) = play_spec(c, old(out)@, filled as int);
                &&& final(out)@ == o
                &&& r.0 == f
                &&& final(self).current() == rest
                &&& rest is None ==> r.1 == Some((c.seq, c.generation))
                &&& rest is Some ==> r.1 is None
            }),
    {
        let (period, off) = match self.current.take() {
            Some(x) => x,
            None => return (filled, None),
        };
        let left = period.data.len() - off;
        let room = out.len() - filled;
        let n = if left < room {
            left
        } else {
            room
        };
        let ghost before = out@;
        proof {
            assert(copied_over(before, filled as int, period.data@.subrange(off as int, off as int)) =~= before);
        }
        let mut i: usize = 0;
        while i < n
            invariant
                i <= n,
                out@.len() == before.len(),
                before.len() <= usize::MAX,
                period.data@.len() <= usize::MAX,
                filled + n <= before.len(),
                off + n <= period.data@.len(),
                n <= left,
                n <= room,
                left == period.data@.len() - off,
                room == before.len() - filled,
                off <= period.data@.len(),
                out@ == copied_over(before, filled as int, period.data@.subrange(off as int, off + i)),
            decreases n - i,
        {
            out.set(filled + i, period.data[off + i]);
            i = i + 1;
            proof {
                assert(out@ =~= copied_over(before, filled as int, period.data@.subrange(off as int, off + i)));
            }
        }
        if off + n == period.data.len() {
            (filled + n, Some((period.seq, period.generation)))
        } else {
            self.current = Some((period, off + n));
            (filled + n, None)
        }
    }

    /// Whether the stream plays now.
    fn running_now(&self) -> bool {
        self.playback.running.load(Ordering::Acquire)
    }

    /// The stream's generation now.
    fn generation_now(&self) -> u64 {
        self.playback.generation.load(Ordering::Acquire)
    }

    /// The render callback: fills `out` from the ring while the stream plays,
    /// the rest with silence. Gives how many bytes came from periods, and the
    /// sequence number of the last period played to its end while its
    /// generation was still current, if any. The bytes that came from
    /// periods are, in order, what is left of the period being played and of
    /// periods taken from the ring during the call, each played to its end
    /// or skipped, the last one possibly only begun (it then stays the
    /// period being played); every period taken is recorded in `popped`.
    pub fn render(&mut self, out: &mut Vec<u8>) -> (r: (usize, Option<u64>))
        requires
            old(self).wf(),
        ensures
            final(self).wf(),
            final(out)@.len() == old(out)@.len(),
            r.0 <= old(out)@.len(),
            forall|i: int| r.0 <= i < final(out)@.len() ==> final(out)@[i] == 0,
            old(self).popped().len() <= final(self).popped().len(),
            final(self).popped().subrange(0, old(self).popped().len() as int) == old(self).popped(),
            ({
                let srcs = as_seq(old(self).current()) + final(self).popped().subrange(
                    old(self).popped().len() as int,
                    final(self).popped().len() as int,
                );
                &&& rendered_from(srcs, final(out)@.subrange(0, r.0 as int), final(self).current())
                &&& (r.1 matches Some(s) ==> exists|i: int| 0 <= i < srcs.len() && #[trigger] srcs[i].seq == s)
            }),
    {
        let len = out.len();
        let mut filled: usize = 0;
        let mut completed: Option<u64> = None;
        let mut looks: usize = if len <= usize::MAX - EXTRA_LOOKS {
            len + EXTRA_LOOKS
        } else {
            usize::MAX
        };
        let ghost base = self.popped@.len();
        let ghost init = as_seq(self.current());
        let ghost mut srcs: Seq<Playing> = init;
        proof {
            assert(self.popped@.subrange(0, base as int) =~= self.popped@);
            assert(init + self.popped@.subrange(base as int, base as int) =~= init);
            let played = out@.subrange(0, 0);
            assert(played =~= Seq::<u8>::empty());
            assert(plays_whole(Seq::<Playing>::empty(), Seq::<u8>::empty()));
            if self.current() is Some {
                let c = self.current()->0;
                assert(srcs =~= seq![c]);
                assert(srcs.drop_last() =~= Seq::<Playing>::empty());
                assert(srcs.last() == c);
                assert(played.subrange(0, played.len() - 0) =~= Seq::<u8>::empty());
                assert(played.subrange(played.len() - 0, played.len() as int) =~= Seq::<u8>::empty());
                assert(c.data.subrange(c.offset, c.offset) =~= Seq::<u8>::empty());
            } else {
                assert(srcs =~= Seq::<Playing>::empty());
            }
            assert(rendered_from(srcs, played, self.current()));
        }
        if self.running_now() {
            while filled < len && looks > 0
                invariant
                    self.wf(),
                    out@.len() == len,
                    filled <= len,
                    base == old(self).popped().len(),
                    init == as_seq(old(self).current()),
                    base <= self.popped@.len(),
                    self.popped@.subrange(0, base as int) == old(self).popped(),
                    srcs == init + self.popped@.subrange(base as int, self.popped@.len() as int),
                    rendered_from(srcs, out@.subrange(0, filled as int), self.current()),
                    self.current() is Some && filled < len ==> self.current()->0.offset == srcs.last().offset,
                    completed matches Some(s) ==> exists|i: int| 0 <= i < srcs.len() && #[trigger] srcs[i].seq == s,
                decreases looks,
            {
                looks = looks - 1;
                if !self.running_now() {
                    break;
                }
                let generation = self.generation_now();
                let ghost before_drop = self.current();
                self.drop_stale(generation);
                proof {
                    if before_drop is Some && self.current() is None {
                        let last = srcs.last();
                        assert(srcs.drop_last().push(last) =~= srcs);
                        let played = out@.subrange(0, filled as int);
                        assert(played.subrange(0, played.len() - 0) =~= played);
                        lemma_plays_append(srcs.drop_last(), played, last, false);
                    }
                }
                if self.current.is_none() {
                    let mut found = false;
                    let mut empty = false;
                    let ghost outer_looks = looks;
                    while !found && !empty && looks > 0
                        invariant
                            looks <= outer_looks,
                            self.wf(),
                            out@.len() == len,
                            filled < len,
                            base <= self.popped@.len(),
                            self.popped@.subrange(0, base as int) == old(self).popped(),
                            srcs == init + self.popped@.subrange(base as int, self.popped@.len() as int),
                            !found ==> self.current() is None,
                            found ==> self.current() is Some,
                            rendered_from(srcs, out@.subrange(0, filled as int), self.current()),
                            self.current() is Some ==> self.current()->0.offset == srcs.last().offset,
                            completed matches Some(s) ==> exists|i: int| 0 <= i < srcs.len() && #[trigger] srcs[i].seq == s,
                        decreases looks,
                    {
                        looks = looks - 1;
                        match ring_pop(&mut self.consumer) {
                            Some(period) => {
                                let ghost fp = fresh(period);
                                let ghost prev = srcs;
                                let ghost before = self.popped@;
                                self.popped = Ghost(self.popped@.push(fresh(period)));
                                proof {
                                    srcs = srcs.push(fp);
                                    assert(self.popped@.subrange(0, base as int) =~= before.subrange(0, base as int));
                                    assert(self.popped@.subrange(base as int, self.popped@.len() as int) =~= before.subrange(
                                        base as int,
                                        before.len() as int,
                                    ).push(fp));
                                    assert(srcs =~= init + self.popped@.subrange(base as int, self.popped@.len() as int));
                                    assert forall|i: int| 0 <= i < prev.len() implies #[trigger] srcs[i] == prev[i] by {}
                                }
                                found = self.offer(period, generation);
                                proof {
                                    let played = out@.subrange(0, filled as int);
                                    assert(srcs.drop_last() =~= prev);
                                    assert(srcs.last() == fp);
                                    if found {
                                        assert(played.subrange(0, played.len() - 0) =~= played);
                                        assert(played.subrange(played.len() - 0, played.len() as int) =~= Seq::<u8>::empty());
                                        assert(fp.data.subrange(0, 0) =~= Seq::<u8>::empty());
                                    } else {
                                        lemma_plays_append(prev, played, fp, false);
                                    }
                                    if completed is Some {
                                        let s = completed->0;
                                        let i = choose|i: int| 0 <= i < prev.len() && #[trigger] prev[i].seq == s;
                                        assert(srcs[i] == prev[i]);
                                    }
                                }
                            },
                            None => {
                                empty = true;
                            },
                        }
                    }
                    if !found {
                        break;
                    }
                }
                let ghost pre = out@;
                let ghost c = self.current()->0;
                let ghost last = srcs.last();
                let (now_filled, done) = self.play_current(out, filled);
                proof {
                    let k = c.offset - last.offset;
                    let w = pre.subrange(0, filled - k);
                    let played = pre.subrange(0, filled as int);
                    assert(played.subrange(0, played.len() - k) =~= w);
                    assert(played.subrange(played.len() - k, played.len() as int) =~= pre.subrange(filled - k, filled as int));
                    assert(plays_whole(srcs.drop_last(), w));
                    let n = now_filled - filled;
                    let piece = c.data.subrange(c.offset, c.offset + n);
                    assert(out@.subrange(0, now_filled as int) =~= pre.subrange(0, filled as int) + piece);
                    assert(pre.subrange(0, filled as int) =~= w + c.data.subrange(last.offset, c.offset));
                    assert(c.data.subrange(last.offset, c.offset) + piece =~= c.data.subrange(last.offset, c.offset + n));
                    assert(srcs.drop_last().push(last) =~= srcs);
                    if self.current() is None {
                        assert(c.offset + n == c.data.len());
                        assert(c.data.subrange(last.offset, c.offset + n) =~= rest_of(last));
                        lemma_plays_append(srcs.drop_last(), w, last, true);
                        assert(out@.subrange(0, now_filled as int) =~= w + rest_of(last));
                    } else {
                        let c2 = self.current()->0;
                        assert(c2.offset == c.offset + n);
                        assert(now_filled == len);
                        let o = out@.subrange(0, now_filled as int);
                        assert(o.subrange(0, o.len() - (c2.offset - last.offset)) =~= w);
                        assert(o.subrange(o.len() - (c2.offset - last.offset), o.len() as int) =~= c.data.subrange(
                            last.offset,
                            c2.offset,
                        ));
                    }
                }
                filled = now_filled;
                if let Some((seq, period_generation)) = done {
                    if period_generation == self.generation_now() {
                        completed = Some(seq);
                        proof {
                            assert(srcs[srcs.len() - 1].seq == seq);
                        }
                    }
                }
            }
        }
        let ghost saved = out@.subrange(0, filled as int);
        let mut i: usize = filled;
        while i < len
            invariant
                filled <= i <= len,
                out@.len() == len,
                out@.subrange(0, filled as int) == saved,
                forall|k: int| filled <= k < i ==> out@[k] == 0,
            decreases len - i,
        {
            let ghost before = out@;
            out.set(i, 0);
            proof {
                assert(out@.subrange(0, filled as int) =~= before.subrange(0, filled as int));
            }
            i = i + 1;
        }
        (filled, completed)
    }
}

} // verus!
