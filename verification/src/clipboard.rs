//! Clipboard sharing: the host side of the length-prefixed frames that travel
//! over the console's clipboard port.
use crate::bytes::{get_u32, le_bytes, le_value, lemma_le_bytes_len, lemma_le_round_trip};
use vstd::prelude::*;

verus! {

/// Bytes of the length prefix of a frame.
pub const FRAME_LEN_PREFIX: usize = 4;

/// The largest payload that a frame may carry.
pub const MAX_FRAME: usize = 0x100_0000;

#[verifier::external_type_specification]
#[verifier::external_body]
#[verifier::reject_recursive_types(T)]
pub struct ExSender<T>(std::sync::mpsc::Sender<T>);

/// `mpsc::Sender::send`: queues `bytes` for the clipboard thread. Its
/// documentation says that it never blocks and that, where the receiver
/// has gone away, it gives the bytes back in an error (dropped here); it
/// names no panic, and the contract takes it that there is none. Whether
/// the receiver is still there decides whether the bytes arrive; that is
/// not stated.
#[verifier::external_body]
fn send_bytes(tx: &std::sync::mpsc::Sender<Vec<u8>>, bytes: Vec<u8>)
    no_unwind
{
    let _ = tx.send(bytes);
}

/// Where the console hands the clipboard frames that the guest sends,
/// together with the record of what was handed on.
pub struct Sink {
    tx: std::sync::mpsc::Sender<Vec<u8>>,
    sent: Ghost<Seq<Seq<u8>>>,
}

impl Sink {
    /// The channel that the sink sends on.
    pub closed spec fn sender(&self) -> std::sync::mpsc::Sender<Vec<u8>> {
        self.tx
    }

    /// The byte strings sent on the channel so far, oldest first.
    pub closed spec fn sent(&self) -> Seq<Seq<u8>> {
        self.sent@
    }

    pub fn new(tx: std::sync::mpsc::Sender<Vec<u8>>) -> (r: Sink)
        ensures
            r.sender() == tx,
            r.sent() == Seq::<Seq<u8>>::empty(),
    {
        Sink { tx, sent: Ghost(Seq::empty()) }
    }

    /// Passes guest bytes on to the clipboard thread, unchanged and after
    /// those of every earlier push.
    pub fn push(&mut self, bytes: Vec<u8>)
        ensures
            final(self).sent() == old(self).sent().push(bytes@),
            final(self).sender() == old(self).sender(),
        no_unwind
    {
        let ghost b = bytes@;
        send_bytes(&self.tx, bytes);
        self.sent = Ghost(self.sent@.push(b));
    }
}

/// The frame that carries `payload`: its length as a little-endian `u32`, then the payload.
pub open spec fn frame(payload: Seq<u8>) -> Seq<u8> {
    le_bytes(payload.len() as nat % 0x1_0000_0000, 4) + payload
}

/// The frames at the front of `buf` and the bytes that are left: a length
/// over `MAX_FRAME` is taken for noise and skipped one byte at a time; an
/// incomplete frame waits for more bytes.
pub open spec fn deframe(buf: Seq<u8>) -> (Seq<Seq<u8>>, Seq<u8>)
    decreases buf.len(),
{
    if buf.len() < FRAME_LEN_PREFIX {
        (Seq::empty(), buf)
    } else {
        let n = le_value(buf.subrange(0, 4)) as int;
        if n > MAX_FRAME {
            deframe(buf.drop_first())
        } else if buf.len() < FRAME_LEN_PREFIX + n {
            (Seq::empty(), buf)
        } else {
            let rest = deframe(buf.subrange(4 + n, buf.len() as int));
            (seq![buf.subrange(4, 4 + n)] + rest.0, rest.1)
        }
    }
}

/// A frame of at most `MAX_FRAME` bytes is recovered whole, whatever follows it.
pub proof fn lemma_deframe_frame(payload: Seq<u8>, rest: Seq<u8>)
    requires
        payload.len() <= MAX_FRAME,
    ensures
        deframe(frame(payload) + rest) == (seq![payload] + deframe(rest).0, deframe(rest).1),
{
    let n = payload.len() as int;
    lemma_le_bytes_len(n as nat, 4);
    reveal_with_fuel(vstd::arithmetic::power::pow, 5);
    lemma_le_round_trip(n as nat, 4);
    let buf = frame(payload) + rest;
    assert(buf.subrange(0, 4) =~= le_bytes(n as nat, 4));
    assert(buf.subrange(4, 4 + n) =~= payload);
    assert(buf.subrange(4 + n, buf.len() as int) =~= rest);
}

/// Bytes may arrive split anywhere: deframing `b` and then what was left of
/// it followed by `s` gives the same frames, in the same order, and the same
/// leftover as deframing `b` and `s` together.
pub proof fn lemma_deframe_append(b: Seq<u8>, s: Seq<u8>)
    ensures
        deframe(b + s) == ({
            let first = deframe(b);
            let second = deframe(first.1 + s);
            (first.0 + second.0, second.1)
        }),
    decreases b.len(),
{
    let bs = b + s;
    if b.len() < FRAME_LEN_PREFIX {
        assert(deframe(b).0 =~= Seq::<Seq<u8>>::empty());
        assert(deframe(b).0 + deframe(b + s).0 =~= deframe(b + s).0);
    } else {
        assert(bs.subrange(0, 4) =~= b.subrange(0, 4));
        let n = le_value(b.subrange(0, 4)) as int;
        if n > MAX_FRAME {
            assert(bs.drop_first() =~= b.drop_first() + s);
            lemma_deframe_append(b.drop_first(), s);
        } else if b.len() < FRAME_LEN_PREFIX + n {
            assert(deframe(b).0 + deframe(b + s).0 =~= deframe(b + s).0);
        } else {
            let tail = b.subrange(4 + n, b.len() as int);
            assert(bs.subrange(4, 4 + n) =~= b.subrange(4, 4 + n));
            assert(bs.subrange(4 + n, bs.len() as int) =~= tail + s);
            lemma_deframe_append(tail, s);
            let r = deframe(tail);
            let x = deframe(r.1 + s);
            assert(seq![b.subrange(4, 4 + n)] + (r.0 + x.0) =~= (seq![b.subrange(4, 4 + n)] + r.0) + x.0);
        }
    }
}

/// Reassembles frames from the bytes that the guest sends in pieces.
pub struct Deframer {
    buf: Vec<u8>,
}

impl Deframer {
    /// The bytes received and not yet part of a whole frame.
    pub closed spec fn pending(&self) -> Seq<u8> {
        self.buf@
    }

    pub fn new() -> (d: Deframer)
        ensures
            d.pending() == Seq::<u8>::empty(),
    {
        Deframer { buf: Vec::new() }
    }

    /// Adds `bytes` and returns the frames that are now complete.
    pub fn push(&mut self, bytes: &[u8]) -> (frames: Vec<Vec<u8>>)
        ensures
            frames@.map_values(|f: Vec<u8>| f@) == deframe(old(self).pending() + bytes@).0,
            final(self).pending() == deframe(old(self).pending() + bytes@).1,
    {
        let mut i: usize = 0;
        while i < bytes.len()
            invariant
                i <= bytes@.len(),
                self.buf@ == old(self).buf@ + bytes@.subrange(0, i as int),
            decreases bytes@.len() - i,
        {
            self.buf.push(bytes[i]);
            i = i + 1;
            proof {
                assert(self.buf@ =~= old(self).buf@ + bytes@.subrange(0, i as int));
            }
        }
        proof {
            assert(bytes@.subrange(0, i as int) =~= bytes@);
        }
        let ghost all = self.buf@;
        let mut frames: Vec<Vec<u8>> = Vec::new();
        loop
            invariant
                all == old(self).buf@ + bytes@,
                deframe(all).0 == frames@.map_values(|f: Vec<u8>| f@) + deframe(self.buf@).0,
                deframe(all).1 == deframe(self.buf@).1,
            decreases self.buf@.len(),
        {
            if self.buf.len() < FRAME_LEN_PREFIX {
                proof {
                    assert(deframe(self.buf@) == (Seq::<Seq<u8>>::empty(), self.buf@));
                    assert(frames@.map_values(|f: Vec<u8>| f@) + Seq::<Seq<u8>>::empty()
                        =~= frames@.map_values(|f: Vec<u8>| f@));
                }
                return frames;
            }
            let len = get_u32(self.buf.as_slice(), 0) as usize;
            if len > MAX_FRAME {
                self.buf.remove(0);
                proof {
                    assert(old(self).buf@.len() >= 0);
                }
                continue;
            }
            let total = FRAME_LEN_PREFIX + len;
            if self.buf.len() < total {
                proof {
                    assert(self.buf@.subrange(0, 4) =~= self.buf@.subrange(0, 4));
                    assert(deframe(self.buf@) == (Seq::<Seq<u8>>::empty(), self.buf@));
                    assert(frames@.map_values(|f: Vec<u8>| f@) + Seq::<Seq<u8>>::empty()
                        =~= frames@.map_values(|f: Vec<u8>| f@));
                }
                return frames;
            }
            let ghost before = self.buf@;
            let mut payload: Vec<u8> = Vec::new();
            let mut k: usize = FRAME_LEN_PREFIX;
            while k < total
                invariant
                    FRAME_LEN_PREFIX <= k <= total,
                    total <= self.buf@.len(),
                    self.buf@ == before,
                    payload@ == before.subrange(4, k as int),
                decreases total - k,
            {
                payload.push(self.buf[k]);
                k = k + 1;
                proof {
                    assert(payload@ =~= before.subrange(4, k as int));
                }
            }
            let mut rest: Vec<u8> = Vec::new();
            let mut j: usize = total;
            let n = self.buf.len();
            while j < n
                invariant
                    total <= j <= n,
                    n == before.len(),
                    self.buf@ == before,
                    rest@ == before.subrange(total as int, j as int),
                decreases n - j,
            {
                rest.push(self.buf[j]);
                j = j + 1;
                proof {
                    assert(rest@ =~= before.subrange(total as int, j as int));
                }
            }
            self.buf = rest;
            let ghost fs = frames@.map_values(|f: Vec<u8>| f@);
            frames.push(payload);
            proof {
                assert(frames@.map_values(|f: Vec<u8>| f@) =~= fs.push(before.subrange(4, total as int)));
                let d = deframe(self.buf@);
                assert(fs + (seq![before.subrange(4, total as int)] + d.0) =~= fs.push(
                    before.subrange(4, total as int),
                ) + d.0);
            }
        }
    }
}


/// What the clipboard thread knows of the host pasteboard: its change count
/// when last looked at, and the hash of the text last seen on either side.
pub struct ClipboardSync {
    last_change: i64,
    last_hash: Option<u64>,
}

impl ClipboardSync {
    pub closed spec fn last_change(&self) -> i64 {
        self.last_change
    }

    pub closed spec fn last_hash(&self) -> Option<u64> {
        self.last_hash
    }

    /// Starts from the pasteboard's change count and the hash of its text, if any.
    pub fn new(change: i64, hash: Option<u64>) -> (r: ClipboardSync)
        ensures
            r.last_change() == change,
            r.last_hash() == hash,
    {
        ClipboardSync { last_change: change, last_hash: hash }
    }

    /// The guest sent text with hash `hash`: `true` where the pasteboard
    /// must be written, that is where it is not the text last seen.
    pub fn guest_text(&mut self, hash: u64) -> (write: bool)
        ensures
            write == (old(self).last_hash() != Some(hash)),
            final(self).last_hash() == Some(hash),
            final(self).last_change() == old(self).last_change(),
    {
        let write = self.last_hash != Some(hash);
        self.last_hash = Some(hash);
        write
    }

    /// The pasteboard was written and now has change count `change`.
    pub fn written(&mut self, change: i64)
        ensures
            final(self).last_change() == change,
            final(self).last_hash() == old(self).last_hash(),
    {
        self.last_change = change;
    }

    /// The pasteboard's change count is `change`: `true` where it changed
    /// and its text must be read.
    pub fn poll(&mut self, change: i64) -> (read: bool)
        ensures
            read == (change != old(self).last_change()),
            final(self).last_change() == change,
            final(self).last_hash() == old(self).last_hash(),
    {
        if change == self.last_change {
            return false;
        }
        self.last_change = change;
        true
    }

    /// The host pasteboard holds text with hash `hash`: `true` where it must
    /// go to the guest, that is where it is not the text last seen.
    pub fn host_text(&mut self, hash: u64) -> (forward: bool)
        ensures
            forward == (old(self).last_hash() != Some(hash)),
            final(self).last_hash() == Some(hash),
            final(self).last_change() == old(self).last_change(),
    {
        let forward = self.last_hash != Some(hash);
        self.last_hash = Some(hash);
        forward
    }
}

} // verus!
