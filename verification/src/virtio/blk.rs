//! The virtio block device over a disk image of whole 512-byte sectors.
use crate::bytes::{get_u32, get_u64, le_bytes, le_value, lemma_le_unique, u64_le};
use crate::memory::{check, region_ok, write_result, GuestMemory, MemState};
use crate::virtio::chain::{ChainData, Seg};
use crate::virtio::virtq::ChainAcc;
use crate::virtio::device::{after_action, next_chain, raise, served, ChainAction, ChainToken, CtxState, DeviceContext, ShmRegion, FEATURE_VERSION_1, MAX_BAD_CHAINS};
use crate::virtio::mmio::Device;
use vstd::prelude::*;

verus! {

pub const DEVICE_ID: u32 = 2;

pub const SECTOR_SIZE: u64 = 512;

/// Bytes of the request header: type, reserved, sector.
pub const HEADER_LEN: usize = 16;

pub const STATUS_OK: u8 = 0;

pub const STATUS_IOERR: u8 = 1;

pub const STATUS_UNSUPP: u8 = 2;

pub const REQ_IN: u32 = 0;

pub const REQ_OUT: u32 = 1;

pub const REQ_FLUSH: u32 = 4;

/// One call into the disk, with what it gave back.
pub enum DiskOp {
    /// A read of `len` bytes at byte `offset`, and the bytes it gave, if any.
    Read { len: usize, offset: u64, data: Option<Seq<u8>> },
    /// A write of `data` at byte `offset`, and whether it succeeded.
    Write { data: Seq<u8>, offset: u64, ok: bool },
    /// A flush, and whether it succeeded.
    Sync { ok: bool },
}

/// The disk image behind the device.
pub trait DiskBackend {
    /// Reads `len` bytes at byte `offset`; `None` on an I/O error. A short
    /// answer leaves the rest of the range zero.
    fn read_at(&self, len: usize, offset: u64) -> Option<Vec<u8>>;

    /// Writes `data` at byte `offset`; `false` on an I/O error.
    fn write_at(&self, data: &[u8], offset: u64) -> bool;

    /// Makes every write durable; `false` on an I/O error.
    fn sync_all(&self) -> bool;
}

/// The bytes that a read gave, if any.
pub open spec fn answer(r: &Option<Vec<u8>>) -> Option<Seq<u8>> {
    match r {
        Some(v) => Some(v@),
        None => None,
    }
}

/// A disk together with the record of the calls made into it.
pub struct LoggedDisk<D: DiskBackend> {
    disk: D,
    ops: Ghost<Seq<DiskOp>>,
}

impl<D: DiskBackend> LoggedDisk<D> {
    /// The calls made into the disk so far, oldest first.
    pub closed spec fn ops(&self) -> Seq<DiskOp> {
        self.ops@
    }

    pub fn new(disk: D) -> (r: LoggedDisk<D>)
        ensures
            r.ops() == Seq::<DiskOp>::empty(),
    {
        LoggedDisk { disk, ops: Ghost(Seq::empty()) }
    }

    /// Reads `len` bytes at byte `offset` from the disk.
    pub fn read_at(&mut self, len: usize, offset: u64) -> (r: Option<Vec<u8>>)
        ensures
            final(self).ops() == old(self).ops().push(
                DiskOp::Read { len, offset, data: answer(&r) },
            ),
    {
        let r = self.disk.read_at(len, offset);
        self.ops = Ghost(
            self.ops@.push(
                DiskOp::Read { len, offset, data: answer(&r) },
            ),
        );
        r
    }

    /// Writes `data` at byte `offset` of the disk.
    pub fn write_at(&mut self, data: &[u8], offset: u64) -> (r: bool)
        ensures
            final(self).ops() == old(self).ops().push(DiskOp::Write { data: data@, offset, ok: r }),
    {
        let r = self.disk.write_at(data, offset);
        self.ops = Ghost(self.ops@.push(DiskOp::Write { data: data@, offset, ok: r }));
        r
    }

    /// Asks the disk to make every write durable.
    pub fn sync_all(&mut self) -> (r: bool)
        ensures
            final(self).ops() == old(self).ops().push(DiskOp::Sync { ok: r }),
    {
        let r = self.disk.sync_all();
        self.ops = Ghost(self.ops@.push(DiskOp::Sync { ok: r }));
        r
    }
}

/// `new` are reads of the buffers `segs` in order, each of the buffer's
/// length, from byte `offset` of the disk on.
pub open spec fn reads_of(segs: Seq<Seg>, offset: int, new: Seq<DiskOp>) -> bool {
    forall|k: int|
        0 <= k < new.len() ==> (#[trigger] new[k] matches DiskOp::Read { len, offset: o, .. } && len
            == segs[k].len && o == offset + seg_total(segs, k))
}

/// Every read of `new` gave bytes.
pub open spec fn all_read(new: Seq<DiskOp>) -> bool {
    forall|k: int| 0 <= k < new.len() ==> (#[trigger] new[k] matches DiskOp::Read { data: Some(_), .. })
}

/// What the reads of `new` put into the buffers `segs`: each answer cut or
/// padded to its buffer.
pub open spec fn read_pieces(segs: Seq<Seg>, new: Seq<DiskOp>) -> Seq<Seq<u8>> {
    Seq::new(
        new.len(),
        |k: int|
            match new[k] {
                DiskOp::Read { data: Some(d), .. } => fit(d, segs[k].len as nat),
                _ => Seq::empty(),
            },
    )
}

/// Why a disk image cannot back the device.
#[derive(Debug, Copy, Clone, PartialEq, Eq)]
pub enum BlkError {
    /// The image is empty or not a whole number of sectors long.
    InvalidSize(u64),
}

/// The block device over disk `D`.
pub struct Blk<D: DiskBackend> {
    sectors: u64,
    disk: LoggedDisk<D>,
}

/// `data` cut or padded with zeros to `len` bytes.
pub open spec fn fit(data: Seq<u8>, len: nat) -> Seq<u8> {
    Seq::new(len, |i: int| if i < data.len() { data[i] } else { 0u8 })
}

fn fit_exec(data: Vec<u8>, len: usize) -> (r: Vec<u8>)
    ensures
        r@ == fit(data@, len as nat),
{
    let mut r: Vec<u8> = Vec::new();
    let mut i: usize = 0;
    while i < len
        invariant
            i <= len,
            r@ == fit(data@, i as nat),
        decreases len - i,
    {
        let b = if i < data.len() {
            data[i]
        } else {
            0u8
        };
        r.push(b);
        i = i + 1;
        proof {
            assert(r@ =~= fit(data@, i as nat));
        }
    }
    r
}

/// The status that a request is answered whatever the disk does, if the
/// request alone decides it: an unreadable header or payload, an offset past
/// 64 bits, or an unknown request type.
pub open spec fn known_status(chain: ChainData, mem: MemState) -> Option<u8> {
    match chain.read_at_spec(0, HEADER_LEN as int, mem) {
        None => Some(STATUS_IOERR),
        Some(h) => {
            let t = le_value(h.subrange(0, 4));
            let sector = le_value(h.subrange(8, 16));
            if t == REQ_IN {
                if sector * 512 > u64::MAX {
                    Some(STATUS_IOERR)
                } else {
                    None
                }
            } else if t == REQ_OUT {
                if sector * 512 > u64::MAX {
                    Some(STATUS_IOERR)
                } else if chain.read_at_spec(
                    HEADER_LEN as int,
                    chain.readable_len - HEADER_LEN,
                    mem,
                ) is None {
                    Some(STATUS_IOERR)
                } else {
                    None
                }
            } else if t == REQ_FLUSH {
                None
            } else {
                Some(STATUS_UNSUPP)
            }
        },
    }
}

fn u64_bytes(v: u64) -> (r: Vec<u8>)
    ensures
        r@ == le_bytes(v as nat, 8),
{
    let r = u64_le(v);
    proof {
        lemma_le_unique(r@, v as nat);
    }
    r
}

/// The total length of the first `k` buffers of `segs`.
pub open spec fn seg_total(segs: Seq<Seg>, k: int) -> int
    decreases k,
{
    if k <= 0 {
        0
    } else {
        seg_total(segs, k - 1) + segs[k - 1].len
    }
}

/// Why a read that got the bytes of the `k`-th buffer stops there, with
/// memory `m` before that buffer is written: the buffer is not guest memory
/// that can be written, or the disk offset past it or the bytes placed up to
/// it no longer fit their counters.
pub open spec fn read_stopped(segs: Seq<Seg>, offset: int, m: MemState, k: int) -> bool {
    ||| !region_ok(m, segs[k - 1].addr as int, segs[k - 1].len as int)
    ||| offset + seg_total(segs, k) > u64::MAX
    ||| seg_total(segs, k) >= u32::MAX
}

/// Memory `m` after `pieces[i]` is written into buffer `segs[i]`, for the
/// first `k` buffers in order.
pub open spec fn placed(segs: Seq<Seg>, pieces: Seq<Seq<u8>>, m: MemState, k: int) -> MemState
    decreases k,
{
    if k <= 0 {
        m
    } else {
        write_result(placed(segs, pieces, m, k - 1), segs[k - 1].addr as int, pieces[k - 1])
    }
}

proof fn lemma_placed_prefix(segs: Seq<Seg>, p: Seq<Seq<u8>>, q: Seq<Seq<u8>>, m: MemState, k: int)
    requires
        0 <= k <= p.len(),
        k <= q.len(),
        forall|j: int| 0 <= j < k ==> p[j] == q[j],
    ensures
        placed(segs, p, m, k) == placed(segs, q, m, k),
    decreases k,
{
    if k > 0 {
        lemma_placed_prefix(segs, p, q, m, k - 1);
    }
}

/// The size of a disk image of `current` bytes once it has been grown to
/// the configured `configured` bytes: a larger configuration grows the
/// image, a smaller one never shrinks it.
pub fn grown_size(current: u64, configured: u64) -> (r: u64)
    ensures
        r == if configured > current {
            configured
        } else {
            current
        },
        r >= current,
{
    if configured > current {
        configured
    } else {
        current
    }
}

impl<D: DiskBackend> Blk<D> {
    /// The disk's size in sectors.
    pub closed spec fn sectors(&self) -> u64 {
        self.sectors
    }

    /// The calls made into the disk so far, oldest first.
    pub closed spec fn disk_ops(&self) -> Seq<DiskOp> {
        self.disk.ops()
    }

    /// A device over a disk image of `size` bytes.
    pub fn new(disk: D, size: u64) -> (r: Result<Blk<D>, BlkError>)
        ensures
            match r {
                Ok(b) => size != 0 && size % 512 == 0 && b.sectors() == size / 512,
                Err(e) => (size == 0 || size % 512 != 0) && e == BlkError::InvalidSize(size),
            },
    {
        if size == 0 || size % SECTOR_SIZE != 0 {
            return Err(BlkError::InvalidSize(size));
        }
        Ok(Blk { sectors: size / SECTOR_SIZE, disk: LoggedDisk::new(disk) })
    }

    /// Reads disk data into the guest buffers `segs`, from `offset` on;
    /// gives the bytes placed, or `None` on the first failure.
    fn read_into(&mut self, segs: &Vec<Seg>, count: usize, offset: u64, mem: &mut GuestMemory) -> (r:
        Option<u32>)
        requires
            count <= segs@.len(),
        ensures
            final(self).sectors() == old(self).sectors(),
            final(self).disk_ops().take(old(self).disk_ops().len() as int) == old(self).disk_ops(),
            final(self).disk_ops().len() >= old(self).disk_ops().len(),
            ({
                let new = final(self).disk_ops().skip(old(self).disk_ops().len() as int);
                &&& new.len() <= count
                &&& reads_of(segs@, offset as int, new)
                &&& match r {
                    Some(w) => {
                        &&& w < u32::MAX
                        &&& w == seg_total(segs@, count as int)
                        &&& new.len() == count
                        &&& all_read(new)
                        &&& final(mem)@ == placed(segs@, read_pieces(segs@, new), old(mem)@, count as int)
                    },
                    None => new.len() > 0 && {
                        ||| (new.last() matches DiskOp::Read { data: None, .. }) && final(mem)@ == placed(
                            segs@,
                            read_pieces(segs@, new),
                            old(mem)@,
                            new.len() - 1,
                        )
                        ||| all_read(new) && read_stopped(
                            segs@,
                            offset as int,
                            placed(segs@, read_pieces(segs@, new), old(mem)@, new.len() - 1),
                            new.len() as int,
                        ) && final(mem)@ == placed(segs@, read_pieces(segs@, new), old(mem)@, new.len() as int)
                    },
                }
            }),
    {
        let ghost ops0 = self.disk.ops();
        let mut off = offset;
        let mut written: u32 = 0;
        let mut i: usize = 0;
        while i < count
            invariant
                i <= count <= segs@.len(),
                written < u32::MAX,
                written == seg_total(segs@, i as int),
                off == offset + seg_total(segs@, i as int),
                self.sectors() == old(self).sectors(),
                ops0 == old(self).disk_ops(),
                self.disk_ops().len() == ops0.len() + i,
                self.disk_ops().take(ops0.len() as int) == ops0,
                reads_of(segs@, offset as int, self.disk_ops().skip(ops0.len() as int)),
                all_read(self.disk_ops().skip(ops0.len() as int)),
                mem@ == placed(segs@, read_pieces(segs@, self.disk_ops().skip(ops0.len() as int)), old(mem)@, i as int),
            decreases count - i,
        {
            let d = segs[i];
            let ghost before = self.disk.ops();
            let ghost m_before = mem@;
            let res = self.disk.read_at(d.len as usize, off);
            let ghost new = self.disk.ops().skip(ops0.len() as int);
            proof {
                let prev = before.skip(ops0.len() as int);
                assert(new =~= prev.push(new.last()));
                assert(self.disk.ops().take(ops0.len() as int) =~= ops0);
                assert(reads_of(segs@, offset as int, new));
                lemma_placed_prefix(segs@, read_pieces(segs@, prev), read_pieces(segs@, new), old(mem)@, i as int);
            }
            let buf = match res {
                Some(b) => b,
                None => {
                    proof {
                        assert(mem@ == placed(segs@, read_pieces(segs@, new), old(mem)@, i as int));
                    }
                    return None;
                },
            };
            let bytes = fit_exec(buf, d.len as usize);
            proof {
                assert(all_read(new));
                assert(read_pieces(segs@, new)[i as int] == bytes@);
            }
            let wr = mem.write(d.addr, bytes.as_slice());
            proof {
                assert(mem@ == placed(segs@, read_pieces(segs@, new), old(mem)@, i + 1));
            }
            if wr.is_err() {
                return None;
            }
            off = match off.checked_add(d.len as u64) {
                Some(o) => o,
                None => {
                    proof {
                        assert(mem@ == placed(segs@, read_pieces(segs@, new), old(mem)@, i + 1));
                    }
                    return None;
                },
            };
            if d.len > u32::MAX - 1 - written {
                proof {
                    assert(mem@ == placed(segs@, read_pieces(segs@, new), old(mem)@, i + 1));
                }
                return None;
            }
            written = written + d.len;
            i = i + 1;
        }
        Some(written)
    }

    /// Carries out one request and writes its status into the last writable
    /// buffer.
    pub fn process_chain(&mut self, chain: &ChainData, mem: &mut GuestMemory) -> (r: ChainAction)
        requires
            chain.wf(),
        ensures
            chain_done(*old(self), *final(self), *chain, old(mem)@, final(mem)@, r),
    {
        let ghost ops0 = self.disk.ops();
        proof {
            assert(ops0.skip(ops0.len() as int) =~= Seq::<DiskOp>::empty());
            assert(ops0.take(ops0.len() as int) =~= ops0);
        }
        let n = chain.writable.len();
        if n == 0 {
            return ChainAction::Complete(0);
        }
        let status_seg = chain.writable[n - 1];
        let mut written: u32 = 0;
        let mut status = STATUS_OK;
        match chain.read_at(0, HEADER_LEN, mem) {
            None => {
                status = STATUS_IOERR;
            },
            Some(h) => {
                let t = get_u32(h.as_slice(), 0);
                let sector = get_u64(h.as_slice(), 8);
                if t == REQ_IN {
                    match sector.checked_mul(SECTOR_SIZE) {
                        None => {
                            status = STATUS_IOERR;
                        },
                        Some(off) => {
                            match self.read_into(&chain.writable, n - 1, off, mem) {
                                Some(w) => {
                                    written = w;
                                },
                                None => {
                                    status = STATUS_IOERR;
                                },
                            }
                        },
                    }
                } else if t == REQ_OUT {
                    match sector.checked_mul(SECTOR_SIZE) {
                        None => {
                            status = STATUS_IOERR;
                        },
                        Some(off) => {
                            match chain.read_at(HEADER_LEN, chain.readable_len() - HEADER_LEN, mem) {
                                None => {
                                    status = STATUS_IOERR;
                                },
                                Some(data) => {
                                    let ok = self.disk.write_at(data.as_slice(), off);
                                    proof {
                                        assert(self.disk.ops().skip(ops0.len() as int) =~= seq![
                                            self.disk.ops().last(),
                                        ]);
                                        assert(self.disk.ops().take(ops0.len() as int) =~= ops0);
                                    }
                                    if !ok {
                                        status = STATUS_IOERR;
                                    }
                                },
                            }
                        },
                    }
                } else if t == REQ_FLUSH {
                    let ok = self.disk.sync_all();
                    proof {
                        assert(self.disk.ops().skip(ops0.len() as int) =~= seq![self.disk.ops().last()]);
                        assert(self.disk.ops().take(ops0.len() as int) =~= ops0);
                    }
                    if !ok {
                        status = STATUS_IOERR;
                    }
                } else {
                    status = STATUS_UNSUPP;
                }
            },
        }
        if mem.write_u8(status_seg.addr, status).is_err() {
            return ChainAction::Complete(0);
        }
        ChainAction::Complete(written + 1)
    }
}

/// The status byte `st` written into the last buffer of `chain` over memory
/// `mid`, giving `m1`, with `data` bytes written before it: the chain is
/// answered with `data + 1` bytes, or with none where the status cannot be
/// written.
pub open spec fn status_written(chain: ChainData, mid: MemState, st: u8, data: int, m1: MemState, r: ChainAction) -> bool {
    let s = chain.writable@.last();
    &&& m1 == write_result(mid, s.addr as int, seq![st])
    &&& r == ChainAction::Complete(if check(mid, s.addr as int, 1) is Ok { (data + 1) as u32 } else { 0 })
}

/// How a request that reaches the disk is answered, where `new` are the
/// calls it made into the disk: a read fills the data buffers from byte
/// `sector * 512` on with what the disk gave and reports OK, or stops at the
/// first failure (a disk read that gave nothing, a buffer that cannot be
/// written, or counts that no longer fit) and reports IOERR; a write hands the payload to the disk at
/// that offset; a flush asks the disk to sync. The status is OK exactly
/// where the disk succeeded.
pub open spec fn disk_answer(chain: ChainData, m0: MemState, new: Seq<DiskOp>, m1: MemState, r: ChainAction) -> bool {
    let h = chain.read_at_spec(0, HEADER_LEN as int, m0)->0;
    let t = le_value(h.subrange(0, 4));
    let off: int = (le_value(h.subrange(8, 16)) * 512) as int;
    let segs = chain.writable@;
    let n = segs.len() - 1;
    let pieces = read_pieces(segs, new);
    &&& t == REQ_IN ==> {
        &&& new.len() <= n
        &&& reads_of(segs, off, new)
        &&& {
            ||| new.len() == n && all_read(new) && status_written(
                chain,
                placed(segs, pieces, m0, n),
                STATUS_OK,
                seg_total(segs, n),
                m1,
                r,
            )
            ||| new.len() > 0 && (new.last() matches DiskOp::Read { data: None, .. }) && status_written(
                chain,
                placed(segs, pieces, m0, new.len() - 1),
                STATUS_IOERR,
                0,
                m1,
                r,
            )
            ||| new.len() > 0 && all_read(new) && read_stopped(
                segs,
                off,
                placed(segs, pieces, m0, new.len() - 1),
                new.len() as int,
            ) && status_written(chain, placed(segs, pieces, m0, new.len() as int), STATUS_IOERR, 0, m1, r)
        }
    }
    &&& t == REQ_OUT ==> {
        &&& new.len() == 1
        &&& new[0] matches DiskOp::Write { data, offset, ok }
        &&& data == chain.read_at_spec(HEADER_LEN as int, chain.readable_len - HEADER_LEN, m0)->0
        &&& offset == off
        &&& status_written(chain, m0, if ok { STATUS_OK } else { STATUS_IOERR }, 0, m1, r)
    }
    &&& t == REQ_FLUSH ==> {
        &&& new.len() == 1
        &&& new[0] matches DiskOp::Sync { ok }
        &&& status_written(chain, m0, if ok { STATUS_OK } else { STATUS_IOERR }, 0, m1, r)
    }
}

proof fn lemma_seg_total_mono(segs: Seq<Seg>, k: int, n: int)
    requires
        0 <= k <= n,
    ensures
        seg_total(segs, k) <= seg_total(segs, n),
    decreases n - k,
{
    if k < n {
        lemma_seg_total_mono(segs, k, n - 1);
    }
}

/// A healthy read is answered OK: where every disk read of a read request
/// gave bytes, every data buffer can be written and the byte counts fit,
/// all data buffers are read, in order from byte `sector * 512` on, filled
/// with what the disk gave, the status written is OK and the chain is
/// answered with the data buffers' bytes and the status byte.
pub proof fn lemma_healthy_read_ok(chain: ChainData, m0: MemState, new: Seq<DiskOp>, m1: MemState, r: ChainAction)
    requires
        chain.writable@.len() > 0,
        chain.read_at_spec(0, HEADER_LEN as int, m0) matches Some(h) && le_value(h.subrange(0, 4)) == REQ_IN,
        disk_answer(chain, m0, new, m1, r),
        all_read(new),
        forall|k: int|
            1 <= k <= new.len() ==> region_ok(
                #[trigger] placed(chain.writable@, read_pieces(chain.writable@, new), m0, k - 1),
                chain.writable@[k - 1].addr as int,
                chain.writable@[k - 1].len as int,
            ),
        ({
            let h = chain.read_at_spec(0, HEADER_LEN as int, m0)->0;
            le_value(h.subrange(8, 16)) * 512 + seg_total(chain.writable@, chain.writable@.len() - 1)
                <= u64::MAX
        }),
        seg_total(chain.writable@, chain.writable@.len() - 1) < u32::MAX,
    ensures
        ({
            let segs = chain.writable@;
            let n = segs.len() - 1;
            &&& new.len() == n
            &&& reads_of(segs, (le_value(chain.read_at_spec(0, HEADER_LEN as int, m0)->0.subrange(8, 16)) * 512) as int, new)
            &&& status_written(chain, placed(segs, read_pieces(segs, new), m0, n), STATUS_OK, seg_total(segs, n), m1, r)
        }),
{
    let segs = chain.writable@;
    let n = segs.len() - 1;
    let h = chain.read_at_spec(0, HEADER_LEN as int, m0)->0;
    let off: int = (le_value(h.subrange(8, 16)) * 512) as int;
    let pieces = read_pieces(segs, new);
    if new.len() > 0 {
        let k = new.len() as int;
        assert(new[k - 1] matches DiskOp::Read { data: Some(_), .. });
        lemma_seg_total_mono(segs, k, n);
        assert(region_ok(placed(segs, pieces, m0, k - 1), segs[k - 1].addr as int, segs[k - 1].len as int));
        assert(!read_stopped(segs, off, placed(segs, pieces, m0, k - 1), k));
    }
}

/// What answering one request chain does: the device goes from `b0` to `b1`
/// with the same capacity, memory from `m0` to `m1`, and the chain is
/// returned at once with the bytes written that `r` gives. A request that
/// the chain alone decides touches no disk; the others are answered as
/// [`disk_answer`] says.
pub open spec fn chain_done<D: DiskBackend>(b0: Blk<D>, b1: Blk<D>, chain: ChainData, m0: MemState, m1: MemState, r: ChainAction) -> bool {
    let new = b1.disk_ops().skip(b0.disk_ops().len() as int);
    &&& b1.sectors() == b0.sectors()
    &&& r is Complete
    &&& b1.disk_ops().len() >= b0.disk_ops().len()
    &&& b1.disk_ops().take(b0.disk_ops().len() as int) == b0.disk_ops()
    &&& chain.writable@.len() == 0 ==> r == ChainAction::Complete(0) && m1 == m0 && new.len() == 0
    &&& chain.writable@.len() > 0 ==> match known_status(chain, m0) {
        Some(st) => new.len() == 0 && status_written(chain, m0, st, 0, m1, r),
        None => disk_answer(chain, m0, new, m1, r),
    }
}

/// The handling of one request chain, as [`chain_done`] says; the transport
/// state is left to the caller.
pub open spec fn blk_step<D: DiskBackend>() -> spec_fn(Blk<D>, ChainAcc, ChainToken, CtxState, MemState, Blk<D>, CtxState, MemState, ChainAction) -> bool {
    |b0: Blk<D>, c: ChainAcc, tok: ChainToken, c0: CtxState, m0: MemState, b1: Blk<D>, c1: CtxState, m1: MemState, a: ChainAction|
        exists|chain: ChainData|
            #[trigger] chain_done(b0, b1, chain, m0, m1, a) && c1 == c0 && chain.wf() && c == (
                chain.readable@,
                chain.writable@,
                chain.readable_len as int,
            )
}

impl<D: DiskBackend> Device for Blk<D> {
    open spec fn notify_effect(&self, queue_idx: usize, c: CtxState, m: MemState, after: Self, c2: CtxState, m2: MemState) -> bool {
        &&& after.sectors() == self.sectors()
        &&& served(
            c,
            m,
            *self,
            queue_idx as int,
            MAX_BAD_CHAINS as nat,
            blk_step(),
            c2,
            m2,
            after,
        )
    }

    open spec fn reset_effect(&self, after: Self) -> bool {
        &&& after.sectors() == self.sectors()
    }

    open spec fn device_id(&self) -> u32 {
        DEVICE_ID
    }

    open spec fn feature_bits(&self) -> u64 {
        FEATURE_VERSION_1
    }

    open spec fn queue_count(&self) -> u16 {
        1
    }

    /// The capacity in sectors.
    open spec fn config_space(&self) -> Seq<u8> {
        le_bytes(self.sectors() as nat, 8)
    }

    open spec fn shm_region(&self, id: u32) -> Option<(u64, u64)> {
        None
    }

    fn id(&self) -> (r: u32) {
        DEVICE_ID
    }

    fn features(&self) -> (r: u64) {
        FEATURE_VERSION_1
    }

    fn num_queues(&self) -> (r: u16) {
        1
    }

    fn read_config(&self) -> (r: Vec<u8>) {
        u64_bytes(self.sectors)
    }

    fn write_config(&mut self, offset: u64, data: &[u8])
        ensures
            final(self).sectors() == old(self).sectors(),
    {
    }

    fn queue_notified(&mut self, queue_idx: usize, ctx: &mut DeviceContext, mem: &mut GuestMemory)
        ensures
            final(self).sectors() == old(self).sectors(),
            served(
                old(ctx)@,
                old(mem)@,
                *old(self),
                queue_idx as int,
                MAX_BAD_CHAINS as nat,
                blk_step(),
                final(ctx)@,
                final(mem)@,
                *final(self),
            ),
    {
        let ghost step = blk_step::<D>();
        let mut fuel: u32 = MAX_BAD_CHAINS;
        while fuel > 0
            invariant
                ctx.queues@.len() == old(ctx).queues@.len(),
                self.sectors() == old(self).sectors(),
                step == blk_step::<D>(),
                forall|c2: CtxState, m2: MemState, d2: Blk<D>|
                    #[trigger] served(ctx@, mem@, *self, queue_idx as int, fuel as nat, step, c2, m2, d2) ==> served(
                        old(ctx)@,
                        old(mem)@,
                        *old(self),
                        queue_idx as int,
                        MAX_BAD_CHAINS as nat,
                        step,
                        c2,
                        m2,
                        d2,
                    ),
            decreases fuel,
        {
            let ghost c0 = ctx@;
            let ghost m0 = mem@;
            let ghost b0 = *self;
            let ghost f0 = fuel;
            match ctx.pop_chain(queue_idx, mem) {
                Some(chain) => {
                    let ghost c_popped = ctx@;
                    let action = self.process_chain(&chain.data, mem);
                    let ghost m_done = mem@;
                    let ghost b_done = *self;
                    if let ChainAction::Complete(written) = action {
                        ctx.complete(chain.token, written, mem);
                    }
                    fuel = fuel - 1;
                    proof {
                        let acc = (chain.data.readable@, chain.data.writable@, chain.data.readable_len as int);
                        let s = next_chain(c0.0, m0, queue_idx as int, MAX_BAD_CHAINS as nat);
                        let got = s.3->0;
                        let tok = ChainToken { queue_idx: (queue_idx as int) as usize, head_idx: got.1 };
                        assert(tok == chain.token);
                        assert(c_popped == (s.0, raise(c0.1, s.2)));
                        assert(step(b0, got.0, tok, c_popped, s.1, b_done, c_popped, m_done, action));
                        assert(after_action(c_popped, m_done, tok, action) == (ctx@, mem@));
                        assert forall|c2: CtxState, m2: MemState, d2: Blk<D>|
                            #[trigger] served(ctx@, mem@, *self, queue_idx as int, fuel as nat, step, c2, m2, d2)
                            implies served(c0, m0, b0, queue_idx as int, f0 as nat, step, c2, m2, d2) by {
                            assert(served(
                                after_action(c_popped, m_done, tok, action).0,
                                after_action(c_popped, m_done, tok, action).1,
                                b_done,
                                queue_idx as int,
                                (f0 - 1) as nat,
                                step,
                                c2,
                                m2,
                                d2,
                            ));
                        }
                    }
                },
                None => {
                    fuel = 0;
                    proof {
                        assert forall|c2: CtxState, m2: MemState, d2: Blk<D>|
                            #[trigger] served(ctx@, mem@, *self, queue_idx as int, fuel as nat, step, c2, m2, d2)
                            implies served(c0, m0, b0, queue_idx as int, f0 as nat, step, c2, m2, d2) by {}
                    }
                },
            }
        }
        assert(served(ctx@, mem@, *self, queue_idx as int, 0, step, ctx@, mem@, *self));
    }

    fn reset(&mut self)
        ensures
            final(self).sectors() == old(self).sectors(),
    {
    }

    fn shared_memory_region(&self, id: u32) -> (r: Option<ShmRegion>) {
        None
    }
}

} // verus!
