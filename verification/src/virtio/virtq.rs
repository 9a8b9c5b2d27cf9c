//! Split virtqueues: descriptor table, available ring and used ring in guest memory.
use crate::bytes::{le_bytes, lemma_le_bytes_len};
use crate::memory::{le_at, region_ok, written, GuestMemory, MemState};
use crate::virtio::chain::{lemma_total_len_push, total_len, ChainData, Seg};
use vstd::prelude::*;

verus! {

/// The descriptor continues in the one named by `next`.
pub const DESC_F_NEXT: u16 = 1;

/// The device writes into the descriptor's buffer.
pub const DESC_F_WRITE: u16 = 2;

/// The descriptor points at a table of descriptors.
pub const DESC_F_INDIRECT: u16 = 4;

/// Size in bytes of one descriptor table entry.
pub const DESC_SIZE: u64 = 16;

/// Size in bytes of the available and used ring headers.
pub const RING_HEADER_SIZE: u64 = 4;

/// Size in bytes of one used ring entry.
pub const USED_ELEM_SIZE: u64 = 8;

/// A descriptor table entry.
#[derive(Debug, Copy, Clone)]
pub struct Desc {
    pub addr: u64,
    pub len: u32,
    pub flags: u16,
    pub next: u16,
}

/// The header of the available ring.
#[derive(Debug, Copy, Clone)]
pub struct AvailHeader {
    pub flags: u16,
    pub idx: u16,
}

/// The header of the used ring.
#[derive(Debug, Copy, Clone)]
pub struct UsedHeader {
    pub flags: u16,
    pub idx: u16,
}

/// The descriptor stored at `offset`, if all of its bytes can be read.
pub open spec fn desc_at(mem: MemState, offset: int) -> Option<Desc> {
    match (le_at(mem, offset, 8), le_at(mem, offset + 8, 4), le_at(mem, offset + 12, 2), le_at(mem, 
        offset + 14,
        2,
    )) {
        (Some(a), Some(l), Some(f), Some(n)) => Some(
            Desc { addr: a as u64, len: l as u32, flags: f as u16, next: n as u16 },
        ),
        _ => None,
    }
}

impl Desc {
    /// Reads the descriptor at guest address `offset`.
    pub fn new(offset: u64, mem: &GuestMemory) -> (r: Option<Desc>)
        ensures
            r == desc_at(mem@, offset as int),
    {
        let addr = mem.read_u64_at(offset, 0);
        let len = mem.read_u32_at(offset, 8);
        let flags = mem.read_u16_at(offset, 12);
        let next = mem.read_u16_at(offset, 14);
        match (addr, len, flags, next) {
            (Some(addr), Some(len), Some(flags), Some(next)) => Some(Desc { addr, len, flags, next }),
            _ => None,
        }
    }

    pub open spec fn next_spec(self) -> Option<u16> {
        if self.flags & DESC_F_NEXT != 0 {
            Some(self.next)
        } else {
            None
        }
    }

    /// The index of the next descriptor of the chain, if there is one.
    pub fn next(&self) -> (r: Option<u16>)
        ensures
            r == self.next_spec(),
    {
        if self.flags & DESC_F_NEXT != 0 {
            Some(self.next)
        } else {
            None
        }
    }

    pub open spec fn writable_spec(self) -> bool {
        self.flags & DESC_F_WRITE != 0
    }

    /// The device may write into this descriptor's buffer.
    pub fn is_writable(&self) -> (r: bool)
        ensures
            r == self.writable_spec(),
    {
        (self.flags & DESC_F_WRITE) != 0
    }
}

/// The state of a virtqueue.
#[derive(Copy, Clone)]
pub struct Queue {
    pub ready: bool,
    size: u16,
    desc_addr: u64,
    avail_addr: u64,
    used_addr: u64,
    last_avail_idx: u16,
    last_used_idx: u16,
}

/// The mathematical model of a [`Queue`].
pub struct QueueView {
    pub ready: bool,
    pub size: u16,
    pub desc_addr: u64,
    pub avail_addr: u64,
    pub used_addr: u64,
    pub last_avail_idx: u16,
    pub last_used_idx: u16,
}

impl View for Queue {
    type V = QueueView;

    closed spec fn view(&self) -> QueueView {
        QueueView {
            ready: self.ready,
            size: self.size,
            desc_addr: self.desc_addr,
            avail_addr: self.avail_addr,
            used_addr: self.used_addr,
            last_avail_idx: self.last_avail_idx,
            last_used_idx: self.last_used_idx,
        }
    }
}

/// `i + 1`, wrapping at 2^16.
pub open spec fn wrap_inc(i: u16) -> u16 {
    if i == u16::MAX {
        0
    } else {
        (i + 1) as u16
    }
}

/// A queue that is not ready and has no rings.
pub open spec fn idle_queue() -> QueueView {
    QueueView {
        ready: false,
        size: 0,
        desc_addr: 0,
        avail_addr: 0,
        used_addr: 0,
        last_avail_idx: 0,
        last_used_idx: 0,
    }
}

/// What taking the next available chain head does: the new state and the head.
pub open spec fn pop_spec(q: QueueView, mem: MemState) -> (QueueView, Option<u16>) {
    if !q.ready || q.size == 0 {
        (q, None)
    } else {
        match le_at(mem, q.avail_addr + 2, 2) {
            None => (q, None),
            Some(avail_idx) => if avail_idx == q.last_avail_idx {
                (q, None)
            } else {
                let ring_idx = q.last_avail_idx % q.size;
                match le_at(mem, q.avail_addr + RING_HEADER_SIZE + ring_idx * 2, 2) {
                    None => (q, None),
                    Some(head) => if head >= q.size {
                        (q, None)
                    } else {
                        (
                            QueueView { last_avail_idx: wrap_inc(q.last_avail_idx), ..q },
                            Some(head as u16),
                        )
                    },
                }
            },
        }
    }
}

/// The descriptor with index `idx`, if it is in the table and can be read.
pub open spec fn read_desc_spec(q: QueueView, idx: u16, mem: MemState) -> Option<Desc> {
    if idx >= q.size {
        None
    } else {
        desc_at(mem, q.desc_addr + idx * DESC_SIZE)
    }
}

/// The buffers collected so far: readable, writable, and the readable total.
pub type ChainAcc = (Seq<Seg>, Seq<Seg>, int);

/// The buffers of the chain that goes on at `cur`, added to `acc`, when at
/// most `fuel` more descriptors may be visited. `None` where the chain is
/// too long or loops, a descriptor cannot be read, is indirect, a readable
/// buffer follows a writable one, or the readable total passes `usize::MAX`.
pub open spec fn walk(
    q: QueueView,
    mem: MemState,
    cur: Option<u16>,
    fuel: nat,
    seen_writable: bool,
    acc: ChainAcc,
) -> Option<ChainAcc>
    decreases fuel,
{
    match cur {
        None => Some(acc),
        Some(idx) => if fuel == 0 {
            None
        } else {
            match read_desc_spec(q, idx, mem) {
                None => None,
                Some(d) => if d.flags & DESC_F_INDIRECT != 0 {
                    None
                } else {
                    let seg = Seg { addr: d.addr, len: d.len };
                    if d.writable_spec() {
                        walk(
                            q,
                            mem,
                            d.next_spec(),
                            (fuel - 1) as nat,
                            true,
                            (acc.0, acc.1.push(seg), acc.2),
                        )
                    } else if seen_writable || acc.2 + d.len > usize::MAX {
                        None
                    } else {
                        walk(
                            q,
                            mem,
                            d.next_spec(),
                            (fuel - 1) as nat,
                            false,
                            (acc.0.push(seg), acc.1, acc.2 + d.len),
                        )
                    }
                },
            }
        },
    }
}

/// The chain that starts at `head`.
pub open spec fn collect_spec(q: QueueView, head: u16, mem: MemState) -> Option<ChainAcc> {
    walk(q, mem, Some(head), q.size as nat, false, (Seq::empty(), Seq::empty(), 0))
}

/// The guest address of the used ring entry that the next completion fills.
pub open spec fn used_entry_addr(q: QueueView) -> int {
    q.used_addr + RING_HEADER_SIZE + (q.last_used_idx % q.size) * USED_ELEM_SIZE
}

/// A completion can be recorded: the queue is live, the head is in range and
/// the used ring entry and index lie in guest memory.
pub open spec fn push_ok(q: QueueView, mem: MemState, head_idx: u16) -> bool {
    &&& q.ready
    &&& q.size != 0
    &&& head_idx < q.size
    &&& region_ok(mem, used_entry_addr(q), 8)
    &&& region_ok(mem, q.used_addr + 2, 2)
}

/// The guest memory after a completion of `head_idx` with `written_len` bytes.
pub open spec fn pushed(q: QueueView, mem: MemState, head_idx: u16, written_len: u32) -> MemState {
    let e = used_entry_addr(q);
    let m1 = written(mem, e, le_bytes(head_idx as nat, 4));
    let m2 = written(m1, e + 4, le_bytes(written_len as nat, 4));
    written(m2, q.used_addr + 2, le_bytes(wrap_inc(q.last_used_idx) as nat, 2))
}

/// The queue and guest memory after completing `head_idx` with `written_len`
/// bytes: recorded where `push_ok` holds, unchanged where it does not.
pub open spec fn push_spec(q: QueueView, mem: MemState, head_idx: u16, written_len: u32) -> (
    QueueView,
    MemState,
) {
    if push_ok(q, mem, head_idx) {
        (
            QueueView { last_used_idx: wrap_inc(q.last_used_idx), ..q },
            pushed(q, mem, head_idx, written_len),
        )
    } else {
        (q, mem)
    }
}

impl Default for Queue {
    fn default() -> (q: Queue)
        ensures
            q@ == idle_queue(),
    {
        Queue::new(false, 0, 0, 0, 0)
    }
}

impl Queue {
    /// A queue with the given rings and no buffer taken or returned yet.
    pub fn new(ready: bool, size: u16, desc_addr: u64, avail_addr: u64, used_addr: u64) -> (q: Queue)
        ensures
            q@ == (QueueView {
                ready,
                size,
                desc_addr,
                avail_addr,
                used_addr,
                last_avail_idx: 0,
                last_used_idx: 0,
            }),
    {
        Queue { ready, size, desc_addr, avail_addr, used_addr, last_avail_idx: 0, last_used_idx: 0 }
    }

    pub fn is_ready(&self) -> (r: bool)
        ensures
            r == self@.ready,
    {
        self.ready
    }

    /// Marks the queue not ready; everything else stays.
    pub fn disable(&mut self)
        ensures
            final(self)@ == (QueueView { ready: false, ..old(self)@ }),
    {
        self.ready = false;
    }

    pub fn size(&self) -> (r: u16)
        ensures
            r == self@.size,
    {
        self.size
    }

    /// Takes the head of the next chain that the driver made available.
    pub fn pop_chain(&mut self, mem: &GuestMemory) -> (r: Option<u16>)
        ensures
            (final(self)@, r) == pop_spec(old(self)@, mem@),
    {
        if !self.ready || self.size == 0 {
            return None;
        }
        let avail_idx = match mem.read_u16_at(self.avail_addr, 2) {
            Some(v) => v,
            None => return None,
        };
        if avail_idx == self.last_avail_idx {
            return None;
        }
        let ring_idx = self.last_avail_idx % self.size;
        let head_idx = match mem.read_u16_at(self.avail_addr, RING_HEADER_SIZE + ring_idx as u64 * 2) {
            Some(v) => v,
            None => return None,
        };
        if head_idx >= self.size {
            return None;
        }
        self.last_avail_idx = self.last_avail_idx.wrapping_add(1);
        Some(head_idx)
    }

    /// Reads the descriptor with index `idx`.
    pub fn read_desc(&self, idx: u16, mem: &GuestMemory) -> (r: Option<Desc>)
        ensures
            r == read_desc_spec(self@, idx, mem@),
    {
        if idx >= self.size {
            return None;
        }
        match self.desc_addr.checked_add(idx as u64 * DESC_SIZE) {
            Some(offset) => Desc::new(offset, mem),
            None => {
                proof {
                    assert(le_at(mem@, self.desc_addr + idx * DESC_SIZE, 8) is None);
                }
                None
            },
        }
    }

    /// Records in the used ring that chain `head_idx` is done and `written`
    /// bytes were written into it. Nothing changes unless `push_ok` holds.
    pub fn push_used(&mut self, mem: &mut GuestMemory, head_idx: u16, written_len: u32)
        ensures
            (final(self)@, final(mem)@) == push_spec(old(self)@, old(mem)@, head_idx, written_len),
    {
        if !self.ready || self.size == 0 || head_idx >= self.size {
            return;
        }
        let ring_idx = self.last_used_idx % self.size;
        let ring_addr = match self.used_addr.checked_add(
            RING_HEADER_SIZE + ring_idx as u64 * USED_ELEM_SIZE,
        ) {
            Some(a) => a,
            None => return,
        };
        let idx_addr = match self.used_addr.checked_add(2) {
            Some(a) => a,
            None => return,
        };
        if mem.checked_offset(ring_addr, 8).is_err() || mem.checked_offset(idx_addr, 2).is_err() {
            return;
        }
        let ghost m0 = *mem;
        proof {
            lemma_le_bytes_len(head_idx as nat, 4);
            lemma_le_bytes_len(written_len as nat, 4);
            lemma_le_bytes_len(wrap_inc(self.last_used_idx) as nat, 2);
        }
        let _ = mem.write_u32(ring_addr, head_idx as u32);
        let ghost m1 = *mem;
        let _ = mem.write_u32(ring_addr + 4, written_len);
        let ghost m2 = *mem;
        self.last_used_idx = self.last_used_idx.wrapping_add(1);
        let _ = mem.write_u16(idx_addr, self.last_used_idx);
        proof {
            assert(push_ok(old(self)@, m0@, head_idx));
            assert(m1@.1.len() == m0@.1.len());
            assert(m2@.1.len() == m0@.1.len());
        }
    }

    /// Follows the chain that starts at `head_idx` and collects its buffers.
    pub fn collect_chain(&self, head_idx: u16, mem: &GuestMemory) -> (r: Option<ChainData>)
        ensures
            match r {
                Some(c) => c.wf() && collect_spec(self@, head_idx, mem@) == Some(
                    (c.readable@, c.writable@, c.readable_len as int),
                ),
                None => collect_spec(self@, head_idx, mem@) is None,
            },
    {
        let mut out = ChainData { readable: Vec::new(), readable_len: 0, writable: Vec::new() };
        let mut cur = Some(head_idx);
        let mut seen_writable = false;
        let mut count: usize = 0;
        let size = self.size as usize;
        while cur.is_some()
            invariant
                count <= size,
                size == self@.size,
                out.wf(),
                walk(
                    self@,
                    mem@,
                    cur,
                    (size - count) as nat,
                    seen_writable,
                    (out.readable@, out.writable@, out.readable_len as int),
                ) == collect_spec(self@, head_idx, mem@),
            decreases size - count,
        {
            let idx = cur.unwrap();
            if count >= size {
                return None;
            }
            count = count + 1;
            let desc = match self.read_desc(idx, mem) {
                Some(d) => d,
                None => return None,
            };
            if desc.flags & DESC_F_INDIRECT != 0 {
                return None;
            }
            let seg = Seg { addr: desc.addr, len: desc.len };
            if desc.is_writable() {
                seen_writable = true;
                out.writable.push(seg);
            } else {
                if seen_writable {
                    return None;
                }
                proof {
                    lemma_total_len_push(out.readable@, seg);
                }
                out.readable.push(seg);
                out.readable_len = match out.readable_len.checked_add(desc.len as usize) {
                    Some(n) => n,
                    None => return None,
                };
            }
            cur = desc.next();
        }
        Some(out)
    }

    /// Forgets the rings and the ring positions.
    pub fn reset(&mut self)
        ensures
            final(self)@ == idle_queue(),
    {
        self.ready = false;
        self.size = 0;
        self.desc_addr = 0;
        self.avail_addr = 0;
        self.used_addr = 0;
        self.last_avail_idx = 0;
        self.last_used_idx = 0;
    }
}

} // verus!
