//! The buffers of one descriptor chain: readable ones first, then writable ones.
use crate::memory::{read_spec, region_ok, written, GuestMemory, MemState};
use vstd::prelude::*;

verus! {

/// One guest buffer of a descriptor chain.
#[derive(Debug, Copy, Clone)]
pub struct Seg {
    pub addr: u64,
    pub len: u32,
}

/// The buffers of a chain. `readable_len` is the total length of the readable ones.
#[derive(Debug)]
pub struct ChainData {
    pub readable: Vec<Seg>,
    pub readable_len: usize,
    pub writable: Vec<Seg>,
}

/// The total length of `segs`.
pub open spec fn total_len(segs: Seq<Seg>) -> int
    decreases segs.len(),
{
    if segs.len() == 0 {
        0
    } else {
        segs[0].len + total_len(segs.drop_first())
    }
}

pub proof fn lemma_total_len_push(segs: Seq<Seg>, s: Seg)
    ensures
        total_len(segs.push(s)) == total_len(segs) + s.len,
    decreases segs.len(),
{
    if segs.len() == 0 {
        assert(segs.push(s).drop_first() =~= Seq::<Seg>::empty());
        assert(total_len(Seq::<Seg>::empty()) == 0);
    } else {
        assert(segs.push(s).drop_first() =~= segs.drop_first().push(s));
        lemma_total_len_push(segs.drop_first(), s);
    }
}

pub proof fn lemma_total_len_nonneg(segs: Seq<Seg>)
    ensures
        total_len(segs) >= 0,
    decreases segs.len(),
{
    if segs.len() > 0 {
        lemma_total_len_nonneg(segs.drop_first());
    }
}


/// `Some(a + r)` where `o` is `Some(r)`.
pub open spec fn prepend(a: Seq<u8>, o: Option<Seq<u8>>) -> Option<Seq<u8>> {
    match o {
        Some(r) => Some(a + r),
        None => None,
    }
}

proof fn lemma_prepend_assoc(a: Seq<u8>, b: Seq<u8>, o: Option<Seq<u8>>)
    ensures
        prepend(a, prepend(b, o)) == prepend(a + b, o),
{
    if let Some(r) = o {
        assert(a + (b + r) =~= (a + b) + r);
    }
}

/// The `len` bytes that start `offset` bytes into the buffers `segs`; `None`
/// where the buffers are too short or a buffer that holds some of them cannot
/// be read.
pub open spec fn read_segs(segs: Seq<Seg>, offset: int, len: int, mem: MemState) -> Option<Seq<u8>>
    decreases segs.len(),
{
    if len <= 0 {
        Some(Seq::empty())
    } else if segs.len() == 0 {
        None
    } else {
        let s = segs[0];
        if offset >= s.len {
            read_segs(segs.drop_first(), offset - s.len, len, mem)
        } else {
            let n = if s.len - offset < len {
                s.len - offset
            } else {
                len
            };
            match read_spec(mem, s.addr + offset, n) {
                Err(_) => None,
                Ok(b) => prepend(b, read_segs(segs.drop_first(), 0, len - n, mem)),
            }
        }
    }
}

proof fn lemma_read_segs_len(segs: Seq<Seg>, offset: int, len: int, mem: MemState)
    requires
        len >= 0,
    ensures
        read_segs(segs, offset, len, mem) matches Some(r) ==> r.len() == len,
    decreases segs.len(),
{
    if len > 0 && segs.len() > 0 {
        let s = segs[0];
        if offset >= s.len {
            lemma_read_segs_len(segs.drop_first(), offset - s.len, len, mem);
        } else {
            let n = if s.len - offset < len {
                s.len - offset
            } else {
                len
            };
            lemma_read_segs_len(segs.drop_first(), 0, len - n, mem);
        }
    }
}

/// What is written where `data` is copied into the buffers `segs` in order,
/// each filled before the next is begun: the memory after, and the number of
/// bytes written. Copying stops at the first buffer that is not wholly inside
/// guest memory.
pub open spec fn fill_segs(segs: Seq<Seg>, data: Seq<u8>, mem: MemState) -> (MemState, nat)
    decreases segs.len(),
{
    if data.len() == 0 || segs.len() == 0 {
        (mem, 0)
    } else {
        let s = segs[0];
        let n = if (s.len as int) < data.len() {
            s.len as int
        } else {
            data.len() as int
        };
        if n == 0 {
            fill_segs(segs.drop_first(), data, mem)
        } else if !region_ok(mem, s.addr as int, n) {
            (mem, 0)
        } else {
            let r = fill_segs(
                segs.drop_first(),
                data.subrange(n, data.len() as int),
                written(mem, s.addr as int, data.subrange(0, n)),
            );
            (r.0, (n + r.1) as nat)
        }
    }
}

proof fn lemma_fill_segs_bound(segs: Seq<Seg>, data: Seq<u8>, mem: MemState)
    ensures
        fill_segs(segs, data, mem).1 <= data.len(),
        fill_segs(segs, data, mem).0.0 == mem.0,
    decreases segs.len(),
{
    if data.len() == 0 || segs.len() == 0 {
    } else {
        let s = segs[0];
        let n = if (s.len as int) < data.len() {
            s.len as int
        } else {
            data.len() as int
        };
        if n == 0 {
            lemma_fill_segs_bound(segs.drop_first(), data, mem);
        } else if region_ok(mem, s.addr as int, n) {
            lemma_fill_segs_bound(
                segs.drop_first(),
                data.subrange(n, data.len() as int),
                written(mem, s.addr as int, data.subrange(0, n)),
            );
        }
    }
}

/// The concatenation of the byte strings `parts`.
pub open spec fn concat(parts: Seq<&[u8]>) -> Seq<u8>
    decreases parts.len(),
{
    if parts.len() == 0 {
        Seq::empty()
    } else {
        concat(parts.drop_last()) + parts.last()@
    }
}

/// A single slice, taken as a list of parts, is that slice.
pub proof fn lemma_concat_one(p: &[u8])
    ensures
        concat(seq![p]) == p@,
{
    assert(seq![p].drop_last() =~= Seq::<&[u8]>::empty());
    assert(concat(seq![p]) == concat(Seq::<&[u8]>::empty()) + p@);
    assert(Seq::<u8>::empty() + p@ =~= p@);
}

/// Joins `parts` into one byte string.
pub fn concat_parts(parts: &[&[u8]]) -> (r: Vec<u8>)
    ensures
        r@ == concat(parts@),
{
    let mut out: Vec<u8> = Vec::new();
    let mut i: usize = 0;
    while i < parts.len()
        invariant
            i <= parts@.len(),
            out@ == concat(parts@.subrange(0, i as int)),
        decreases parts@.len() - i,
    {
        let p = parts[i];
        let mut j: usize = 0;
        let ghost before = out@;
        while j < p.len()
            invariant
                j <= p@.len(),
                out@ == before + p@.subrange(0, j as int),
            decreases p@.len() - j,
        {
            out.push(p[j]);
            j = j + 1;
            proof {
                assert(out@ =~= before + p@.subrange(0, j as int));
            }
        }
        proof {
            assert(parts@.subrange(0, i + 1).drop_last() =~= parts@.subrange(0, i as int));
            assert(p@.subrange(0, j as int) =~= p@);
        }
        i = i + 1;
    }
    proof {
        assert(parts@.subrange(0, i as int) =~= parts@);
    }
    out
}

impl ChainData {
    /// `readable_len` is the total length of the readable buffers.
    pub open spec fn wf(&self) -> bool {
        self.readable_len == total_len(self.readable@)
    }

    pub fn readable_len(&self) -> (r: usize)
        ensures
            r == self.readable_len,
    {
        self.readable_len
    }

    /// What `read_at` gives for `len` bytes at `offset` of the readable buffers.
    pub open spec fn read_at_spec(&self, offset: int, len: int, mem: MemState) -> Option<Seq<u8>> {
        if offset + len > self.readable_len {
            None
        } else {
            read_segs(self.readable@, offset, len, mem)
        }
    }

    /// Reads `len` bytes at `offset` of the readable buffers taken together.
    pub fn read_at(&self, offset: usize, len: usize, mem: &GuestMemory) -> (r: Option<Vec<u8>>)
        ensures
            match r {
                Some(v) => self.read_at_spec(offset as int, len as int, mem@) == Some(v@) && v@.len()
                    == len,
                None => self.read_at_spec(offset as int, len as int, mem@) is None,
            },
    {
        proof {
            lemma_read_segs_len(self.readable@, offset as int, len as int, mem@);
        }
        let end = match offset.checked_add(len) {
            Some(e) => e,
            None => return None,
        };
        if end > self.readable_len {
            return None;
        }
        let ghost full = read_segs(self.readable@, offset as int, len as int, mem@);
        let mut out: Vec<u8> = Vec::new();
        proof {
            assert(self.readable@.skip(0) =~= self.readable@);
            if let Some(r) = full {
                assert(Seq::<u8>::empty() + r =~= r);
            }
        }
        let mut off = offset;
        let mut i: usize = 0;
        let n = self.readable.len();
        while i < n && out.len() < len
            invariant
                n == self.readable@.len(),
                full == read_segs(self.readable@, offset as int, len as int, mem@),
                offset + len <= self.readable_len,
                i <= n,
                out@.len() <= len,
                prepend(
                    out@,
                    read_segs(self.readable@.skip(i as int), off as int, len - out@.len(), mem@),
                ) == full,
            decreases n - i,
        {
            let seg = self.readable[i];
            let ghost rest = self.readable@.skip(i as int);
            proof {
                assert(rest[0] == seg);
                assert(rest.drop_first() =~= self.readable@.skip(i + 1));
            }
            let seg_len = seg.len as usize;
            if off >= seg_len {
                off = off - seg_len;
                i = i + 1;
            } else {
                let want = len - out.len();
                let take = if seg_len - off < want {
                    seg_len - off
                } else {
                    want
                };
                let addr = match seg.addr.checked_add(off as u64) {
                    Some(a) => a,
                    None => {
                        proof {
                            assert(read_spec(mem@, seg.addr + off, take as int) is Err);
                            assert(read_segs(rest, off as int, want as int, mem@) is None);
                        }
                        return None;
                    },
                };
                let mut bytes = match mem.read(addr, take) {
                    Ok(b) => b,
                    Err(_) => {
                        proof {
                            assert(read_segs(rest, off as int, want as int, mem@) is None);
                        }
                        return None;
                    },
                };
                proof {
                    lemma_prepend_assoc(
                        out@,
                        bytes@,
                        read_segs(self.readable@.skip(i + 1), 0, want - take, mem@),
                    );
                }
                out.append(&mut bytes);
                off = 0;
                i = i + 1;
            }
        }
        if out.len() == len {
            proof {
                assert(out@ + Seq::<u8>::empty() =~= out@);
            }
            Some(out)
        } else {
            proof {
                assert(self.readable@.skip(i as int) =~= Seq::<Seg>::empty());
            }
            None
        }
    }

    /// Copies the concatenation of `parts` into the writable buffers in
    /// order; returns how many bytes were copied.
    pub fn write_parts(&self, parts: &[&[u8]], mem: &mut GuestMemory) -> (r: u32)
        requires
            concat(parts@).len() <= u32::MAX,
        ensures
            (final(mem)@, r as nat) == fill_segs(self.writable@, concat(parts@), old(mem)@),
    {
        let data = concat_parts(parts);
        self.write_response(data.as_slice(), mem)
    }

    /// Copies `data` into the writable buffers in order; returns how many
    /// bytes were copied.
    pub fn write_response(&self, data: &[u8], mem: &mut GuestMemory) -> (r: u32)
        requires
            data@.len() <= u32::MAX,
        ensures
            (final(mem)@, r as nat) == fill_segs(self.writable@, data@, old(mem)@),
    {
        let ghost target = fill_segs(self.writable@, data@, old(mem)@);
        proof {
            assert(self.writable@.skip(0) =~= self.writable@);
            assert(data@.subrange(0, data@.len() as int) =~= data@);
        }
        let mut done: usize = 0;
        let mut i: usize = 0;
        let n = self.writable.len();
        let total = data.len();
        while i < n && done < total
            invariant
                n == self.writable@.len(),
                target == fill_segs(self.writable@, data@, old(mem)@),
                total == data@.len(),
                total <= u32::MAX,
                i <= n,
                done <= total,
                fill_segs(self.writable@.skip(i as int), data@.subrange(done as int, total as int), mem@).0
                    == target.0,
                done + fill_segs(
                    self.writable@.skip(i as int),
                    data@.subrange(done as int, total as int),
                    mem@,
                ).1 == target.1,
            decreases n - i,
        {
            let seg = self.writable[i];
            let ghost rest = self.writable@.skip(i as int);
            let ghost d = data@.subrange(done as int, total as int);
            proof {
                assert(rest[0] == seg);
                assert(rest.drop_first() =~= self.writable@.skip(i + 1));
            }
            let seg_len = seg.len as usize;
            let take = if seg_len < total - done {
                seg_len
            } else {
                total - done
            };
            if take > 0 {
                if mem.checked_offset(seg.addr, take).is_err() {
                    proof {
                        assert(!region_ok(mem@, seg.addr as int, take as int));
                        assert(fill_segs(rest, d, mem@) == (mem@, 0nat));
                    }
                    return done as u32;
                }
                let piece = vstd::slice::slice_subrange(data, done, done + take);
                proof {
                    assert(piece@ =~= d.subrange(0, take as int));
                    assert(d.subrange(take as int, d.len() as int) =~= data@.subrange(
                        done + take,
                        total as int,
                    ));
                }
                let _ = mem.write(seg.addr, piece);
                done = done + take;
            }
            i = i + 1;
        }
        proof {
            if done < total {
                assert(self.writable@.skip(i as int) =~= Seq::<Seg>::empty());
            }
        }
        done as u32
    }
}

} // verus!
