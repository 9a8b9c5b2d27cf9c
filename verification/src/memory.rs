//! Guest RAM: a byte store that the guest sees at one physical base address.
use crate::bytes::{le_bytes, le_value, lemma_le_bytes_len, u16_le, u32_le};
use vstd::prelude::*;

verus! {

/// `s` with the bytes from `off` on replaced by `data`.
pub open spec fn overwrite(s: Seq<u8>, off: int, data: Seq<u8>) -> Seq<u8> {
    s.subrange(0, off) + data + s.subrange(off + data.len(), s.len() as int)
}

/// Why a guest memory access was refused.
#[derive(Debug, Clone, Copy, PartialEq, Eq)]
pub enum MemError {
    /// The memory has not been given a guest physical address yet.
    Unmapped,
    /// The range is not wholly inside the mapping.
    BadArgument,
}

/// Guest RAM: the bytes that the guest sees from its mapping address on,
/// once the memory has been mapped.
pub struct GuestMemory {
    guest_addr: Option<u64>,
    bytes: Vec<u8>,
}

/// The model of guest memory: where it is mapped, if it is, and its bytes.
pub type MemState = (Option<u64>, Seq<u8>);

/// The range `[addr, addr + len)` lies inside the mapping, whose end fits in 64 bits.
pub open spec fn region_ok(m: MemState, addr: int, len: int) -> bool {
    match m.0 {
        Some(base) => {
            &&& base <= addr
            &&& 0 <= len
            &&& addr + len <= base + m.1.len()
            &&& base + m.1.len() <= u64::MAX
        },
        None => false,
    }
}

/// The bytes of `[addr, addr + len)`; meaningful where `region_ok` holds.
pub open spec fn slice(m: MemState, addr: int, len: int) -> Seq<u8> {
    let off = addr - m.0->0;
    m.1.subrange(off, off + len)
}

/// What an access of `len` bytes at `addr` is answered.
pub open spec fn check(m: MemState, addr: int, len: int) -> Result<(), MemError> {
    if m.0 is None {
        Err(MemError::Unmapped)
    } else if !region_ok(m, addr, len) {
        Err(MemError::BadArgument)
    } else {
        Ok(())
    }
}

/// The bytes that a read of `len` bytes at `addr` gives, or why it is refused.
pub open spec fn read_spec(m: MemState, addr: int, len: int) -> Result<Seq<u8>, MemError> {
    match check(m, addr, len) {
        Ok(_) => Ok(slice(m, addr, len)),
        Err(e) => Err(e),
    }
}

/// The little-endian value of `n` bytes at `addr`, or why the read is refused.
pub open spec fn read_le(m: MemState, addr: int, n: int) -> Result<nat, MemError> {
    match read_spec(m, addr, n) {
        Ok(s) => Ok(le_value(s)),
        Err(e) => Err(e),
    }
}

/// The little-endian value of `n` bytes at `addr`, if the read succeeds.
pub open spec fn le_at(m: MemState, addr: int, n: int) -> Option<nat> {
    match read_le(m, addr, n) {
        Ok(v) => Some(v),
        Err(_) => None,
    }
}

/// The memory after `data` has been written at `addr`.
pub open spec fn written(m: MemState, addr: int, data: Seq<u8>) -> MemState {
    (m.0, overwrite(m.1, addr - m.0->0, data))
}

/// The memory after a write of `data` at `addr`: written where the range is
/// inside the mapping, unchanged where it is not.
pub open spec fn write_result(m: MemState, addr: int, data: Seq<u8>) -> MemState {
    if region_ok(m, addr, data.len() as int) {
        written(m, addr, data)
    } else {
        m
    }
}

/// A read gives back what a write wrote: after `data` is written at `addr`
/// inside the mapping, reading as many bytes there gives `data`.
pub proof fn lemma_read_after_write(m: MemState, addr: int, data: Seq<u8>)
    requires
        region_ok(m, addr, data.len() as int),
    ensures
        read_spec(write_result(m, addr, data), addr, data.len() as int) == Ok::<Seq<u8>, MemError>(data),
{
    let w = write_result(m, addr, data);
    assert(region_ok(w, addr, data.len() as int));
    assert(slice(w, addr, data.len() as int) =~= data);
}

/// A write leaves alone what it does not cover: a range of memory apart from
/// the written one reads the same before and after.
pub proof fn lemma_write_elsewhere(m: MemState, addr: int, data: Seq<u8>, a2: int, n2: int)
    requires
        0 <= n2,
        a2 + n2 <= addr || addr + data.len() <= a2,
    ensures
        read_spec(write_result(m, addr, data), a2, n2) == read_spec(m, a2, n2),
{
    let w = write_result(m, addr, data);
    if region_ok(m, addr, data.len() as int) && region_ok(m, a2, n2) {
        assert(slice(w, a2, n2) =~= slice(m, a2, n2));
    }
}

/// A write that is refused changes nothing.
pub proof fn lemma_refused_write(m: MemState, addr: int, data: Seq<u8>)
    requires
        !region_ok(m, addr, data.len() as int),
    ensures
        write_result(m, addr, data) == m,
{
}

impl View for GuestMemory {
    type V = MemState;

    closed spec fn view(&self) -> MemState {
        (self.guest_addr, self.bytes@)
    }
}

impl GuestMemory {
    /// `size` zeroed bytes, not yet mapped into the guest.
    pub fn new(size: usize) -> (m: GuestMemory)
        ensures
            m@.0 is None,
            m@.1 == Seq::new(size as nat, |_i: int| 0u8),
    {
        let bytes = vec![0u8; size];
        proof {
            assert(bytes@ =~= Seq::new(size as nat, |_i: int| 0u8));
        }
        GuestMemory { guest_addr: None, bytes }
    }

    /// Guest RAM made of `bytes`, not yet mapped into the guest.
    pub fn from_bytes(bytes: Vec<u8>) -> (m: GuestMemory)
        ensures
            m@ == (None::<u64>, bytes@),
    {
        GuestMemory { guest_addr: None, bytes }
    }

    /// Places the memory at guest physical address `guest_addr`.
    pub fn map(&mut self, guest_addr: u64)
        ensures
            final(self)@ == (Some(guest_addr), old(self)@.1),
    {
        self.guest_addr = Some(guest_addr);
    }

    pub fn guest_addr(&self) -> (r: Option<u64>)
        ensures
            r == self@.0,
    {
        self.guest_addr
    }

    pub fn size(&self) -> (r: usize)
        ensures
            r == self@.1.len(),
    {
        self.bytes.len()
    }

    /// The host bytes behind the guest mapping.
    pub fn as_bytes(&self) -> (r: &[u8])
        ensures
            r@ == self@.1,
    {
        self.bytes.as_slice()
    }

    /// The offset into the memory of guest address `guest_addr`, if `len`
    /// bytes from there lie inside the mapping.
    pub fn checked_offset(&self, guest_addr: u64, len: usize) -> (r: Result<usize, MemError>)
        ensures
            match r {
                Ok(off) => check(self@, guest_addr as int, len as int) is Ok && off == guest_addr
                    - self@.0->0,
                Err(e) => check(self@, guest_addr as int, len as int) == Err::<(), MemError>(e),
            },
    {
        let base = match self.guest_addr {
            Some(b) => b,
            None => return Err(MemError::Unmapped),
        };
        if guest_addr < base {
            return Err(MemError::BadArgument);
        }
        let end = match guest_addr.checked_add(len as u64) {
            Some(e) => e,
            None => return Err(MemError::BadArgument),
        };
        let mapping_end = match base.checked_add(self.bytes.len() as u64) {
            Some(e) => e,
            None => return Err(MemError::BadArgument),
        };
        if end > mapping_end {
            return Err(MemError::BadArgument);
        }
        Ok((guest_addr - base) as usize)
    }

    /// Reads `len` bytes at `guest_addr`.
    pub fn read(&self, guest_addr: u64, len: usize) -> (r: Result<Vec<u8>, MemError>)
        ensures
            match r {
                Ok(v) => read_spec(self@, guest_addr as int, len as int) == Ok::<Seq<u8>, MemError>(
                    v@,
                ),
                Err(e) => read_spec(self@, guest_addr as int, len as int) == Err::<
                    Seq<u8>,
                    MemError,
                >(e),
            },
    {
        let off = match self.checked_offset(guest_addr, len) {
            Ok(o) => o,
            Err(e) => return Err(e),
        };
        let n = self.bytes.len();
        let mut out: Vec<u8> = Vec::with_capacity(len);
        let mut i: usize = 0;
        while i < len
            invariant
                region_ok(self@, guest_addr as int, len as int),
                off == guest_addr - self@.0->0,
                off + len <= self.bytes@.len(),
                n == self.bytes@.len(),
                i <= len,
                out@ == slice(self@, guest_addr as int, i as int),
            decreases len - i,
        {
            out.push(self.bytes[off + i]);
            i = i + 1;
            proof {
                assert(out@ =~= slice(self@, guest_addr as int, i as int));
            }
        }
        Ok(out)
    }

    /// Writes `data` at `guest_addr`.
    pub fn write(&mut self, guest_addr: u64, data: &[u8]) -> (r: Result<(), MemError>)
        ensures
            r == check(old(self)@, guest_addr as int, data@.len() as int),
            final(self)@ == write_result(old(self)@, guest_addr as int, data@),
    {
        let off = match self.checked_offset(guest_addr, data.len()) {
            Ok(o) => o,
            Err(e) => return Err(e),
        };
        let ghost start = self.bytes@;
        let n = self.bytes.len();
        let mut i: usize = 0;
        while i < data.len()
            invariant
                region_ok(old(self)@, guest_addr as int, data@.len() as int),
                self.guest_addr == old(self)@.0,
                off == guest_addr - old(self)@.0->0,
                off + data@.len() <= start.len(),
                n == start.len(),
                start == old(self)@.1,
                i <= data@.len(),
                self.bytes@.len() == start.len(),
                forall|k: int|
                    0 <= k < start.len() ==> #[trigger] self.bytes@[k] == if off <= k < off + i {
                        data@[k - off]
                    } else {
                        start[k]
                    },
            decreases data@.len() - i,
        {
            self.bytes.set(off + i, data[i]);
            i = i + 1;
        }
        proof {
            assert(self.bytes@ =~= written(old(self)@, guest_addr as int, data@).1);
        }
        Ok(())
    }

    /// Reads a little-endian `u16` at `guest_addr`.
    pub fn read_u16(&self, guest_addr: u64) -> (r: Result<u16, MemError>)
        ensures
            match r {
                Ok(v) => read_le(self@, guest_addr as int, 2) == Ok::<nat, MemError>(v as nat),
                Err(e) => read_le(self@, guest_addr as int, 2) == Err::<nat, MemError>(e),
            },
    {
        let b = match self.read(guest_addr, 2) {
            Ok(b) => b,
            Err(e) => return Err(e),
        };
        let v = b[0] as u16 + (b[1] as u16) * 256;
        proof {
            reveal_with_fuel(le_value, 3);
        }
        Ok(v)
    }

    /// Reads a little-endian `u32` at `guest_addr`.
    pub fn read_u32(&self, guest_addr: u64) -> (r: Result<u32, MemError>)
        ensures
            match r {
                Ok(v) => read_le(self@, guest_addr as int, 4) == Ok::<nat, MemError>(v as nat),
                Err(e) => read_le(self@, guest_addr as int, 4) == Err::<nat, MemError>(e),
            },
    {
        let b = match self.read(guest_addr, 4) {
            Ok(b) => b,
            Err(e) => return Err(e),
        };
        let v = b[0] as u32 + 256 * (b[1] as u32 + 256 * (b[2] as u32 + 256 * (b[3] as u32)));
        proof {
            reveal_with_fuel(le_value, 5);
            assert(b@.drop_first().drop_first().drop_first().drop_first() =~= Seq::<u8>::empty());
        }
        Ok(v)
    }

    /// Reads a little-endian `u64` at `guest_addr`.
    pub fn read_u64(&self, guest_addr: u64) -> (r: Result<u64, MemError>)
        ensures
            match r {
                Ok(v) => read_le(self@, guest_addr as int, 8) == Ok::<nat, MemError>(v as nat),
                Err(e) => read_le(self@, guest_addr as int, 8) == Err::<nat, MemError>(e),
            },
    {
        let b = match self.read(guest_addr, 8) {
            Ok(b) => b,
            Err(e) => return Err(e),
        };
        let hi = b[4] as u64 + 256 * (b[5] as u64 + 256 * (b[6] as u64 + 256 * (b[7] as u64)));
        let v = b[0] as u64 + 256 * (b[1] as u64 + 256 * (b[2] as u64 + 256 * (b[3] as u64 + 256
            * hi)));
        proof {
            reveal_with_fuel(le_value, 9);
            let s = b@;
            assert(s.drop_first().drop_first().drop_first().drop_first() =~= s.subrange(4, 8));
            assert(s.subrange(4, 8).drop_first().drop_first().drop_first().drop_first()
                =~= Seq::<u8>::empty());
            assert(le_value(s.subrange(4, 8)) == hi);
        }
        Ok(v)
    }

    proof fn lemma_past_end_fails(&self, addr: int, n: int)
        requires
            addr > u64::MAX,
        ensures
            read_le(self@, addr, n) is Err,
    {
    }

    /// Reads a little-endian `u16` at `base + off`; `None` where the read is
    /// refused, the sum past 64 bits included.
    pub fn read_u16_at(&self, base: u64, off: u64) -> (r: Option<u16>)
        ensures
            match r {
                Some(v) => le_at(self@, base + off, 2) == Some(v as nat),
                None => le_at(self@, base + off, 2) is None,
            },
    {
        match base.checked_add(off) {
            Some(a) => match self.read_u16(a) {
                Ok(v) => Some(v),
                Err(_) => None,
            },
            None => {
                proof {
                    self.lemma_past_end_fails(base + off, 2);
                }
                None
            },
        }
    }

    /// Reads a little-endian `u32` at `base + off`; `None` where the read is refused.
    pub fn read_u32_at(&self, base: u64, off: u64) -> (r: Option<u32>)
        ensures
            match r {
                Some(v) => le_at(self@, base + off, 4) == Some(v as nat),
                None => le_at(self@, base + off, 4) is None,
            },
    {
        match base.checked_add(off) {
            Some(a) => match self.read_u32(a) {
                Ok(v) => Some(v),
                Err(_) => None,
            },
            None => {
                proof {
                    self.lemma_past_end_fails(base + off, 4);
                }
                None
            },
        }
    }

    /// Reads a little-endian `u64` at `base + off`; `None` where the read is refused.
    pub fn read_u64_at(&self, base: u64, off: u64) -> (r: Option<u64>)
        ensures
            match r {
                Some(v) => le_at(self@, base + off, 8) == Some(v as nat),
                None => le_at(self@, base + off, 8) is None,
            },
    {
        match base.checked_add(off) {
            Some(a) => match self.read_u64(a) {
                Ok(v) => Some(v),
                Err(_) => None,
            },
            None => {
                proof {
                    self.lemma_past_end_fails(base + off, 8);
                }
                None
            },
        }
    }

    pub fn write_u8(&mut self, guest_addr: u64, value: u8) -> (r: Result<(), MemError>)
        ensures
            r == check(old(self)@, guest_addr as int, 1),
            final(self)@ == write_result(old(self)@, guest_addr as int, seq![value]),
    {
        let data = vec![value];
        proof {
            assert(data@ =~= seq![value]);
        }
        self.write(guest_addr, data.as_slice())
    }

    pub fn write_u16(&mut self, guest_addr: u64, value: u16) -> (r: Result<(), MemError>)
        ensures
            r == check(old(self)@, guest_addr as int, 2),
            final(self)@ == write_result(old(self)@, guest_addr as int, le_bytes(value as nat, 2)),
    {
        let data = u16_le(value);
        proof {
            lemma_le_bytes_len(value as nat, 2);
        }
        self.write(guest_addr, data.as_slice())
    }

    pub fn write_u32(&mut self, guest_addr: u64, value: u32) -> (r: Result<(), MemError>)
        ensures
            r == check(old(self)@, guest_addr as int, 4),
            final(self)@ == write_result(old(self)@, guest_addr as int, le_bytes(value as nat, 4)),
    {
        let data = u32_le(value);
        proof {
            lemma_le_bytes_len(value as nat, 4);
        }
        self.write(guest_addr, data.as_slice())
    }
}

} // verus!
