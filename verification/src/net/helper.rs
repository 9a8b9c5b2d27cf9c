//! Checks on what the vmnet helper reports when it starts: the interface's MAC
//! address, written as six hexadecimal fields separated by colons, and its
//! largest packet.
use vstd::prelude::*;
use vstd::string::StringSliceAdditionalSpecFns;

verus! {

pub const COLON: u8 = 58;

pub const PLUS: u8 = 43;

/// The smallest packet the helper may announce: an Ethernet header.
pub const MIN_PACKET_SIZE: u64 = 14;

pub const MAX_PACKET_SIZE: u64 = 65536;

/// What the helper reported that cannot be used.
#[derive(Debug, Clone, Copy, PartialEq, Eq)]
pub enum HelperError {
    /// The MAC address is not six hexadecimal bytes separated by colons.
    InvalidMac,
    /// The largest packet is smaller than an Ethernet header or larger than
    /// 64 KiB.
    InvalidPacketSize(u64),
}

/// The fields of `s` between colons, in order; there is always one more
/// field than there are colons.
pub open spec fn split_fields(s: Seq<u8>) -> Seq<Seq<u8>>
    decreases s.len(),
{
    if s.len() == 0 {
        seq![Seq::<u8>::empty()]
    } else {
        let p = split_fields(s.drop_last());
        if s.last() == COLON {
            p.push(Seq::<u8>::empty())
        } else {
            p.update(p.len() - 1, p.last().push(s.last()))
        }
    }
}

/// The value of a hexadecimal digit, of either case.
pub open spec fn hex_digit(b: u8) -> Option<u8> {
    if 48 <= b <= 57 {
        Some((b - 48) as u8)
    } else if 97 <= b <= 102 {
        Some((b - 87) as u8)
    } else if 65 <= b <= 70 {
        Some((b - 55) as u8)
    } else {
        None
    }
}

pub open spec fn is_hex(s: Seq<u8>) -> bool {
    forall|i: int| 0 <= i < s.len() ==> (#[trigger] hex_digit(s[i])) is Some
}

/// The number that the hexadecimal digits `s` write.
pub open spec fn hex_value(s: Seq<u8>) -> nat
    decreases s.len(),
{
    if s.len() == 0 {
        0
    } else {
        hex_value(s.drop_last()) * 16 + hex_digit(s.last())->0 as nat
    }
}

/// The digits of a field: what follows its optional leading `+`.
pub open spec fn digits_of(f: Seq<u8>) -> Seq<u8> {
    if f.len() > 0 && f[0] == PLUS {
        f.drop_first()
    } else {
        f
    }
}

/// A field that reads as one byte: an optional `+`, then at least one
/// hexadecimal digit, of a value below 256.
pub open spec fn field_ok(f: Seq<u8>) -> bool {
    let d = digits_of(f);
    d.len() > 0 && is_hex(d) && hex_value(d) < 256
}

/// Text that reads as a MAC address: exactly six fields, each a byte.
pub open spec fn mac_ok(s: Seq<u8>) -> bool {
    let fs = split_fields(s);
    fs.len() == 6 && forall|i: int| 0 <= i < 6 ==> #[trigger] field_ok(fs[i])
}

/// Byte `i` of the MAC address that `s` writes.
pub open spec fn mac_byte(s: Seq<u8>, i: int) -> nat {
    hex_value(digits_of(split_fields(s)[i]))
}

proof fn lemma_split_len(s: Seq<u8>)
    ensures
        split_fields(s).len() >= 1,
    decreases s.len(),
{
    if s.len() > 0 {
        lemma_split_len(s.drop_last());
    }
}

proof fn lemma_hex_prefix(s: Seq<u8>, k: int)
    requires
        is_hex(s),
        0 <= k <= s.len(),
    ensures
        hex_value(s.take(k)) <= hex_value(s),
    decreases s.len(),
{
    if k < s.len() {
        let p = s.drop_last();
        assert(is_hex(p)) by {
            assert forall|i: int| 0 <= i < p.len() implies (#[trigger] hex_digit(p[i])) is Some by {
                assert(p[i] == s[i]);
            }
        }
        lemma_hex_prefix(p, k);
        assert(p.take(k) =~= s.take(k));
    } else {
        assert(s.take(k) =~= s);
    }
}

fn hex_digit_of(b: u8) -> (r: Option<u8>)
    ensures
        r == hex_digit(b),
{
    if 48 <= b && b <= 57 {
        Some(b - 48)
    } else if 97 <= b && b <= 102 {
        Some(b - 87)
    } else if 65 <= b && b <= 70 {
        Some(b - 55)
    } else {
        None
    }
}

/// The byte that one field writes, if it writes one.
fn parse_field(f: &Vec<u8>) -> (r: Option<u8>)
    ensures
        r is Some <==> field_ok(f@),
        r is Some ==> r->0 == hex_value(digits_of(f@)),
{
    let start: usize = if f.len() > 0 && f[0] == PLUS {
        1
    } else {
        0
    };
    let ghost d = digits_of(f@);
    assert(d =~= f@.subrange(start as int, f@.len() as int));
    if start == f.len() {
        return None;
    }
    let mut acc: u32 = 0;
    let mut j: usize = start;
    while j < f.len()
        invariant
            start <= j <= f@.len(),
            d == digits_of(f@),
            d == f@.subrange(start as int, f@.len() as int),
            is_hex(d.take(j - start)),
            acc == hex_value(d.take(j - start)),
            acc <= 255,
        decreases f@.len() - j,
    {
        let k: Ghost<int> = Ghost(j - start);
        match hex_digit_of(f[j]) {
            None => {
                assert(d[k@] == f@[j as int]);
                assert(!is_hex(d));
                return None;
            },
            Some(digit) => {
                let next = acc * 16 + digit as u32;
                proof {
                    let t = d.take(k@ + 1);
                    assert(t.drop_last() =~= d.take(k@));
                    assert(t.last() == f@[j as int]);
                    assert(is_hex(t)) by {
                        assert forall|i: int| 0 <= i < t.len() implies (#[trigger] hex_digit(
                            t[i],
                        )) is Some by {
                            if i < k@ {
                                assert(t[i] == d.take(k@)[i]);
                            }
                        }
                    }
                }
                if next > 255 {
                    proof {
                        if is_hex(d) {
                            lemma_hex_prefix(d, k@ + 1);
                        }
                    }
                    return None;
                }
                acc = next;
                j = j + 1;
            },
        }
    }
    assert(d.take(j - start) =~= d);
    Some(acc as u8)
}

/// The MAC address that the helper reports, such as `"be:ef:0:1:2:ab"`.
pub fn parse_mac(value: &str) -> (r: Result<[u8; 6], HelperError>)
    ensures
        r is Ok <==> mac_ok(value.spec_bytes()),
        r matches Ok(mac) ==> forall|i: int|
            0 <= i < 6 ==> mac@[i] == mac_byte(value.spec_bytes(), i),
        r matches Err(e) ==> e == HelperError::InvalidMac,
{
    let bytes = value.as_bytes();
    let ghost b = value.spec_bytes();
    let mut done: Vec<Vec<u8>> = Vec::new();
    let mut cur: Vec<u8> = Vec::new();
    let mut i: usize = 0;
    while i < bytes.len()
        invariant
            b == value.spec_bytes(),
            bytes@ == b,
            i <= b.len(),
            split_fields(b.take(i as int)).len() == done@.len() + 1,
            forall|k: int|
                0 <= k < done@.len() ==> #[trigger] done@[k]@ == split_fields(b.take(i as int))[k],
            cur@ == split_fields(b.take(i as int)).last(),
        decreases b.len() - i,
    {
        let c = bytes[i];
        proof {
            assert(b.take(i + 1).drop_last() =~= b.take(i as int));
            lemma_split_len(b.take(i as int));
        }
        if c == COLON {
            done.push(cur);
            cur = Vec::new();
        } else {
            cur.push(c);
        }
        i = i + 1;
        proof {
            let p = split_fields(b.take(i - 1));
            let q = split_fields(b.take(i as int));
            assert(b.take(i as int).last() == c);
            if c == COLON {
                assert(q == p.push(Seq::<u8>::empty()));
                assert(cur@ =~= q.last());
            } else {
                assert(q == p.update(p.len() - 1, p.last().push(c)));
            }
            assert forall|k: int| 0 <= k < done@.len() implies #[trigger] done@[k]@ == q[k] by {}
        }
    }
    proof {
        assert(b.take(i as int) =~= b);
    }
    if done.len() != 5 {
        return Err(HelperError::InvalidMac);
    }
    let mut mac: [u8; 6] = [0u8; 6];
    let mut k: usize = 0;
    while k < 6
        invariant
            b == value.spec_bytes(),
            done@.len() == 5,
            split_fields(b).len() == 6,
            forall|m: int| 0 <= m < 5 ==> #[trigger] done@[m]@ == split_fields(b)[m],
            cur@ == split_fields(b)[5],
            k <= 6,
            mac@.len() == 6,
            forall|m: int| 0 <= m < k ==> #[trigger] field_ok(split_fields(b)[m]),
            forall|m: int| 0 <= m < k ==> mac@[m] == mac_byte(b, m),
        decreases 6 - k,
    {
        let field = if k < 5 {
            &done[k]
        } else {
            &cur
        };
        match parse_field(field) {
            None => {
                assert(!field_ok(split_fields(b)[k as int]));
                return Err(HelperError::InvalidMac);
            },
            Some(v) => {
                mac.set(k, v);
                k = k + 1;
            },
        }
    }
    Ok(mac)
}

/// The largest packet the helper announced, if it lies between an Ethernet
/// header and 64 KiB.
pub fn check_max_packet_size(size: u64) -> (r: Result<u64, HelperError>)
    ensures
        MIN_PACKET_SIZE <= size <= MAX_PACKET_SIZE ==> r == Ok::<u64, HelperError>(size),
        !(MIN_PACKET_SIZE <= size <= MAX_PACKET_SIZE) ==> r == Err::<u64, HelperError>(
            HelperError::InvalidPacketSize(size),
        ),
{
    if MIN_PACKET_SIZE <= size && size <= MAX_PACKET_SIZE {
        Ok(size)
    } else {
        Err(HelperError::InvalidPacketSize(size))
    }
}

} // verus!
