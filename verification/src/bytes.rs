//! Little-endian integer encoding shared by the guest-visible structures.
use vstd::prelude::*;

verus! {

/// The unsigned integer that a little-endian byte string denotes.
pub open spec fn le_value(s: Seq<u8>) -> nat
    decreases s.len(),
{
    if s.len() == 0 {
        0
    } else {
        s[0] as nat + 256 * le_value(s.drop_first())
    }
}

/// The `n` little-endian bytes of `v` (the value taken modulo `256^n`).
pub open spec fn le_bytes(v: nat, n: nat) -> Seq<u8>
    decreases n,
{
    if n == 0 {
        Seq::empty()
    } else {
        seq![(v % 256) as u8] + le_bytes(v / 256, (n - 1) as nat)
    }
}

pub proof fn lemma_le_bytes_len(v: nat, n: nat)
    ensures
        le_bytes(v, n).len() == n,
    decreases n,
{
    if n > 0 {
        lemma_le_bytes_len(v / 256, (n - 1) as nat);
    }
}

/// Encoding with `n` bytes and decoding again gives the value back when it fits.
pub proof fn lemma_le_round_trip(v: nat, n: nat)
    requires
        v < vstd::arithmetic::power::pow(256, n),
    ensures
        le_value(le_bytes(v, n)) == v,
    decreases n,
{
    reveal(vstd::arithmetic::power::pow);
    if n == 0 {
    } else {
        lemma_le_bytes_len(v / 256, (n - 1) as nat);
        let rest = le_bytes(v / 256, (n - 1) as nat);
        assert(le_bytes(v, n).drop_first() =~= rest);
        assert(v / 256 < vstd::arithmetic::power::pow(256, (n - 1) as nat)) by {
            vstd::arithmetic::div_mod::lemma_div_is_ordered_by_denominator(v as int, 256, 256);
            let p = vstd::arithmetic::power::pow(256, (n - 1) as nat);
            assert(vstd::arithmetic::power::pow(256, n) == 256 * p);
            vstd::arithmetic::div_mod::lemma_div_by_multiple_is_strongly_ordered(v as int, 256 * p, p, 256);
        }
        lemma_le_round_trip(v / 256, (n - 1) as nat);
    }
}

/// A little-endian byte string is the encoding of its value at its length.
pub proof fn lemma_le_unique(s: Seq<u8>, v: nat)
    requires
        le_value(s) == v,
    ensures
        s == le_bytes(v, s.len()),
    decreases s.len(),
{
    if s.len() > 0 {
        let rest = s.drop_first();
        vstd::arithmetic::div_mod::lemma_fundamental_div_mod_converse(
            v as int,
            256,
            le_value(rest) as int,
            s[0] as int,
        );
        lemma_le_unique(rest, le_value(rest));
        assert(s =~= seq![s[0]] + rest);
        assert(le_bytes(v, s.len()) =~= seq![(v % 256) as u8] + le_bytes(v / 256, (s.len() - 1) as nat));
    }
}

/// Encodes `v` as two little-endian bytes.
pub fn u16_le(v: u16) -> (r: Vec<u8>)
    ensures
        r@ == le_bytes(v as nat, 2),
        le_value(r@) == v,
{
    let r = vec![(v % 256) as u8, (v / 256) as u8];
    proof {
        reveal_with_fuel(le_bytes, 3);
        reveal_with_fuel(le_value, 3);
        assert(r@ =~= le_bytes(v as nat, 2));
    }
    r
}

/// Encodes `v` as four little-endian bytes.
pub fn u32_le(v: u32) -> (r: Vec<u8>)
    ensures
        r@ == le_bytes(v as nat, 4),
        le_value(r@) == v,
{
    let r = vec![
        (v % 256) as u8,
        ((v / 256) % 256) as u8,
        ((v / 65536) % 256) as u8,
        (v / 16777216) as u8,
    ];
    proof {
        reveal_with_fuel(le_bytes, 5);
        reveal_with_fuel(le_value, 5);
        assert(v / 256 / 256 == v / 65536);
        assert(v / 65536 / 256 == v / 16777216);
        assert(v / 16777216 / 256 == 0);
        assert(r@ =~= le_bytes(v as nat, 4));
    }
    r
}

/// Encodes `v` as eight little-endian bytes.
pub fn u64_le(v: u64) -> (r: Vec<u8>)
    ensures
        r@.len() == 8,
        le_value(r@) == v,
{
    let lo = u32_le((v % 0x1_0000_0000) as u32);
    let hi = u32_le((v / 0x1_0000_0000) as u32);
    let mut r = lo;
    let mut h = hi;
    proof {
        lemma_le_bytes_len((v % 0x1_0000_0000) as nat, 4);
        lemma_le_bytes_len((v / 0x1_0000_0000) as nat, 4);
        lemma_le_value_concat(lo@, hi@);
        reveal_with_fuel(vstd::arithmetic::power::pow, 5);
        assert(vstd::arithmetic::power::pow(256, 4) == 0x1_0000_0000);
        assert(v == (v % 0x1_0000_0000) + 0x1_0000_0000 * (v / 0x1_0000_0000));
    }
    let ghost l = lo@;
    r.append(&mut h);
    proof {
        assert(r@ == l + hi@);
    }
    r
}

/// `le_value(a + b)` splits at the end of `a`.
pub proof fn lemma_le_value_concat(a: Seq<u8>, b: Seq<u8>)
    ensures
        le_value(a + b) == le_value(a) + vstd::arithmetic::power::pow(256, a.len()) * le_value(b),
    decreases a.len(),
{
    reveal(vstd::arithmetic::power::pow);
    if a.len() == 0 {
        assert(a + b =~= b);
    } else {
        assert((a + b).drop_first() =~= a.drop_first() + b);
        lemma_le_value_concat(a.drop_first(), b);
        let p = vstd::arithmetic::power::pow(256, a.drop_first().len());
        assert(256 * (le_value(a.drop_first()) + p * le_value(b)) == 256 * le_value(a.drop_first())
            + (256 * p) * le_value(b)) by (nonlinear_arith);
    }
}

/// The `u16` stored little-endian at `v[i..i + 2]`.
pub fn get_u16(v: &[u8], i: usize) -> (r: u16)
    requires
        i + 2 <= v@.len(),
    ensures
        r == le_value(v@.subrange(i as int, i + 2)),
{
    let r = v[i] as u16 + (v[i + 1] as u16) * 256;
    proof {
        reveal_with_fuel(le_value, 3);
        let s = v@.subrange(i as int, i + 2);
        assert(s.drop_first().drop_first() =~= Seq::<u8>::empty());
    }
    r
}

/// The `u32` stored little-endian at `v[i..i + 4]`.
pub fn get_u32(v: &[u8], i: usize) -> (r: u32)
    requires
        i + 4 <= v@.len(),
    ensures
        r == le_value(v@.subrange(i as int, i + 4)),
{
    let r = v[i] as u32 + 256 * (v[i + 1] as u32 + 256 * (v[i + 2] as u32 + 256 * (v[i
        + 3] as u32)));
    proof {
        reveal_with_fuel(le_value, 5);
        let s = v@.subrange(i as int, i + 4);
        assert(s.drop_first().drop_first().drop_first().drop_first() =~= Seq::<u8>::empty());
    }
    r
}

/// The `u64` stored little-endian at `v[i..i + 8]`.
pub fn get_u64(v: &[u8], i: usize) -> (r: u64)
    requires
        i + 8 <= v@.len(),
    ensures
        r == le_value(v@.subrange(i as int, i + 8)),
{
    let _len = v.len();
    let lo = get_u32(v, i);
    let hi = get_u32(v, i + 4);
    let r = lo as u64 + 4294967296 * hi as u64;
    proof {
        let s = v@.subrange(i as int, i + 8);
        assert(s =~= v@.subrange(i as int, i + 4) + v@.subrange(i + 4, i + 8));
        lemma_le_value_concat(v@.subrange(i as int, i + 4), v@.subrange(i + 4, i + 8));
        reveal_with_fuel(vstd::arithmetic::power::pow, 5);
        assert(vstd::arithmetic::power::pow(256, 4) == 4294967296);
    }
    r
}

} // verus!
