//! The EDID that the GPU device reports for its display: a base block with
//! two detailed timings and a DisplayID extension with two more.
use crate::bytes::{le_bytes, lemma_le_bytes_len, u16_le, u32_le};
use vstd::prelude::*;

verus! {

pub const BLOCK_SIZE: usize = 128;

pub const EDID_SIZE: usize = 256;

pub const DESCRIPTOR_SIZE: usize = 18;

pub const DISPLAYID_TIMING_SIZE: usize = 20;

pub const PRODUCT_CODE: u16 = 1;

pub const SERIAL_NUMBER: u32 = 1;

pub const MANUFACTURE_WEEK: u8 = 1;

pub const MANUFACTURE_YEAR: u16 = 2026;

pub const DIGITAL_INPUT: u8 = 0x80;

pub const GAMMA_2_2: u8 = 120;

pub const PREFERRED_TIMING_PRESENT: u8 = 2;

pub const MIN_VERTICAL_HZ: u8 = 48;

pub const MAX_VERTICAL_HZ: u8 = 120;

pub const MIN_HORIZONTAL_KHZ: u8 = 30;

pub const MAX_HORIZONTAL_KHZ: u8 = 255;

pub const MAX_PIXEL_CLOCK_MHZ: u16 = 1200;

pub const HORIZONTAL_BLANKING: u16 = 160;

pub const HORIZONTAL_SYNC_OFFSET: u16 = 48;

pub const HORIZONTAL_SYNC_WIDTH: u16 = 32;

pub const VERTICAL_BLANKING: u16 = 35;

pub const VERTICAL_SYNC_OFFSET: u16 = 3;

pub const VERTICAL_SYNC_WIDTH: u16 = 6;

pub const MONITOR_NAME_TAG: u8 = 0xfc;

pub const RANGE_LIMITS_TAG: u8 = 0xfd;

pub const DIGITAL_SEPARATE_SYNC: u8 = 0x1e;

pub const DISPLAYID_EXTENSION_TAG: u8 = 0x70;

pub const DISPLAYID_VERSION: u8 = 0x13;

pub const DISPLAYID_PRODUCT_TYPE_STANDALONE: u8 = 0x01;

pub const DISPLAYID_DETAILED_TIMING_TYPE_I: u8 = 0x03;

pub const DISPLAYID_TIMING_PREFERRED: u8 = 0x80;

pub const DISPLAYID_TIMING_ASPECT_UNDEFINED: u8 = 0x08;

/// A display mode: active size and refresh rate.
#[derive(Clone, Copy, Debug, PartialEq, Eq)]
pub struct DisplayMode {
    pub width: u16,
    pub height: u16,
    pub refresh_hz: u16,
}

/// The physical size of the screen, in millimetres.
#[derive(Clone, Copy, Debug, PartialEq, Eq)]
pub struct PhysicalSizeMm {
    pub width: u16,
    pub height: u16,
}

/// A detailed timing.
#[derive(Clone, Copy, Debug, PartialEq, Eq)]
pub struct Timing {
    pub horizontal_active: u16,
    pub vertical_active: u16,
    pub horizontal_blanking: u16,
    pub vertical_blanking: u16,
    pub horizontal_sync_offset: u16,
    pub horizontal_sync_width: u16,
    pub vertical_sync_offset: u16,
    pub vertical_sync_width: u16,
    pub pixel_clock_10khz: u32,
    pub flags: u8,
}

/// The sum of the bytes of `s`.
pub open spec fn byte_sum(s: Seq<u8>) -> nat
    decreases s.len(),
{
    if s.len() == 0 {
        0
    } else {
        byte_sum(s.drop_last()) + s.last() as nat
    }
}

/// The byte that makes the sum of `s` and it a multiple of 256.
pub open spec fn checksum_spec(s: Seq<u8>) -> u8 {
    ((256 - byte_sum(s) % 256) % 256) as u8
}

/// A block that ends with the checksum of the rest sums to a multiple of 256.
pub proof fn lemma_checksum_closes(s: Seq<u8>)
    ensures
        byte_sum(s.push(checksum_spec(s))) % 256 == 0,
{
    assert(s.push(checksum_spec(s)).drop_last() =~= s);
}

/// The checksum byte of `bytes`: minus their sum, modulo 256.
pub fn checksum(bytes: &[u8]) -> (r: u8)
    ensures
        r == checksum_spec(bytes@),
{
    let mut acc: u8 = 0;
    let mut i: usize = 0;
    while i < bytes.len()
        invariant
            i <= bytes@.len(),
            acc == byte_sum(bytes@.subrange(0, i as int)) % 256,
        decreases bytes@.len() - i,
    {
        proof {
            assert(bytes@.subrange(0, i + 1).drop_last() =~= bytes@.subrange(0, i as int));
        }
        acc = acc.wrapping_add(bytes[i]);
        i = i + 1;
    }
    proof {
        assert(bytes@.subrange(0, i as int) =~= bytes@);
    }
    0u8.wrapping_sub(acc)
}

/// The low byte of `value`.
pub open spec fn low_byte_spec(value: u16) -> u8 {
    (value % 256) as u8
}

pub fn low_byte(value: u16) -> (r: u8)
    ensures
        r == low_byte_spec(value),
{
    (value % 256) as u8
}

/// Bits 8..12 of `first` over bits 8..12 of `second`.
pub open spec fn high_nibbles_spec(first: u16, second: u16) -> u8 {
    (((first / 256) % 16) * 16 + (second / 256) % 16) as u8
}

pub fn high_nibbles(first: u16, second: u16) -> (r: u8)
    ensures
        r == high_nibbles_spec(first, second),
{
    (((first / 256) % 16) * 16 + (second / 256) % 16) as u8
}

/// Bits 0..4 of `first` over bits 0..4 of `second`.
pub open spec fn low_nibbles_spec(first: u16, second: u16) -> u8 {
    ((first % 16) * 16 + second % 16) as u8
}

pub fn low_nibbles(first: u16, second: u16) -> (r: u8)
    ensures
        r == low_nibbles_spec(first, second),
{
    ((first % 16) * 16 + second % 16) as u8
}

/// The upper sync bits of a detailed timing: bits 8..10 of the horizontal
/// offset and width, bits 4..6 of the vertical offset and width.
pub open spec fn sync_high_bits_spec(ho: u16, hw: u16, vo: u16, vw: u16) -> u8 {
    (((ho / 256) % 4) * 64 + ((hw / 256) % 4) * 16 + ((vo / 16) % 4) * 4 + (vw / 16) % 4) as u8
}

pub fn sync_high_bits(
    horizontal_offset: u16,
    horizontal_width: u16,
    vertical_offset: u16,
    vertical_width: u16,
) -> (r: u8)
    ensures
        r == sync_high_bits_spec(horizontal_offset, horizontal_width, vertical_offset, vertical_width),
{
    (((horizontal_offset / 256) % 4) * 64 + ((horizontal_width / 256) % 4) * 16 + ((vertical_offset
        / 16) % 4) * 4 + (vertical_width / 16) % 4) as u8
}

/// Whole centimetres of `value` millimetres, at most 255.
pub open spec fn mm_to_cm_spec(value: u16) -> u8 {
    if value / 10 > 255 {
        255
    } else {
        (value / 10) as u8
    }
}

pub fn millimeters_to_centimeters(value: u16) -> (r: u8)
    ensures
        r == mm_to_cm_spec(value),
{
    let cm = value / 10;
    if cm > 255 {
        255
    } else {
        cm as u8
    }
}

/// The three little-endian bytes of `value`, if it fits in 24 bits.
pub open spec fn u24_spec(value: u32) -> Option<Seq<u8>> {
    if value > 0xff_ffff {
        None
    } else {
        Some(le_bytes(value as nat, 3))
    }
}

pub fn write_u24(value: u32) -> (r: Option<Vec<u8>>)
    ensures
        match r {
            Some(v) => u24_spec(value) == Some(v@),
            None => u24_spec(value) is None,
        },
{
    if value > 0x00ff_ffff {
        return None;
    }
    let mut v = u32_le(value);
    v.pop();
    proof {
        reveal_with_fuel(le_bytes, 5);
        assert(value / 256 / 256 / 256 < 256);
        assert(v@ =~= le_bytes(value as nat, 3));
    }
    Some(v)
}

/// The two little-endian bytes of `value - 1`, if `value` is not zero.
pub open spec fn u16_minus_one_spec(value: u16) -> Option<Seq<u8>> {
    if value == 0 {
        None
    } else {
        Some(le_bytes((value - 1) as nat, 2))
    }
}

pub fn write_u16_minus_one(value: u16) -> (r: Option<Vec<u8>>)
    ensures
        match r {
            Some(v) => u16_minus_one_spec(value) == Some(v@),
            None => u16_minus_one_spec(value) is None,
        },
{
    if value == 0 {
        return None;
    }
    Some(u16_le(value - 1))
}

/// The three letters of a manufacturer packed into five bits each,
/// big-endian: each letter less `@`, shifted into place and or-ed together
/// in 16 bits (a letter past `_` spills into its neighbours' bits, and what
/// is shifted out of the top is lost).
pub open spec fn manufacturer_id_spec(name: Seq<u8>) -> Seq<u8> {
    let v: u16 = (((name[0] - 64) as u16) << 10u16) | (((name[1] - 64) as u16) << 5u16) | ((name[2]
        - 64) as u16);
    seq![(v / 256) as u8, (v % 256) as u8]
}

pub fn manufacturer_id(name: &[u8]) -> (r: Vec<u8>)
    requires
        name@.len() == 3,
        forall|i: int| 0 <= i < 3 ==> 64 <= #[trigger] name@[i],
    ensures
        r@ == manufacturer_id_spec(name@),
{
    let a = (name[0] - 64) as u16;
    let b = (name[1] - 64) as u16;
    let c = (name[2] - 64) as u16;
    let v: u16 = (a << 10u16) | (b << 5u16) | c;
    let r = vec![(v / 256) as u8, (v % 256) as u8];
    proof {
        assert(r@ =~= manufacturer_id_spec(name@));
    }
    r
}

/// A display descriptor with tag `tag` holding `text`, at most twelve bytes
/// of it, ended by a newline and padded with spaces.
pub open spec fn text_descriptor_spec(tag: u8, text: Seq<u8>) -> Seq<u8> {
    let n = if text.len() < 12 {
        text.len() as int
    } else {
        12
    };
    seq![0u8, 0u8, 0u8, tag, 0u8] + text.subrange(0, n) + seq![10u8] + Seq::new(
        (12 - n) as nat,
        |_i: int| 32u8,
    )
}

pub fn text_descriptor(tag: u8, text: &[u8]) -> (r: Vec<u8>)
    ensures
        r@ == text_descriptor_spec(tag, text@),
        r@.len() == DESCRIPTOR_SIZE,
{
    let mut d: Vec<u8> = vec![0u8, 0u8, 0u8, tag, 0u8];
    let n = if text.len() < 12 {
        text.len()
    } else {
        12
    };
    let mut i: usize = 0;
    while i < n
        invariant
            i <= n,
            n <= text@.len(),
            d@ == seq![0u8, 0u8, 0u8, tag, 0u8] + text@.subrange(0, i as int),
        decreases n - i,
    {
        d.push(text[i]);
        i = i + 1;
        proof {
            assert(d@ =~= seq![0u8, 0u8, 0u8, tag, 0u8] + text@.subrange(0, i as int));
        }
    }
    d.push(10u8);
    let mut j: usize = n;
    let ghost head = d@;
    while j < 12
        invariant
            n <= j <= 12,
            d@ == head + Seq::new((j - n) as nat, |_i: int| 32u8),
        decreases 12 - j,
    {
        d.push(32u8);
        j = j + 1;
        proof {
            assert(d@ =~= head + Seq::new((j - n) as nat, |_i: int| 32u8));
        }
    }
    proof {
        assert(d@ =~= text_descriptor_spec(tag, text@));
    }
    d
}

/// The range limits descriptor.
pub open spec fn range_limits_spec() -> Seq<u8> {
    seq![
        0u8,
        0u8,
        0u8,
        RANGE_LIMITS_TAG,
        0u8,
        MIN_VERTICAL_HZ,
        MAX_VERTICAL_HZ,
        MIN_HORIZONTAL_KHZ,
        MAX_HORIZONTAL_KHZ,
        120u8,
        0u8,
        0u8,
        0u8,
        0u8,
        0u8,
        0u8,
        0u8,
        0u8
    ]
}

pub fn range_limits_descriptor() -> (r: Vec<u8>)
    ensures
        r@ == range_limits_spec(),
{
    let clock = if MAX_PIXEL_CLOCK_MHZ / 10 > 255 {
        255u8
    } else {
        (MAX_PIXEL_CLOCK_MHZ / 10) as u8
    };
    let r = vec![
        0u8,
        0u8,
        0u8,
        RANGE_LIMITS_TAG,
        0u8,
        MIN_VERTICAL_HZ,
        MAX_VERTICAL_HZ,
        MIN_HORIZONTAL_KHZ,
        MAX_HORIZONTAL_KHZ,
        clock,
        0u8,
        0u8,
        0u8,
        0u8,
        0u8,
        0u8,
        0u8,
        0u8,
    ];
    proof {
        assert(r@ =~= range_limits_spec());
    }
    r
}

/// The detailed timing descriptor of `t` for a screen of `ps`, if its pixel
/// clock fits in sixteen bits.
pub open spec fn descriptor_spec(t: Timing, ps: PhysicalSizeMm) -> Option<Seq<u8>> {
    if t.pixel_clock_10khz > u16::MAX {
        None
    } else {
        Some(
            le_bytes(t.pixel_clock_10khz as nat, 2) + seq![
                low_byte_spec(t.horizontal_active),
                low_byte_spec(t.horizontal_blanking),
                high_nibbles_spec(t.horizontal_active, t.horizontal_blanking),
                low_byte_spec(t.vertical_active),
                low_byte_spec(t.vertical_blanking),
                high_nibbles_spec(t.vertical_active, t.vertical_blanking),
                low_byte_spec(t.horizontal_sync_offset),
                low_byte_spec(t.horizontal_sync_width),
                low_nibbles_spec(t.vertical_sync_offset, t.vertical_sync_width),
                sync_high_bits_spec(
                    t.horizontal_sync_offset,
                    t.horizontal_sync_width,
                    t.vertical_sync_offset,
                    t.vertical_sync_width,
                ),
                low_byte_spec(ps.width),
                low_byte_spec(ps.height),
                high_nibbles_spec(ps.width, ps.height),
                0u8,
                0u8,
                t.flags
            ],
        )
    }
}

/// The DisplayID type I timing of `t`: the pixel clock less one in 24 bits,
/// the flags, then each size less one in sixteen bits. `None` where a value
/// is zero or the clock does not fit.
pub open spec fn displayid_descriptor_spec(t: Timing, preferred: bool) -> Option<Seq<u8>> {
    if t.pixel_clock_10khz == 0 || t.pixel_clock_10khz - 1 > 0xff_ffff || t.horizontal_active == 0
        || t.horizontal_blanking == 0 || t.horizontal_sync_offset == 0 || t.horizontal_sync_width
        == 0 || t.vertical_active == 0 || t.vertical_blanking == 0 || t.vertical_sync_offset == 0
        || t.vertical_sync_width == 0 {
        None
    } else {
        Some(
            le_bytes((t.pixel_clock_10khz - 1) as nat, 3) + seq![
                (if preferred {
                    DISPLAYID_TIMING_PREFERRED
                } else {
                    0u8
                }) | DISPLAYID_TIMING_ASPECT_UNDEFINED,
            ] + le_bytes((t.horizontal_active - 1) as nat, 2) + le_bytes(
                (t.horizontal_blanking - 1) as nat,
                2,
            ) + le_bytes((t.horizontal_sync_offset - 1) as nat, 2) + le_bytes(
                (t.horizontal_sync_width - 1) as nat,
                2,
            ) + le_bytes((t.vertical_active - 1) as nat, 2) + le_bytes(
                (t.vertical_blanking - 1) as nat,
                2,
            ) + le_bytes((t.vertical_sync_offset - 1) as nat, 2) + le_bytes(
                (t.vertical_sync_width - 1) as nat,
                2,
            ),
        )
    }
}

/// Appends `src` to `dst`.
fn append_bytes(dst: &mut Vec<u8>, src: &[u8])
    ensures
        final(dst)@ == old(dst)@ + src@,
{
    let mut i: usize = 0;
    while i < src.len()
        invariant
            i <= src@.len(),
            dst@ == old(dst)@ + src@.subrange(0, i as int),
        decreases src@.len() - i,
    {
        dst.push(src[i]);
        i = i + 1;
        proof {
            assert(dst@ =~= old(dst)@ + src@.subrange(0, i as int));
        }
    }
    proof {
        assert(src@.subrange(0, i as int) =~= src@);
    }
}

impl Timing {
    /// The detailed timing descriptor for a screen of `physical_size`.
    pub fn descriptor(self, physical_size: PhysicalSizeMm) -> (r: Option<Vec<u8>>)
        ensures
            match r {
                Some(v) => descriptor_spec(self, physical_size) == Some(v@),
                None => descriptor_spec(self, physical_size) is None,
            },
    {
        if self.pixel_clock_10khz > 0xffff {
            return None;
        }
        let mut d = u16_le(self.pixel_clock_10khz as u16);
        let tail = vec![
            low_byte(self.horizontal_active),
            low_byte(self.horizontal_blanking),
            high_nibbles(self.horizontal_active, self.horizontal_blanking),
            low_byte(self.vertical_active),
            low_byte(self.vertical_blanking),
            high_nibbles(self.vertical_active, self.vertical_blanking),
            low_byte(self.horizontal_sync_offset),
            low_byte(self.horizontal_sync_width),
            low_nibbles(self.vertical_sync_offset, self.vertical_sync_width),
            sync_high_bits(
                self.horizontal_sync_offset,
                self.horizontal_sync_width,
                self.vertical_sync_offset,
                self.vertical_sync_width,
            ),
            low_byte(physical_size.width),
            low_byte(physical_size.height),
            high_nibbles(physical_size.width, physical_size.height),
            0u8,
            0u8,
            self.flags,
        ];
        append_bytes(&mut d, tail.as_slice());
        proof {
            assert(d@ =~= descriptor_spec(self, physical_size)->0);
        }
        Some(d)
    }

    /// The DisplayID type I timing descriptor.
    pub fn displayid_descriptor(self, preferred: bool) -> (r: Option<Vec<u8>>)
        ensures
            match r {
                Some(v) => displayid_descriptor_spec(self, preferred) == Some(v@),
                None => displayid_descriptor_spec(self, preferred) is None,
            },
    {
        let clock = match self.pixel_clock_10khz.checked_sub(1) {
            Some(c) => c,
            None => return None,
        };
        let mut d = match write_u24(clock) {
            Some(v) => v,
            None => return None,
        };
        let flag = (if preferred {
            DISPLAYID_TIMING_PREFERRED
        } else {
            0u8
        }) | DISPLAYID_TIMING_ASPECT_UNDEFINED;
        d.push(flag);
        let values = [
            self.horizontal_active,
            self.horizontal_blanking,
            self.horizontal_sync_offset,
            self.horizontal_sync_width,
            self.vertical_active,
            self.vertical_blanking,
            self.vertical_sync_offset,
            self.vertical_sync_width,
        ];
        let ghost head = d@;
        let ghost expected = seq![
            self.horizontal_active,
            self.horizontal_blanking,
            self.horizontal_sync_offset,
            self.horizontal_sync_width,
            self.vertical_active,
            self.vertical_blanking,
            self.vertical_sync_offset,
            self.vertical_sync_width
        ];
        proof {
            assert(values@ =~= expected);
            assert(head =~= le_bytes((self.pixel_clock_10khz - 1) as nat, 3) + seq![flag]);
        }
        let mut k: usize = 0;
        while k < 8
            invariant
                k <= 8,
                values@ == expected,
                expected == seq![
                    self.horizontal_active,
                    self.horizontal_blanking,
                    self.horizontal_sync_offset,
                    self.horizontal_sync_width,
                    self.vertical_active,
                    self.vertical_blanking,
                    self.vertical_sync_offset,
                    self.vertical_sync_width
                ],
                values@.len() == 8,
                forall|j: int| 0 <= j < k ==> values@[j] != 0,
                d@ == head + encoded_minus_one(values@.subrange(0, k as int)),
            decreases 8 - k,
        {
            let enc = match write_u16_minus_one(values[k]) {
                Some(v) => v,
                None => {
                    proof {
                        lemma_displayid_zero(self, preferred, values@, k as int);
                    }
                    return None;
                },
            };
            proof {
                assert(values@.subrange(0, k + 1).drop_last() =~= values@.subrange(0, k as int));
            }
            append_bytes(&mut d, enc.as_slice());
            k = k + 1;
            proof {
                assert(d@ =~= head + encoded_minus_one(values@.subrange(0, k as int)));
            }
        }
        proof {
            lemma_displayid_ok(self, preferred, values@, head);
        }
        Some(d)
    }
}

/// Each value less one, as two little-endian bytes, one after the other.
pub open spec fn encoded_minus_one(vs: Seq<u16>) -> Seq<u8>
    decreases vs.len(),
{
    if vs.len() == 0 {
        Seq::empty()
    } else {
        encoded_minus_one(vs.drop_last()) + le_bytes((vs.last() - 1) as nat, 2)
    }
}

proof fn lemma_displayid_zero(t: Timing, preferred: bool, vs: Seq<u16>, k: int)
    requires
        0 <= k < 8,
        vs == seq![
            t.horizontal_active,
            t.horizontal_blanking,
            t.horizontal_sync_offset,
            t.horizontal_sync_width,
            t.vertical_active,
            t.vertical_blanking,
            t.vertical_sync_offset,
            t.vertical_sync_width
        ],
        vs[k] == 0,
    ensures
        displayid_descriptor_spec(t, preferred) is None,
{
}

proof fn lemma_displayid_ok(t: Timing, preferred: bool, vs: Seq<u16>, head: Seq<u8>)
    requires
        vs == seq![
            t.horizontal_active,
            t.horizontal_blanking,
            t.horizontal_sync_offset,
            t.horizontal_sync_width,
            t.vertical_active,
            t.vertical_blanking,
            t.vertical_sync_offset,
            t.vertical_sync_width
        ],
        forall|j: int| 0 <= j < 8 ==> vs[j] != 0,
        t.pixel_clock_10khz != 0,
        t.pixel_clock_10khz - 1 <= 0xff_ffff,
        head == le_bytes((t.pixel_clock_10khz - 1) as nat, 3) + seq![
            (if preferred {
                DISPLAYID_TIMING_PREFERRED
            } else {
                0u8
            }) | DISPLAYID_TIMING_ASPECT_UNDEFINED,
        ],
    ensures
        displayid_descriptor_spec(t, preferred) == Some(head + encoded_minus_one(vs.subrange(0, 8))),
{
    assert(vs.subrange(0, 8) =~= vs);
    reveal_with_fuel(encoded_minus_one, 9);
    assert(vs.drop_last().drop_last().drop_last().drop_last().drop_last().drop_last().drop_last().drop_last()
        =~= Seq::<u16>::empty());
    let s = displayid_descriptor_spec(t, preferred)->0;
    assert(s =~= head + encoded_minus_one(vs));
}

/// The mode `width` by `height` at `refresh_hz`, if both sizes are between 1 and 65535.
pub open spec fn mode_spec(width: u32, height: u32, refresh_hz: u16) -> Option<DisplayMode> {
    if width == 0 || height == 0 || width > u16::MAX || height > u16::MAX {
        None
    } else {
        Some(DisplayMode { width: width as u16, height: height as u16, refresh_hz })
    }
}

/// The mode at twice the size, if that still fits.
pub open spec fn doubled_spec(m: DisplayMode) -> Option<DisplayMode> {
    mode_spec((m.width * 2) as u32, (m.height * 2) as u32, m.refresh_hz)
}

/// One fifth of `v`, kept between 1 and 4095.
pub open spec fn fifth_clamped(v: u16) -> u16 {
    if v / 5 < 1 {
        1
    } else if v / 5 > 0x0fff {
        0x0fff
    } else {
        (v / 5) as u16
    }
}

/// The physical size claimed for a mode: a fifth of a millimetre per pixel.
pub open spec fn physical_size_spec(m: DisplayMode) -> PhysicalSizeMm {
    PhysicalSizeMm { width: fifth_clamped(m.width), height: fifth_clamped(m.height) }
}

/// The pixel clock of a mode in units of 10 kHz, rounded to nearest.
pub open spec fn pixel_clock_spec(m: DisplayMode) -> int {
    ((m.width + HORIZONTAL_BLANKING) * (m.height + VERTICAL_BLANKING) * m.refresh_hz + 5000) / 10000
}

/// The timing of a mode with the fixed blanking and sync values, if the
/// pixel clock fits in 32 bits.
pub open spec fn timing_spec(m: DisplayMode) -> Option<Timing> {
    if pixel_clock_spec(m) > u32::MAX {
        None
    } else {
        Some(
            Timing {
                horizontal_active: m.width,
                vertical_active: m.height,
                horizontal_blanking: HORIZONTAL_BLANKING,
                vertical_blanking: VERTICAL_BLANKING,
                horizontal_sync_offset: HORIZONTAL_SYNC_OFFSET,
                horizontal_sync_width: HORIZONTAL_SYNC_WIDTH,
                vertical_sync_offset: VERTICAL_SYNC_OFFSET,
                vertical_sync_width: VERTICAL_SYNC_WIDTH,
                pixel_clock_10khz: pixel_clock_spec(m) as u32,
                flags: DIGITAL_SEPARATE_SYNC,
            },
        )
    }
}

fn fifth_of(v: u16) -> (r: u16)
    ensures
        r == fifth_clamped(v),
{
    let f = v / 5;
    if f < 1 {
        1
    } else if f > 0x0fff {
        0x0fff
    } else {
        f
    }
}

impl DisplayMode {
    pub fn new(width: u32, height: u32, refresh_hz: u16) -> (r: Option<DisplayMode>)
        ensures
            r == mode_spec(width, height, refresh_hz),
    {
        if width == 0 || height == 0 || width > 0xffff || height > 0xffff {
            return None;
        }
        Some(DisplayMode { width: width as u16, height: height as u16, refresh_hz })
    }

    pub fn doubled(self) -> (r: Option<DisplayMode>)
        ensures
            r == doubled_spec(self),
    {
        DisplayMode::new(self.width as u32 * 2, self.height as u32 * 2, self.refresh_hz)
    }

    pub fn with_refresh(self, refresh_hz: u16) -> (r: DisplayMode)
        ensures
            r == (DisplayMode { refresh_hz, ..self }),
    {
        DisplayMode { refresh_hz, ..self }
    }

    pub fn physical_size(self) -> (r: PhysicalSizeMm)
        ensures
            r == physical_size_spec(self),
    {
        PhysicalSizeMm { width: fifth_of(self.width), height: fifth_of(self.height) }
    }

    pub fn timing(self) -> (r: Option<Timing>)
        ensures
            r == timing_spec(self),
    {
        let horizontal_total = self.width as u64 + HORIZONTAL_BLANKING as u64;
        let vertical_total = self.height as u64 + VERTICAL_BLANKING as u64;
        let refresh = self.refresh_hz as u64;
        assert(horizontal_total * vertical_total <= 0x4_0000_0000) by (nonlinear_arith)
            requires
                horizontal_total <= 0x20000,
                vertical_total <= 0x20000,
        ;
        assert(horizontal_total * vertical_total * refresh <= 0x4_0000_0000 * 0x10000)
            by (nonlinear_arith)
            requires
                horizontal_total * vertical_total <= 0x4_0000_0000,
                refresh <= 0x10000,
        ;
        let pixels_per_second = horizontal_total * vertical_total * refresh;
        let clock = (pixels_per_second + 5000) / 10000;
        if clock > 0xffff_ffff {
            return None;
        }
        Some(
            Timing {
                horizontal_active: self.width,
                vertical_active: self.height,
                horizontal_blanking: HORIZONTAL_BLANKING,
                vertical_blanking: VERTICAL_BLANKING,
                horizontal_sync_offset: HORIZONTAL_SYNC_OFFSET,
                horizontal_sync_width: HORIZONTAL_SYNC_WIDTH,
                vertical_sync_offset: VERTICAL_SYNC_OFFSET,
                vertical_sync_width: VERTICAL_SYNC_WIDTH,
                pixel_clock_10khz: clock as u32,
                flags: DIGITAL_SEPARATE_SYNC,
            },
        )
    }
}

/// The DisplayID timings of `modes`, one after the other, if every mode has one.
pub open spec fn displayid_timings(modes: Seq<(DisplayMode, bool)>) -> Option<Seq<u8>>
    decreases modes.len(),
{
    if modes.len() == 0 {
        Some(Seq::empty())
    } else {
        match displayid_timings(modes.drop_last()) {
            None => None,
            Some(front) => match timing_spec(modes.last().0) {
                None => None,
                Some(t) => match displayid_descriptor_spec(t, modes.last().1) {
                    None => None,
                    Some(d) => Some(front + d),
                },
            },
        }
    }
}

/// `n` zero bytes.
pub open spec fn zeros(n: int) -> Seq<u8> {
    Seq::new(n as nat, |_i: int| 0u8)
}

/// The DisplayID extension block for `modes`: its header, the timings, the
/// DisplayID checksum over bytes 1 up to it, zero padding, and the block
/// checksum in the last byte. `None` where the timings do not fit the block
/// or a mode has no timing.
pub open spec fn displayid_extension_spec(modes: Seq<(DisplayMode, bool)>) -> Option<Seq<u8>> {
    let payload_len = modes.len() * DISPLAYID_TIMING_SIZE;
    let section_len = 5 + payload_len;
    if section_len > BLOCK_SIZE - 5 || payload_len > 255 {
        None
    } else {
        match displayid_timings(modes) {
            None => None,
            Some(timings) => {
                let body = seq![
                    DISPLAYID_EXTENSION_TAG,
                    DISPLAYID_VERSION,
                    section_len as u8,
                    DISPLAYID_PRODUCT_TYPE_STANDALONE,
                    0u8,
                    DISPLAYID_DETAILED_TIMING_TYPE_I,
                    1u8,
                    payload_len as u8
                ] + timings + zeros(2);
                let with_section = body.push(checksum_spec(body.subrange(1, body.len() as int)));
                let padded = with_section + zeros(BLOCK_SIZE - 1 - with_section.len());
                Some(padded.push(checksum_spec(padded)))
            },
        }
    }
}

/// Appends `n` zero bytes to `v`.
fn push_zeros(v: &mut Vec<u8>, n: usize)
    ensures
        final(v)@ == old(v)@ + zeros(n as int),
{
    let mut i: usize = 0;
    while i < n
        invariant
            i <= n,
            v@ == old(v)@ + zeros(i as int),
        decreases n - i,
    {
        v.push(0u8);
        i = i + 1;
        proof {
            assert(v@ =~= old(v)@ + zeros(i as int));
        }
    }
}

/// Builds the DisplayID extension block for `modes`.
pub fn displayid_extension(modes: &[(DisplayMode, bool)]) -> (r: Option<Vec<u8>>)
    ensures
        match r {
            Some(v) => displayid_extension_spec(modes@) == Some(v@),
            None => displayid_extension_spec(modes@) is None,
        },
{
    let n = modes.len();
    if n > 6 {
        return None;
    }
    let payload_len = n * DISPLAYID_TIMING_SIZE;
    let section_len = 5 + payload_len;
    if section_len > BLOCK_SIZE - 5 || payload_len > 255 {
        return None;
    }
    let mut timings: Vec<u8> = Vec::new();
    let mut i: usize = 0;
    while i < n
        invariant
            i <= n,
            n == modes@.len(),
            displayid_timings(modes@.subrange(0, i as int)) == Some(timings@),
        decreases n - i,
    {
        let (mode, preferred) = modes[i];
        proof {
            assert(modes@.subrange(0, i + 1).drop_last() =~= modes@.subrange(0, i as int));
        }
        let t = match mode.timing() {
            Some(t) => t,
            None => {
                proof {
                    lemma_timings_fail(modes@, i as int);
                }
                return None;
            },
        };
        let d = match t.displayid_descriptor(preferred) {
            Some(d) => d,
            None => {
                proof {
                    lemma_timings_fail(modes@, i as int);
                }
                return None;
            },
        };
        append_bytes(&mut timings, d.as_slice());
        i = i + 1;
    }
    proof {
        assert(modes@.subrange(0, n as int) =~= modes@);
        lemma_timings_len(modes@);
    }
    let mut ext: Vec<u8> = vec![
        DISPLAYID_EXTENSION_TAG,
        DISPLAYID_VERSION,
        section_len as u8,
        DISPLAYID_PRODUCT_TYPE_STANDALONE,
        0u8,
        DISPLAYID_DETAILED_TIMING_TYPE_I,
        1u8,
        payload_len as u8,
    ];
    append_bytes(&mut ext, timings.as_slice());
    push_zeros(&mut ext, 2);
    let ghost body = ext@;
    let section = vstd::slice::slice_subrange(ext.as_slice(), 1, ext.len());
    let section_sum = checksum(section);
    ext.push(section_sum);
    let pad = BLOCK_SIZE - 1 - ext.len();
    push_zeros(&mut ext, pad);
    let block_sum = checksum(ext.as_slice());
    ext.push(block_sum);
    proof {
        let timings_s = displayid_timings(modes@)->0;
        assert(body =~= seq![
            DISPLAYID_EXTENSION_TAG,
            DISPLAYID_VERSION,
            section_len as u8,
            DISPLAYID_PRODUCT_TYPE_STANDALONE,
            0u8,
            DISPLAYID_DETAILED_TIMING_TYPE_I,
            1u8,
            payload_len as u8
        ] + timings_s + zeros(2));
    }
    Some(ext)
}

proof fn lemma_timings_len(modes: Seq<(DisplayMode, bool)>)
    ensures
        displayid_timings(modes) matches Some(t) ==> t.len() == modes.len() * DISPLAYID_TIMING_SIZE,
    decreases modes.len(),
{
    if modes.len() > 0 {
        lemma_timings_len(modes.drop_last());
        if let Some(t) = timing_spec(modes.last().0) {
            lemma_le_bytes_len((t.pixel_clock_10khz - 1) as nat, 3);
            lemma_le_bytes_len((t.horizontal_active - 1) as nat, 2);
            lemma_le_bytes_len((t.horizontal_blanking - 1) as nat, 2);
            lemma_le_bytes_len((t.horizontal_sync_offset - 1) as nat, 2);
            lemma_le_bytes_len((t.horizontal_sync_width - 1) as nat, 2);
            lemma_le_bytes_len((t.vertical_active - 1) as nat, 2);
            lemma_le_bytes_len((t.vertical_blanking - 1) as nat, 2);
            lemma_le_bytes_len((t.vertical_sync_offset - 1) as nat, 2);
            lemma_le_bytes_len((t.vertical_sync_width - 1) as nat, 2);
        }
    }
}

/// Where the timing of mode `i` is missing, so are the timings of every longer prefix.
proof fn lemma_timings_fail(modes: Seq<(DisplayMode, bool)>, i: int)
    requires
        0 <= i < modes.len(),
        ({
            match timing_spec(modes[i].0) {
                None => true,
                Some(t) => displayid_descriptor_spec(t, modes[i].1) is None,
            }
        }),
    ensures
        displayid_timings(modes) is None,
    decreases modes.len(),
{
    if i == modes.len() - 1 {
    } else {
        lemma_timings_fail(modes.drop_last(), i);
    }
}

/// "Varmint VM".
pub open spec fn monitor_name_spec() -> Seq<u8> {
    seq![86u8, 97u8, 114u8, 109u8, 105u8, 110u8, 116u8, 32u8, 86u8, 77u8]
}

/// "VRM".
pub open spec fn manufacturer_spec() -> Seq<u8> {
    seq![86u8, 82u8, 77u8]
}

fn monitor_name() -> (r: Vec<u8>)
    ensures
        r@ == monitor_name_spec(),
{
    let r = vec![86u8, 97u8, 114u8, 109u8, 105u8, 110u8, 116u8, 32u8, 86u8, 77u8];
    proof {
        assert(r@ =~= monitor_name_spec());
    }
    r
}

fn manufacturer() -> (r: Vec<u8>)
    ensures
        r@ == manufacturer_spec(),
{
    let r = vec![86u8, 82u8, 77u8];
    proof {
        assert(r@ =~= manufacturer_spec());
    }
    r
}

/// The base block up to its checksum, for a screen of `ps` with the
/// detailed timings `d1` (preferred) and `d2`.
pub open spec fn base_block_prefix(ps: PhysicalSizeMm, d1: Seq<u8>, d2: Seq<u8>) -> Seq<u8> {
    seq![0x00u8, 0xffu8, 0xffu8, 0xffu8, 0xffu8, 0xffu8, 0xffu8, 0x00u8] + manufacturer_id_spec(
        manufacturer_spec(),
    ) + le_bytes(PRODUCT_CODE as nat, 2) + le_bytes(SERIAL_NUMBER as nat, 4) + seq![
        MANUFACTURE_WEEK,
        (MANUFACTURE_YEAR - 1990) as u8,
        1u8,
        4u8,
        DIGITAL_INPUT,
        mm_to_cm_spec(ps.width),
        mm_to_cm_spec(ps.height),
        GAMMA_2_2,
        PREFERRED_TIMING_PRESENT
    ] + zeros(10) + zeros(3) + Seq::new(16, |_i: int| 1u8) + d1 + d2 + text_descriptor_spec(
        MONITOR_NAME_TAG,
        monitor_name_spec(),
    ) + range_limits_spec() + seq![1u8]
}

/// The EDID for a display of `width` by `height` points: a base block whose
/// detailed timings are that size at 120 Hz and 60 Hz, and a DisplayID
/// extension with twice the size at 120 Hz and 60 Hz. `None` where a mode or
/// timing cannot be encoded.
pub open spec fn edid_spec(width: u32, height: u32) -> Option<Seq<u8>> {
    match mode_spec(width, height, 120) {
        None => None,
        Some(m120) => {
            let m60 = DisplayMode { refresh_hz: 60, ..m120 };
            match doubled_spec(m120) {
                None => None,
                Some(r120) => {
                    let r60 = DisplayMode { refresh_hz: 60, ..r120 };
                    let ps = physical_size_spec(m120);
                    match (timing_spec(m120), timing_spec(m60)) {
                        (Some(t120), Some(t60)) => match (
                            descriptor_spec(t120, ps),
                            descriptor_spec(t60, ps),
                        ) {
                            (Some(d1), Some(d2)) => {
                                let pre = base_block_prefix(ps, d1, d2);
                                match displayid_extension_spec(seq![(r120, false), (r60, false)]) {
                                    None => None,
                                    Some(ext) => Some(pre.push(checksum_spec(pre)) + ext),
                                }
                            },
                            _ => None,
                        },
                        _ => None,
                    }
                },
            }
        },
    }
}

/// Builds the EDID for a display of `width` by `height` points.
pub fn build(width: u32, height: u32, _compatibility_mode: Option<(u32, u32)>) -> (r: Option<Vec<u8>>)
    ensures
        match r {
            Some(v) => edid_spec(width, height) == Some(v@),
            None => edid_spec(width, height) is None,
        },
{
    let half_retina_120 = match DisplayMode::new(width, height, 120) {
        Some(m) => m,
        None => return None,
    };
    let half_retina_60 = half_retina_120.with_refresh(60);
    let retina_120 = match half_retina_120.doubled() {
        Some(m) => m,
        None => return None,
    };
    let retina_60 = retina_120.with_refresh(60);
    let physical_size = half_retina_120.physical_size();
    let preferred_timing = match half_retina_120.timing() {
        Some(t) => t,
        None => return None,
    };
    let d1 = match preferred_timing.descriptor(physical_size) {
        Some(d) => d,
        None => return None,
    };
    let timing_60 = match half_retina_60.timing() {
        Some(t) => t,
        None => return None,
    };
    let d2 = match timing_60.descriptor(physical_size) {
        Some(d) => d,
        None => return None,
    };
    let mut base: Vec<u8> = vec![0x00u8, 0xffu8, 0xffu8, 0xffu8, 0xffu8, 0xffu8, 0xffu8, 0x00u8];
    let name = manufacturer();
    let id = manufacturer_id(name.as_slice());
    append_bytes(&mut base, id.as_slice());
    let product = u16_le(PRODUCT_CODE);
    append_bytes(&mut base, product.as_slice());
    let serial = u32_le(SERIAL_NUMBER);
    append_bytes(&mut base, serial.as_slice());
    let fields = vec![
        MANUFACTURE_WEEK,
        (MANUFACTURE_YEAR - 1990) as u8,
        1u8,
        4u8,
        DIGITAL_INPUT,
        millimeters_to_centimeters(physical_size.width),
        millimeters_to_centimeters(physical_size.height),
        GAMMA_2_2,
        PREFERRED_TIMING_PRESENT,
    ];
    append_bytes(&mut base, fields.as_slice());
    push_zeros(&mut base, 10);
    push_zeros(&mut base, 3);
    let standard = vec![1u8; 16];
    append_bytes(&mut base, standard.as_slice());
    append_bytes(&mut base, d1.as_slice());
    append_bytes(&mut base, d2.as_slice());
    let monitor = monitor_name();
    let text = text_descriptor(MONITOR_NAME_TAG, monitor.as_slice());
    append_bytes(&mut base, text.as_slice());
    let range = range_limits_descriptor();
    append_bytes(&mut base, range.as_slice());
    base.push(1u8);
    let ghost pre = base@;
    let sum = checksum(base.as_slice());
    base.push(sum);
    let modes = [(retina_120, false), (retina_60, false)];
    let ext = match displayid_extension(&modes) {
        Some(e) => e,
        None => {
            proof {
                assert(modes@ =~= seq![(retina_120, false), (retina_60, false)]);
            }
            return None;
        },
    };
    proof {
        assert(modes@ =~= seq![(retina_120, false), (retina_60, false)]);
        assert(standard@ =~= Seq::new(16, |_i: int| 1u8));
        assert(pre =~= base_block_prefix(physical_size, d1@, d2@));
    }
    append_bytes(&mut base, ext.as_slice());
    Some(base)
}

/// Every DisplayID extension block is 128 bytes whose sum is a multiple of
/// 256, and the DisplayID section from byte 1 through its own checksum sums
/// to a multiple of 256 too.
pub proof fn lemma_extension_checksums(modes: Seq<(DisplayMode, bool)>)
    ensures
        displayid_extension_spec(modes) matches Some(x) ==> {
            &&& x.len() == BLOCK_SIZE
            &&& byte_sum(x) % 256 == 0
            &&& byte_sum(x.subrange(1, 11 + modes.len() * DISPLAYID_TIMING_SIZE)) % 256 == 0
        },
{
    if let Some(x) = displayid_extension_spec(modes) {
        lemma_timings_len(modes);
        let timings = displayid_timings(modes)->0;
        let payload_len = modes.len() * DISPLAYID_TIMING_SIZE;
        let section_len = 5 + payload_len;
        let body = seq![
            DISPLAYID_EXTENSION_TAG,
            DISPLAYID_VERSION,
            section_len as u8,
            DISPLAYID_PRODUCT_TYPE_STANDALONE,
            0u8,
            DISPLAYID_DETAILED_TIMING_TYPE_I,
            1u8,
            payload_len as u8
        ] + timings + zeros(2);
        let section = body.subrange(1, body.len() as int);
        let with_section = body.push(checksum_spec(section));
        let padded = with_section + zeros(BLOCK_SIZE - 1 - with_section.len());
        lemma_checksum_closes(padded);
        lemma_checksum_closes(section);
        assert(x.subrange(1, 11 + payload_len) =~= section.push(checksum_spec(section)));
    }
}

proof fn lemma_descriptor_len(t: Timing, ps: PhysicalSizeMm)
    ensures
        descriptor_spec(t, ps) matches Some(d) ==> d.len() == DESCRIPTOR_SIZE,
{
    lemma_le_bytes_len(t.pixel_clock_10khz as nat, 2);
}

/// Every EDID that `build` gives is two 128-byte blocks, each of whose bytes
/// sum to a multiple of 256, and it starts with the fixed EDID header.
pub proof fn lemma_edid_checksums(width: u32, height: u32)
    ensures
        edid_spec(width, height) matches Some(e) ==> {
            &&& e.len() == EDID_SIZE
            &&& byte_sum(e.subrange(0, BLOCK_SIZE as int)) % 256 == 0
            &&& byte_sum(e.subrange(BLOCK_SIZE as int, EDID_SIZE as int)) % 256 == 0
            &&& e.subrange(0, 8) == seq![0x00u8, 0xffu8, 0xffu8, 0xffu8, 0xffu8, 0xffu8, 0xffu8, 0x00u8]
            &&& e[126] == 1u8
            &&& e[128] == DISPLAYID_EXTENSION_TAG
            &&& e[130] == 45u8
            &&& byte_sum(e.subrange(129, 134 + e[130] as int)) % 256 == 0
        },
{
    if let Some(e) = edid_spec(width, height) {
        let m120 = mode_spec(width, height, 120)->0;
        let m60 = DisplayMode { refresh_hz: 60, ..m120 };
        let r120 = doubled_spec(m120)->0;
        let r60 = DisplayMode { refresh_hz: 60, ..r120 };
        let ps = physical_size_spec(m120);
        let t120 = timing_spec(m120)->0;
        let t60 = timing_spec(m60)->0;
        lemma_descriptor_len(t120, ps);
        lemma_descriptor_len(t60, ps);
        let d1 = descriptor_spec(t120, ps)->0;
        let d2 = descriptor_spec(t60, ps)->0;
        lemma_le_bytes_len(PRODUCT_CODE as nat, 2);
        lemma_le_bytes_len(SERIAL_NUMBER as nat, 4);
        let pre = base_block_prefix(ps, d1, d2);
        assert(pre.len() == 127);
        let modes = seq![(r120, false), (r60, false)];
        lemma_extension_checksums(modes);
        let ext = displayid_extension_spec(modes)->0;
        lemma_checksum_closes(pre);
        assert(e.subrange(0, 128) =~= pre.push(checksum_spec(pre)));
        assert(e.subrange(128, 256) =~= ext);
        assert(e.subrange(0, 8) =~= seq![0x00u8, 0xffu8, 0xffu8, 0xffu8, 0xffu8, 0xffu8, 0xffu8, 0x00u8]);
        assert(e[126] == pre[126]);
        assert(pre[126] == 1u8);
        lemma_extension_header(modes);
        assert(e[128] == ext[0]);
        assert(e[130] == ext[2]);
        assert(e.subrange(129, 179) =~= ext.subrange(1, 51));
    }
}

/// The size in millimetres claimed for a side of `points` pixels: a fifth
/// of a millimetre per pixel, at least 1 and at most 4095.
pub open spec fn side_mm(points: int) -> int {
    if points < 10 {
        1
    } else if points >= 5 * 4095 {
        4095
    } else {
        points / 5
    }
}

/// Two sizes below 4096 packed as a detailed timing descriptor packs them
/// (each low byte, then both high nibbles in one byte) are read back whole.
pub proof fn lemma_size_nibbles(a: u16, b: u16)
    requires
        a < 4096,
        b < 4096,
    ensures
        low_byte_spec(a) + (high_nibbles_spec(a, b) / 16) * 256 == a,
        low_byte_spec(b) + (high_nibbles_spec(a, b) % 16) * 256 == b,
{
    let ha = (a / 256) % 16;
    let hb = (b / 256) % 16;
    assert(ha == a / 256 && hb == b / 256);
    assert((ha * 16 + hb) / 16 == ha && (ha * 16 + hb) % 16 == hb);
}

/// The physical size follows the mode's own axes: each side in millimetres
/// comes from the pixels along that side only, so a wider than tall mode
/// claims a wider than tall screen, and modes of equal width (height) claim
/// equal widths (heights).
pub proof fn lemma_physical_size_axes(m: DisplayMode, n: DisplayMode)
    ensures
        physical_size_spec(m).width == side_mm(m.width as int),
        physical_size_spec(m).height == side_mm(m.height as int),
        m.width >= m.height ==> physical_size_spec(m).width >= physical_size_spec(m).height,
        m.width == n.width ==> physical_size_spec(m).width == physical_size_spec(n).width,
        m.height == n.height ==> physical_size_spec(m).height == physical_size_spec(n).height,
{
}

/// The base block states the screen's width and then its height in whole
/// centimetres (bytes 21 and 22), each from the points along that side:
/// a fifth of a millimetre per point, at most 255 cm; a display wider than
/// tall is stated wider than tall.
pub proof fn lemma_edid_screen_size(width: u32, height: u32)
    ensures
        edid_spec(width, height) matches Some(e) ==> {
            &&& e[21] as int == if side_mm(width as int) / 10 > 255 { 255 } else { side_mm(width as int) / 10 }
            &&& e[22] as int == if side_mm(height as int) / 10 > 255 { 255 } else { side_mm(height as int) / 10 }
            &&& width >= height ==> e[21] >= e[22]
            &&& e[66] + (e[68] / 16) * 256 == side_mm(width as int)
            &&& e[67] + (e[68] % 16) * 256 == side_mm(height as int)
            &&& e[84] + (e[86] / 16) * 256 == side_mm(width as int)
            &&& e[85] + (e[86] % 16) * 256 == side_mm(height as int)
        },
{
    if let Some(e) = edid_spec(width, height) {
        let m120 = mode_spec(width, height, 120)->0;
        let m60 = DisplayMode { refresh_hz: 60, ..m120 };
        let r120 = doubled_spec(m120)->0;
        let r60 = DisplayMode { refresh_hz: 60, ..r120 };
        let ps = physical_size_spec(m120);
        let t120 = timing_spec(m120)->0;
        let t60 = timing_spec(m60)->0;
        lemma_descriptor_len(t120, ps);
        lemma_descriptor_len(t60, ps);
        let d1 = descriptor_spec(t120, ps)->0;
        let d2 = descriptor_spec(t60, ps)->0;
        lemma_le_bytes_len(PRODUCT_CODE as nat, 2);
        lemma_le_bytes_len(SERIAL_NUMBER as nat, 4);
        let pre = base_block_prefix(ps, d1, d2);
        assert(pre.len() == 127);
        let modes = seq![(r120, false), (r60, false)];
        let ext = displayid_extension_spec(modes)->0;
        assert(e.subrange(0, 128) =~= pre.push(checksum_spec(pre)));
        assert(e[21] == pre[21]);
        assert(e[22] == pre[22]);
        assert(pre[21] == mm_to_cm_spec(ps.width));
        assert(pre[22] == mm_to_cm_spec(ps.height));
        lemma_physical_size_axes(m120, m120);
        assert(pre.subrange(54, 72) =~= d1);
        assert(pre.subrange(72, 90) =~= d2);
        assert(e[66] == d1[12] && e[67] == d1[13] && e[68] == d1[14]);
        assert(e[84] == d2[12] && e[85] == d2[13] && e[86] == d2[14]);
        lemma_size_nibbles(ps.width, ps.height);
    }
}

proof fn lemma_extension_header(modes: Seq<(DisplayMode, bool)>)
    requires
        modes.len() == 2,
    ensures
        displayid_extension_spec(modes) matches Some(x) ==> x[0] == DISPLAYID_EXTENSION_TAG && x[2] == 45u8,
{
    if let Some(x) = displayid_extension_spec(modes) {
        lemma_timings_len(modes);
        let timings = displayid_timings(modes)->0;
        let payload_len = modes.len() * DISPLAYID_TIMING_SIZE;
        let section_len = 5 + payload_len;
        let body = seq![
            DISPLAYID_EXTENSION_TAG,
            DISPLAYID_VERSION,
            section_len as u8,
            DISPLAYID_PRODUCT_TYPE_STANDALONE,
            0u8,
            DISPLAYID_DETAILED_TIMING_TYPE_I,
            1u8,
            payload_len as u8
        ] + timings + zeros(2);
        let with_section = body.push(checksum_spec(body.subrange(1, body.len() as int)));
        let padded = with_section + zeros(BLOCK_SIZE - 1 - with_section.len());
        assert(x == padded.push(checksum_spec(padded)));
        assert(x[0] == body[0]);
        assert(x[2] == body[2]);
    }
}


/// An EDID is refused exactly where a side is zero, a doubled side does
/// not fit in 16 bits, or the pixel clock of the base mode at 120 Hz does
/// not fit the detailed timing descriptor's 16 bits of 10 kHz.
#[verifier::rlimit(100)]
pub proof fn lemma_edid_refused(w: u32, h: u32)
    ensures
        edid_spec(w, h) is None <==> (w == 0 || h == 0 || w > 32767 || h > 32767 || ((w + 160) * (h + 35) * 120
            + 5000) / 10000 > 65535),
{
    if w == 0 || h == 0 || w > u16::MAX || h > u16::MAX {
        assert(mode_spec(w, h, 120) is None);
    } else {
        let m120 = mode_spec(w, h, 120)->0;
        assert(m120.width == w && m120.height == h);
        let x: int = (w + 160) * (h + 35);
        assert(x <= 65695 * 65570) by (nonlinear_arith)
            requires
                x == (w + 160) * (h + 35),
                w <= 65535,
                h <= 65535,
        ;
        assert(x >= 161 * 36) by (nonlinear_arith)
            requires
                x == (w + 160) * (h + 35),
                w >= 1,
                h >= 1,
        ;
        assert(pixel_clock_spec(m120) == (x * 120 + 5000) / 10000);
        assert((x * 120 + 5000) / 10000 <= u32::MAX);
        if w > 32767 || h > 32767 {
            assert(doubled_spec(m120) is None);
        } else {
            let r120 = doubled_spec(m120)->0;
            let m60 = DisplayMode { refresh_hz: 60, ..m120 };
            let r60 = DisplayMode { refresh_hz: 60, ..r120 };
            assert(r120.width == 2 * w && r120.height == 2 * h && r120.refresh_hz == 120);
            assert(pixel_clock_spec(m60) == (x * 60 + 5000) / 10000);
            assert((x * 60 + 5000) / 10000 <= (x * 120 + 5000) / 10000) by (nonlinear_arith)
                requires
                    x >= 0,
            ;
            let t120 = timing_spec(m120)->0;
            let t60 = timing_spec(m60)->0;
            if (x * 120 + 5000) / 10000 > 65535 {
                assert(descriptor_spec(t120, physical_size_spec(m120)) is None);
            } else {
                let d: int = (2 * w + 160) * (2 * h + 35);
                assert(d <= 4 * x) by (nonlinear_arith)
                    requires
                        d == (2 * w + 160) * (2 * h + 35),
                        x == (w + 160) * (h + 35),
                        w >= 0,
                        h >= 0,
                ;
                assert(d >= 162 * 37) by (nonlinear_arith)
                    requires
                        d == (2 * w + 160) * (2 * h + 35),
                        w >= 1,
                        h >= 1,
                ;
                assert(pixel_clock_spec(r120) == (d * 120 + 5000) / 10000);
                assert(pixel_clock_spec(r60) == (d * 60 + 5000) / 10000);
                assert(x * 120 < 65536 * 10000);
                assert((d * 120 + 5000) / 10000 <= 0xff_ffff) by (nonlinear_arith)
                    requires
                        d <= 4 * x,
                        x * 120 < 65536 * 10000,
                        d >= 0,
                ;
                assert((d * 60 + 5000) / 10000 <= (d * 120 + 5000) / 10000) by (nonlinear_arith)
                    requires
                        d >= 0,
                ;
                assert((d * 60 + 5000) / 10000 >= 1) by (nonlinear_arith)
                    requires
                        d >= 162 * 37,
                ;
                let modes = seq![(r120, false), (r60, false)];
                assert(modes.drop_last() =~= seq![(r120, false)]);
                assert(seq![(r120, false)].drop_last() =~= Seq::<(DisplayMode, bool)>::empty());
                assert(displayid_timings(Seq::<(DisplayMode, bool)>::empty()) == Some(Seq::<u8>::empty()));
                assert(timing_spec(r120) is Some);
                assert(timing_spec(r60) is Some);
                assert(displayid_descriptor_spec(timing_spec(r120)->0, false) is Some);
                assert(displayid_descriptor_spec(timing_spec(r60)->0, false) is Some);
                assert(seq![(r120, false)].last() == (r120, false));
                assert(modes.last() == (r60, false));
                assert(displayid_timings(seq![(r120, false)]) is Some);
                assert(displayid_timings(modes) is Some);
                assert(displayid_extension_spec(modes) is Some);
                assert(edid_spec(w, h) is Some);
            }
        }
    }
}

} // verus!
