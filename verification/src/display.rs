//! The frame that the guest's scanout publishes and the window presents: a
//! BGRA pixel buffer, the part of it that changed, and a sequence number.
use crate::bytes::{get_u32, le_value};
use vstd::prelude::*;

pub mod stats;

verus! {

/// Tells the window that the display changed.
#[derive(Debug, Clone, Copy, PartialEq, Eq)]
pub enum DisplayEvent {
    Changed,
}

/// A rectangle: left, top, width, height.
#[derive(Debug, Clone, Copy, PartialEq, Eq)]
pub struct Rect {
    pub x: usize,
    pub y: usize,
    pub width: usize,
    pub height: usize,
}

/// What the window takes to present a new frame.
#[derive(Debug, Clone, Copy, PartialEq, Eq)]
pub struct DisplayUpdate {
    pub sequence: u64,
    pub width: usize,
    pub height: usize,
    pub dirty_rect: (usize, usize, usize, usize),
    pub iosurface_id: Option<u32>,
}

/// The published frame.
pub struct DisplayBuffer {
    width: usize,
    height: usize,
    pixels: Vec<u32>,
    dirty_rect: Option<(usize, usize, usize, usize)>,
    iosurface_id: Option<u32>,
    sequence: u64,
}

/// `a + b`, or `usize::MAX` where that does not fit.
pub open spec fn sat_add(a: usize, b: usize) -> usize {
    if a + b > usize::MAX {
        usize::MAX
    } else {
        (a + b) as usize
    }
}

pub open spec fn min(a: usize, b: usize) -> usize {
    if a <= b {
        a
    } else {
        b
    }
}

pub open spec fn max(a: usize, b: usize) -> usize {
    if a >= b {
        a
    } else {
        b
    }
}

/// The smallest rectangle that holds both `a` and `b`, ends saturating.
pub open spec fn merge_spec(a: (usize, usize, usize, usize), b: (usize, usize, usize, usize)) -> (
    usize,
    usize,
    usize,
    usize,
) {
    let x0 = min(a.0, b.0);
    let y0 = min(a.1, b.1);
    let x1 = max(sat_add(a.0, a.2), sat_add(b.0, b.2));
    let y1 = max(sat_add(a.1, a.3), sat_add(b.1, b.3));
    (x0, y0, (x1 - x0) as usize, (y1 - y0) as usize)
}

/// Merges two dirty rectangles.
pub fn merge_rects(a: (usize, usize, usize, usize), b: (usize, usize, usize, usize)) -> (r: (
    usize,
    usize,
    usize,
    usize,
))
    ensures
        r == merge_spec(a, b),
{
    let x0 = if a.0 <= b.0 {
        a.0
    } else {
        b.0
    };
    let y0 = if a.1 <= b.1 {
        a.1
    } else {
        b.1
    };
    let ax1 = a.0.saturating_add(a.2);
    let bx1 = b.0.saturating_add(b.2);
    let ay1 = a.1.saturating_add(a.3);
    let by1 = b.1.saturating_add(b.3);
    let x1 = if ax1 >= bx1 {
        ax1
    } else {
        bx1
    };
    let y1 = if ay1 >= by1 {
        ay1
    } else {
        by1
    };
    (x0, y0, x1 - x0, y1 - y0)
}

/// `outer` holds `inner`.
pub open spec fn contains(outer: (usize, usize, usize, usize), inner: (usize, usize, usize, usize)) -> bool {
    &&& outer.0 <= inner.0
    &&& outer.1 <= inner.1
    &&& inner.0 + inner.2 <= outer.0 + outer.2
    &&& inner.1 + inner.3 <= outer.1 + outer.3
}

/// Merging dirty rectangles loses no part of either: the merged rectangle
/// holds both, where their ends fit in a `usize`.
pub proof fn lemma_merge_contains(a: (usize, usize, usize, usize), b: (usize, usize, usize, usize))
    requires
        a.0 + a.2 <= usize::MAX,
        a.1 + a.3 <= usize::MAX,
        b.0 + b.2 <= usize::MAX,
        b.1 + b.3 <= usize::MAX,
    ensures
        contains(merge_spec(a, b), a),
        contains(merge_spec(a, b), b),
{
}

/// The part of `damage` that the scanout `source` shows, in display
/// coordinates and cut to a `w` by `h` display; `None` where nothing is left.
pub open spec fn clip_spec(w: usize, h: usize, source: Rect, damage: Rect) -> Option<
    (usize, usize, usize, usize),
> {
    let sx0 = max(damage.x, source.x);
    let sy0 = max(damage.y, source.y);
    let sx1 = min(sat_add(damage.x, damage.width), sat_add(source.x, source.width));
    let sy1 = min(sat_add(damage.y, damage.height), sat_add(source.y, source.height));
    if sx0 >= sx1 || sy0 >= sy1 {
        None
    } else {
        let x0 = min((sx0 - source.x) as usize, w);
        let y0 = min((sy0 - source.y) as usize, h);
        let x1 = min((sx1 - source.x) as usize, w);
        let y1 = min((sy1 - source.y) as usize, h);
        if x0 < x1 && y0 < y1 {
            Some((x0, y0, (x1 - x0) as usize, (y1 - y0) as usize))
        } else {
            None
        }
    }
}

/// A clipped rectangle is not empty, lies on the display, and shows only
/// damaged source pixels.
pub proof fn lemma_clip_inside(w: usize, h: usize, source: Rect, damage: Rect)
    requires
        clip_spec(w, h, source, damage) is Some,
    ensures
        ({
            let r = clip_spec(w, h, source, damage)->0;
            &&& r.2 > 0 && r.3 > 0
            &&& r.0 + r.2 <= w && r.1 + r.3 <= h
            &&& damage.x <= source.x + r.0
            &&& damage.y <= source.y + r.1
            &&& source.x + r.0 + r.2 <= sat_add(damage.x, damage.width)
            &&& source.y + r.1 + r.3 <= sat_add(damage.y, damage.height)
            &&& source.x + r.0 + r.2 <= sat_add(source.x, source.width)
            &&& source.y + r.1 + r.3 <= sat_add(source.y, source.height)
        }),
{
}

/// The pixel at row `r`, column `c` of a frame `w` pixels wide.
pub open spec fn cell(p: Seq<u32>, w: int, r: int, c: int) -> u32 {
    p[r * w + c]
}

/// The little-endian 32-bit value of the four bytes at `off`.
pub open spec fn le32_at(data: Seq<u8>, off: int) -> u32 {
    le_value(data.subrange(off, off + 4)) as u32
}

/// `(r, c)` lies in the rectangle `rect`.
pub open spec fn in_rect(rect: (usize, usize, usize, usize), r: int, c: int) -> bool {
    rect.1 <= r < rect.1 + rect.3 && rect.0 <= c < rect.0 + rect.2
}

/// Distinct cells of a row-major frame have distinct indices.
pub proof fn lemma_cell_unique(w: int, r: int, c: int, r2: int, c2: int)
    requires
        0 <= c < w,
        0 <= c2 < w,
        0 <= r,
        0 <= r2,
        r * w + c == r2 * w + c2,
    ensures
        r == r2 && c == c2,
{
    if r < r2 {
        assert(r * w + c < r2 * w) by (nonlinear_arith)
            requires
                r < r2,
                0 <= c < w,
        ;
    } else if r > r2 {
        assert(r2 * w + c2 < r * w) by (nonlinear_arith)
            requires
                r2 < r,
                0 <= c2 < w,
        ;
    }
}

/// A cell of a `w` by `h` frame lies inside its `w * h` pixels.
pub proof fn lemma_cell_bound(w: int, h: int, r: int, c: int)
    requires
        0 <= r < h,
        0 <= c < w,
    ensures
        0 <= r * w + c < w * h,
{
    assert(0 <= r * w + c < w * h) by (nonlinear_arith)
        requires
            0 <= r < h,
            0 <= c < w,
    ;
}

proof fn lemma_mul_mono(a: int, b: int, k: int)
    requires
        0 <= a <= b,
        0 <= k,
    ensures
        a * k <= b * k,
{
    assert(a * k <= b * k) by (nonlinear_arith)
        requires
            0 <= a <= b,
            0 <= k,
    ;
}

/// `p` resized to `n` cells: cut, or grown with zeros.
pub open spec fn resized(p: Seq<u32>, n: nat) -> Seq<u32> {
    Seq::new(n, |i: int| if i < p.len() { p[i] } else { 0u32 })
}

fn resize_vec(v: &mut Vec<u32>, n: usize)
    ensures
        final(v)@ == resized(old(v)@, n as nat),
{
    if n <= v.len() {
        v.truncate(n);
        proof {
            assert(v@ =~= resized(old(v)@, n as nat));
        }
    } else {
        while v.len() < n
            invariant
                old(v)@.len() <= v@.len() <= n,
                v@ == resized(old(v)@, v@.len()),
            decreases n - v@.len(),
        {
            v.push(0);
            proof {
                assert(v@ =~= resized(old(v)@, v@.len()));
            }
        }
    }
}

/// The frame after the scanout's pixels are copied into the rectangle
/// `rect`: row `r` and column `c` of it come from the four bytes at
/// `(sy0 + r - rect.y) * stride + (sx0 + c - rect.x) * 4` of `data`.
pub open spec fn blitted(
    old: Seq<u32>,
    new: Seq<u32>,
    w: int,
    h: int,
    rect: (usize, usize, usize, usize),
    data: Seq<u8>,
    stride: int,
    sx0: int,
    sy0: int,
) -> bool {
    &&& new.len() == old.len()
    &&& forall|r: int, c: int|
        #![trigger cell(new, w, r, c)]
        0 <= r < h && 0 <= c < w ==> cell(new, w, r, c) == if in_rect(rect, r, c) {
            le32_at(data, (sy0 + r - rect.1) * stride + (sx0 + c - rect.0) * 4)
        } else {
            cell(old, w, r, c)
        }
}

/// The window's copy after the rows of `rect` are taken from `src`.
pub open spec fn copied(old: Seq<u32>, new: Seq<u32>, src: Seq<u32>, w: int, h: int, rect: (
    usize,
    usize,
    usize,
    usize,
)) -> bool {
    &&& new.len() == old.len()
    &&& forall|r: int, c: int|
        #![trigger cell(new, w, r, c)]
        0 <= r < h && 0 <= c < w ==> cell(new, w, r, c) == if in_rect(rect, r, c) {
            cell(src, w, r, c)
        } else {
            cell(old, w, r, c)
        }
}

/// What setting the frame's size to `width` by `height` does, taking `b` to
/// `b2`: nothing at the same size; else the frame takes the size, its pixels
/// are kept as far as they go, and the whole frame is dirty and no longer a
/// surface.
pub open spec fn resize_spec(b: DisplayBuffer, b2: DisplayBuffer, width: usize, height: usize) -> bool {
    &&& b.width() == width && b.height() == height ==> b2 == b
    &&& !(b.width() == width && b.height() == height) ==> {
        &&& b2.width() == width
        &&& b2.height() == height
        &&& b2.pixels() == resized(b.pixels(), (width * height) as nat)
        &&& b2.dirty() == Some((0usize, 0usize, width, height))
        &&& b2.surface() is None
        &&& b2.sequence() == b.sequence().wrapping_add(1)
    }
}

/// What publishing `data`, rows `stride` bytes apart, for the scanout
/// `source` with `damage` does, taking `b` to `b2` and giving `r`.
pub open spec fn publish_spec(
    b: DisplayBuffer,
    b2: DisplayBuffer,
    data: Seq<u8>,
    stride: usize,
    source: Rect,
    damage: Rect,
    r: bool,
) -> bool {
    let c = clip_spec(b.width(), b.height(), source, damage);
    match c {
        None => !r && b2 == b,
        Some(d) => {
            let sx0 = source.x + d.0;
            let sy0 = source.y + d.1;
            let fits = pixels_fit(data.len() as int, stride as int, sx0 + d.2, sy0 + d.3);
            &&& r == fits
            &&& !fits ==> b2 == b
            &&& fits ==> {
                &&& blitted(
                    b.pixels(),
                    b2.pixels(),
                    b.width() as int,
                    b.height() as int,
                    d,
                    data,
                    stride as int,
                    sx0,
                    sy0,
                )
                &&& b2.surface() is None
                &&& b2.dirty() == Some(
                    match b.dirty() {
                        Some(o) => merge_spec(o, d),
                        None => d,
                    },
                )
                &&& b2.sequence() == b.sequence().wrapping_add(1)
                &&& b2.width() == b.width()
                &&& b2.height() == b.height()
            }
        },
    }
}

impl DisplayBuffer {
    pub closed spec fn width(&self) -> usize {
        self.width
    }

    pub closed spec fn height(&self) -> usize {
        self.height
    }

    pub closed spec fn pixels(&self) -> Seq<u32> {
        self.pixels@
    }

    pub closed spec fn dirty(&self) -> Option<(usize, usize, usize, usize)> {
        self.dirty_rect
    }

    pub closed spec fn surface(&self) -> Option<u32> {
        self.iosurface_id
    }

    pub closed spec fn sequence(&self) -> u64 {
        self.sequence
    }

    /// The buffer holds one pixel per cell of the frame.
    pub closed spec fn wf(&self) -> bool {
        self.pixels@.len() == self.width * self.height
    }

    /// Whether the frame holds exactly `width * height` pixels.
    pub fn is_wf(&self) -> (r: bool)
        ensures
            r == self.wf(),
    {
        let len = self.pixels.len();
        match self.width.checked_mul(self.height) {
            Some(n) => n == len,
            None => false,
        }
    }

    pub fn new() -> (r: DisplayBuffer)
        ensures
            r.wf(),
            r.width() == 0 && r.height() == 0,
            r.pixels().len() == 0,
            r.dirty() is None,
            r.surface() is None,
            r.sequence() == 0,
    {
        DisplayBuffer {
            width: 0,
            height: 0,
            pixels: Vec::new(),
            dirty_rect: None,
            iosurface_id: None,
            sequence: 0,
        }
    }

    /// Sets the frame's size; a new size marks the whole frame dirty and
    /// drops a published surface.
    pub fn resize(&mut self, width: usize, height: usize)
        requires
            old(self).wf(),
            width * height <= usize::MAX,
        ensures
            resize_spec(*old(self), *final(self), width, height),
            final(self).wf(),
    {
        if self.width == width && self.height == height {
            return;
        }
        self.width = width;
        self.height = height;
        resize_vec(&mut self.pixels, width * height);
        self.dirty_rect = Some((0, 0, width, height));
        self.iosurface_id = None;
        self.sequence = self.sequence.wrapping_add(1);
    }
}


fn min_exec(a: usize, b: usize) -> (r: usize)
    ensures
        r == min(a, b),
{
    if a <= b {
        a
    } else {
        b
    }
}

fn max_exec(a: usize, b: usize) -> (r: usize)
    ensures
        r == max(a, b),
{
    if a >= b {
        a
    } else {
        b
    }
}

impl DisplayBuffer {
    /// Clips `damage` to the scanout `source` and the display.
    pub fn clip_damage(&self, source: Rect, damage: Rect) -> (r: Option<(usize, usize, usize, usize)>)
        ensures
            r == clip_spec(self.width(), self.height(), source, damage),
    {
        let damage_x1 = damage.x.saturating_add(damage.width);
        let damage_y1 = damage.y.saturating_add(damage.height);
        let source_x1 = source.x.saturating_add(source.width);
        let source_y1 = source.y.saturating_add(source.height);
        let src_x0 = max_exec(damage.x, source.x);
        let src_y0 = max_exec(damage.y, source.y);
        let src_x1 = min_exec(damage_x1, source_x1);
        let src_y1 = min_exec(damage_y1, source_y1);
        if src_x0 >= src_x1 || src_y0 >= src_y1 {
            return None;
        }
        let x0 = min_exec(src_x0 - source.x, self.width);
        let y0 = min_exec(src_y0 - source.y, self.height);
        let x1 = min_exec(src_x1 - source.x, self.width);
        let y1 = min_exec(src_y1 - source.y, self.height);
        if x0 < x1 && y0 < y1 {
            Some((x0, y0, x1 - x0, y1 - y0))
        } else {
            None
        }
    }

    /// Records a published change: the surface that holds the frame, if
    /// any, and a dirty rectangle that grows to hold `dirty_rect`.
    pub fn publish_damage(&mut self, iosurface_id: Option<u32>, dirty_rect: (usize, usize, usize, usize))
        ensures
            final(self).surface() == iosurface_id,
            final(self).dirty() == Some(
                match old(self).dirty() {
                    Some(o) => merge_spec(o, dirty_rect),
                    None => dirty_rect,
                },
            ),
            final(self).sequence() == old(self).sequence().wrapping_add(1),
            final(self).width() == old(self).width(),
            final(self).height() == old(self).height(),
            final(self).pixels() == old(self).pixels(),
    {
        self.iosurface_id = iosurface_id;
        self.dirty_rect = Some(
            match self.dirty_rect {
                Some(o) => merge_rects(o, dirty_rect),
                None => dirty_rect,
            },
        );
        self.sequence = self.sequence.wrapping_add(1);
    }

    /// Publishes a frame that lives in an IOSurface; `false` where no part
    /// of the damage shows.
    pub fn publish_iosurface(&mut self, iosurface_id: u32, source: Rect, damage: Rect) -> (r: bool)
        ensures
            r == clip_spec(old(self).width(), old(self).height(), source, damage) is Some,
            !r ==> *final(self) == *old(self),
            r ==> {
                let d = clip_spec(old(self).width(), old(self).height(), source, damage)->0;
                &&& final(self).surface() == Some(iosurface_id)
                &&& final(self).dirty() == Some(
                    match old(self).dirty() {
                        Some(o) => merge_spec(o, d),
                        None => d,
                    },
                )
                &&& final(self).sequence() == old(self).sequence().wrapping_add(1)
                &&& final(self).width() == old(self).width()
                &&& final(self).height() == old(self).height()
                &&& final(self).pixels() == old(self).pixels()
            },
    {
        match self.clip_damage(source, damage) {
            None => false,
            Some(d) => {
                self.publish_damage(Some(iosurface_id), d);
                true
            },
        }
    }
}


/// The pixel data covers rows `sy0` to `sy1 - 1` up to column `sx1` at the
/// given stride, and the whole of `sy1` rows.
pub open spec fn pixels_fit(len: int, stride: int, sx1: int, sy1: int) -> bool {
    &&& sy1 * stride <= len
    &&& (sy1 - 1) * stride + sx1 * 4 <= len
}

/// Copies the rectangle `rect` of the frame from `data`.
fn blit_rows(
    pixels: &mut Vec<u32>,
    fw: usize,
    fh: usize,
    rect: (usize, usize, usize, usize),
    data: &[u8],
    stride: usize,
    sx0: usize,
    sy0: usize,
)
    requires
        old(pixels)@.len() == fw * fh,
        rect.0 + rect.2 <= fw,
        rect.1 + rect.3 <= fh,
        rect.3 > 0,
        sx0 + rect.2 <= usize::MAX,
        sy0 + rect.3 <= usize::MAX,
        (sy0 + rect.3 - 1) * stride + (sx0 + rect.2) * 4 <= data@.len(),
    ensures
        blitted(old(pixels)@, final(pixels)@, fw as int, fh as int, rect, data@, stride as int, sx0 as int, sy0 as int),
{
    let (x, y, w, h) = rect;
    let ghost old_p = pixels@;
    let dlen = data.len();
    let plen = pixels.len();
    let mut r: usize = 0;
    while r < h
        invariant
            old_p == old(pixels)@,
            dlen == data@.len(),
            plen == pixels@.len(),
            pixels@.len() == fw * fh,
            x + w <= fw,
            y + h <= fh,
            h > 0,
            r <= h,
            sx0 + w <= usize::MAX,
            sy0 + h <= usize::MAX,
            (sy0 + h - 1) * stride + (sx0 + w) * 4 <= data@.len(),
            forall|rr: int, cc: int|
                #![trigger cell(pixels@, fw as int, rr, cc)]
                0 <= rr < fh && 0 <= cc < fw ==> cell(pixels@, fw as int, rr, cc) == if in_rect(
                    (x, y, w, r),
                    rr,
                    cc,
                ) {
                    le32_at(data@, (sy0 + rr - y) * stride + (sx0 + cc - x) * 4)
                } else {
                    cell(old_p, fw as int, rr, cc)
                },
        decreases h - r,
    {
        proof {
            lemma_mul_mono((sy0 + r) as int, (sy0 + h - 1) as int, stride as int);
            assert((sy0 + r) * stride + (sx0 + w) * 4 <= data@.len());
        }
        let src_row = (sy0 + r) * stride;
        let mut k: usize = 0;
        while k < w
            invariant
                old_p == old(pixels)@,
                dlen == data@.len(),
                plen == pixels@.len(),
                pixels@.len() == fw * fh,
                x + w <= fw,
                y + h <= fh,
                r < h,
                k <= w,
                sx0 + w <= usize::MAX,
                src_row == (sy0 + r) * stride,
                src_row + (sx0 + w) * 4 <= data@.len(),
                forall|rr: int, cc: int|
                    #![trigger cell(pixels@, fw as int, rr, cc)]
                    0 <= rr < fh && 0 <= cc < fw ==> cell(pixels@, fw as int, rr, cc) == if in_rect(
                        (x, y, w, r),
                        rr,
                        cc,
                    ) || (rr == y + r && x <= cc < x + k) {
                        le32_at(data@, (sy0 + rr - y) * stride + (sx0 + cc - x) * 4)
                    } else {
                        cell(old_p, fw as int, rr, cc)
                    },
            decreases w - k,
        {
            assert((sx0 + k) * 4 <= (sx0 + w) * 4);
            let off = src_row + (sx0 + k) * 4;
            let v = get_u32(data, off);
            proof {
                lemma_cell_bound(fw as int, fh as int, (y + r) as int, (x + k) as int);
            }
            let i = (y + r) * fw + (x + k);
            let ghost before = pixels@;
            pixels.set(i, v);
            proof {
                assert forall|rr: int, cc: int|
                    0 <= rr < fh && 0 <= cc < fw implies #[trigger] cell(pixels@, fw as int, rr, cc)
                    == if in_rect((x, y, w, r), rr, cc) || (rr == y + r && x <= cc < x + k + 1) {
                    le32_at(data@, (sy0 + rr - y) * stride + (sx0 + cc - x) * 4)
                } else {
                    cell(old_p, fw as int, rr, cc)
                } by {
                    lemma_cell_bound(fw as int, fh as int, rr, cc);
                    if rr * fw + cc == i {
                        lemma_cell_unique(fw as int, rr, cc, (y + r) as int, (x + k) as int);
                    } else {
                        assert(cell(pixels@, fw as int, rr, cc) == cell(before, fw as int, rr, cc));
                    }
                }
            }
            k = k + 1;
        }
        proof {
            assert forall|rr: int, cc: int|
                0 <= rr < fh && 0 <= cc < fw implies #[trigger] cell(pixels@, fw as int, rr, cc) == if in_rect(
                (x, y, w, (r + 1) as usize),
                rr,
                cc,
            ) {
                le32_at(data@, (sy0 + rr - y) * stride + (sx0 + cc - x) * 4)
            } else {
                cell(old_p, fw as int, rr, cc)
            } by {}
        }
        r = r + 1;
    }
}

impl DisplayBuffer {
    /// Publishes pixels that the guest rendered: the damaged part that the
    /// scanout `source` shows is copied from `data`, rows `stride` bytes
    /// apart and four bytes a pixel; `false`, with nothing changed, where no
    /// part of the damage shows or `data` is too short for it.
    pub fn publish_pixels(&mut self, data: &[u8], stride: usize, source: Rect, damage: Rect) -> (r: bool)
        requires
            old(self).wf(),
        ensures
            final(self).wf(),
            publish_spec(*old(self), *final(self), data@, stride, source, damage, r),
    {
        let d = match self.clip_damage(source, damage) {
            None => return false,
            Some(d) => d,
        };
        proof {
            lemma_clip_inside(self.width, self.height, source, damage);
        }
        let dlen = data.len();
        let (x, y, w, h) = d;
        let sx0 = source.x + x;
        let sy0 = source.y + y;
        let sx1 = sx0 + w;
        let sy1 = sy0 + h;
        let need = match sy1.checked_mul(stride) {
            Some(n) => n,
            None => return false,
        };
        if dlen < need {
            return false;
        }
        let x_end = match sx1.checked_mul(4) {
            Some(e) => e,
            None => {
                proof {
                    lemma_mul_mono((sy1 - 1) as int, sy1 as int, stride as int);
                }
                return false;
            },
        };
        proof {
            lemma_mul_mono((sy1 - 1) as int, sy1 as int, stride as int);
        }
        let last = (sy1 - 1) * stride;
        if x_end > dlen - last {
            return false;
        }
        let fw = self.width;
        let fh = self.height;
        blit_rows(&mut self.pixels, fw, fh, d, data, stride, sx0, sy0);
        self.publish_damage(None, d);
        true
    }
}


/// A dirty rectangle cut to a `w` by `h` frame.
pub open spec fn clamp(d: (usize, usize, usize, usize), w: usize, h: usize) -> (usize, usize, usize, usize) {
    let x = min(d.0, w);
    let y = min(d.1, h);
    (x, y, min(d.2, (w - x) as usize), min(d.3, (h - y) as usize))
}

/// Copies the rectangle `rect` of `src` into `front`.
fn copy_rows(front: &mut Vec<u32>, src: &Vec<u32>, fw: usize, fh: usize, rect: (usize, usize, usize, usize))
    requires
        old(front)@.len() == fw * fh,
        src@.len() == fw * fh,
        rect.0 + rect.2 <= fw,
        rect.1 + rect.3 <= fh,
    ensures
        copied(old(front)@, final(front)@, src@, fw as int, fh as int, rect),
{
    let (x, y, w, h) = rect;
    let ghost old_f = front@;
    let plen = front.len();
    let mut r: usize = 0;
    while r < h
        invariant
            old_f == old(front)@,
            plen == front@.len(),
            front@.len() == fw * fh,
            src@.len() == fw * fh,
            x + w <= fw,
            y + h <= fh,
            r <= h,
            forall|rr: int, cc: int|
                #![trigger cell(front@, fw as int, rr, cc)]
                0 <= rr < fh && 0 <= cc < fw ==> cell(front@, fw as int, rr, cc) == if in_rect(
                    (x, y, w, r),
                    rr,
                    cc,
                ) {
                    cell(src@, fw as int, rr, cc)
                } else {
                    cell(old_f, fw as int, rr, cc)
                },
        decreases h - r,
    {
        let mut k: usize = 0;
        while k < w
            invariant
                old_f == old(front)@,
                plen == front@.len(),
                front@.len() == fw * fh,
                src@.len() == fw * fh,
                x + w <= fw,
                y + h <= fh,
                r < h,
                k <= w,
                forall|rr: int, cc: int|
                    #![trigger cell(front@, fw as int, rr, cc)]
                    0 <= rr < fh && 0 <= cc < fw ==> cell(front@, fw as int, rr, cc) == if in_rect(
                        (x, y, w, r),
                        rr,
                        cc,
                    ) || (rr == y + r && x <= cc < x + k) {
                        cell(src@, fw as int, rr, cc)
                    } else {
                        cell(old_f, fw as int, rr, cc)
                    },
            decreases w - k,
        {
            proof {
                lemma_cell_bound(fw as int, fh as int, (y + r) as int, (x + k) as int);
            }
            let i = (y + r) * fw + (x + k);
            let v = src[i];
            let ghost before = front@;
            front.set(i, v);
            proof {
                assert forall|rr: int, cc: int|
                    0 <= rr < fh && 0 <= cc < fw implies #[trigger] cell(front@, fw as int, rr, cc)
                    == if in_rect((x, y, w, r), rr, cc) || (rr == y + r && x <= cc < x + k + 1) {
                    cell(src@, fw as int, rr, cc)
                } else {
                    cell(old_f, fw as int, rr, cc)
                } by {
                    lemma_cell_bound(fw as int, fh as int, rr, cc);
                    if rr * fw + cc == i {
                        lemma_cell_unique(fw as int, rr, cc, (y + r) as int, (x + k) as int);
                    } else {
                        assert(cell(front@, fw as int, rr, cc) == cell(before, fw as int, rr, cc));
                    }
                }
            }
            k = k + 1;
        }
        proof {
            assert forall|rr: int, cc: int|
                0 <= rr < fh && 0 <= cc < fw implies #[trigger] cell(front@, fw as int, rr, cc) == if in_rect(
                (x, y, w, (r + 1) as usize),
                rr,
                cc,
            ) {
                cell(src@, fw as int, rr, cc)
            } else {
                cell(old_f, fw as int, rr, cc)
            } by {}
        }
        r = r + 1;
    }
}

/// What handing the frame to the window does: the buffer `b` becomes `b2`
/// and the window's copy `front` becomes `f2`, giving `r`. Nothing changes
/// where nothing was published since `last_sequence`; else the update is
/// described, the dirty rectangle is consumed, and unless the frame lives in
/// a surface its dirty part is copied into the window's copy, which first
/// takes the frame's size and the whole frame where it had another.
pub open spec fn update_spec(
    b: DisplayBuffer,
    b2: DisplayBuffer,
    last_sequence: u64,
    front: Seq<u32>,
    f2: Seq<u32>,
    r: Option<DisplayUpdate>,
) -> bool {
    &&& (b.sequence() == last_sequence ==> {
        &&& r is None
        &&& b2 == b
        &&& f2 == front
            })
    &&& (b.sequence() != last_sequence ==> {
        let w = b.width();
        let h = b.height();
        let n = b.pixels().len();
        let full = (0usize, 0usize, w, h);
        let grown = front.len() != n;
        let mid = if grown {
            resized(front, n)
        } else {
            front
        };
        let d = clamp(
            if grown {
                full
            } else {
                match b.dirty() {
                    Some(o) => o,
                    None => full,
                }
            },
            w,
            h,
        );
        &&& r == Some(
            DisplayUpdate {
                sequence: b.sequence(),
                width: w,
                height: h,
                dirty_rect: d,
                iosurface_id: b.surface(),
            },
        )
        &&& b2.dirty() is None
        &&& b2.width() == w
        &&& b2.height() == h
        &&& b2.pixels() == b.pixels()
        &&& b2.surface() == b.surface()
        &&& b2.sequence() == b.sequence()
        &&& if b.surface() is None && d.2 != 0 && d.3 != 0 {
            copied(mid, f2, b.pixels(), w as int, h as int, d)
        } else {
            f2 == mid
        }
            })
}

impl DisplayBuffer {
    /// Hands the window what changed since the update `last_sequence`: the
    /// dirty rectangle, cut to the frame, is copied into `front` unless the
    /// frame lives in a surface. A `front` of the wrong size is resized and
    /// gets the whole frame. `None`, with nothing changed, where nothing was
    /// published since.
    pub fn take_update(&mut self, last_sequence: u64, front: &mut Vec<u32>) -> (r: Option<DisplayUpdate>)
        requires
            old(self).wf(),
        ensures
            final(self).wf(),
            update_spec(*old(self), *final(self), last_sequence, old(front)@, final(front)@, r),
    {
        if self.sequence == last_sequence {
            return None;
        }
        let full = (0usize, 0usize, self.width, self.height);
        let mut dirty_rect = match self.dirty_rect {
            Some(o) => o,
            None => full,
        };
        self.dirty_rect = None;
        let n = self.pixels.len();
        if front.len() != n {
            resize_vec(front, n);
            dirty_rect = full;
        }
        let (x, y, width, height) = dirty_rect;
        let x = min_exec(x, self.width);
        let y = min_exec(y, self.height);
        let width = min_exec(width, self.width - x);
        let height = min_exec(height, self.height - y);
        let d = (x, y, width, height);
        if self.iosurface_id.is_none() && width != 0 && height != 0 {
            copy_rows(front, &self.pixels, self.width, self.height, d);
        }
        Some(
            DisplayUpdate {
                sequence: self.sequence,
                width: self.width,
                height: self.height,
                dirty_rect: d,
                iosurface_id: self.iosurface_id,
            },
        )
    }
}

} // verus!
