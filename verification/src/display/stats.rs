//! The statistics overlay: frames presented and time spent presenting them,
//! counted over windows of at least a second and drawn as two lines of text.
use crate::display::cell;
use font8x8::UnicodeFonts;
use vstd::prelude::*;

verus! {

/// Nanoseconds between two refreshes of the figures.
pub const UPDATE_INTERVAL_NS: u64 = 1_000_000_000;

/// The longest `Duration`, in nanoseconds.
pub const MAX_DURATION_NS: u128 = 18_446_744_073_709_551_615_999_999_999;

pub const WIDTH: u32 = 304;

pub const HEIGHT: u32 = 56;

pub const MARGIN: usize = 8;

pub const GLYPH_SCALE: usize = 2;

pub const GLYPH_SIZE: usize = 8;

/// Horizontal distance between glyphs.
pub const GLYPH_ADVANCE: usize = 18;

/// Vertical distance between lines.
pub const LINE_ADVANCE: usize = 20;

/// The most glyphs that fit on a line inside the margins.
pub const MAX_GLYPHS: usize = 16;

pub const BACKGROUND: u32 = 0xff181818;

pub const BORDER: u32 = 0xff505050;

pub const TEXT: u32 = 0xfff2f2f2;

/// The rows of the basic (ASCII) font's glyph for `c`, top first; bit `k`
/// of a row is column `k`.
pub uninterp spec fn basic_glyph(c: char) -> Seq<u8>;

/// Looks up `c` in font8x8's basic font, which has a glyph for each of the
/// 128 ASCII characters and for nothing else.
#[verifier::external_body]
fn glyph(c: char) -> (r: Option<[u8; 8]>)
    ensures
        match r {
            Some(g) => (c as u32) < 128 && g@ == basic_glyph(c),
            None => (c as u32) >= 128,
        },
{
    font8x8::BASIC_FONTS.get(c)
}

/// The characters of `t` that the font has, in order.
pub open spec fn with_glyph(t: Seq<char>) -> Seq<char>
    decreases t.len(),
{
    if t.len() == 0 {
        Seq::empty()
    } else {
        let rest = with_glyph(t.drop_last());
        if (t.last() as u32) < 128 {
            rest.push(t.last())
        } else {
            rest
        }
    }
}

/// The characters of a line that are drawn: those the font has, as many as
/// fit between the margins.
pub open spec fn shown(t: Seq<char>) -> Seq<char> {
    let g = with_glyph(t);
    if g.len() > MAX_GLYPHS {
        g.take(MAX_GLYPHS as int)
    } else {
        g
    }
}

/// Whether the text of `lines` covers the pixel at column `px`, row `py`:
/// glyph `j` of line `l` starts at `(MARGIN + j * GLYPH_ADVANCE, MARGIN + l *
/// LINE_ADVANCE)` and each of its font pixels is a 2 by 2 square.
pub open spec fn lit(lines: Seq<Seq<char>>, px: int, py: int) -> bool {
    &&& px >= MARGIN
    &&& py >= MARGIN
    &&& {
        let l = (py - MARGIN) / LINE_ADVANCE as int;
        let ry = (py - MARGIN) % LINE_ADVANCE as int;
        let j = (px - MARGIN) / GLYPH_ADVANCE as int;
        let rx = (px - MARGIN) % GLYPH_ADVANCE as int;
        &&& l < lines.len()
        &&& ry < 16
        &&& rx < 16
        &&& j < shown(lines[l]).len()
        &&& basic_glyph(shown(lines[l])[j])[ry / 2] & (1u8 << ((rx / 2) as u8)) != 0
    }
}

/// The overlay's pixel at column `px`, row `py`.
pub open spec fn hud_pixel(lines: Seq<Seq<char>>, px: int, py: int) -> u32 {
    if px == 0 || px == WIDTH - 1 || py == 0 || py == HEIGHT - 1 {
        BORDER
    } else if lit(lines, px, py) {
        TEXT
    } else {
        BACKGROUND
    }
}

/// The glyphs of the characters of `t` that are drawn.
fn shown_glyphs(t: &[char]) -> (r: Vec<[u8; 8]>)
    ensures
        r@.len() == shown(t@).len(),
        forall|j: int| 0 <= j < r@.len() ==> #[trigger] r@[j]@ == basic_glyph(shown(t@)[j]),
{
    let mut r: Vec<[u8; 8]> = Vec::new();
    let mut i: usize = 0;
    while i < t.len()
        invariant
            i <= t@.len(),
            r@.len() <= MAX_GLYPHS,
            r@.len() == shown(t@.subrange(0, i as int)).len(),
            forall|j: int| 0 <= j < r@.len() ==> #[trigger] r@[j]@ == basic_glyph(
                shown(t@.subrange(0, i as int))[j],
            ),
        decreases t@.len() - i,
    {
        let ghost pre = t@.subrange(0, i as int);
        let ghost next = t@.subrange(0, i + 1);
        proof {
            assert(next.drop_last() =~= pre);
            assert(next.last() == t@[i as int]);
        }
        match glyph(t[i]) {
            Some(g) => {
                proof {
                    assert(with_glyph(next) == with_glyph(pre).push(t@[i as int]));
                }
                if r.len() < MAX_GLYPHS {
                    r.push(g);
                    proof {
                        assert forall|j: int| 0 <= j < r@.len() implies #[trigger] r@[j]@ == basic_glyph(
                            shown(next)[j],
                        ) by {
                            if j < r@.len() - 1 {
                                assert(shown(next)[j] == shown(pre)[j]);
                            }
                        }
                    }
                } else {
                    proof {
                        assert(shown(next) =~= shown(pre));
                    }
                }
            },
            None => {
                proof {
                    assert(with_glyph(next) == with_glyph(pre));
                }
            },
        }
        i = i + 1;
    }
    proof {
        assert(t@.subrange(0, i as int) =~= t@);
    }
    r
}

fn glyph_covers(glyphs: &Vec<[u8; 8]>, px: usize, py: usize, line_top: usize) -> (r: bool)
    requires
        px >= MARGIN,
        py >= line_top,
        py - line_top < 16,
    ensures
        ({
            let ry = py - line_top;
            let j = (px - MARGIN) / GLYPH_ADVANCE as int;
            let rx = (px - MARGIN) % GLYPH_ADVANCE as int;
            r == (rx < 16 && j < glyphs@.len() && glyphs@[j][ry / 2] & (1u8 << ((rx / 2) as u8)) != 0)
        }),
{
    let ry = py - line_top;
    let j = (px - MARGIN) / GLYPH_ADVANCE;
    let rx = (px - MARGIN) % GLYPH_ADVANCE;
    if rx >= 16 || j >= glyphs.len() {
        return false;
    }
    let row = glyphs[j][ry / 2];
    row & (1u8 << ((rx / 2) as u8)) != 0
}

/// Draws the overlay with the two lines of text `lines`.
pub fn render(first: &[char], second: &[char]) -> (r: Vec<u32>)
    ensures
        r@.len() == WIDTH * HEIGHT,
        forall|py: int, px: int|
            #![trigger cell(r@, WIDTH as int, py, px)]
            0 <= py < HEIGHT && 0 <= px < WIDTH ==> cell(r@, WIDTH as int, py, px) == hud_pixel(
                seq![first@, second@],
                px,
                py,
            ),
{
    let ghost lines = seq![first@, second@];
    let g0 = shown_glyphs(first);
    let g1 = shown_glyphs(second);
    let w: usize = WIDTH as usize;
    let h: usize = HEIGHT as usize;
    let mut r: Vec<u32> = Vec::new();
    let mut py: usize = 0;
    while py < h
        invariant
            w == WIDTH,
            h == HEIGHT,
            py <= h,
            lines == seq![first@, second@],
            g0@.len() == shown(first@).len(),
            g1@.len() == shown(second@).len(),
            forall|j: int| 0 <= j < g0@.len() ==> #[trigger] g0@[j]@ == basic_glyph(shown(first@)[j]),
            forall|j: int| 0 <= j < g1@.len() ==> #[trigger] g1@[j]@ == basic_glyph(shown(second@)[j]),
            r@.len() == py * w,
            forall|yy: int, xx: int|
                #![trigger cell(r@, WIDTH as int, yy, xx)]
                0 <= yy < py && 0 <= xx < w ==> cell(r@, WIDTH as int, yy, xx) == hud_pixel(lines, xx, yy),
        decreases h - py,
    {
        let mut px: usize = 0;
        while px < w
            invariant
                w == WIDTH,
                h == HEIGHT,
                py < h,
                px <= w,
                lines == seq![first@, second@],
                g0@.len() == shown(first@).len(),
                g1@.len() == shown(second@).len(),
                forall|j: int| 0 <= j < g0@.len() ==> #[trigger] g0@[j]@ == basic_glyph(shown(first@)[j]),
                forall|j: int| 0 <= j < g1@.len() ==> #[trigger] g1@[j]@ == basic_glyph(shown(second@)[j]),
                r@.len() == py * w + px,
                forall|yy: int, xx: int|
                    #![trigger cell(r@, WIDTH as int, yy, xx)]
                    0 <= yy < h && 0 <= xx < w && (yy < py || (yy == py && xx < px)) ==> cell(
                        r@,
                        WIDTH as int,
                        yy,
                        xx,
                    ) == hud_pixel(lines, xx, yy),
            decreases w - px,
        {
            let v = if px == 0 || px == w - 1 || py == 0 || py == h - 1 {
                BORDER
            } else {
                let on = if px >= MARGIN && py >= MARGIN && py < MARGIN + 16 {
                    glyph_covers(&g0, px, py, MARGIN)
                } else if px >= MARGIN && py >= MARGIN + LINE_ADVANCE && py < MARGIN + LINE_ADVANCE + 16 {
                    glyph_covers(&g1, px, py, MARGIN + LINE_ADVANCE)
                } else {
                    false
                };
                proof {
                    let l = (py - MARGIN) / LINE_ADVANCE as int;
                    let ry = (py - MARGIN) % LINE_ADVANCE as int;
                    if px >= MARGIN && py >= MARGIN && py < MARGIN + 16 {
                        assert(l == 0 && ry == py - MARGIN);
                    } else if px >= MARGIN && py >= MARGIN + LINE_ADVANCE && py < MARGIN + LINE_ADVANCE
                        + 16 {
                        assert(l == 1 && ry == py - MARGIN - LINE_ADVANCE);
                    } else if px >= MARGIN && py >= MARGIN {
                        assert(l >= 2 || ry >= 16);
                    }
                }
                if on {
                    TEXT
                } else {
                    BACKGROUND
                }
            };
            let ghost before = r@;
            r.push(v);
            proof {
                assert(cell(r@, WIDTH as int, py as int, px as int) == v);
                assert forall|yy: int, xx: int|
                    0 <= yy < h && 0 <= xx < w && (yy < py || (yy == py && xx < px + 1)) implies #[trigger] cell(
                    r@,
                    WIDTH as int,
                    yy,
                    xx,
                ) == hud_pixel(lines, xx, yy) by {
                    if yy < py || xx < px {
                        if yy < py {
                            crate::display::lemma_cell_bound(w as int, py as int, yy, xx);
                        }
                        assert(cell(r@, WIDTH as int, yy, xx) == cell(before, WIDTH as int, yy, xx));
                    }
                }
            }
            px = px + 1;
        }
        py = py + 1;
    }
    r
}


/// The figures of one counting window, for the caller to format.
#[derive(Debug, Clone, Copy, PartialEq, Eq)]
pub struct Snapshot {
    /// Frames presented in the window.
    pub presented: u64,
    /// Length of the window in nanoseconds.
    pub elapsed_ns: u64,
    /// Time spent presenting those frames, in nanoseconds.
    pub display_ns: u128,
}

/// "FPS     -".
pub open spec fn placeholder_fps() -> Seq<char> {
    seq!['F', 'P', 'S', ' ', ' ', ' ', ' ', ' ', '-']
}

/// "DISPLAY -".
pub open spec fn placeholder_display() -> Seq<char> {
    seq!['D', 'I', 'S', 'P', 'L', 'A', 'Y', ' ', '-']
}

/// The character of the decimal digit `d`.
pub open spec fn digit(d: nat) -> char {
    (d + 48) as char
}

/// The decimal digits of `n`, most significant first, with no leading zero.
pub open spec fn decimal(n: nat) -> Seq<char>
    decreases n,
{
    if n < 10 {
        seq![digit(n)]
    } else {
        decimal(n / 10).push(digit(n % 10))
    }
}

/// `n / d` rounded to the nearest whole number, a tie to the even one.
pub open spec fn round_half_even(n: nat, d: nat) -> nat {
    let q = n / d;
    let r = n % d;
    if 2 * r > d {
        q + 1
    } else if 2 * r < d {
        q
    } else if q % 2 == 0 {
        q
    } else {
        q + 1
    }
}

/// Frames per second in tenths, rounded to the nearest, a tie to even.
pub open spec fn fps_tenths(s: Snapshot) -> nat {
    round_half_even((s.presented * 10_000_000_000) as nat, s.elapsed_ns as nat)
}

/// Mean presenting time per frame in hundredths of a millisecond, rounded
/// to the nearest, a tie to even; zero without frames.
pub open spec fn display_hundredths(s: Snapshot) -> nat {
    if s.presented == 0 {
        0
    } else {
        round_half_even(s.display_ns as nat, (10_000 * s.presented) as nat)
    }
}

/// "FPS     " and the frame rate with one decimal.
pub open spec fn fps_line(s: Snapshot) -> Seq<char> {
    let t = fps_tenths(s);
    seq!['F', 'P', 'S', ' ', ' ', ' ', ' ', ' '] + decimal(t / 10) + seq!['.', digit(t % 10)]
}

/// "DISPLAY ", the presenting time with two decimals, and " MS".
pub open spec fn display_line(s: Snapshot) -> Seq<char> {
    let h = display_hundredths(s);
    seq!['D', 'I', 'S', 'P', 'L', 'A', 'Y', ' '] + decimal(h / 100) + seq!['.', digit(h / 10 % 10), digit(h % 10)]
        + seq![' ', 'M', 'S']
}

fn digit_char(d: u128) -> (r: char)
    requires
        d < 10,
    ensures
        r == digit(d as nat),
{
    ((d as u8) + 48u8) as char
}

/// Appends the decimal digits of `n`.
fn push_decimal(v: &mut Vec<char>, n: u128)
    ensures
        final(v)@ == old(v)@ + decimal(n as nat),
    decreases n,
{
    if n >= 10 {
        push_decimal(v, n / 10);
    }
    let c = digit_char(n % 10);
    v.push(c);
    proof {
        if n >= 10 {
            assert(old(v)@ + decimal(n as nat) =~= old(v)@ + decimal((n / 10) as nat) + seq![c]);
        } else {
            assert(old(v)@ + decimal(n as nat) =~= old(v)@ + seq![c]);
        }
    }
}

fn push_chars(v: &mut Vec<char>, s: &[char])
    ensures
        final(v)@ == old(v)@ + s@,
{
    let mut i: usize = 0;
    while i < s.len()
        invariant
            i <= s@.len(),
            v@ == old(v)@ + s@.subrange(0, i as int),
        decreases s@.len() - i,
    {
        v.push(s[i]);
        i = i + 1;
        proof {
            assert(v@ =~= old(v)@ + s@.subrange(0, i as int));
        }
    }
    proof {
        assert(s@.subrange(0, i as int) =~= s@);
    }
}

/// `n / d` rounded to the nearest, a tie to even.
fn round_div(n: u128, d: u128) -> (r: u128)
    requires
        0 < d <= u64::MAX * 10_000,
    ensures
        r == round_half_even(n as nat, d as nat),
{
    let q = n / d;
    let r = n % d;
    if r > 0 {
        assert(q < u128::MAX) by (nonlinear_arith)
            requires
                q == n / d,
                r == n % d,
                r > 0,
                d > 0,
                n <= u128::MAX,
        ;
    }
    if 2 * r > d {
        q + 1
    } else if 2 * r < d {
        q
    } else if q % 2 == 0 {
        q
    } else {
        q + 1
    }
}

/// The two lines of text for the figures of `s`.
fn figure_lines(s: Snapshot) -> (r: (Vec<char>, Vec<char>))
    requires
        s.elapsed_ns > 0,
    ensures
        r.0@ == fps_line(s),
        r.1@ == display_line(s),
{
    let elapsed: u128 = s.elapsed_ns as u128;
    let presented: u128 = s.presented as u128;
    let tenths: u128 = round_div(presented * 10_000_000_000, elapsed);
    let hundredths: u128 = if presented == 0 {
        0
    } else {
        round_div(s.display_ns, 10_000 * presented)
    };
    let mut a: Vec<char> = Vec::new();
    push_chars(&mut a, &['F', 'P', 'S', ' ', ' ', ' ', ' ', ' ']);
    push_decimal(&mut a, tenths / 10);
    a.push('.');
    a.push(digit_char(tenths % 10));
    let mut b: Vec<char> = Vec::new();
    push_chars(&mut b, &['D', 'I', 'S', 'P', 'L', 'A', 'Y', ' ']);
    push_decimal(&mut b, hundredths / 100);
    b.push('.');
    b.push(digit_char(hundredths / 10 % 10));
    b.push(digit_char(hundredths % 10));
    push_chars(&mut b, &[' ', 'M', 'S']);
    proof {
        assert(a@ =~= fps_line(s));
        assert(b@ =~= display_line(s));
    }
    (a, b)
}

/// The overlay's state.
pub struct StatsHud {
    visible: bool,
    window_started: Option<u64>,
    presented: u64,
    display_time: u128,
    pending_pixels: Option<Vec<u32>>,
}

/// The overlay's model: shown or not, when the counting window began, frames
/// and presenting time counted, and the picture waiting to be drawn.
pub struct HudView {
    pub visible: bool,
    pub window_started: Option<u64>,
    pub presented: u64,
    pub display_time: u128,
    pub pending: Option<Seq<u32>>,
}

/// The picture of the overlay with the text `first` over `second`.
pub open spec fn is_render(p: Seq<u32>, first: Seq<char>, second: Seq<char>) -> bool {
    &&& p.len() == WIDTH * HEIGHT
    &&& forall|py: int, px: int|
        #![trigger cell(p, WIDTH as int, py, px)]
        0 <= py < HEIGHT && 0 <= px < WIDTH ==> cell(p, WIDTH as int, py, px) == hud_pixel(
            seq![first, second],
            px,
            py,
        )
}

impl View for StatsHud {
    type V = HudView;

    closed spec fn view(&self) -> HudView {
        HudView {
            visible: self.visible,
            window_started: self.window_started,
            presented: self.presented,
            display_time: self.display_time,
            pending: match self.pending_pixels {
                Some(p) => Some(p@),
                None => None,
            },
        }
    }
}

fn placeholder() -> (r: Vec<u32>)
    ensures
        is_render(r@, placeholder_fps(), placeholder_display()),
{
    let a = vec!['F', 'P', 'S', ' ', ' ', ' ', ' ', ' ', '-'];
    let b = vec!['D', 'I', 'S', 'P', 'L', 'A', 'Y', ' ', '-'];
    proof {
        assert(a@ =~= placeholder_fps());
        assert(b@ =~= placeholder_display());
    }
    render(a.as_slice(), b.as_slice())
}

impl StatsHud {
    pub fn new() -> (r: StatsHud)
        ensures
            !r@.visible,
            r@.window_started is None,
            r@.presented == 0,
            r@.display_time == 0,
            r@.pending is None,
    {
        StatsHud { visible: false, window_started: None, presented: 0, display_time: 0, pending_pixels: None }
    }

    pub fn is_visible(&self) -> (r: bool)
        ensures
            r == self@.visible,
    {
        self.visible
    }

    /// Shows or hides the overlay; a change starts a new counting window, and
    /// showing it queues a picture with no figures yet.
    pub fn set_visible(&mut self, visible: bool)
        ensures
            visible == old(self)@.visible ==> final(self)@ == old(self)@,
            visible != old(self)@.visible ==> {
                &&& final(self)@.visible == visible
                &&& final(self)@.window_started is None
                &&& final(self)@.presented == 0
                &&& final(self)@.display_time == 0
                &&& if visible {
                    &&& final(self)@.pending is Some
                    &&& is_render(final(self)@.pending->0, placeholder_fps(), placeholder_display())
                } else {
                    final(self)@.pending is None
                }
            },
    {
        if self.visible == visible {
            return;
        }
        self.visible = visible;
        self.window_started = None;
        self.presented = 0;
        self.display_time = 0;
        self.pending_pixels = if visible {
            Some(placeholder())
        } else {
            None
        };
    }

    /// Counts a frame shown at `now_ns` that took `display_ns` to present;
    /// the first one only opens the counting window. The counts must not
    /// overflow: the frame count a `u64`, the presenting time a `Duration`.
    pub fn record_frame(&mut self, presented: bool, display_ns: u128, now_ns: u64)
        requires
            old(self)@.visible && presented && old(self)@.window_started is Some ==> old(self)@.presented < u64::MAX
                && old(self)@.display_time + display_ns <= MAX_DURATION_NS,
        ensures
            !old(self)@.visible || !presented ==> final(self)@ == old(self)@,
            old(self)@.visible && presented && old(self)@.window_started is None ==> final(self)@
                == (HudView { window_started: Some(now_ns), ..old(self)@ }),
            old(self)@.visible && presented && old(self)@.window_started is Some ==> final(self)@
                == (HudView {
                presented: (old(self)@.presented + 1) as u64,
                display_time: (old(self)@.display_time + display_ns) as u128,
                ..old(self)@
            }),
    {
        if !self.visible || !presented {
            return;
        }
        if self.window_started.is_none() {
            self.window_started = Some(now_ns);
            return;
        }
        self.presented = self.presented + 1;
        self.display_time = self.display_time + display_ns;
    }

    /// At `now_ns`, closes a counting window that has lasted a second or
    /// more: queues the picture with its figures, gives them, and starts the
    /// next window.
    pub fn refresh(&mut self, now_ns: u64) -> (r: Option<Snapshot>)
        ensures
            ({
                let v = old(self)@;
                let due = v.visible && v.window_started is Some && now_ns >= v.window_started->0
                    && now_ns - v.window_started->0 >= UPDATE_INTERVAL_NS;
                let snap = Snapshot {
                    presented: v.presented,
                    elapsed_ns: (now_ns - v.window_started->0) as u64,
                    display_ns: v.display_time,
                };
                &&& !due ==> r is None && final(self)@ == v
                &&& due ==> {
                    &&& r == Some(snap)
                    &&& final(self)@.pending is Some
                    &&& is_render(final(self)@.pending->0, fps_line(snap), display_line(snap))
                    &&& final(self)@.visible == v.visible
                    &&& final(self)@.window_started == Some(now_ns)
                    &&& final(self)@.presented == 0
                    &&& final(self)@.display_time == 0
                }
            }),
    {
        if !self.visible {
            return None;
        }
        let started = match self.window_started {
            Some(s) => s,
            None => return None,
        };
        if now_ns < started || now_ns - started < UPDATE_INTERVAL_NS {
            return None;
        }
        let snap = Snapshot {
            presented: self.presented,
            elapsed_ns: now_ns - started,
            display_ns: self.display_time,
        };
        let (first, second) = figure_lines(snap);
        self.pending_pixels = Some(render(first.as_slice(), second.as_slice()));
        self.window_started = Some(now_ns);
        self.presented = 0;
        self.display_time = 0;
        Some(snap)
    }

    /// Takes the picture that waits to be drawn.
    pub fn take_pixels(&mut self) -> (r: Option<Vec<u32>>)
        ensures
            match r {
                Some(p) => old(self)@.pending == Some(p@),
                None => old(self)@.pending is None,
            },
            final(self)@ == (HudView { pending: None, ..old(self)@ }),
    {
        let r = self.pending_pixels.take();
        r
    }
}

} // verus!
