//! The virtio input device: a keyboard or an absolute-pointer tablet.
use crate::bytes::{le_bytes, lemma_le_bytes_len, u16_le, u32_le};
use crate::memory::{GuestMemory, MemState};
use crate::virtio::chain::lemma_concat_one;
use crate::virtio::device::{deliver_spec, drain_spec, CtxState, DeviceContext, ShmRegion, FEATURE_VERSION_1, MAX_BAD_CHAINS};
use crate::virtio::mmio::{Device, ExternalEventHandler};
use vstd::prelude::*;

verus! {

pub const DEVICE_ID: u32 = 18;

/// The queue that carries events to the guest.
pub const QUEUE_EVENT: usize = 0;

/// The queue on which the guest reports LED and similar status.
pub const QUEUE_STATUS: usize = 1;

/// The largest coordinate the tablet reports on either axis.
pub const TABLET_ABS_MAX: u32 = 32767;

pub const SELECT_ID_NAME: u8 = 0x01;

pub const SELECT_ID_SERIAL: u8 = 0x02;

pub const SELECT_ID_DEVIDS: u8 = 0x03;

pub const SELECT_PROP_BITS: u8 = 0x10;

pub const SELECT_EV_BITS: u8 = 0x11;

pub const SELECT_ABS_INFO: u8 = 0x12;

pub const EV_SYN: u16 = 0x00;

pub const EV_KEY: u16 = 0x01;

pub const EV_REL: u16 = 0x02;

pub const EV_ABS: u16 = 0x03;

pub const SYN_REPORT: u16 = 0;

pub const ABS_X: u16 = 0x00;

pub const ABS_Y: u16 = 0x01;

pub const REL_X: u16 = 0x00;

pub const REL_Y: u16 = 0x01;

pub const REL_HWHEEL: u16 = 0x06;

pub const REL_WHEEL: u16 = 0x08;

pub const BTN_LEFT: u16 = 0x110;

pub const BTN_RIGHT: u16 = 0x111;

pub const BTN_MIDDLE: u16 = 0x112;

pub const INPUT_PROP_POINTER: u16 = 0x00;

pub const BUS_VIRTUAL: u16 = 0x06;

/// The highest key code that the keyboard reports.
pub const KEY_MAX_REPORTED: u16 = 111;

/// Which device the guest sees.
#[derive(Debug, Copy, Clone, PartialEq, Eq)]
pub enum InputKind {
    Keyboard,
    Tablet,
}

/// The sets of codes that the configuration space reports as bitmaps.
#[derive(Debug, Copy, Clone, PartialEq, Eq)]
pub enum CodeSet {
    /// The synchronisation report.
    Report,
    /// The keys of the keyboard: the host's key map yields these.
    Keys,
    /// The tablet's three buttons.
    Buttons,
    /// The tablet's two absolute axes.
    Axes,
    /// The two scroll wheels.
    Wheels,
    /// The pointer property.
    Pointer,
}

/// Whether `c` belongs to the set `s`.
pub open spec fn in_set(s: CodeSet, c: int) -> bool {
    match s {
        CodeSet::Report => c == SYN_REPORT,
        CodeSet::Keys => (1 <= c <= 83) || c == 87 || c == 88 || c == 96 || c == 97 || c == 98
            || c == 100 || (102 <= c <= KEY_MAX_REPORTED),
        CodeSet::Buttons => c == BTN_LEFT || c == BTN_RIGHT || c == BTN_MIDDLE,
        CodeSet::Axes => c == ABS_X || c == ABS_Y,
        CodeSet::Wheels => c == REL_WHEEL || c == REL_HWHEEL,
        CodeSet::Pointer => c == INPUT_PROP_POINTER,
    }
}

fn in_set_exec(s: CodeSet, c: u32) -> (r: bool)
    ensures
        r == in_set(s, c as int),
{
    match s {
        CodeSet::Report => c == SYN_REPORT as u32,
        CodeSet::Keys => (1 <= c && c <= 83) || c == 87 || c == 88 || c == 96 || c == 97 || c == 98
            || c == 100 || (102 <= c && c <= KEY_MAX_REPORTED as u32),
        CodeSet::Buttons => c == BTN_LEFT as u32 || c == BTN_RIGHT as u32 || c == BTN_MIDDLE as u32,
        CodeSet::Axes => c == ABS_X as u32 || c == ABS_Y as u32,
        CodeSet::Wheels => c == REL_WHEEL as u32 || c == REL_HWHEEL as u32,
        CodeSet::Pointer => c == INPUT_PROP_POINTER as u32,
    }
}

/// `w` where `b` holds, else nothing.
pub open spec fn bit_if(b: bool, w: int) -> int {
    if b {
        w
    } else {
        0
    }
}

/// Byte `i` of the bitmap of `s`: bit `j` stands for code `8 * i + j`.
pub open spec fn bitmap_byte(s: CodeSet, i: int) -> u8 {
    (bit_if(in_set(s, 8 * i), 1) + bit_if(in_set(s, 8 * i + 1), 2) + bit_if(in_set(s, 8 * i + 2), 4)
        + bit_if(in_set(s, 8 * i + 3), 8) + bit_if(in_set(s, 8 * i + 4), 16) + bit_if(
        in_set(s, 8 * i + 5),
        32,
    ) + bit_if(in_set(s, 8 * i + 6), 64) + bit_if(in_set(s, 8 * i + 7), 128)) as u8
}

/// The first `n` bytes of the bitmap of `s`.
pub open spec fn bitmap(s: CodeSet, n: nat) -> Seq<u8> {
    Seq::new(n, |i: int| bitmap_byte(s, i))
}

fn bit_exec(b: bool, w: u8) -> (r: u8)
    ensures
        r == bit_if(b, w as int),
{
    if b {
        w
    } else {
        0
    }
}

fn bitmap_byte_exec(s: CodeSet, i: u32) -> (r: u8)
    requires
        i < 128,
    ensures
        r == bitmap_byte(s, i as int),
{
    let c = 8 * i;
    bit_exec(in_set_exec(s, c), 1) + bit_exec(in_set_exec(s, c + 1), 2) + bit_exec(
        in_set_exec(s, c + 2),
        4,
    ) + bit_exec(in_set_exec(s, c + 3), 8) + bit_exec(in_set_exec(s, c + 4), 16) + bit_exec(
        in_set_exec(s, c + 5),
        32,
    ) + bit_exec(in_set_exec(s, c + 6), 64) + bit_exec(in_set_exec(s, c + 7), 128)
}

fn bitmap_exec(s: CodeSet, n: u32) -> (r: Vec<u8>)
    requires
        n <= 128,
    ensures
        r@ == bitmap(s, n as nat),
{
    let mut r: Vec<u8> = Vec::new();
    let mut i: u32 = 0;
    while i < n
        invariant
            i <= n <= 128,
            r@ == bitmap(s, i as nat),
        decreases n - i,
    {
        r.push(bitmap_byte_exec(s, i));
        i = i + 1;
        proof {
            assert(r@ =~= bitmap(s, i as nat));
        }
    }
    r
}

/// "varmint keyboard".
pub open spec fn keyboard_name() -> Seq<u8> {
    seq![118u8, 97u8, 114u8, 109u8, 105u8, 110u8, 116u8, 32u8, 107u8, 101u8, 121u8, 98u8, 111u8, 97u8, 114u8, 100u8]
}

/// "varmint tablet".
pub open spec fn tablet_name() -> Seq<u8> {
    seq![118u8, 97u8, 114u8, 109u8, 105u8, 110u8, 116u8, 32u8, 116u8, 97u8, 98u8, 108u8, 101u8, 116u8]
}

/// Bus type, vendor, product and version.
pub open spec fn devids() -> Seq<u8> {
    le_bytes(BUS_VIRTUAL as nat, 2) + le_bytes(0x1234, 2) + le_bytes(1, 2) + le_bytes(1, 2)
}

/// Minimum, maximum, fuzz, flat and resolution of a tablet axis.
pub open spec fn abs_info() -> Seq<u8> {
    le_bytes(0, 4) + le_bytes(TABLET_ABS_MAX as nat, 4) + le_bytes(0, 4) + le_bytes(0, 4) + le_bytes(0, 4)
}

/// What the configuration space answers for `select` and `subsel`: the
/// bytes of its union field that count; their number is the size field.
pub open spec fn config_payload(kind: InputKind, select: u8, subsel: u8) -> Seq<u8> {
    if select == SELECT_ID_NAME {
        match kind {
            InputKind::Keyboard => keyboard_name(),
            InputKind::Tablet => tablet_name(),
        }
    } else if select == SELECT_ID_DEVIDS {
        devids()
    } else if select == SELECT_ABS_INFO {
        if kind == InputKind::Tablet && (subsel == ABS_X || subsel == ABS_Y) {
            abs_info()
        } else {
            Seq::empty()
        }
    } else if select == SELECT_EV_BITS {
        if subsel == EV_SYN {
            bitmap(CodeSet::Report, 1)
        } else if subsel == EV_KEY {
            match kind {
                InputKind::Keyboard => bitmap(CodeSet::Keys, (KEY_MAX_REPORTED / 8 + 1) as nat),
                InputKind::Tablet => bitmap(CodeSet::Buttons, (BTN_MIDDLE / 8 + 1) as nat),
            }
        } else if subsel == EV_ABS && kind == InputKind::Tablet {
            bitmap(CodeSet::Axes, 1)
        } else if subsel == EV_REL && kind == InputKind::Tablet {
            bitmap(CodeSet::Wheels, 2)
        } else {
            Seq::empty()
        }
    } else if select == SELECT_PROP_BITS && kind == InputKind::Tablet {
        bitmap(CodeSet::Pointer, 1)
    } else {
        Seq::empty()
    }
}

/// The answer fits the union field.
pub proof fn lemma_payload_len(kind: InputKind, select: u8, subsel: u8)
    ensures
        config_payload(kind, select, subsel).len() <= 128,
{
    lemma_le_bytes_len(BUS_VIRTUAL as nat, 2);
    lemma_le_bytes_len(0x1234, 2);
    lemma_le_bytes_len(1, 2);
    lemma_le_bytes_len(0, 4);
    lemma_le_bytes_len(TABLET_ABS_MAX as nat, 4);
}

/// The whole configuration space: select, subsel, size, five reserved
/// bytes and the 128-byte union.
pub open spec fn input_config(kind: InputKind, select: u8, subsel: u8) -> Seq<u8> {
    let p = config_payload(kind, select, subsel);
    seq![select, subsel, p.len() as u8, 0u8, 0u8, 0u8, 0u8, 0u8] + p + Seq::new(
        (128 - p.len()) as nat,
        |i: int| 0u8,
    )
}

fn extend(dst: &mut Vec<u8>, src: Vec<u8>)
    ensures
        final(dst)@ == old(dst)@ + src@,
{
    let mut i: usize = 0;
    while i < src.len()
        invariant
            i <= src@.len(),
            dst@ == old(dst)@ + src@.subrange(0, i as int),
        decreases src@.len() - i,
    {
        dst.push(src[i]);
        i = i + 1;
        proof {
            assert(dst@ =~= old(dst)@ + src@.subrange(0, i as int));
        }
    }
    proof {
        assert(src@.subrange(0, i as int) =~= src@);
    }
}

/// The input device.
pub struct Input {
    kind: InputKind,
    select: u8,
    subsel: u8,
}

/// Linux event codes as the guest receives them: type, code, value.
pub open spec fn event_bytes(t: u16, c: u16, v: u32) -> Seq<u8> {
    le_bytes(t as nat, 2) + le_bytes(c as nat, 2) + le_bytes(v as nat, 4)
}

fn event_exec(t: u16, c: u16, v: u32) -> (r: Vec<u8>)
    ensures
        r@ == event_bytes(t, c, v),
        r@.len() == 8,
{
    let mut r = u16_le(t);
    extend(&mut r, u16_le(c));
    extend(&mut r, u32_le(v));
    proof {
        lemma_le_bytes_len(t as nat, 2);
        lemma_le_bytes_len(c as nat, 2);
        lemma_le_bytes_len(v as nat, 4);
    }
    r
}

impl Input {
    pub closed spec fn kind(&self) -> InputKind {
        self.kind
    }

    pub closed spec fn select(&self) -> u8 {
        self.select
    }

    pub closed spec fn subsel(&self) -> u8 {
        self.subsel
    }

    pub fn keyboard() -> (r: Input)
        ensures
            r.kind() == InputKind::Keyboard,
            r.select() == 0 && r.subsel() == 0,
    {
        Input { kind: InputKind::Keyboard, select: 0, subsel: 0 }
    }

    pub fn tablet() -> (r: Input)
        ensures
            r.kind() == InputKind::Tablet,
            r.select() == 0 && r.subsel() == 0,
    {
        Input { kind: InputKind::Tablet, select: 0, subsel: 0 }
    }

    /// The configuration space that the guest reads after selecting `select` and
    /// `subsel`.
    pub fn config(&self) -> (r: Vec<u8>)
        ensures
            r@ == input_config(self.kind(), self.select(), self.subsel()),
    {
        proof {
            lemma_payload_len(self.kind, self.select, self.subsel);
        }
        let p = self.payload();
        let n = p.len();
        let mut r: Vec<u8> = vec![self.select, self.subsel, n as u8, 0, 0, 0, 0, 0];
        extend(&mut r, p);
        let mut i: usize = n;
        while i < 128
            invariant
                n <= i <= 128,
                r@ == seq![self.select, self.subsel, n as u8, 0u8, 0u8, 0u8, 0u8, 0u8] + config_payload(
                    self.kind,
                    self.select,
                    self.subsel,
                ) + Seq::new((i - n) as nat, |k: int| 0u8),
            decreases 128 - i,
        {
            r.push(0);
            i = i + 1;
            proof {
                assert(r@ =~= seq![self.select, self.subsel, n as u8, 0u8, 0u8, 0u8, 0u8, 0u8]
                    + config_payload(self.kind, self.select, self.subsel) + Seq::new(
                    (i - n) as nat,
                    |k: int| 0u8,
                ));
            }
        }
        r
    }

    fn payload(&self) -> (r: Vec<u8>)
        ensures
            r@ == config_payload(self.kind, self.select, self.subsel),
    {
        let kb = matches!(self.kind, InputKind::Keyboard);
        if self.select == SELECT_ID_NAME {
            let r = if kb {
                vec![118u8, 97u8, 114u8, 109u8, 105u8, 110u8, 116u8, 32u8, 107u8, 101u8, 121u8, 98u8, 111u8, 97u8, 114u8, 100u8]
            } else {
                vec![118u8, 97u8, 114u8, 109u8, 105u8, 110u8, 116u8, 32u8, 116u8, 97u8, 98u8, 108u8, 101u8, 116u8]
            };
            proof {
                if kb {
                    assert(r@ =~= keyboard_name());
                } else {
                    assert(r@ =~= tablet_name());
                }
            }
            r
        } else if self.select == SELECT_ID_DEVIDS {
            let mut r = u16_le(BUS_VIRTUAL);
            extend(&mut r, u16_le(0x1234));
            extend(&mut r, u16_le(1));
            extend(&mut r, u16_le(1));
            r
        } else if self.select == SELECT_ABS_INFO {
            if !kb && (self.subsel as u16 == ABS_X || self.subsel as u16 == ABS_Y) {
                let mut r = u32_le(0);
                extend(&mut r, u32_le(TABLET_ABS_MAX));
                extend(&mut r, u32_le(0));
                extend(&mut r, u32_le(0));
                extend(&mut r, u32_le(0));
                r
            } else {
                Vec::new()
            }
        } else if self.select == SELECT_EV_BITS {
            let sub = self.subsel as u16;
            if sub == EV_SYN {
                bitmap_exec(CodeSet::Report, 1)
            } else if sub == EV_KEY {
                if kb {
                    bitmap_exec(CodeSet::Keys, (KEY_MAX_REPORTED / 8 + 1) as u32)
                } else {
                    bitmap_exec(CodeSet::Buttons, (BTN_MIDDLE / 8 + 1) as u32)
                }
            } else if sub == EV_ABS && !kb {
                bitmap_exec(CodeSet::Axes, 1)
            } else if sub == EV_REL && !kb {
                bitmap_exec(CodeSet::Wheels, 2)
            } else {
                Vec::new()
            }
        } else if self.select == SELECT_PROP_BITS && !kb {
            bitmap_exec(CodeSet::Pointer, 1)
        } else {
            Vec::new()
        }
    }
}


/// A host input that the device turns into events.
pub enum ExternalInput {
    Key { code: u16, pressed: bool },
    PointerButton { button: u16, pressed: bool },
    /// A pointer position in a window of `width` by `height` pixels.
    AbsPosition { x: u32, y: u32, width: u32, height: u32 },
    Scroll { horizontal: bool, value: i32 },
    /// A relative pointer motion.
    RelMotion { dx: i32, dy: i32 },
}

/// A window coordinate scaled to the tablet's range; the guest sees the low
/// 32 bits.
pub open spec fn scale(v: u32, extent: u32) -> u32 {
    ((v as int * TABLET_ABS_MAX as int) / (extent as int - 1)) as u32
}

/// The events that `input` becomes; a position in a window less than two
/// pixels wide or high has no place on the tablet and gives none.
pub open spec fn input_events(input: ExternalInput) -> Seq<Seq<u8>> {
    let syn = event_bytes(EV_SYN, SYN_REPORT, 0);
    match input {
        ExternalInput::Key { code, pressed } => seq![
            event_bytes(EV_KEY, code, if pressed { 1 } else { 0 }),
            syn,
        ],
        ExternalInput::PointerButton { button, pressed } => seq![
            event_bytes(EV_KEY, button, if pressed { 1 } else { 0 }),
            syn,
        ],
        ExternalInput::AbsPosition { x, y, width, height } => if width >= 2 && height >= 2 {
            seq![
                event_bytes(EV_ABS, ABS_X, scale(x, width)),
                event_bytes(EV_ABS, ABS_Y, scale(y, height)),
                syn,
            ]
        } else {
            Seq::empty()
        },
        ExternalInput::Scroll { horizontal, value } => seq![
            event_bytes(EV_REL, if horizontal { REL_HWHEEL } else { REL_WHEEL }, value as u32),
            syn,
        ],
        ExternalInput::RelMotion { dx, dy } => seq![
            event_bytes(EV_REL, REL_X, dx as u32),
            event_bytes(EV_REL, REL_Y, dy as u32),
            syn,
        ],
    }
}

/// Offering each of `evs` to the driver on queue `idx` in turn; one for
/// which the driver has no buffer is dropped.
pub open spec fn deliver_each(ctx: CtxState, mem: MemState, idx: int, evs: Seq<Seq<u8>>) -> (
    CtxState,
    MemState,
)
    decreases evs.len(),
{
    if evs.len() == 0 {
        (ctx, mem)
    } else {
        let (c2, m2, _) = deliver_spec(ctx, mem, idx, evs[0]);
        deliver_each(c2, m2, idx, evs.drop_first())
    }
}

fn scale_exec(v: u32, extent: u32) -> (r: u32)
    requires
        extent >= 2,
    ensures
        r == scale(v, extent),
{
    assert(v as u64 * 32767 <= 0xffff_ffff * 32767) by (nonlinear_arith)
        requires
            v <= 0xffff_ffffu32,
    ;
    let num: u64 = v as u64 * TABLET_ABS_MAX as u64;
    let q: u64 = num / (extent as u64 - 1);
    #[verifier::truncate]
    (q as u32)
}

fn events_exec(input: &ExternalInput) -> (r: Vec<Vec<u8>>)
    ensures
        r@.map_values(|e: Vec<u8>| e@) == input_events(*input),
        forall|i: int| 0 <= i < r@.len() ==> #[trigger] r@[i]@.len() == 8,
{
    let mut r: Vec<Vec<u8>> = Vec::new();
    match input {
        ExternalInput::Key { code, pressed } => {
            r.push(event_exec(EV_KEY, *code, if *pressed { 1 } else { 0 }));
            r.push(event_exec(EV_SYN, SYN_REPORT, 0));
        },
        ExternalInput::PointerButton { button, pressed } => {
            r.push(event_exec(EV_KEY, *button, if *pressed { 1 } else { 0 }));
            r.push(event_exec(EV_SYN, SYN_REPORT, 0));
        },
        ExternalInput::AbsPosition { x, y, width, height } => {
            if *width >= 2 && *height >= 2 {
                r.push(event_exec(EV_ABS, ABS_X, scale_exec(*x, *width)));
                r.push(event_exec(EV_ABS, ABS_Y, scale_exec(*y, *height)));
                r.push(event_exec(EV_SYN, SYN_REPORT, 0));
            }
        },
        ExternalInput::Scroll { horizontal, value } => {
            let code = if *horizontal {
                REL_HWHEEL
            } else {
                REL_WHEEL
            };
            r.push(event_exec(EV_REL, code, *value as u32));
            r.push(event_exec(EV_SYN, SYN_REPORT, 0));
        },
        ExternalInput::RelMotion { dx, dy } => {
            r.push(event_exec(EV_REL, REL_X, *dx as u32));
            r.push(event_exec(EV_REL, REL_Y, *dy as u32));
            r.push(event_exec(EV_SYN, SYN_REPORT, 0));
        },
    }
    proof {
        assert(r@.map_values(|e: Vec<u8>| e@) =~= input_events(*input));
    }
    r
}

impl Device for Input {
    open spec fn notify_effect(&self, queue_idx: usize, c: CtxState, m: MemState, after: Self, c2: CtxState, m2: MemState) -> bool {
        &&& after == *self
        &&& queue_idx != QUEUE_STATUS ==> c2 == c && m2 == m
        &&& queue_idx == QUEUE_STATUS ==> (c2, m2) == drain_spec(
            c,
            m,
            queue_idx as int,
            MAX_BAD_CHAINS as nat,
        )
    }

    open spec fn reset_effect(&self, after: Self) -> bool {
        &&& after.kind() == self.kind()
        &&& after.select() == 0 && after.subsel() == 0
    }

    open spec fn device_id(&self) -> u32 {
        DEVICE_ID
    }

    open spec fn feature_bits(&self) -> u64 {
        FEATURE_VERSION_1
    }

    open spec fn queue_count(&self) -> u16 {
        2
    }

    open spec fn config_space(&self) -> Seq<u8> {
        input_config(self.kind(), self.select(), self.subsel())
    }

    open spec fn shm_region(&self, id: u32) -> Option<(u64, u64)> {
        None
    }

    fn id(&self) -> (r: u32) {
        DEVICE_ID
    }

    fn features(&self) -> (r: u64) {
        FEATURE_VERSION_1
    }

    fn num_queues(&self) -> (r: u16) {
        2
    }

    fn read_config(&self) -> (r: Vec<u8>) {
        self.config()
    }

    fn write_config(&mut self, offset: u64, data: &[u8])
        ensures
            final(self).kind() == old(self).kind(),
            final(self).select() == (if offset == 0 && data@.len() >= 1 {
                data@[0]
            } else {
                old(self).select()
            }),
            final(self).subsel() == (if offset == 0 && data@.len() >= 2 {
                data@[1]
            } else if offset == 1 && data@.len() >= 1 {
                data@[0]
            } else {
                old(self).subsel()
            }),
    {
        if offset == 0 {
            if data.len() >= 1 {
                self.select = data[0];
            }
            if data.len() >= 2 {
                self.subsel = data[1];
            }
        } else if offset == 1 {
            if data.len() >= 1 {
                self.subsel = data[0];
            }
        }
    }

    fn queue_notified(&mut self, queue_idx: usize, ctx: &mut DeviceContext, mem: &mut GuestMemory)
        ensures
            *final(self) == *old(self),
            queue_idx != QUEUE_STATUS ==> final(ctx)@ == old(ctx)@ && final(mem)@ == old(mem)@,
            queue_idx == QUEUE_STATUS ==> (final(ctx)@, final(mem)@) == drain_spec(
                old(ctx)@,
                old(mem)@,
                queue_idx as int,
                MAX_BAD_CHAINS as nat,
            ),
    {
        if queue_idx == QUEUE_STATUS {
            let mut fuel: u32 = MAX_BAD_CHAINS;
            while fuel > 0
                invariant
                    ctx.queues@.len() == old(ctx).queues@.len(),
                    drain_spec(ctx@, mem@, queue_idx as int, fuel as nat) == drain_spec(
                        old(ctx)@,
                        old(mem)@,
                        queue_idx as int,
                        MAX_BAD_CHAINS as nat,
                    ),
                decreases fuel,
            {
                match ctx.pop_chain(queue_idx, mem) {
                    Some(chain) => {
                        ctx.complete(chain.token, 0, mem);
                        fuel = fuel - 1;
                    },
                    None => {
                        fuel = 0;
                    },
                }
            }
        }
    }

    fn reset(&mut self)
        ensures
            final(self).kind() == old(self).kind(),
            final(self).select() == 0 && final(self).subsel() == 0,
    {
        self.select = 0;
        self.subsel = 0;
    }

    fn shared_memory_region(&self, id: u32) -> (r: Option<ShmRegion>) {
        None
    }
}

impl ExternalEventHandler for Input {
    type Event = ExternalInput;

    open spec fn event_effect(
        &self,
        event: ExternalInput,
        c: CtxState,
        m: MemState,
        after: Self,
        c2: CtxState,
        m2: MemState,
    ) -> bool {
        &&& after == *self
        &&& (c2, m2) == deliver_each(c, m, QUEUE_EVENT as int, input_events(event))
    }

    fn on_event(&mut self, event: ExternalInput, ctx: &mut DeviceContext, mem: &mut GuestMemory)
        ensures
            *final(self) == *old(self),
            (final(ctx)@, final(mem)@) == deliver_each(
                old(ctx)@,
                old(mem)@,
                QUEUE_EVENT as int,
                input_events(event),
            ),
    {
        let evs = events_exec(&event);
        let ghost all = evs@.map_values(|e: Vec<u8>| e@);
        let mut i: usize = 0;
        proof {
            assert(all.skip(0) =~= all);
        }
        while i < evs.len()
            invariant
                i <= evs@.len(),
                all == evs@.map_values(|e: Vec<u8>| e@),
                all == input_events(event),
                forall|k: int| 0 <= k < evs@.len() ==> #[trigger] evs@[k]@.len() == 8,
                deliver_each(ctx@, mem@, QUEUE_EVENT as int, all.skip(i as int)) == deliver_each(
                    old(ctx)@,
                    old(mem)@,
                    QUEUE_EVENT as int,
                    all,
                ),
                ctx.queues@.len() == old(ctx).queues@.len(),
            decreases evs@.len() - i,
        {
            let part: &[u8] = evs[i].as_slice();
            let parts: Vec<&[u8]> = vec![part];
            proof {
                assert(parts@ =~= seq![part]);
                lemma_concat_one(part);
                assert(all.skip(i as int)[0] == part@);
                assert(all.skip(i as int).drop_first() =~= all.skip(i + 1));
            }
            let _ = ctx.deliver(QUEUE_EVENT, parts.as_slice(), mem);
            i = i + 1;
        }
        proof {
            assert(all.skip(i as int) =~= Seq::<Seq<u8>>::empty());
        }
    }
}

} // verus!
