//! The flattened device tree that the guest boots with: first as a tree of
//! nodes and properties, then written out by vm-fdt.
use crate::machine::{
    CLOCK_PHANDLE, GICD_START, GICR_START, GIC_PHANDLE, RAM_START, UART_SIZE, UART_SPI_OFFSET, UART_START,
    VIRTBLK_SIZE, VIRTBLK_SPI_OFFSET, VIRTBLK_START, VIRTCONSOLE_SIZE, VIRTCONSOLE_SPI_OFFSET,
    VIRTCONSOLE_START, VIRTGPU_SIZE, VIRTGPU_SPI_OFFSET, VIRTGPU_START, VIRTINPUT_KEYBOARD_SIZE,
    VIRTINPUT_KEYBOARD_SPI_OFFSET, VIRTINPUT_KEYBOARD_START, VIRTINPUT_MOUSE_SIZE,
    VIRTINPUT_MOUSE_SPI_OFFSET, VIRTINPUT_MOUSE_START, VIRTINPUT_TABLET_SIZE, VIRTINPUT_TABLET_SPI_OFFSET,
    VIRTINPUT_TABLET_START, VIRTNET_SIZE, VIRTNET_SPI_OFFSET, VIRTNET_START, VIRTSND_SIZE,
    VIRTSND_SPI_OFFSET, VIRTSND_START,
};
use vstd::prelude::*;

verus! {

/// The value of a device tree property.
#[derive(Debug)]
pub enum PropValue {
    Null,
    Str(String),
    StrList(Vec<String>),
    U32(u32),
    U64(u64),
    CellsU32(Vec<u32>),
    CellsU64(Vec<u64>),
    Phandle(u32),
}

/// A named property.
#[derive(Debug)]
pub struct FdtProp {
    pub name: String,
    pub value: PropValue,
}

/// A node: its name, its properties in order, and its child nodes in order.
#[derive(Debug)]
pub struct FdtNode {
    pub name: String,
    pub props: Vec<FdtProp>,
    pub children: Vec<FdtNode>,
}

/// The digit for `d` in lower-case hexadecimal.
pub open spec fn hex_digit(d: nat) -> char {
    if d < 10 {
        (('0' as nat) + d) as char
    } else {
        (('a' as nat) + d - 10) as char
    }
}

/// `v` in lower-case hexadecimal, without leading zeros.
pub open spec fn hex(v: nat) -> Seq<char>
    decreases v,
{
    if v < 16 {
        seq![hex_digit(v)]
    } else {
        hex(v / 16) + seq![hex_digit(v % 16)]
    }
}

fn digit_str(d: u64) -> (r: &'static str)
    requires
        d < 16,
    ensures
        r@ == seq![hex_digit(d as nat)],
{
    proof {
        reveal_strlit("0");
        reveal_strlit("1");
        reveal_strlit("2");
        reveal_strlit("3");
        reveal_strlit("4");
        reveal_strlit("5");
        reveal_strlit("6");
        reveal_strlit("7");
        reveal_strlit("8");
        reveal_strlit("9");
        reveal_strlit("a");
        reveal_strlit("b");
        reveal_strlit("c");
        reveal_strlit("d");
        reveal_strlit("e");
        reveal_strlit("f");
    }
    let r = if d == 0 {
        "0"
    } else if d == 1 {
        "1"
    } else if d == 2 {
        "2"
    } else if d == 3 {
        "3"
    } else if d == 4 {
        "4"
    } else if d == 5 {
        "5"
    } else if d == 6 {
        "6"
    } else if d == 7 {
        "7"
    } else if d == 8 {
        "8"
    } else if d == 9 {
        "9"
    } else if d == 10 {
        "a"
    } else if d == 11 {
        "b"
    } else if d == 12 {
        "c"
    } else if d == 13 {
        "d"
    } else if d == 14 {
        "e"
    } else {
        "f"
    };
    assert(r@ =~= seq![hex_digit(d as nat)]);
    r
}

/// Appends `v` in hexadecimal.
fn append_hex(s: &mut String, v: u64)
    ensures
        final(s)@ == old(s)@ + hex(v as nat),
    decreases v,
{
    if v >= 16 {
        append_hex(s, v / 16);
    }
    s.append(digit_str(v % 16));
    proof {
        if v >= 16 {
            assert(final(s)@ =~= old(s)@ + hex(v as nat));
        } else {
            assert(final(s)@ =~= old(s)@ + hex(v as nat));
        }
    }
}

/// `prefix@address`, the address in hexadecimal.
pub open spec fn unit_name(prefix: Seq<char>, addr: u64) -> Seq<char> {
    prefix + seq!['@'] + hex(addr as nat)
}

fn unit_name_exec(prefix: &str, addr: u64) -> (r: String)
    ensures
        r@ == unit_name(prefix@, addr),
{
    proof {
        reveal_strlit("@");
    }
    let mut s = String::from_str(prefix);
    s.append("@");
    append_hex(&mut s, addr);
    s
}

pub open spec fn is_str(p: FdtProp, name: Seq<char>, val: Seq<char>) -> bool {
    p.name@ == name && (p.value matches PropValue::Str(s) && s@ == val)
}

pub open spec fn is_str_list(p: FdtProp, name: Seq<char>, vals: Seq<Seq<char>>) -> bool {
    p.name@ == name && (p.value matches PropValue::StrList(v) && v@.map_values(|s: String| s@) == vals)
}

pub open spec fn is_u32(p: FdtProp, name: Seq<char>, v: u32) -> bool {
    p.name@ == name && p.value == PropValue::U32(v)
}

pub open spec fn is_u64(p: FdtProp, name: Seq<char>, v: u64) -> bool {
    p.name@ == name && p.value == PropValue::U64(v)
}

pub open spec fn is_cells32(p: FdtProp, name: Seq<char>, v: Seq<u32>) -> bool {
    p.name@ == name && (p.value matches PropValue::CellsU32(c) && c@ == v)
}

pub open spec fn is_cells64(p: FdtProp, name: Seq<char>, v: Seq<u64>) -> bool {
    p.name@ == name && (p.value matches PropValue::CellsU64(c) && c@ == v)
}

pub open spec fn is_null(p: FdtProp, name: Seq<char>) -> bool {
    p.name@ == name && p.value == PropValue::Null
}

pub open spec fn is_phandle(p: FdtProp, v: u32) -> bool {
    p.value == PropValue::Phandle(v)
}

fn str_prop(name: &str, val: &str) -> (r: FdtProp)
    ensures
        is_str(r, name@, val@),
{
    FdtProp { name: String::from_str(name), value: PropValue::Str(String::from_str(val)) }
}

fn str_list_prop(name: &str, a: &str, b: &str) -> (r: FdtProp)
    ensures
        is_str_list(r, name@, seq![a@, b@]),
{
    let v = vec![String::from_str(a), String::from_str(b)];
    let r = FdtProp { name: String::from_str(name), value: PropValue::StrList(v) };
    proof {
        assert(v@.map_values(|s: String| s@) =~= seq![a@, b@]);
    }
    r
}

fn u32_prop(name: &str, v: u32) -> (r: FdtProp)
    ensures
        is_u32(r, name@, v),
{
    FdtProp { name: String::from_str(name), value: PropValue::U32(v) }
}

fn u64_prop(name: &str, v: u64) -> (r: FdtProp)
    ensures
        is_u64(r, name@, v),
{
    FdtProp { name: String::from_str(name), value: PropValue::U64(v) }
}

fn cells32_prop(name: &str, v: Vec<u32>) -> (r: FdtProp)
    ensures
        is_cells32(r, name@, v@),
{
    FdtProp { name: String::from_str(name), value: PropValue::CellsU32(v) }
}

fn cells64_prop(name: &str, v: Vec<u64>) -> (r: FdtProp)
    ensures
        is_cells64(r, name@, v@),
{
    FdtProp { name: String::from_str(name), value: PropValue::CellsU64(v) }
}

fn null_prop(name: &str) -> (r: FdtProp)
    ensures
        is_null(r, name@),
{
    FdtProp { name: String::from_str(name), value: PropValue::Null }
}

fn phandle_prop(v: u32) -> (r: FdtProp)
    ensures
        is_phandle(r, v),
{
    FdtProp { name: String::from_str("phandle"), value: PropValue::Phandle(v) }
}

/// A virtio-mmio device at `base`, `size` bytes long, on shared interrupt `spi`.
pub open spec fn is_virtio(n: FdtNode, name: Seq<char>, base: u64, size: u64, spi: u32) -> bool {
    &&& n.name@ == unit_name(name, base)
    &&& n.props@.len() == 3
    &&& is_str(n.props@[0], "compatible"@, "virtio,mmio"@)
    &&& is_cells64(n.props@[1], "reg"@, seq![base, size])
    &&& is_cells32(n.props@[2], "interrupts"@, seq![0u32, spi, 4u32])
    &&& n.children@.len() == 0
}

fn virtio_node(name: &str, base: u64, size: u64, spi: u32) -> (r: FdtNode)
    ensures
        is_virtio(r, name@, base, size, spi),
{
    let props = vec![
        str_prop("compatible", "virtio,mmio"),
        cells64_prop("reg", vec![base, size]),
        cells32_prop("interrupts", vec![0u32, spi, 4u32]),
    ];
    proof {
        assert(seq![base, size] =~= seq![base, size]);
    }
    FdtNode { name: unit_name_exec(name, base), props, children: Vec::new() }
}

/// CPU `i`: started through PSCI.
pub open spec fn is_cpu(n: FdtNode, i: int) -> bool {
    &&& n.name@ == unit_name("cpu"@, i as u64)
    &&& n.props@.len() == 4
    &&& is_str(n.props@[0], "device_type"@, "cpu"@)
    &&& is_str(n.props@[1], "compatible"@, "arm,armv8"@)
    &&& is_u32(n.props@[2], "reg"@, i as u32)
    &&& is_str(n.props@[3], "enable-method"@, "psci"@)
    &&& n.children@.len() == 0
}

/// The `cpus` node with `vcpus` CPUs.
pub open spec fn is_cpus(n: FdtNode, vcpus: int) -> bool {
    &&& n.name@ == "cpus"@
    &&& n.props@.len() == 2
    &&& is_u32(n.props@[0], "#address-cells"@, 1)
    &&& is_u32(n.props@[1], "#size-cells"@, 0)
    &&& n.children@.len() == vcpus
    &&& forall|i: int| 0 <= i < vcpus ==> #[trigger] is_cpu(n.children@[i], i)
}

fn cpus_node(vcpus: usize) -> (r: FdtNode)
    ensures
        is_cpus(r, vcpus as int),
{
    let mut children: Vec<FdtNode> = Vec::new();
    let mut i: usize = 0;
    while i < vcpus
        invariant
            i <= vcpus,
            children@.len() == i,
            forall|k: int| 0 <= k < i ==> #[trigger] is_cpu(children@[k], k),
        decreases vcpus - i,
    {
        let props = vec![
            str_prop("device_type", "cpu"),
            str_prop("compatible", "arm,armv8"),
            u32_prop("reg", i as u32),
            str_prop("enable-method", "psci"),
        ];
        children.push(FdtNode { name: unit_name_exec("cpu", i as u64), props, children: Vec::new() });
        i = i + 1;
    }
    let props = vec![u32_prop("#address-cells", 1), u32_prop("#size-cells", 0)];
    FdtNode { name: String::from_str("cpus"), props, children }
}

/// The device tree of a guest with `memory_size` bytes of RAM, `vcpus`
/// CPUs, kernel command line `args`, the initrd at `initrd` (start and
/// end) if there is one, and GIC distributor and redistributor regions of
/// the given sizes.
pub open spec fn is_machine_tree(
    t: FdtNode,
    memory_size: u64,
    vcpus: int,
    args: Seq<char>,
    initrd: Option<(u64, u64)>,
    gicd_size: u64,
    gicr_size: u64,
) -> bool {
    let c = t.children@;
    &&& t.name@ == Seq::<char>::empty()
    &&& t.props@.len() == 4
    &&& is_str(t.props@[0], "compatible"@, "varmint,virt"@)
    &&& is_u32(t.props@[1], "#address-cells"@, 2)
    &&& is_u32(t.props@[2], "#size-cells"@, 2)
    &&& is_u32(t.props@[3], "interrupt-parent"@, GIC_PHANDLE)
    &&& c.len() == 17
    // aliases
    &&& c[0].name@ == "aliases"@ && c[0].props@.len() == 1 && c[0].children@.len() == 0
    &&& is_str(c[0].props@[0], "serial0"@, "/serial@9000000"@)
    // chosen
    &&& c[1].name@ == "chosen"@ && c[1].children@.len() == 0
    &&& is_str(c[1].props@[0], "bootargs"@, args)
    &&& is_str(c[1].props@[1], "stdout-path"@, "serial0:115200n8"@)
    &&& match initrd {
        Some((s, e)) => c[1].props@.len() == 4 && is_u64(c[1].props@[2], "linux,initrd-start"@, s)
            && is_u64(c[1].props@[3], "linux,initrd-end"@, e),
        None => c[1].props@.len() == 2,
    }
    // psci
    &&& c[2].name@ == "psci"@ && c[2].props@.len() == 2 && c[2].children@.len() == 0
    &&& is_str(c[2].props@[0], "compatible"@, "arm,psci-0.2"@)
    &&& is_str(c[2].props@[1], "method"@, "hvc"@)
    // cpus
    &&& is_cpus(c[3], vcpus)
    // interrupt controller
    &&& c[4].name@ == unit_name("interrupt-controller"@, GICD_START) && c[4].props@.len() == 5
        && c[4].children@.len() == 0
    &&& is_str(c[4].props@[0], "compatible"@, "arm,gic-v3"@)
    &&& is_null(c[4].props@[1], "interrupt-controller"@)
    &&& is_u32(c[4].props@[2], "#interrupt-cells"@, 3)
    &&& is_cells64(c[4].props@[3], "reg"@, seq![GICD_START, gicd_size, GICR_START, gicr_size])
    &&& is_phandle(c[4].props@[4], GIC_PHANDLE)
    // timer
    &&& c[5].name@ == "timer"@ && c[5].props@.len() == 2 && c[5].children@.len() == 0
    &&& is_str(c[5].props@[0], "compatible"@, "arm,armv8-timer"@)
    &&& is_cells32(
        c[5].props@[1],
        "interrupts"@,
        seq![1u32, 13u32, 0xf08u32, 1u32, 14u32, 0xf08u32, 1u32, 11u32, 0xf08u32, 1u32, 10u32, 0xf08u32],
    )
    // memory
    &&& c[6].name@ == unit_name("memory"@, RAM_START) && c[6].props@.len() == 2 && c[6].children@.len() == 0
    &&& is_str(c[6].props@[0], "device_type"@, "memory"@)
    &&& is_cells64(c[6].props@[1], "reg"@, seq![RAM_START, memory_size])
    // clock
    &&& c[7].name@ == "clk24m"@ && c[7].props@.len() == 4 && c[7].children@.len() == 0
    &&& is_str(c[7].props@[0], "compatible"@, "fixed-clock"@)
    &&& is_u32(c[7].props@[1], "#clock-cells"@, 0)
    &&& is_u32(c[7].props@[2], "clock-frequency"@, 24_000_000)
    &&& is_phandle(c[7].props@[3], CLOCK_PHANDLE)
    // uart
    &&& c[8].name@ == unit_name("serial"@, UART_START) && c[8].props@.len() == 7 && c[8].children@.len() == 0
    &&& is_str_list(c[8].props@[0], "compatible"@, seq!["arm,pl011"@, "arm,primecell"@])
    &&& is_u32(c[8].props@[1], "arm,primecell-periphid"@, 0x0034_1011)
    &&& is_cells64(c[8].props@[2], "reg"@, seq![UART_START, UART_SIZE])
    &&& is_cells32(c[8].props@[3], "interrupts"@, seq![0u32, UART_SPI_OFFSET, 4u32])
    &&& is_cells32(c[8].props@[4], "clocks"@, seq![CLOCK_PHANDLE, CLOCK_PHANDLE])
    &&& is_str_list(c[8].props@[5], "clock-names"@, seq!["uartclk"@, "apb_pclk"@])
    &&& is_str(c[8].props@[6], "status"@, "okay"@)
    // virtio devices
    &&& is_virtio(c[9], "virtio_blk"@, VIRTBLK_START, VIRTBLK_SIZE, VIRTBLK_SPI_OFFSET)
    &&& is_virtio(c[10], "virtio_net"@, VIRTNET_START, VIRTNET_SIZE, VIRTNET_SPI_OFFSET)
    &&& is_virtio(c[11], "virtio_gpu"@, VIRTGPU_START, VIRTGPU_SIZE, VIRTGPU_SPI_OFFSET)
    &&& is_virtio(
        c[12],
        "virtio_input_keyboard"@,
        VIRTINPUT_KEYBOARD_START,
        VIRTINPUT_KEYBOARD_SIZE,
        VIRTINPUT_KEYBOARD_SPI_OFFSET,
    )
    &&& is_virtio(
        c[13],
        "virtio_input_tablet"@,
        VIRTINPUT_TABLET_START,
        VIRTINPUT_TABLET_SIZE,
        VIRTINPUT_TABLET_SPI_OFFSET,
    )
    &&& is_virtio(c[14], "virtio_snd"@, VIRTSND_START, VIRTSND_SIZE, VIRTSND_SPI_OFFSET)
    &&& is_virtio(c[15], "virtio_console"@, VIRTCONSOLE_START, VIRTCONSOLE_SIZE, VIRTCONSOLE_SPI_OFFSET)
    &&& is_virtio(
        c[16],
        "virtio_input_mouse"@,
        VIRTINPUT_MOUSE_START,
        VIRTINPUT_MOUSE_SIZE,
        VIRTINPUT_MOUSE_SPI_OFFSET,
    )
}

/// Describes the machine as a device tree.
pub fn machine_tree(
    memory_size: u64,
    vcpus: usize,
    kernel_args: &str,
    initrd: Option<(u64, u64)>,
    gicd_size: u64,
    gicr_size: u64,
) -> (r: FdtNode)
    ensures
        is_machine_tree(r, memory_size, vcpus as int, kernel_args@, initrd, gicd_size, gicr_size),
{
    let aliases = FdtNode {
        name: String::from_str("aliases"),
        props: vec![str_prop("serial0", "/serial@9000000")],
        children: Vec::new(),
    };
    let mut chosen_props = vec![
        str_prop("bootargs", kernel_args),
        str_prop("stdout-path", "serial0:115200n8"),
    ];
    if let Some((start, end)) = initrd {
        chosen_props.push(u64_prop("linux,initrd-start", start));
        chosen_props.push(u64_prop("linux,initrd-end", end));
    }
    let chosen = FdtNode { name: String::from_str("chosen"), props: chosen_props, children: Vec::new() };
    let psci = FdtNode {
        name: String::from_str("psci"),
        props: vec![str_prop("compatible", "arm,psci-0.2"), str_prop("method", "hvc")],
        children: Vec::new(),
    };
    let cpus = cpus_node(vcpus);
    let gic = FdtNode {
        name: unit_name_exec("interrupt-controller", GICD_START),
        props: vec![
            str_prop("compatible", "arm,gic-v3"),
            null_prop("interrupt-controller"),
            u32_prop("#interrupt-cells", 3),
            cells64_prop("reg", vec![GICD_START, gicd_size, GICR_START, gicr_size]),
            phandle_prop(GIC_PHANDLE),
        ],
        children: Vec::new(),
    };
    let timer = FdtNode {
        name: String::from_str("timer"),
        props: vec![
            str_prop("compatible", "arm,armv8-timer"),
            cells32_prop(
                "interrupts",
                vec![1u32, 13u32, 0xf08u32, 1u32, 14u32, 0xf08u32, 1u32, 11u32, 0xf08u32, 1u32, 10u32, 0xf08u32],
            ),
        ],
        children: Vec::new(),
    };
    let memory = FdtNode {
        name: unit_name_exec("memory", RAM_START),
        props: vec![str_prop("device_type", "memory"), cells64_prop("reg", vec![RAM_START, memory_size])],
        children: Vec::new(),
    };
    let clock = FdtNode {
        name: String::from_str("clk24m"),
        props: vec![
            str_prop("compatible", "fixed-clock"),
            u32_prop("#clock-cells", 0),
            u32_prop("clock-frequency", 24_000_000),
            phandle_prop(CLOCK_PHANDLE),
        ],
        children: Vec::new(),
    };
    let uart = FdtNode {
        name: unit_name_exec("serial", UART_START),
        props: vec![
            str_list_prop("compatible", "arm,pl011", "arm,primecell"),
            u32_prop("arm,primecell-periphid", 0x0034_1011),
            cells64_prop("reg", vec![UART_START, UART_SIZE]),
            cells32_prop("interrupts", vec![0u32, UART_SPI_OFFSET, 4u32]),
            cells32_prop("clocks", vec![CLOCK_PHANDLE, CLOCK_PHANDLE]),
            str_list_prop("clock-names", "uartclk", "apb_pclk"),
            str_prop("status", "okay"),
        ],
        children: Vec::new(),
    };
    let children = vec![
        aliases,
        chosen,
        psci,
        cpus,
        gic,
        timer,
        memory,
        clock,
        uart,
        virtio_node("virtio_blk", VIRTBLK_START, VIRTBLK_SIZE, VIRTBLK_SPI_OFFSET),
        virtio_node("virtio_net", VIRTNET_START, VIRTNET_SIZE, VIRTNET_SPI_OFFSET),
        virtio_node("virtio_gpu", VIRTGPU_START, VIRTGPU_SIZE, VIRTGPU_SPI_OFFSET),
        virtio_node(
            "virtio_input_keyboard",
            VIRTINPUT_KEYBOARD_START,
            VIRTINPUT_KEYBOARD_SIZE,
            VIRTINPUT_KEYBOARD_SPI_OFFSET,
        ),
        virtio_node(
            "virtio_input_tablet",
            VIRTINPUT_TABLET_START,
            VIRTINPUT_TABLET_SIZE,
            VIRTINPUT_TABLET_SPI_OFFSET,
        ),
        virtio_node("virtio_snd", VIRTSND_START, VIRTSND_SIZE, VIRTSND_SPI_OFFSET),
        virtio_node("virtio_console", VIRTCONSOLE_START, VIRTCONSOLE_SIZE, VIRTCONSOLE_SPI_OFFSET),
        virtio_node("virtio_input_mouse", VIRTINPUT_MOUSE_START, VIRTINPUT_MOUSE_SIZE, VIRTINPUT_MOUSE_SPI_OFFSET),
    ];
    let root_props = vec![
        str_prop("compatible", "varmint,virt"),
        u32_prop("#address-cells", 2),
        u32_prop("#size-cells", 2),
        u32_prop("interrupt-parent", GIC_PHANDLE),
    ];
    FdtNode { name: String::new(), props: root_props, children }
}


#[verifier::external_type_specification]
#[verifier::external_body]
pub struct ExFdtWriter(vm_fdt::FdtWriter);

#[verifier::external_type_specification]
#[verifier::external_body]
pub struct ExFdtWriterNode(vm_fdt::FdtWriterNode);

#[verifier::external_type_specification]
#[verifier::external_body]
pub struct ExFdtWriterError(vm_fdt::Error);

/// Why the device tree could not be written: vm-fdt refused it.
#[derive(Debug)]
pub enum FdtError {
    Writer(vm_fdt::Error),
}

/// A property value as it is handed to the writer.
pub enum PropModel {
    Null,
    Str(Seq<char>),
    StrList(Seq<Seq<char>>),
    U32(u32),
    U64(u64),
    CellsU32(Seq<u32>),
    CellsU64(Seq<u64>),
}

/// One entry in the history of a device tree writer.
pub enum FdtCall {
    /// The memory reservations (address, size) the writer was made with.
    Reserve(Seq<(u64, u64)>),
    BootCpu(u32),
    Begin(Seq<char>),
    End,
    Prop(Seq<char>, PropModel),
    Phandle(u32),
    /// A phandle call that failed: vm-fdt records the value as used before
    /// it writes the property, so the value stays taken.
    PhandleTaken(u32),
}

/// The history of the writer `w`: a `Reserve` entry first where it was made
/// with memory reservations (`FdtWriter::new` makes it with none, and then
/// there is no such entry), then the calls made on it that succeeded, in
/// order, with a `PhandleTaken` entry for each phandle call that failed.
pub uninterp spec fn fdt_calls(w: vm_fdt::FdtWriter) -> Seq<FdtCall>;

/// The blob that `FdtWriter::finish` gives for a writer with the history
/// `calls`.
pub uninterp spec fn fdt_blob(calls: Seq<FdtCall>) -> Seq<u8>;

/// The depth a writer handed to `end_node` was opened at.
pub uninterp spec fn node_level(n: vm_fdt::FdtWriterNode) -> int;

/// The nodes that `calls` opened and did not close.
pub open spec fn open_depth(calls: Seq<FdtCall>) -> int
    decreases calls.len(),
{
    if calls.len() == 0 {
        0
    } else {
        open_depth(calls.drop_last()) + match calls.last() {
            FdtCall::Begin(_) => 1int,
            FdtCall::End => -1int,
            _ => 0int,
        }
    }
}

/// Whether the node that `calls` last opened or closed was closed.
pub open spec fn node_closed(calls: Seq<FdtCall>) -> bool
    decreases calls.len(),
{
    if calls.len() == 0 {
        false
    } else {
        match calls.last() {
            FdtCall::Begin(_) => false,
            FdtCall::End => true,
            _ => node_closed(calls.drop_last()),
        }
    }
}

/// Whether `calls` took the phandle `v`, for a node or in a failed call.
pub open spec fn used_phandle(calls: Seq<FdtCall>, v: u32) -> bool
    decreases calls.len(),
{
    if calls.len() == 0 {
        false
    } else {
        calls.last() == FdtCall::Phandle(v) || calls.last() == FdtCall::PhandleTaken(v) || used_phandle(
            calls.drop_last(),
            v,
        )
    }
}

pub open spec fn is_alpha(c: char) -> bool {
    ('a' <= c && c <= 'z') || ('A' <= c && c <= 'Z')
}

/// A character that vm-fdt takes in a node name.
pub open spec fn node_char(c: char) -> bool {
    is_alpha(c) || ('0' <= c && c <= '9') || c == ',' || c == '.' || c == '_' || c == '+' || c == '-'
}

/// A character that vm-fdt takes in a property name.
pub open spec fn prop_char(c: char) -> bool {
    node_char(c) || c == '?' || c == '#'
}

pub open spec fn all_node_chars(s: Seq<char>) -> bool
    decreases s.len(),
{
    s.len() == 0 || (node_char(s[0]) && all_node_chars(s.drop_first()))
}

pub open spec fn all_prop_chars(s: Seq<char>) -> bool
    decreases s.len(),
{
    s.len() == 0 || (prop_char(s[0]) && all_prop_chars(s.drop_first()))
}

/// `s` holds no NUL character.
pub open spec fn no_nul(s: Seq<char>) -> bool
    decreases s.len(),
{
    s.len() == 0 || (s[0] != '\0' && no_nul(s.drop_first()))
}

/// A property name that vm-fdt takes.
pub open spec fn prop_name_ok(n: Seq<char>) -> bool {
    0 < n.len() <= 31 && all_prop_chars(n)
}

/// The part of a node name before the unit address, as vm-fdt takes it.
pub open spec fn node_base_ok(b: Seq<char>) -> bool {
    0 < b.len() <= 31 && is_alpha(b[0]) && all_node_chars(b)
}

/// A node name that vm-fdt takes: empty, a name, or a name, `@` and a unit
/// address.
pub open spec fn node_name_ok(n: Seq<char>) -> bool {
    ||| n.len() == 0
    ||| node_base_ok(n)
    ||| exists|k: int|
        0 < k < n.len() && n[k] == '@' && node_base_ok(#[trigger] n.subrange(0, k)) && all_node_chars(
            n.subrange(k + 1, n.len() as int),
        )
}

/// A property value that vm-fdt can encode: strings without NUL.
pub open spec fn value_ok(v: PropModel) -> bool {
    match v {
        PropModel::Str(s) => no_nul(s),
        PropModel::StrList(l) => forall|i: int| 0 <= i < l.len() ==> no_nul(#[trigger] l[i]),
        _ => true,
    }
}

/// Whether vm-fdt takes call `c` after the calls `prev`, size aside.
pub open spec fn call_ok(prev: Seq<FdtCall>, c: FdtCall) -> bool {
    match c {
        FdtCall::Reserve(_) => false,
        FdtCall::BootCpu(_) => true,
        FdtCall::Begin(name) => open_depth(prev) < 64 && node_name_ok(name),
        FdtCall::End => open_depth(prev) > 0,
        FdtCall::Prop(name, v) => open_depth(prev) > 0 && !node_closed(prev) && prop_name_ok(name) && value_ok(v),
        FdtCall::Phandle(v) => open_depth(prev) > 0 && !node_closed(prev) && !used_phandle(prev, v),
        FdtCall::PhandleTaken(_) => false,
    }
}

/// Whether vm-fdt takes each of the calls `new`, in order, after `prev`,
/// size aside.
pub open spec fn calls_ok(prev: Seq<FdtCall>, new: Seq<FdtCall>) -> bool
    decreases new.len(),
{
    new.len() == 0 || (call_ok(prev, new[0]) && calls_ok(prev.push(new[0]), new.drop_first()))
}

/// At most the bytes that the strings `l` take with their NULs.
pub open spec fn strs_cost(l: Seq<Seq<char>>) -> nat
    decreases l.len(),
{
    if l.len() == 0 {
        0
    } else {
        strs_cost(l.drop_last()) + 4 * l.last().len() + 1
    }
}

/// At most the bytes that value `v` takes.
pub open spec fn value_cost(v: PropModel) -> nat {
    match v {
        PropModel::Null => 0,
        PropModel::Str(s) => 4 * s.len() + 1,
        PropModel::StrList(l) => strs_cost(l),
        PropModel::U32(_) => 4,
        PropModel::U64(_) => 8,
        PropModel::CellsU32(c) => 4 * c.len(),
        PropModel::CellsU64(c) => 8 * c.len(),
    }
}

/// At most the bytes that call `c` adds to the blob's structure and
/// strings: a character takes at most four bytes of UTF-8, and padding at
/// most three.
pub open spec fn call_cost(c: FdtCall) -> nat {
    match c {
        FdtCall::Reserve(l) => 16 * l.len(),
        FdtCall::BootCpu(_) => 0,
        FdtCall::Begin(name) => 8 + 4 * name.len(),
        FdtCall::End => 4,
        FdtCall::Prop(name, v) => 16 + 4 * name.len() + value_cost(v),
        FdtCall::Phandle(_) => 24,
        FdtCall::PhandleTaken(_) => 0,
    }
}

pub open spec fn calls_cost(calls: Seq<FdtCall>) -> nat
    decreases calls.len(),
{
    if calls.len() == 0 {
        0
    } else {
        calls_cost(calls.drop_last()) + call_cost(calls.last())
    }
}

/// The bytes of a new writer beyond its reservations: the header and the
/// entry that ends the memory reservation map.
pub const FDT_START_BYTES: u64 = 56;

pub proof fn lemma_calls_ok_append(p: Seq<FdtCall>, a: Seq<FdtCall>, b: Seq<FdtCall>)
    ensures
        calls_ok(p, a + b) == (calls_ok(p, a) && calls_ok(p + a, b)),
    decreases a.len(),
{
    if a.len() == 0 {
        assert(a + b =~= b);
        assert(p + a =~= p);
    } else {
        assert((a + b)[0] == a[0]);
        assert((a + b).drop_first() =~= a.drop_first() + b);
        assert(p.push(a[0]) + a.drop_first() =~= p + a);
        lemma_calls_ok_append(p.push(a[0]), a.drop_first(), b);
    }
}

pub proof fn lemma_cost_append(a: Seq<FdtCall>, b: Seq<FdtCall>)
    ensures
        calls_cost(a + b) == calls_cost(a) + calls_cost(b),
    decreases b.len(),
{
    if b.len() == 0 {
        assert(a + b =~= a);
    } else {
        assert((a + b).drop_last() =~= a + b.drop_last());
        lemma_cost_append(a, b.drop_last());
    }
}

pub proof fn lemma_depth_append(a: Seq<FdtCall>, b: Seq<FdtCall>)
    ensures
        open_depth(a + b) == open_depth(a) + open_depth(b),
    decreases b.len(),
{
    if b.len() == 0 {
        assert(a + b =~= a);
    } else {
        assert((a + b).drop_last() =~= a + b.drop_last());
        lemma_depth_append(a, b.drop_last());
    }
}

pub proof fn lemma_used_append(a: Seq<FdtCall>, b: Seq<FdtCall>, v: u32)
    ensures
        used_phandle(a + b, v) == (used_phandle(a, v) || used_phandle(b, v)),
    decreases b.len(),
{
    if b.len() == 0 {
        assert(a + b =~= a);
    } else {
        assert((a + b).drop_last() =~= a + b.drop_last());
        lemma_used_append(a, b.drop_last(), v);
    }
}

/// The call that writes property `p`.
pub open spec fn prop_call(p: FdtProp) -> FdtCall {
    match p.value {
        PropValue::Null => FdtCall::Prop(p.name@, PropModel::Null),
        PropValue::Str(v) => FdtCall::Prop(p.name@, PropModel::Str(v@)),
        PropValue::StrList(l) => FdtCall::Prop(p.name@, PropModel::StrList(l@.map_values(|v: String| v@))),
        PropValue::U32(v) => FdtCall::Prop(p.name@, PropModel::U32(v)),
        PropValue::U64(v) => FdtCall::Prop(p.name@, PropModel::U64(v)),
        PropValue::CellsU32(c) => FdtCall::Prop(p.name@, PropModel::CellsU32(c@)),
        PropValue::CellsU64(c) => FdtCall::Prop(p.name@, PropModel::CellsU64(c@)),
        PropValue::Phandle(v) => FdtCall::Phandle(v),
    }
}

/// The calls that write properties `props`.
pub open spec fn props_calls(props: Seq<FdtProp>) -> Seq<FdtCall> {
    props.map_values(|p: FdtProp| prop_call(p))
}

/// The calls that write node `n`: it opens, its properties, its children in
/// order, and it closes.
pub open spec fn node_calls(n: FdtNode) -> Seq<FdtCall>
    decreases n, n.children@.len() + 1,
{
    seq![FdtCall::Begin(n.name@)] + props_calls(n.props@) + children_calls(n, 0) + seq![FdtCall::End]
}

/// The calls that write the children of `n` from the `k`-th on.
pub open spec fn children_calls(n: FdtNode, k: nat) -> Seq<FdtCall>
    decreases n, n.children@.len() - k,
{
    if k >= n.children@.len() {
        Seq::empty()
    } else {
        proof {
            assert(decreases_to!(n => n.children));
            vstd::std_specs::vec::axiom_vec_index_decreases(n.children, k as int);
        }
        node_calls(n.children@[k as int]) + children_calls(n, k + 1)
    }
}

/// `FdtWriter::new`: a writer with no memory reservations that has taken no
/// call yet. It does not fail: the empty reservation list never overlaps
/// and the fixed header fits.
#[verifier::external_body]
fn fdt_new() -> (r: Result<vm_fdt::FdtWriter, vm_fdt::Error>)
    ensures
        r is Ok,
        r matches Ok(w) ==> fdt_calls(w) == Seq::<FdtCall>::empty(),
{
    vm_fdt::FdtWriter::new()
}

/// `FdtWriter::set_boot_cpuid_phys`: sets the header's boot CPU; the writer
/// has taken one more call.
#[verifier::external_body]
fn fdt_set_boot_cpuid_phys(w: &mut vm_fdt::FdtWriter, id: u32)
    ensures
        fdt_calls(*final(w)) == fdt_calls(*old(w)).push(FdtCall::BootCpu(id)),
{
    w.set_boot_cpuid_phys(id)
}

/// `FdtWriter::begin_node`: opens a node named `name`, one deeper than the
/// nodes open. It succeeds below depth 64 with a name that vm-fdt's
/// `node_name_valid` takes; then the writer has taken one more call and the
/// handle records the new depth. Which other names it refuses is not stated.
#[verifier::external_body]
fn fdt_begin_node(w: &mut vm_fdt::FdtWriter, name: &String) -> (r: Result<vm_fdt::FdtWriterNode, vm_fdt::Error>)
    ensures
        call_ok(fdt_calls(*old(w)), FdtCall::Begin(name@)) ==> r is Ok,
        r is Ok ==> fdt_calls(*final(w)) == fdt_calls(*old(w)).push(FdtCall::Begin(name@)),
        r matches Ok(n) ==> node_level(n) == open_depth(fdt_calls(*old(w))) + 1,
{
    w.begin_node(name)
}

/// `FdtWriter::end_node`: closes `node`; it succeeds where `node` is the
/// innermost open node, and then the writer has taken one more call.
#[verifier::external_body]
fn fdt_end_node(w: &mut vm_fdt::FdtWriter, node: vm_fdt::FdtWriterNode) -> (r: Result<(), vm_fdt::Error>)
    ensures
        node_level(node) == open_depth(fdt_calls(*old(w))) ==> r is Ok,
        r is Ok ==> fdt_calls(*final(w)) == fdt_calls(*old(w)).push(FdtCall::End),
{
    w.end_node(node)
}

/// `FdtWriter::property_null`: an empty property; where it succeeds the
/// writer has taken one more call. Here and for the other properties it
/// succeeds inside an open node that has no child closed yet, with a name
/// that vm-fdt's `property_name_valid` takes, strings without NUL, and where
/// the blob so far and the property fit in 32 bits: the structure and
/// strings of a writer never exceed its 56 starting bytes plus the
/// `call_cost` of the calls it took. Which other properties it refuses is
/// not stated.
#[verifier::external_body]
fn fdt_property_null(w: &mut vm_fdt::FdtWriter, name: &String) -> (r: Result<(), vm_fdt::Error>)
    ensures
        call_ok(fdt_calls(*old(w)), FdtCall::Prop(name@, PropModel::Null)) && FDT_START_BYTES + calls_cost(
            fdt_calls(*old(w)).push(FdtCall::Prop(name@, PropModel::Null)),
        ) <= u32::MAX ==> r is Ok,
        r is Ok ==> fdt_calls(*final(w)) == fdt_calls(*old(w)).push(FdtCall::Prop(name@, PropModel::Null)),
{
    w.property_null(name)
}

/// `FdtWriter::property_string`: a NUL-terminated string; where it succeeds
/// the writer has taken one more call.
#[verifier::external_body]
fn fdt_property_string(w: &mut vm_fdt::FdtWriter, name: &String, val: &String) -> (r: Result<(), vm_fdt::Error>)
    ensures
        call_ok(fdt_calls(*old(w)), FdtCall::Prop(name@, PropModel::Str(val@))) && FDT_START_BYTES + calls_cost(
            fdt_calls(*old(w)).push(FdtCall::Prop(name@, PropModel::Str(val@))),
        ) <= u32::MAX ==> r is Ok,
        r is Ok ==> fdt_calls(*final(w)) == fdt_calls(*old(w)).push(
            FdtCall::Prop(name@, PropModel::Str(val@)),
        ),
{
    w.property_string(name, val)
}

/// `FdtWriter::property_string_list`: NUL-terminated strings back to back;
/// where it succeeds the writer has taken one more call.
#[verifier::external_body]
fn fdt_property_string_list(w: &mut vm_fdt::FdtWriter, name: &String, vals: &Vec<String>) -> (r: Result<
    (),
    vm_fdt::Error,
>)
    ensures
        call_ok(fdt_calls(*old(w)), FdtCall::Prop(name@, PropModel::StrList(vals@.map_values(|v: String| v@)))) && FDT_START_BYTES + calls_cost(
            fdt_calls(*old(w)).push(FdtCall::Prop(name@, PropModel::StrList(vals@.map_values(|v: String| v@)))),
        ) <= u32::MAX ==> r is Ok,
        r is Ok ==> fdt_calls(*final(w)) == fdt_calls(*old(w)).push(
            FdtCall::Prop(name@, PropModel::StrList(vals@.map_values(|v: String| v@))),
        ),
{
    w.property_string_list(name, vals.clone())
}

/// `FdtWriter::property_u32`: one big-endian cell; where it succeeds the
/// writer has taken one more call.
#[verifier::external_body]
fn fdt_property_u32(w: &mut vm_fdt::FdtWriter, name: &String, val: u32) -> (r: Result<(), vm_fdt::Error>)
    ensures
        call_ok(fdt_calls(*old(w)), FdtCall::Prop(name@, PropModel::U32(val))) && FDT_START_BYTES + calls_cost(
            fdt_calls(*old(w)).push(FdtCall::Prop(name@, PropModel::U32(val))),
        ) <= u32::MAX ==> r is Ok,
        r is Ok ==> fdt_calls(*final(w)) == fdt_calls(*old(w)).push(FdtCall::Prop(name@, PropModel::U32(val))),
{
    w.property_u32(name, val)
}

/// `FdtWriter::property_u64`: two big-endian cells; where it succeeds the
/// writer has taken one more call.
#[verifier::external_body]
fn fdt_property_u64(w: &mut vm_fdt::FdtWriter, name: &String, val: u64) -> (r: Result<(), vm_fdt::Error>)
    ensures
        call_ok(fdt_calls(*old(w)), FdtCall::Prop(name@, PropModel::U64(val))) && FDT_START_BYTES + calls_cost(
            fdt_calls(*old(w)).push(FdtCall::Prop(name@, PropModel::U64(val))),
        ) <= u32::MAX ==> r is Ok,
        r is Ok ==> fdt_calls(*final(w)) == fdt_calls(*old(w)).push(FdtCall::Prop(name@, PropModel::U64(val))),
{
    w.property_u64(name, val)
}

/// `FdtWriter::property_array_u32`: big-endian cells; where it succeeds the
/// writer has taken one more call.
#[verifier::external_body]
fn fdt_property_array_u32(w: &mut vm_fdt::FdtWriter, name: &String, cells: &Vec<u32>) -> (r: Result<
    (),
    vm_fdt::Error,
>)
    ensures
        call_ok(fdt_calls(*old(w)), FdtCall::Prop(name@, PropModel::CellsU32(cells@))) && FDT_START_BYTES + calls_cost(
            fdt_calls(*old(w)).push(FdtCall::Prop(name@, PropModel::CellsU32(cells@))),
        ) <= u32::MAX ==> r is Ok,
        r is Ok ==> fdt_calls(*final(w)) == fdt_calls(*old(w)).push(
            FdtCall::Prop(name@, PropModel::CellsU32(cells@)),
        ),
{
    w.property_array_u32(name, cells)
}

/// `FdtWriter::property_array_u64`: big-endian 64-bit values; where it
/// succeeds the writer has taken one more call.
#[verifier::external_body]
fn fdt_property_array_u64(w: &mut vm_fdt::FdtWriter, name: &String, cells: &Vec<u64>) -> (r: Result<
    (),
    vm_fdt::Error,
>)
    ensures
        call_ok(fdt_calls(*old(w)), FdtCall::Prop(name@, PropModel::CellsU64(cells@))) && FDT_START_BYTES + calls_cost(
            fdt_calls(*old(w)).push(FdtCall::Prop(name@, PropModel::CellsU64(cells@))),
        ) <= u32::MAX ==> r is Ok,
        r is Ok ==> fdt_calls(*final(w)) == fdt_calls(*old(w)).push(
            FdtCall::Prop(name@, PropModel::CellsU64(cells@)),
        ),
{
    w.property_array_u64(name, cells)
}

/// `FdtWriter::property_phandle`: a `phandle` property, refused where the
/// value was taken before; where it succeeds the writer has taken one more
/// call, and where it fails the value is taken all the same.
#[verifier::external_body]
fn fdt_property_phandle(w: &mut vm_fdt::FdtWriter, val: u32) -> (r: Result<(), vm_fdt::Error>)
    ensures
        call_ok(fdt_calls(*old(w)), FdtCall::Phandle(val)) && FDT_START_BYTES + calls_cost(
            fdt_calls(*old(w)).push(FdtCall::Phandle(val)),
        ) <= u32::MAX ==> r is Ok,
        r is Ok ==> fdt_calls(*final(w)) == fdt_calls(*old(w)).push(FdtCall::Phandle(val)),
        r is Err ==> fdt_calls(*final(w)) == fdt_calls(*old(w)).push(FdtCall::PhandleTaken(val)),
{
    w.property_phandle(val)
}

/// `FdtWriter::finish`: the device tree blob, which is vm-fdt's encoding of
/// the writer's history, its memory reservations included (named, not
/// written out here). It succeeds where every node is closed and the blob,
/// with its end token, fits in 32 bits.
#[verifier::external_body]
fn fdt_finish(w: vm_fdt::FdtWriter) -> (r: Result<Vec<u8>, vm_fdt::Error>)
    ensures
        open_depth(fdt_calls(w)) == 0 && FDT_START_BYTES + calls_cost(fdt_calls(w)) + 4 <= u32::MAX ==> r is Ok,
        r matches Ok(b) ==> b@ == fdt_blob(fdt_calls(w)),
{
    w.finish()
}

proof fn lemma_props_depth(ps: Seq<FdtProp>)
    ensures
        open_depth(props_calls(ps)) == 0,
    decreases ps.len(),
{
    if ps.len() > 0 {
        assert(props_calls(ps).drop_last() =~= props_calls(ps.drop_last()));
        lemma_props_depth(ps.drop_last());
    }
}

/// A node's calls close every node they open.
proof fn lemma_node_balanced(n: FdtNode)
    ensures
        open_depth(node_calls(n)) == 0,
    decreases n, n.children@.len() + 1,
{
    let a = seq![FdtCall::Begin(n.name@)];
    let b = props_calls(n.props@);
    let c = children_calls(n, 0);
    let d = seq![FdtCall::End];
    lemma_props_depth(n.props@);
    lemma_children_balanced(n, 0);
    lemma_depth_append(a, b);
    lemma_depth_append(a + b, c);
    lemma_depth_append(a + b + c, d);
    assert(open_depth(a) == 1) by {
        assert(a.drop_last() =~= Seq::<FdtCall>::empty());
        assert(a.last() == FdtCall::Begin(n.name@));
        assert(open_depth(a.drop_last()) == 0);
    }
    assert(open_depth(d) == -1) by {
        assert(d.drop_last() =~= Seq::<FdtCall>::empty());
        assert(d.last() == FdtCall::End);
        assert(open_depth(d.drop_last()) == 0);
    }
}

proof fn lemma_children_balanced(n: FdtNode, k: nat)
    ensures
        open_depth(children_calls(n, k)) == 0,
    decreases n, n.children@.len() - k,
{
    if k < n.children@.len() {
        assert(decreases_to!(n => n.children));
        vstd::std_specs::vec::axiom_vec_index_decreases(n.children, k as int);
        lemma_node_balanced(n.children@[k as int]);
        lemma_children_balanced(n, k + 1);
        lemma_depth_append(node_calls(n.children@[k as int]), children_calls(n, k + 1));
    }
}

/// Property `p` is one that vm-fdt takes; a phandle is allowed only where
/// `last` holds.
pub open spec fn prop_fine(p: FdtProp, last: bool, bound: nat) -> bool {
    match prop_call(p) {
        FdtCall::Prop(name, v) => prop_name_ok(name) && value_ok(v) && call_cost(prop_call(p)) <= bound,
        FdtCall::Phandle(_) => last,
        _ => false,
    }
}

/// Properties that vm-fdt takes, each of at most `bound` bytes, of which
/// only the last may be a phandle.
pub open spec fn props_fine(ps: Seq<FdtProp>, bound: nat) -> bool {
    forall|i: int| 0 <= i < ps.len() ==> prop_fine(#[trigger] ps[i], i == ps.len() - 1, bound)
}

/// The phandle that the last of `ps` gives, if it is one.
pub open spec fn last_phandle(ps: Seq<FdtProp>) -> Option<u32> {
    if ps.len() > 0 && prop_call(ps.last()) is Phandle {
        Some(prop_call(ps.last())->Phandle_0)
    } else {
        None
    }
}

/// A childless node whose name and properties vm-fdt takes.
pub open spec fn leaf_fine(n: FdtNode, bound: nat) -> bool {
    &&& n.children@.len() == 0
    &&& node_name_ok(n.name@)
    &&& n.name@.len() <= 48
    &&& props_fine(n.props@, bound)
}

proof fn lemma_single(c: FdtCall)
    ensures
        calls_cost(seq![c]) == call_cost(c),
        forall|x: u32| used_phandle(seq![c], x) == (c == FdtCall::Phandle(x) || c == FdtCall::PhandleTaken(x)),
        open_depth(seq![c]) == match c {
            FdtCall::Begin(_) => 1int,
            FdtCall::End => -1int,
            _ => 0int,
        },
{
    let e = Seq::<FdtCall>::empty();
    assert(seq![c].drop_last() =~= e);
    assert(seq![c].last() == c);
    assert(calls_cost(e) == 0);
    assert(open_depth(e) == 0);
    assert forall|x: u32| used_phandle(seq![c], x) == (c == FdtCall::Phandle(x) || c == FdtCall::PhandleTaken(x)) by {
        assert(!used_phandle(e, x));
    }
}

proof fn lemma_props_ok(q: Seq<FdtCall>, ps: Seq<FdtProp>, bound: nat)
    requires
        open_depth(q) > 0,
        !node_closed(q),
        props_fine(ps, bound),
        last_phandle(ps) matches Some(v) ==> !used_phandle(q, v),
    ensures
        calls_ok(q, props_calls(ps)),
        open_depth(q + props_calls(ps)) == open_depth(q),
        !node_closed(q + props_calls(ps)),
        forall|x: u32| used_phandle(props_calls(ps), x) ==> last_phandle(ps) == Some(x),
        calls_cost(props_calls(ps)) <= bound * ps.len() + 24,
    decreases ps.len(),
{
    if ps.len() == 0 {
        assert(q + props_calls(ps) =~= q);
    } else {
        let c = prop_call(ps[0]);
        let rest = ps.drop_first();
        let q2 = q.push(c);
        assert(props_calls(ps)[0] == c);
        assert(props_calls(ps).drop_first() =~= props_calls(rest));
        assert(prop_fine(ps[0], 0 == ps.len() - 1, bound));
        assert(q2.drop_last() =~= q);
        assert(props_fine(rest, bound)) by {
            assert forall|i: int| 0 <= i < rest.len() implies prop_fine(#[trigger] rest[i], i == rest.len() - 1, bound) by {
                assert(rest[i] == ps[i + 1]);
                assert(prop_fine(ps[i + 1], i + 1 == ps.len() - 1, bound));
            }
        }
        if rest.len() > 0 {
            assert(rest.last() == ps.last());
            assert(!(c is Phandle)) by {
                assert(prop_fine(ps[0], false, bound));
            }
            assert forall|x: u32| last_phandle(rest) == Some(x) implies !used_phandle(q2, x) by {
                assert(used_phandle(q2, x) == (c == FdtCall::Phandle(x) || used_phandle(q, x)));
            }
        }
        lemma_props_ok(q2, rest, bound);
        assert(q + props_calls(ps) =~= q2 + props_calls(rest));
        lemma_used_append(seq![c], props_calls(rest), 0);
        lemma_single(c);
        assert(call_cost(c) <= bound || call_cost(c) == 24);
        assert forall|x: u32| used_phandle(props_calls(ps), x) implies last_phandle(ps) == Some(x) by {
            assert(props_calls(ps) =~= seq![c] + props_calls(rest));
            lemma_used_append(seq![c], props_calls(rest), x);
            if c == FdtCall::Phandle(x) {
                assert(prop_fine(ps[0], 0 == ps.len() - 1, bound));
                assert(ps.len() == 1);
                assert(ps.last() == ps[0]);
            } else {
                assert(used_phandle(props_calls(rest), x));
                assert(last_phandle(rest) == Some(x));
                assert(rest.last() == ps.last());
            }
        }
        lemma_cost_append(seq![c], props_calls(rest));
        assert(props_calls(ps) =~= seq![c] + props_calls(rest));
        assert(bound * rest.len() + bound == bound * ps.len()) by (nonlinear_arith)
            requires
                ps.len() == rest.len() + 1,
        ;
        if rest.len() == 0 {
            assert(props_calls(rest) =~= Seq::<FdtCall>::empty());
            assert(calls_cost(props_calls(rest)) == 0);
        }
        assert(seq![c].drop_last() =~= Seq::<FdtCall>::empty());
    }
}

proof fn lemma_leaf_ok(q: Seq<FdtCall>, n: FdtNode, bound: nat)
    requires
        0 <= open_depth(q) < 64,
        leaf_fine(n, bound),
        last_phandle(n.props@) matches Some(v) ==> !used_phandle(q, v),
    ensures
        calls_ok(q, node_calls(n)),
        open_depth(q + node_calls(n)) == open_depth(q),
        forall|x: u32| used_phandle(node_calls(n), x) ==> last_phandle(n.props@) == Some(x),
        calls_cost(node_calls(n)) <= bound * n.props@.len() + 228,
{
    let b = FdtCall::Begin(n.name@);
    let e = FdtCall::End;
    let p = props_calls(n.props@);
    let nc = node_calls(n);
    assert(children_calls(n, 0) =~= Seq::<FdtCall>::empty());
    assert(nc =~= seq![b] + (p + seq![e]));
    assert(nc[0] == b);
    assert(nc.drop_first() =~= p + seq![e]);
    let q1 = q.push(b);
    lemma_single(b);
    lemma_single(e);
    lemma_depth_append(q, seq![b]);
    assert(q + seq![b] =~= q1);
    assert(q1.drop_last() =~= q);
    assert(q1.last() == b);
    assert forall|x: u32| !used_phandle(q, x) implies !used_phandle(q1, x) by {
        lemma_used_append(q, seq![b], x);
    }
    lemma_props_ok(q1, n.props@, bound);
    lemma_calls_ok_append(q1, p, seq![e]);
    let q2 = q1 + p;
    assert(seq![e][0] == e);
    assert(seq![e].drop_first() =~= Seq::<FdtCall>::empty());
    assert(open_depth(q1) == open_depth(q) + 1);
    assert(open_depth(q2) > 0);
    assert(call_ok(q2, e));
    assert(calls_ok(q2.push(e), Seq::<FdtCall>::empty()));
    assert(calls_ok(q2, seq![e]));
    lemma_node_balanced(n);
    lemma_depth_append(q, nc);
    lemma_cost_append(seq![b], p + seq![e]);
    lemma_cost_append(p, seq![e]);
    assert forall|x: u32| used_phandle(nc, x) implies last_phandle(n.props@) == Some(x) by {
        lemma_used_append(seq![b], p + seq![e], x);
        lemma_used_append(p, seq![e], x);
    }
}

proof fn lemma_node_chars_append(a: Seq<char>, b: Seq<char>)
    ensures
        all_node_chars(a + b) == (all_node_chars(a) && all_node_chars(b)),
    decreases a.len(),
{
    if a.len() == 0 {
        assert(a + b =~= b);
    } else {
        assert((a + b)[0] == a[0]);
        assert((a + b).drop_first() =~= a.drop_first() + b);
        lemma_node_chars_append(a.drop_first(), b);
    }
}

pub open spec fn pow16(k: nat) -> nat
    decreases k,
{
    if k == 0 {
        1
    } else {
        16 * pow16((k - 1) as nat)
    }
}

proof fn lemma_hex(v: nat, k: nat)
    requires
        v < pow16(k),
        k > 0,
    ensures
        all_node_chars(hex(v)),
        hex(v).len() <= k,
    decreases v,
{
    let d = v % 16;
    assert(node_char(hex_digit(d))) by {
        if d < 10 {
            assert('0' <= hex_digit(d) && hex_digit(d) <= '9');
        } else {
            assert('a' <= hex_digit(d) && hex_digit(d) <= 'z');
        }
    }
    assert(all_node_chars(seq![hex_digit(d)])) by {
        assert(seq![hex_digit(d)].drop_first() =~= Seq::<char>::empty());
        assert(seq![hex_digit(d)][0] == hex_digit(d));
        assert(all_node_chars(Seq::<char>::empty()));
    }
    if v >= 16 {
        assert(k > 1) by {
            if k == 1 {
                assert(pow16(1) == 16 * pow16(0));
            }
        }
        assert(v / 16 < pow16((k - 1) as nat)) by {
            assert(pow16(k) == 16 * pow16((k - 1) as nat));
        }
        lemma_hex(v / 16, (k - 1) as nat);
        assert(v % 16 == d);
        lemma_node_chars_append(hex(v / 16), seq![hex_digit(d)]);
    } else {
        assert(hex(v) == seq![hex_digit(v)]);
    }
}

/// A unit name whose prefix vm-fdt takes is a node name it takes.
proof fn lemma_unit_name_ok(prefix: Seq<char>, addr: u64)
    requires
        node_base_ok(prefix),
    ensures
        node_name_ok(unit_name(prefix, addr)),
        unit_name(prefix, addr).len() <= prefix.len() + 17,
{
    assert(pow16(16) == 0x1_0000_0000_0000_0000) by {
        reveal_with_fuel(pow16, 17);
    }
    lemma_hex(addr as nat, 16);
    let n = unit_name(prefix, addr);
    let k = prefix.len() as int;
    assert(n[k] == '@');
    assert(n.subrange(0, k) =~= prefix);
    assert(n.subrange(k + 1, n.len() as int) =~= hex(addr as nat));
}

proof fn lemma_leaf_children(q: Seq<FdtCall>, n: FdtNode, k: nat, bound: nat)
    requires
        k <= n.children@.len(),
        0 <= open_depth(q) < 64,
        forall|j: int|
            k <= j < n.children@.len() ==> leaf_fine(#[trigger] n.children@[j], bound) && last_phandle(
                n.children@[j].props@,
            ) is None && n.children@[j].props@.len() <= 8,
    ensures
        calls_ok(q, children_calls(n, k)),
        open_depth(q + children_calls(n, k)) == open_depth(q),
        forall|x: u32| !used_phandle(children_calls(n, k), x),
        calls_cost(children_calls(n, k)) <= (n.children@.len() - k) * (8 * bound + 228),
    decreases n.children@.len() - k,
{
    if k >= n.children@.len() {
        assert(children_calls(n, k) =~= Seq::<FdtCall>::empty());
        assert(q + children_calls(n, k) =~= q);
        assert(calls_cost(Seq::<FdtCall>::empty()) == 0);
        assert forall|x: u32| !used_phandle(children_calls(n, k), x) by {
            assert(!used_phandle(Seq::<FdtCall>::empty(), x));
        }
    } else {
        let c = n.children@[k as int];
        let nc = node_calls(c);
        let rest = children_calls(n, k + 1);
        assert(children_calls(n, k) == nc + rest);
        lemma_leaf_ok(q, c, bound);
        lemma_leaf_children(q + nc, n, k + 1, bound);
        lemma_calls_ok_append(q, nc, rest);
        lemma_depth_append(q + nc, rest);
        assert(q + (nc + rest) =~= (q + nc) + rest);
        lemma_cost_append(nc, rest);
        assert forall|x: u32| !used_phandle(children_calls(n, k), x) by {
            lemma_used_append(nc, rest, x);
        }
        let m = (n.children@.len() - k) as int;
        assert(bound * c.props@.len() <= 8 * bound) by (nonlinear_arith)
            requires
                c.props@.len() <= 8,
        ;
        assert((m - 1) * (8 * bound + 228) + (8 * bound + 228) == m * (8 * bound + 228)) by (nonlinear_arith);
    }
}

/// The property names of the machine's tree are ones vm-fdt takes.
proof fn lemma_prop_names()
    ensures
        prop_name_ok("compatible"@),
        prop_name_ok("#address-cells"@),
        prop_name_ok("#size-cells"@),
        prop_name_ok("interrupt-parent"@),
        prop_name_ok("serial0"@),
        prop_name_ok("bootargs"@),
        prop_name_ok("stdout-path"@),
        prop_name_ok("linux,initrd-start"@),
        prop_name_ok("linux,initrd-end"@),
        prop_name_ok("method"@),
        prop_name_ok("device_type"@),
        prop_name_ok("reg"@),
        prop_name_ok("enable-method"@),
        prop_name_ok("interrupt-controller"@),
        prop_name_ok("#interrupt-cells"@),
        prop_name_ok("interrupts"@),
        prop_name_ok("#clock-cells"@),
        prop_name_ok("clock-frequency"@),
        prop_name_ok("arm,primecell-periphid"@),
        prop_name_ok("clocks"@),
        prop_name_ok("clock-names"@),
        prop_name_ok("status"@),
{
    reveal_with_fuel(all_prop_chars, 32);
    reveal_strlit("compatible");
    reveal_strlit("#address-cells");
    reveal_strlit("#size-cells");
    reveal_strlit("interrupt-parent");
    reveal_strlit("serial0");
    reveal_strlit("bootargs");
    reveal_strlit("stdout-path");
    reveal_strlit("linux,initrd-start");
    reveal_strlit("linux,initrd-end");
    reveal_strlit("method");
    reveal_strlit("device_type");
    reveal_strlit("reg");
    reveal_strlit("enable-method");
    reveal_strlit("interrupt-controller");
    reveal_strlit("#interrupt-cells");
    reveal_strlit("interrupts");
    reveal_strlit("#clock-cells");
    reveal_strlit("clock-frequency");
    reveal_strlit("arm,primecell-periphid");
    reveal_strlit("clocks");
    reveal_strlit("clock-names");
    reveal_strlit("status");
}

/// The string values of the machine's tree have no NUL and are short.
proof fn lemma_values()
    ensures
        no_nul("/serial@9000000"@) && "/serial@9000000"@.len() <= 31,
        no_nul("serial0:115200n8"@) && "serial0:115200n8"@.len() <= 31,
        no_nul("arm,psci-0.2"@) && "arm,psci-0.2"@.len() <= 31,
        no_nul("hvc"@) && "hvc"@.len() <= 31,
        no_nul("cpu"@) && "cpu"@.len() <= 31,
        no_nul("arm,armv8"@) && "arm,armv8"@.len() <= 31,
        no_nul("psci"@) && "psci"@.len() <= 31,
        no_nul("arm,gic-v3"@) && "arm,gic-v3"@.len() <= 31,
        no_nul("arm,armv8-timer"@) && "arm,armv8-timer"@.len() <= 31,
        no_nul("memory"@) && "memory"@.len() <= 31,
        no_nul("fixed-clock"@) && "fixed-clock"@.len() <= 31,
        no_nul("arm,pl011"@) && "arm,pl011"@.len() <= 31,
        no_nul("arm,primecell"@) && "arm,primecell"@.len() <= 31,
        no_nul("uartclk"@) && "uartclk"@.len() <= 31,
        no_nul("apb_pclk"@) && "apb_pclk"@.len() <= 31,
        no_nul("okay"@) && "okay"@.len() <= 31,
        no_nul("virtio,mmio"@) && "virtio,mmio"@.len() <= 31,
        no_nul("varmint,virt"@) && "varmint,virt"@.len() <= 31,
{
    reveal_with_fuel(no_nul, 32);
    reveal_strlit("/serial@9000000");
    reveal_strlit("serial0:115200n8");
    reveal_strlit("arm,psci-0.2");
    reveal_strlit("hvc");
    reveal_strlit("cpu");
    reveal_strlit("arm,armv8");
    reveal_strlit("psci");
    reveal_strlit("arm,gic-v3");
    reveal_strlit("arm,armv8-timer");
    reveal_strlit("memory");
    reveal_strlit("fixed-clock");
    reveal_strlit("arm,pl011");
    reveal_strlit("arm,primecell");
    reveal_strlit("uartclk");
    reveal_strlit("apb_pclk");
    reveal_strlit("okay");
    reveal_strlit("virtio,mmio");
    reveal_strlit("varmint,virt");
}

/// The node names of the machine's tree, before any unit address, are ones vm-fdt takes.
proof fn lemma_bases()
    ensures
        node_base_ok("aliases"@),
        node_base_ok("chosen"@),
        node_base_ok("psci"@),
        node_base_ok("cpus"@),
        node_base_ok("cpu"@),
        node_base_ok("interrupt-controller"@),
        node_base_ok("timer"@),
        node_base_ok("memory"@),
        node_base_ok("clk24m"@),
        node_base_ok("serial"@),
        node_base_ok("virtio_blk"@),
        node_base_ok("virtio_net"@),
        node_base_ok("virtio_gpu"@),
        node_base_ok("virtio_input_keyboard"@),
        node_base_ok("virtio_input_tablet"@),
        node_base_ok("virtio_snd"@),
        node_base_ok("virtio_console"@),
        node_base_ok("virtio_input_mouse"@),
{
    reveal_with_fuel(all_node_chars, 32);
    reveal_strlit("aliases");
    reveal_strlit("chosen");
    reveal_strlit("psci");
    reveal_strlit("cpus");
    reveal_strlit("cpu");
    reveal_strlit("interrupt-controller");
    reveal_strlit("timer");
    reveal_strlit("memory");
    reveal_strlit("clk24m");
    reveal_strlit("serial");
    reveal_strlit("virtio_blk");
    reveal_strlit("virtio_net");
    reveal_strlit("virtio_gpu");
    reveal_strlit("virtio_input_keyboard");
    reveal_strlit("virtio_input_tablet");
    reveal_strlit("virtio_snd");
    reveal_strlit("virtio_console");
    reveal_strlit("virtio_input_mouse");
}

/// A node with childless children, none of which, nor the node itself,
/// has a phandle.
proof fn lemma_parent_ok(q: Seq<FdtCall>, n: FdtNode, bound: nat)
    requires
        0 <= open_depth(q) < 63,
        node_name_ok(n.name@),
        n.name@.len() <= 48,
        props_fine(n.props@, bound),
        last_phandle(n.props@) is None,
        n.props@.len() <= 8,
        forall|j: int|
            0 <= j < n.children@.len() ==> leaf_fine(#[trigger] n.children@[j], bound) && last_phandle(
                n.children@[j].props@,
            ) is None && n.children@[j].props@.len() <= 8,
    ensures
        calls_ok(q, node_calls(n)),
        open_depth(q + node_calls(n)) == open_depth(q),
        forall|x: u32| !used_phandle(node_calls(n), x),
        calls_cost(node_calls(n)) <= (n.children@.len() + 1) * (8 * bound + 228),
{
    let b = FdtCall::Begin(n.name@);
    let e = FdtCall::End;
    let p = props_calls(n.props@);
    let cc = children_calls(n, 0);
    let nc = node_calls(n);
    assert(nc =~= seq![b] + (p + (cc + seq![e])));
    assert(nc[0] == b);
    assert(nc.drop_first() =~= p + (cc + seq![e]));
    let q1 = q.push(b);
    lemma_single(b);
    lemma_single(e);
    lemma_depth_append(q, seq![b]);
    assert(q + seq![b] =~= q1);
    assert(q1.drop_last() =~= q);
    assert(q1.last() == b);
    lemma_props_ok(q1, n.props@, bound);
    let q2 = q1 + p;
    lemma_leaf_children(q2, n, 0, bound);
    let q3 = q2 + cc;
    lemma_calls_ok_append(q1, p, cc + seq![e]);
    lemma_calls_ok_append(q2, cc, seq![e]);
    assert(seq![e][0] == e);
    assert(seq![e].drop_first() =~= Seq::<FdtCall>::empty());
    assert(open_depth(q1) == open_depth(q) + 1);
    assert(open_depth(q3) > 0);
    assert(call_ok(q3, e));
    assert(calls_ok(q3.push(e), Seq::<FdtCall>::empty()));
    assert(calls_ok(q3, seq![e]));
    lemma_node_balanced(n);
    lemma_depth_append(q, nc);
    lemma_cost_append(seq![b], p + (cc + seq![e]));
    lemma_cost_append(p, cc + seq![e]);
    lemma_cost_append(cc, seq![e]);
    assert forall|x: u32| !used_phandle(nc, x) by {
        lemma_used_append(seq![b], p + (cc + seq![e]), x);
        lemma_used_append(p, cc + seq![e], x);
        lemma_used_append(cc, seq![e], x);
    }
    let m = n.children@.len() as int;
    assert(bound * n.props@.len() <= 8 * bound) by (nonlinear_arith)
        requires
            n.props@.len() <= 8,
    ;
    assert((m + 1) * (8 * bound + 228) == m * (8 * bound + 228) + (8 * bound + 228)) by (nonlinear_arith);
}

/// The `cpus` node of `vcpus` CPUs is one that vm-fdt takes.
proof fn lemma_cpus_ok(q: Seq<FdtCall>, n: FdtNode, vcpus: int)
    requires
        0 <= open_depth(q) < 63,
        is_cpus(n, vcpus),
    ensures
        calls_ok(q, node_calls(n)),
        open_depth(q + node_calls(n)) == open_depth(q),
        forall|x: u32| !used_phandle(node_calls(n), x),
        calls_cost(node_calls(n)) <= (vcpus + 1) * 3428,
{
    lemma_prop_names();
    lemma_values();
    lemma_bases();
    assert(props_fine(n.props@, 400));
    assert forall|j: int| 0 <= j < n.children@.len() implies leaf_fine(#[trigger] n.children@[j], 400)
        && last_phandle(n.children@[j].props@) is None && n.children@[j].props@.len() <= 8 by {
        let c = n.children@[j];
        assert(is_cpu(c, j));
        lemma_unit_name_ok("cpu"@, j as u64);
        assert(props_fine(c.props@, 400));
    }
    lemma_parent_ok(q, n, 400);
}

/// The largest kernel command line, in characters, for which writing the
/// tree is promised to succeed.
pub const MAX_ARGS_CHARS: usize = 0x10_0000;

/// The most CPUs for which writing the tree is promised to succeed.
pub const MAX_FDT_CPUS: usize = 0x1_0000;

proof fn lemma_virtio_fine(c: FdtNode, name: Seq<char>, base: u64, size: u64, spi: u32)
    requires
        is_virtio(c, name, base, size, spi),
        node_base_ok(name),
    ensures
        leaf_fine(c, 400),
        last_phandle(c.props@) is None,
        c.props@.len() <= 8,
{
    lemma_prop_names();
    lemma_values();
    lemma_unit_name_ok(name, base);
    assert(props_fine(c.props@, 400));
}

proof fn lemma_named_leaf(c: FdtNode)
    requires
        c.children@.len() == 0,
        node_base_ok(c.name@),
        props_fine(c.props@, 400),
    ensures
        leaf_fine(c, 400),
{
}

/// The children of the machine's root, but for `cpus`, are childless nodes
/// that vm-fdt takes; only the interrupt controller and the clock give a
/// phandle.
#[verifier::rlimit(40)]
proof fn lemma_machine_children(
    t: FdtNode,
    memory_size: u64,
    vcpus: int,
    args: Seq<char>,
    initrd: Option<(u64, u64)>,
    gicd_size: u64,
    gicr_size: u64,
)
    requires
        is_machine_tree(t, memory_size, vcpus, args, initrd, gicd_size, gicr_size),
        no_nul(args),
    ensures
        props_fine(t.props@, 400),
        last_phandle(t.props@) is None,
        t.props@.len() == 4,
        t.name@.len() == 0,
        forall|j: int|
            0 <= j < 17 && j != 1 && j != 3 ==> leaf_fine(#[trigger] t.children@[j], 400)
                && t.children@[j].props@.len() <= 8,
        forall|j: int|
            0 <= j < 17 && j != 1 && j != 3 && j != 4 && j != 7 ==> last_phandle(
                #[trigger] t.children@[j].props@,
            ) is None,
        leaf_fine(t.children@[1], 400 + 4 * args.len()),
        last_phandle(t.children@[1].props@) is None,
        t.children@[1].props@.len() <= 4,
        last_phandle(t.children@[4].props@) == Some(GIC_PHANDLE),
        last_phandle(t.children@[7].props@) == Some(CLOCK_PHANDLE),
        t.children@.len() == 17,
{
    let c = t.children@;
    lemma_bases();
    lemma_root_props(t);
    lemma_aliases(c[0]);
    lemma_chosen(c[1], args, initrd);
    lemma_psci(c[2]);
    lemma_gic(c[4], gicd_size, gicr_size);
    lemma_timer(c[5]);
    lemma_memory(c[6], memory_size);
    lemma_clock(c[7]);
    lemma_serial(c[8]);
    lemma_virtio_fine(c[9], "virtio_blk"@, VIRTBLK_START, VIRTBLK_SIZE, VIRTBLK_SPI_OFFSET);
    lemma_virtio_fine(c[10], "virtio_net"@, VIRTNET_START, VIRTNET_SIZE, VIRTNET_SPI_OFFSET);
    lemma_virtio_fine(c[11], "virtio_gpu"@, VIRTGPU_START, VIRTGPU_SIZE, VIRTGPU_SPI_OFFSET);
    lemma_virtio_fine(
        c[12],
        "virtio_input_keyboard"@,
        VIRTINPUT_KEYBOARD_START,
        VIRTINPUT_KEYBOARD_SIZE,
        VIRTINPUT_KEYBOARD_SPI_OFFSET,
    );
    lemma_virtio_fine(
        c[13],
        "virtio_input_tablet"@,
        VIRTINPUT_TABLET_START,
        VIRTINPUT_TABLET_SIZE,
        VIRTINPUT_TABLET_SPI_OFFSET,
    );
    lemma_virtio_fine(c[14], "virtio_snd"@, VIRTSND_START, VIRTSND_SIZE, VIRTSND_SPI_OFFSET);
    lemma_virtio_fine(c[15], "virtio_console"@, VIRTCONSOLE_START, VIRTCONSOLE_SIZE, VIRTCONSOLE_SPI_OFFSET);
    lemma_virtio_fine(
        c[16],
        "virtio_input_mouse"@,
        VIRTINPUT_MOUSE_START,
        VIRTINPUT_MOUSE_SIZE,
        VIRTINPUT_MOUSE_SPI_OFFSET,
    );
}

proof fn lemma_root_props(t: FdtNode)
    requires
        t.props@.len() == 4,
        is_str(t.props@[0], "compatible"@, "varmint,virt"@),
        is_u32(t.props@[1], "#address-cells"@, 2),
        is_u32(t.props@[2], "#size-cells"@, 2),
        is_u32(t.props@[3], "interrupt-parent"@, GIC_PHANDLE),
    ensures
        props_fine(t.props@, 400),
        last_phandle(t.props@) is None,
{
    lemma_prop_names();
    lemma_values();
}

proof fn lemma_aliases(c: FdtNode)
    requires
        c.name@ == "aliases"@ && c.props@.len() == 1 && c.children@.len() == 0,
        is_str(c.props@[0], "serial0"@, "/serial@9000000"@),
    ensures
        leaf_fine(c, 400),
        last_phandle(c.props@) is None,
{
    lemma_prop_names();
    lemma_values();
    lemma_bases();
    assert(props_fine(c.props@, 400));
}

proof fn lemma_chosen(c: FdtNode, args: Seq<char>, initrd: Option<(u64, u64)>)
    requires
        c.name@ == "chosen"@ && c.children@.len() == 0,
        is_str(c.props@[0], "bootargs"@, args),
        is_str(c.props@[1], "stdout-path"@, "serial0:115200n8"@),
        match initrd {
            Some((s, e)) => c.props@.len() == 4 && is_u64(c.props@[2], "linux,initrd-start"@, s) && is_u64(
                c.props@[3],
                "linux,initrd-end"@,
                e,
            ),
            None => c.props@.len() == 2,
        },
        no_nul(args),
    ensures
        leaf_fine(c, 400 + 4 * args.len()),
        last_phandle(c.props@) is None,
        c.props@.len() <= 4,
{
    lemma_prop_names();
    lemma_values();
    lemma_bases();
    assert(props_fine(c.props@, 400 + 4 * args.len()));
}

proof fn lemma_psci(c: FdtNode)
    requires
        c.name@ == "psci"@ && c.props@.len() == 2 && c.children@.len() == 0,
        is_str(c.props@[0], "compatible"@, "arm,psci-0.2"@),
        is_str(c.props@[1], "method"@, "hvc"@),
    ensures
        leaf_fine(c, 400),
        last_phandle(c.props@) is None,
{
    lemma_prop_names();
    lemma_values();
    lemma_bases();
    assert(props_fine(c.props@, 400));
}

proof fn lemma_gic(c: FdtNode, gicd_size: u64, gicr_size: u64)
    requires
        c.name@ == unit_name("interrupt-controller"@, GICD_START) && c.props@.len() == 5
            && c.children@.len() == 0,
        is_str(c.props@[0], "compatible"@, "arm,gic-v3"@),
        is_null(c.props@[1], "interrupt-controller"@),
        is_u32(c.props@[2], "#interrupt-cells"@, 3),
        is_cells64(c.props@[3], "reg"@, seq![GICD_START, gicd_size, GICR_START, gicr_size]),
        is_phandle(c.props@[4], GIC_PHANDLE),
    ensures
        leaf_fine(c, 400),
        last_phandle(c.props@) == Some(GIC_PHANDLE),
{
    lemma_prop_names();
    lemma_values();
    lemma_bases();
    lemma_unit_name_ok("interrupt-controller"@, GICD_START);
    assert(props_fine(c.props@, 400));
}

proof fn lemma_timer(c: FdtNode)
    requires
        c.name@ == "timer"@ && c.props@.len() == 2 && c.children@.len() == 0,
        is_str(c.props@[0], "compatible"@, "arm,armv8-timer"@),
        is_cells32(
            c.props@[1],
            "interrupts"@,
            seq![1u32, 13u32, 0xf08u32, 1u32, 14u32, 0xf08u32, 1u32, 11u32, 0xf08u32, 1u32, 10u32, 0xf08u32],
        ),
    ensures
        leaf_fine(c, 400),
        last_phandle(c.props@) is None,
{
    lemma_prop_names();
    lemma_values();
    lemma_bases();
    assert(props_fine(c.props@, 400));
}

proof fn lemma_memory(c: FdtNode, memory_size: u64)
    requires
        c.name@ == unit_name("memory"@, RAM_START) && c.props@.len() == 2 && c.children@.len() == 0,
        is_str(c.props@[0], "device_type"@, "memory"@),
        is_cells64(c.props@[1], "reg"@, seq![RAM_START, memory_size]),
    ensures
        leaf_fine(c, 400),
        last_phandle(c.props@) is None,
{
    lemma_prop_names();
    lemma_values();
    lemma_bases();
    lemma_unit_name_ok("memory"@, RAM_START);
    assert(props_fine(c.props@, 400));
}

proof fn lemma_clock(c: FdtNode)
    requires
        c.name@ == "clk24m"@ && c.props@.len() == 4 && c.children@.len() == 0,
        is_str(c.props@[0], "compatible"@, "fixed-clock"@),
        is_u32(c.props@[1], "#clock-cells"@, 0),
        is_u32(c.props@[2], "clock-frequency"@, 24_000_000),
        is_phandle(c.props@[3], CLOCK_PHANDLE),
    ensures
        leaf_fine(c, 400),
        last_phandle(c.props@) == Some(CLOCK_PHANDLE),
{
    lemma_prop_names();
    lemma_values();
    lemma_bases();
    assert(props_fine(c.props@, 400));
}

proof fn lemma_serial(c: FdtNode)
    requires
        c.name@ == unit_name("serial"@, UART_START) && c.props@.len() == 7 && c.children@.len() == 0,
        is_str_list(c.props@[0], "compatible"@, seq!["arm,pl011"@, "arm,primecell"@]),
        is_u32(c.props@[1], "arm,primecell-periphid"@, 0x0034_1011),
        is_cells64(c.props@[2], "reg"@, seq![UART_START, UART_SIZE]),
        is_cells32(c.props@[3], "interrupts"@, seq![0u32, UART_SPI_OFFSET, 4u32]),
        is_cells32(c.props@[4], "clocks"@, seq![CLOCK_PHANDLE, CLOCK_PHANDLE]),
        is_str_list(c.props@[5], "clock-names"@, seq!["uartclk"@, "apb_pclk"@]),
        is_str(c.props@[6], "status"@, "okay"@),
    ensures
        leaf_fine(c, 400),
        last_phandle(c.props@) is None,
{
    lemma_prop_names();
    lemma_values();
    lemma_bases();
    lemma_unit_name_ok("serial"@, UART_START);
    reveal_with_fuel(strs_cost, 3);
    let l0 = seq!["arm,pl011"@, "arm,primecell"@];
    let l1 = seq!["uartclk"@, "apb_pclk"@];
    assert(l0.drop_last() =~= seq!["arm,pl011"@]);
    assert(l1.drop_last() =~= seq!["uartclk"@]);
    assert(seq!["arm,pl011"@].drop_last() =~= Seq::<Seq<char>>::empty());
    assert(seq!["uartclk"@].drop_last() =~= Seq::<Seq<char>>::empty());
    assert(props_fine(c.props@, 400));
}

/// vm-fdt takes every call of the machine's tree after the boot CPU, the
/// tree closes every node it opens, and the blob fits in 32 bits, where the
/// command line has no NUL and the command line and the CPUs are within
/// their limits.
#[verifier::rlimit(60)]
pub proof fn lemma_machine_tree_fits(
    t: FdtNode,
    memory_size: u64,
    vcpus: int,
    args: Seq<char>,
    initrd: Option<(u64, u64)>,
    gicd_size: u64,
    gicr_size: u64,
)
    requires
        is_machine_tree(t, memory_size, vcpus, args, initrd, gicd_size, gicr_size),
        0 <= vcpus <= MAX_FDT_CPUS,
        args.len() <= MAX_ARGS_CHARS,
        no_nul(args),
    ensures
        calls_ok(seq![FdtCall::BootCpu(0)], node_calls(t)),
        open_depth(seq![FdtCall::BootCpu(0)] + node_calls(t)) == 0,
        FDT_START_BYTES + calls_cost(seq![FdtCall::BootCpu(0)] + node_calls(t)) + 4 <= u32::MAX,
{
    lemma_machine_children(t, memory_size, vcpus, args, initrd, gicd_size, gicr_size);
    let c = t.children@;
    let q0 = seq![FdtCall::BootCpu(0)];
    let b = FdtCall::Begin(t.name@);
    let e = FdtCall::End;
    let p = props_calls(t.props@);
    lemma_single(FdtCall::BootCpu(0));
    lemma_single(b);
    lemma_single(e);
    let q1 = q0.push(b);
    assert(q0 + seq![b] =~= q1);
    lemma_depth_append(q0, seq![b]);
    assert(q1.drop_last() =~= q0);
    assert(q1.last() == b);
    assert forall|x: u32| !used_phandle(q1, x) by {
        lemma_used_append(q0, seq![b], x);
    }
    lemma_props_ok(q1, t.props@, 400);
    let s0 = q1 + p;
    assert forall|x: u32| !used_phandle(s0, x) by {
        lemma_used_append(q1, p, x);
    }
    let bc: nat = 400 + 4 * args.len();
    let n0 = node_calls(c[0]);
    lemma_leaf_ok(s0, c[0], 400);
    let s1 = s0 + n0;
    let n1 = node_calls(c[1]);
    lemma_leaf_ok(s1, c[1], bc);
    let s2 = s1 + n1;
    let n2 = node_calls(c[2]);
    lemma_leaf_ok(s2, c[2], 400);
    let s3 = s2 + n2;
    let n3 = node_calls(c[3]);
    lemma_cpus_ok(s3, c[3], vcpus);
    let s4 = s3 + n3;
    assert forall|x: u32| !used_phandle(s4, x) by {
        lemma_used_append(s0, n0, x);
        lemma_used_append(s1, n1, x);
        lemma_used_append(s2, n2, x);
        lemma_used_append(s3, n3, x);
    }
    let n4 = node_calls(c[4]);
    lemma_leaf_ok(s4, c[4], 400);
    let s5 = s4 + n4;
    let n5 = node_calls(c[5]);
    lemma_leaf_ok(s5, c[5], 400);
    let s6 = s5 + n5;
    let n6 = node_calls(c[6]);
    lemma_leaf_ok(s6, c[6], 400);
    let s7 = s6 + n6;
    assert(!used_phandle(s7, CLOCK_PHANDLE)) by {
        lemma_used_append(s4, n4, CLOCK_PHANDLE);
        lemma_used_append(s5, n5, CLOCK_PHANDLE);
        lemma_used_append(s6, n6, CLOCK_PHANDLE);
    }
    let n7 = node_calls(c[7]);
    lemma_leaf_ok(s7, c[7], 400);
    let s8 = s7 + n7;
    let n8 = node_calls(c[8]);
    lemma_leaf_ok(s8, c[8], 400);
    let s9 = s8 + n8;
    lemma_leaf_children(s9, t, 9, 400);
    lemma_child_then_rest(s8, t, 8);
    assert(s8 + n8 == s9);
    lemma_child_then_rest(s7, t, 7);
    lemma_child_then_rest(s6, t, 6);
    lemma_child_then_rest(s5, t, 5);
    lemma_child_then_rest(s4, t, 4);
    lemma_child_then_rest(s3, t, 3);
    lemma_child_then_rest(s2, t, 2);
    lemma_child_then_rest(s1, t, 1);
    lemma_child_then_rest(s0, t, 0);
    let cc = children_calls(t, 0);
    // the root: begin, properties, children, end
    let s_end = s0 + cc;
    lemma_depth_append(s0, cc);
    assert(cc =~= n0 + (n1 + (n2 + (n3 + (n4 + (n5 + (n6 + (n7 + (n8 + children_calls(t, 9))))))))));
    assert(open_depth(s_end) == open_depth(s0)) by {
        lemma_depth_append(n0, n1 + (n2 + (n3 + (n4 + (n5 + (n6 + (n7 + (n8 + children_calls(t, 9)))))))));
        lemma_node_balanced(c[0]);
        lemma_children_balanced(t, 0);
    }
    assert(seq![e][0] == e);
    assert(seq![e].drop_first() =~= Seq::<FdtCall>::empty());
    assert(calls_ok(s_end.push(e), Seq::<FdtCall>::empty()));
    assert(calls_ok(s_end, seq![e]));
    lemma_calls_ok_append(s0, cc, seq![e]);
    lemma_calls_ok_append(q1, p, cc + seq![e]);
    let nc = node_calls(t);
    assert(nc =~= seq![b] + (p + (cc + seq![e])));
    assert(nc[0] == b);
    assert(nc.drop_first() =~= p + (cc + seq![e]));
    assert(s0 == q1 + p);
    assert((q1 + p) + (cc + seq![e]) =~= q1 + (p + (cc + seq![e])));
    lemma_node_balanced(t);
    lemma_depth_append(q0, nc);
    // the size
    lemma_cost_append(q0, nc);
    lemma_cost_append(seq![b], p + (cc + seq![e]));
    lemma_cost_append(p, cc + seq![e]);
    lemma_cost_append(cc, seq![e]);
    lemma_cost_append(n0, n1 + (n2 + (n3 + (n4 + (n5 + (n6 + (n7 + (n8 + children_calls(t, 9)))))))));
    lemma_cost_append(n1, n2 + (n3 + (n4 + (n5 + (n6 + (n7 + (n8 + children_calls(t, 9))))))));
    lemma_cost_append(n2, n3 + (n4 + (n5 + (n6 + (n7 + (n8 + children_calls(t, 9)))))));
    lemma_cost_append(n3, n4 + (n5 + (n6 + (n7 + (n8 + children_calls(t, 9))))));
    lemma_cost_append(n4, n5 + (n6 + (n7 + (n8 + children_calls(t, 9)))));
    lemma_cost_append(n5, n6 + (n7 + (n8 + children_calls(t, 9))));
    lemma_cost_append(n6, n7 + (n8 + children_calls(t, 9)));
    lemma_cost_append(n7, n8 + children_calls(t, 9));
    lemma_cost_append(n8, children_calls(t, 9));
    assert(bc * c[1].props@.len() <= 4 * bc) by (nonlinear_arith)
        requires
            c[1].props@.len() <= 4,
    ;
    assert(400 * c[0].props@.len() <= 3200) by (nonlinear_arith)
        requires
            c[0].props@.len() <= 8,
    ;
    assert(400 * c[2].props@.len() <= 3200) by (nonlinear_arith)
        requires
            c[2].props@.len() <= 8,
    ;
    assert(400 * c[4].props@.len() <= 3200) by (nonlinear_arith)
        requires
            c[4].props@.len() <= 8,
    ;
    assert(400 * c[5].props@.len() <= 3200) by (nonlinear_arith)
        requires
            c[5].props@.len() <= 8,
    ;
    assert(400 * c[6].props@.len() <= 3200) by (nonlinear_arith)
        requires
            c[6].props@.len() <= 8,
    ;
    assert(400 * c[7].props@.len() <= 3200) by (nonlinear_arith)
        requires
            c[7].props@.len() <= 8,
    ;
    assert(400 * c[8].props@.len() <= 3200) by (nonlinear_arith)
        requires
            c[8].props@.len() <= 8,
    ;
    assert((vcpus + 1) * 3428 <= 0x1_0001 * 3428) by (nonlinear_arith)
        requires
            0 <= vcpus <= 0x1_0000,
    ;
}

/// One child of a node, then the rest: vm-fdt takes them where it takes
/// the child after `q` and the rest after the child.
proof fn lemma_child_then_rest(q: Seq<FdtCall>, t: FdtNode, j: nat)
    requires
        j < t.children@.len(),
        calls_ok(q, node_calls(t.children@[j as int])),
        calls_ok(q + node_calls(t.children@[j as int]), children_calls(t, j + 1)),
    ensures
        calls_ok(q, children_calls(t, j)),
        children_calls(t, j) == node_calls(t.children@[j as int]) + children_calls(t, j + 1),
{
    assert(children_calls(t, j) == node_calls(t.children@[j as int]) + children_calls(t, j + 1));
    lemma_calls_ok_append(q, node_calls(t.children@[j as int]), children_calls(t, j + 1));
}

fn emit_prop(w: &mut vm_fdt::FdtWriter, p: &FdtProp) -> (r: Result<(), vm_fdt::Error>)
    ensures
        r is Ok ==> fdt_calls(*final(w)) == fdt_calls(*old(w)).push(prop_call(*p)),
        call_ok(fdt_calls(*old(w)), prop_call(*p)) && FDT_START_BYTES + calls_cost(
            fdt_calls(*old(w)).push(prop_call(*p)),
        ) <= u32::MAX ==> r is Ok,
{
    match &p.value {
        PropValue::Null => fdt_property_null(w, &p.name),
        PropValue::Str(s) => fdt_property_string(w, &p.name, s),
        PropValue::StrList(l) => fdt_property_string_list(w, &p.name, l),
        PropValue::U32(v) => fdt_property_u32(w, &p.name, *v),
        PropValue::U64(v) => fdt_property_u64(w, &p.name, *v),
        PropValue::CellsU32(c) => fdt_property_array_u32(w, &p.name, c),
        PropValue::CellsU64(c) => fdt_property_array_u64(w, &p.name, c),
        PropValue::Phandle(v) => fdt_property_phandle(w, *v),
    }
}

/// Writes `n`, its properties and then its children, in order; vm-fdt
/// takes them all where it takes each call in turn and the blob fits.
fn emit_node(w: &mut vm_fdt::FdtWriter, n: &FdtNode) -> (r: Result<(), vm_fdt::Error>)
    ensures
        r is Ok ==> fdt_calls(*final(w)) == fdt_calls(*old(w)) + node_calls(*n),
        calls_ok(fdt_calls(*old(w)), node_calls(*n)) && FDT_START_BYTES + calls_cost(
            fdt_calls(*old(w)) + node_calls(*n),
        ) <= u32::MAX ==> r is Ok,
    decreases n,
{
    let ghost start = fdt_calls(*w);
    let ghost all = start + node_calls(*n);
    let ghost cond = calls_ok(start, node_calls(*n)) && FDT_START_BYTES + calls_cost(all) <= u32::MAX;
    let ghost tail = children_calls(*n, 0) + seq![FdtCall::End];
    proof {
        assert(node_calls(*n)[0] == FdtCall::Begin(n.name@));
        assert(node_calls(*n).drop_first() =~= props_calls(n.props@) + tail);
    }
    let node = fdt_begin_node(w, &n.name)?;
    let ghost opened = fdt_calls(*w);
    proof {
        assert(n.props@.skip(0) =~= n.props@);
        assert(n.props@.take(0) =~= Seq::<FdtProp>::empty());
        assert(opened + (props_calls(n.props@) + tail) =~= all);
    }
    let mut i: usize = 0;
    while i < n.props.len()
        invariant
            i <= n.props@.len(),
            opened == start.push(FdtCall::Begin(n.name@)),
            fdt_calls(*w) == opened + props_calls(n.props@.take(i as int)),
            fdt_calls(*w) + (props_calls(n.props@.skip(i as int)) + tail) == all,
            all == start + node_calls(*n),
            start == fdt_calls(*old(w)),
            tail == children_calls(*n, 0) + seq![FdtCall::End],
            cond == (calls_ok(start, node_calls(*n)) && FDT_START_BYTES + calls_cost(all) <= u32::MAX),
            cond ==> calls_ok(fdt_calls(*w), props_calls(n.props@.skip(i as int)) + tail),
            node_level(node) == open_depth(start) + 1,
        decreases n.props@.len() - i,
    {
        let ghost cur = fdt_calls(*w);
        let ghost pc = prop_call(n.props@[i as int]);
        let ghost rest = props_calls(n.props@.skip(i + 1)) + tail;
        proof {
            assert(props_calls(n.props@.skip(i as int)) + tail =~= seq![pc] + rest);
            assert((seq![pc] + rest)[0] == pc);
            assert((seq![pc] + rest).drop_first() =~= rest);
            assert(cur + (seq![pc] + rest) =~= cur.push(pc) + rest);
            lemma_cost_append(cur.push(pc), rest);
            if cond {
                assert(calls_ok(cur, seq![pc] + rest));
                assert(call_ok(cur, pc));
                assert(calls_cost(cur.push(pc)) <= calls_cost(all));
            }
        }
        emit_prop(w, &n.props[i])?;
        proof {
            assert(props_calls(n.props@.take(i + 1)) =~= props_calls(n.props@.take(i as int)).push(
                prop_call(n.props@[i as int]),
            ));
        }
        i = i + 1;
    }
    proof {
        assert(n.props@.take(i as int) =~= n.props@);
        assert(n.props@.skip(i as int) =~= Seq::<FdtProp>::empty());
        assert(props_calls(n.props@.skip(i as int)) + tail =~= tail);
    }
    let ghost with_props = fdt_calls(*w);
    let mut k: usize = 0;
    while k < n.children.len()
        invariant
            k <= n.children@.len(),
            with_props == opened + props_calls(n.props@),
            opened == start.push(FdtCall::Begin(n.name@)),
            fdt_calls(*w) + children_calls(*n, k as nat) == with_props + children_calls(*n, 0),
            fdt_calls(*w) + (children_calls(*n, k as nat) + seq![FdtCall::End]) == all,
            all == start + node_calls(*n),
            start == fdt_calls(*old(w)),
            cond == (calls_ok(start, node_calls(*n)) && FDT_START_BYTES + calls_cost(all) <= u32::MAX),
            cond ==> calls_ok(fdt_calls(*w), children_calls(*n, k as nat) + seq![FdtCall::End]),
            node_level(node) == open_depth(start) + 1,
        decreases n.children@.len() - k,
    {
        proof {
            assert(decreases_to!(n => n.children));
            vstd::std_specs::vec::axiom_vec_index_decreases(n.children, k as int);
        }
        let ghost before = fdt_calls(*w);
        let ghost c = node_calls(n.children@[k as int]);
        let ghost rest = children_calls(*n, (k + 1) as nat) + seq![FdtCall::End];
        proof {
            assert(children_calls(*n, k as nat) == c + children_calls(*n, (k + 1) as nat));
            assert(children_calls(*n, k as nat) + seq![FdtCall::End] =~= c + rest);
            lemma_calls_ok_append(before, c, rest);
            assert(before + (c + rest) =~= (before + c) + rest);
            lemma_cost_append(before + c, rest);
            if cond {
                assert(calls_ok(before, c));
                assert(calls_cost(before + c) <= calls_cost(all));
            }
        }
        emit_node(w, &n.children[k])?;
        proof {
            let rest0 = children_calls(*n, (k + 1) as nat);
            assert(fdt_calls(*w) + rest0 =~= before + (c + rest0));
        }
        k = k + 1;
    }
    let ghost closed_before = fdt_calls(*w);
    proof {
        assert(children_calls(*n, k as nat) =~= Seq::<FdtCall>::empty());
        assert(closed_before.push(FdtCall::End) =~= all);
        lemma_node_balanced(*n);
        lemma_depth_append(start, node_calls(*n));
        assert(all.drop_last() =~= closed_before);
    }
    let r = fdt_end_node(w, node);
    proof {
        if r is Ok {
            assert(closed_before =~= with_props + children_calls(*n, 0));
            assert(fdt_calls(*w) =~= start + node_calls(*n));
        }
    }
    r
}

/// Writes the device tree of `machine_tree` with vm-fdt, boot CPU 0: the
/// blob is what vm-fdt makes of that tree's calls.
pub fn build_fdt(
    memory_size: u64,
    vcpus: usize,
    kernel_args: &str,
    initrd: Option<(u64, u64)>,
    gicd_size: u64,
    gicr_size: u64,
) -> (r: Result<Vec<u8>, FdtError>)
    ensures
        r matches Ok(b) ==> exists|t: FdtNode|
            #[trigger] is_machine_tree(t, memory_size, vcpus as int, kernel_args@, initrd, gicd_size, gicr_size)
                && b@ == fdt_blob(seq![FdtCall::BootCpu(0)] + node_calls(t)),
        no_nul(kernel_args@) && kernel_args@.len() <= MAX_ARGS_CHARS && vcpus <= MAX_FDT_CPUS ==> r is Ok,
{
    let tree = machine_tree(memory_size, vcpus, kernel_args, initrd, gicd_size, gicr_size);
    proof {
        if no_nul(kernel_args@) && kernel_args@.len() <= MAX_ARGS_CHARS && vcpus <= MAX_FDT_CPUS {
            lemma_machine_tree_fits(tree, memory_size, vcpus as int, kernel_args@, initrd, gicd_size, gicr_size);
        }
    }
    let mut w = match fdt_new() {
        Ok(w) => w,
        Err(e) => return Err(FdtError::Writer(e)),
    };
    fdt_set_boot_cpuid_phys(&mut w, 0);
    match emit_node(&mut w, &tree) {
        Ok(()) => {},
        Err(e) => return Err(FdtError::Writer(e)),
    }
    proof {
        assert(fdt_calls(w) =~= seq![FdtCall::BootCpu(0)] + node_calls(tree));
    }
    match fdt_finish(w) {
        Ok(b) => Ok(b),
        Err(e) => Err(FdtError::Writer(e)),
    }
}

} // verus!
