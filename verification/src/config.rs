//! The VM configuration: the checks on what the configuration file says, and
//! the paths it names, resolved against the file's directory.
//!
//! Paths are sequences of characters; a path that starts with `/` is absolute.
use vstd::prelude::*;

verus! {

pub const DEFAULT_MEMORY_MIB: u64 = 16384;

pub const DEFAULT_VCPUS: usize = 12;

pub const MIB: u64 = 0x10_0000;

pub const GIB: u64 = 0x4000_0000;

/// What the configuration file holds, fields left out already given their
/// defaults.
#[derive(Debug)]
pub struct VmConfigFile {
    pub format_version: u32,
    pub memory_mib: u64,
    pub vcpus: usize,
    pub disk: Vec<char>,
    pub disk_size_gib: u64,
    pub base_image: Option<Vec<char>>,
    pub kernel: Option<Vec<char>>,
    pub initrd: Option<Vec<char>>,
    pub kernel_args: Option<Vec<String>>,
}

/// The configuration that the VM runs with.
#[derive(Debug)]
pub struct VmConfig {
    pub memory_size: usize,
    pub vcpus: usize,
    pub disk: Vec<char>,
    pub disk_size: u64,
    pub base_image: Vec<char>,
    pub kernel: Vec<char>,
    pub initrd: Option<Vec<char>>,
    pub kernel_args: String,
}

/// Why a configuration is refused.
#[derive(Debug, Clone, Copy, PartialEq, Eq)]
pub enum ConfigError {
    /// The format version is not 1.
    UnsupportedVersion(u32),
    /// No vCPU was asked for.
    NoVcpus,
    /// Less than 256 MiB of memory was asked for.
    TooLittleMemory,
    /// A disk of size zero was asked for.
    NoDiskSize,
    /// An initrd was given without a kernel of its own.
    InitrdWithoutKernel,
    /// The memory size does not fit in 64 bits, or in this host's `usize`.
    MemoryTooLarge,
    /// The disk size does not fit in 64 bits.
    DiskTooLarge,
}

/// The memory size when the file names none.
pub fn default_memory_mib() -> (r: u64)
    ensures
        r == DEFAULT_MEMORY_MIB,
{
    DEFAULT_MEMORY_MIB
}

/// The vCPU count when the file names none.
pub fn default_vcpus() -> (r: usize)
    ensures
        r == DEFAULT_VCPUS,
{
    DEFAULT_VCPUS
}

/// `value` units of `unit` bytes, if that fits in a `usize`.
pub fn bytes_from_units(value: u64, unit: u64) -> (r: Option<usize>)
    ensures
        match r {
            Some(b) => b == value * unit,
            None => value * unit > u64::MAX || value * unit > usize::MAX,
        },
{
    match value.checked_mul(unit) {
        None => None,
        Some(b) => {
            if b > usize::MAX as u64 {
                None
            } else {
                Some(b as usize)
            }
        },
    }
}

/// `p` starts at the root.
pub open spec fn is_absolute(p: Seq<char>) -> bool {
    p.len() > 0 && p[0] == '/'
}

/// `p` taken from the directory `base`: `p` itself where it is absolute.
pub open spec fn resolve_spec(base: Seq<char>, p: Seq<char>) -> Seq<char> {
    if is_absolute(p) {
        p
    } else if base.len() == 0 || base.last() == '/' {
        base + p
    } else {
        base + seq!['/'] + p
    }
}

fn copy_chars(s: &[char]) -> (r: Vec<char>)
    ensures
        r@ == s@,
{
    let mut r: Vec<char> = Vec::new();
    let mut i: usize = 0;
    while i < s.len()
        invariant
            i <= s@.len(),
            r@ == s@.subrange(0, i as int),
        decreases s@.len() - i,
    {
        r.push(s[i]);
        i = i + 1;
        proof {
            assert(r@ =~= s@.subrange(0, i as int));
        }
    }
    proof {
        assert(s@.subrange(0, i as int) =~= s@);
    }
    r
}

fn push_chars(dst: &mut Vec<char>, s: &[char])
    ensures
        final(dst)@ == old(dst)@ + s@,
{
    let mut i: usize = 0;
    while i < s.len()
        invariant
            i <= s@.len(),
            dst@ == old(dst)@ + s@.subrange(0, i as int),
        decreases s@.len() - i,
    {
        dst.push(s[i]);
        i = i + 1;
        proof {
            assert(dst@ =~= old(dst)@ + s@.subrange(0, i as int));
        }
    }
    proof {
        assert(s@.subrange(0, i as int) =~= s@);
    }
}

/// Joins `p` to `base`, as a path.
pub fn resolve_path(base: &[char], p: &[char]) -> (r: Vec<char>)
    ensures
        r@ == resolve_spec(base@, p@),
{
    if p.len() > 0 && p[0] == '/' {
        return copy_chars(p);
    }
    let mut r = copy_chars(base);
    if base.len() > 0 && base[base.len() - 1] != '/' {
        r.push('/');
    }
    push_chars(&mut r, p);
    r
}

/// A resource: `bundled_name` inside the application's resources where it
/// runs from a bundle, else `development_path`.
pub open spec fn resource_spec(resources: Option<Seq<char>>, bundled_name: Seq<char>, development_path: Seq<char>) -> Seq<char> {
    match resources {
        Some(dir) => resolve_spec(dir, bundled_name),
        None => development_path,
    }
}

pub fn resource_path(resources: Option<&[char]>, bundled_name: &[char], development_path: &[char]) -> (r: Vec<char>)
    ensures
        r@ == resource_spec(
            match resources {
                Some(d) => Some(d@),
                None => None,
            },
            bundled_name@,
            development_path@,
        ),
{
    match resources {
        Some(dir) => resolve_path(dir, bundled_name),
        None => copy_chars(development_path),
    }
}

/// `args` with a space between each two.
pub open spec fn joined(args: Seq<Seq<char>>) -> Seq<char>
    decreases args.len(),
{
    if args.len() == 0 {
        Seq::empty()
    } else if args.len() == 1 {
        args[0]
    } else {
        joined(args.drop_last()) + seq![' '] + args.last()
    }
}

/// The kernel command line when the file names none.
pub open spec fn default_kernel_args() -> Seq<char> {
    "console=ttyAMA0 earlycon=pl011,mmio32,0x09000000 root=LABEL=varmint-root rw"@
}

fn join_args(args: &Vec<String>) -> (r: String)
    ensures
        r@ == joined(args@.map_values(|a: String| a@)),
{
    let ghost views = args@.map_values(|a: String| a@);
    let mut r = String::new();
    let mut i: usize = 0;
    while i < args.len()
        invariant
            i <= args@.len(),
            views == args@.map_values(|a: String| a@),
            r@ == joined(views.subrange(0, i as int)),
        decreases args@.len() - i,
    {
        let ghost pre = views.subrange(0, i as int);
        let ghost next = views.subrange(0, i + 1);
        proof {
            assert(next.drop_last() =~= pre);
            assert(next.last() == args@[i as int]@);
            reveal_strlit(" ");
        }
        if i > 0 {
            r.append(" ");
        }
        r.append(args[i].as_str());
        proof {
            if i == 0 {
                assert(pre =~= Seq::<Seq<char>>::empty());
                assert(r@ =~= next[0]);
            } else {
                assert(r@ =~= joined(pre) + seq![' '] + next.last());
            }
        }
        i = i + 1;
    }
    proof {
        assert(views.subrange(0, i as int) =~= views);
    }
    r
}

/// The first check that `file` fails, if any.
pub open spec fn check_spec(file: VmConfigFile) -> Option<ConfigError> {
    if file.format_version != 1 {
        Some(ConfigError::UnsupportedVersion(file.format_version))
    } else if file.vcpus == 0 {
        Some(ConfigError::NoVcpus)
    } else if file.memory_mib < 256 {
        Some(ConfigError::TooLittleMemory)
    } else if file.disk_size_gib == 0 {
        Some(ConfigError::NoDiskSize)
    } else if file.kernel is None && file.initrd is Some {
        Some(ConfigError::InitrdWithoutKernel)
    } else if file.memory_mib * MIB > u64::MAX || file.memory_mib * MIB > usize::MAX {
        Some(ConfigError::MemoryTooLarge)
    } else if file.disk_size_gib * GIB > u64::MAX {
        Some(ConfigError::DiskTooLarge)
    } else {
        None
    }
}

pub open spec fn opt_view(o: Option<Vec<char>>) -> Option<Seq<char>> {
    match o {
        Some(v) => Some(v@),
        None => None,
    }
}

/// "runtime/base.raw.zst".
pub open spec fn bundled_base_image() -> Seq<char> {
    "runtime/base.raw.zst"@
}

/// "build/guest/varmint-debian.raw.zst".
pub open spec fn dev_base_image() -> Seq<char> {
    "build/guest/varmint-debian.raw.zst"@
}

/// "kernel/Image".
pub open spec fn bundled_kernel() -> Seq<char> {
    "kernel/Image"@
}

/// "build/guest/Image".
pub open spec fn dev_kernel() -> Seq<char> {
    "build/guest/Image"@
}

/// "kernel/initrd".
pub open spec fn bundled_initrd() -> Seq<char> {
    "kernel/initrd"@
}

/// "build/guest/initrd".
pub open spec fn dev_initrd() -> Seq<char> {
    "build/guest/initrd"@
}

fn chars_of(s: &str) -> (r: Vec<char>)
    requires
        s.is_ascii(),
    ensures
        r@ == s@,
{
    let mut r: Vec<char> = Vec::new();
    let n = s.unicode_len();
    let mut i: usize = 0;
    while i < n
        invariant
            n == s@.len(),
            i <= n,
            s.is_ascii(),
            r@ == s@.subrange(0, i as int),
        decreases n - i,
    {
        r.push(s.get_char(i));
        i = i + 1;
        proof {
            assert(r@ =~= s@.subrange(0, i as int));
        }
    }
    proof {
        assert(s@.subrange(0, i as int) =~= s@);
    }
    r
}

impl VmConfig {
    /// The first check that `file` fails, if any: a configuration that fails
    /// one is not loaded.
    pub fn check(file: &VmConfigFile) -> (r: Option<ConfigError>)
        ensures
            r == check_spec(*file),
    {
        if file.format_version != 1 {
            return Some(ConfigError::UnsupportedVersion(file.format_version));
        }
        if file.vcpus == 0 {
            return Some(ConfigError::NoVcpus);
        }
        if file.memory_mib < 256 {
            return Some(ConfigError::TooLittleMemory);
        }
        if file.disk_size_gib == 0 {
            return Some(ConfigError::NoDiskSize);
        }
        if file.kernel.is_none() && file.initrd.is_some() {
            return Some(ConfigError::InitrdWithoutKernel);
        }
        if bytes_from_units(file.memory_mib, MIB).is_none() {
            return Some(ConfigError::MemoryTooLarge);
        }
        if file.disk_size_gib.checked_mul(GIB).is_none() {
            return Some(ConfigError::DiskTooLarge);
        }
        None
    }

    /// Resolves the paths of `file`, a configuration that passes `check`,
    /// against `base`, the directory of the configuration file; files that
    /// are not named come from `resources`, the application's resources, or
    /// from the development tree where it does not run from a bundle.
    pub fn load(file: &VmConfigFile, base: &[char], resources: Option<&[char]>) -> (c: VmConfig)
        requires
            check_spec(*file) is None,
        ensures
            ({
                let res = match resources {
                    Some(d) => Some(d@),
                    None => None,
                };
                &&& c.memory_size == file.memory_mib * MIB
                &&& c.vcpus == file.vcpus
                &&& c.disk@ == resolve_spec(base@, file.disk@)
                &&& c.disk_size == file.disk_size_gib * GIB
                &&& c.base_image@ == match file.base_image {
                    Some(p) => resolve_spec(base@, p@),
                    None => resource_spec(res, bundled_base_image(), dev_base_image()),
                }
                &&& c.kernel@ == match file.kernel {
                    Some(p) => resolve_spec(base@, p@),
                    None => resource_spec(res, bundled_kernel(), dev_kernel()),
                }
                &&& opt_view(c.initrd) == match file.kernel {
                    Some(_) => match file.initrd {
                        Some(p) => Some(resolve_spec(base@, p@)),
                        None => None,
                    },
                    None => Some(resource_spec(res, bundled_initrd(), dev_initrd())),
                }
                &&& c.kernel_args@ == match file.kernel_args {
                    Some(args) => joined(args@.map_values(|a: String| a@)),
                    None => default_kernel_args(),
                }
            }),
    {
        let memory_size = (file.memory_mib * MIB) as usize;
        let disk_size = file.disk_size_gib * GIB;
        let disk = resolve_path(base, file.disk.as_slice());
        proof {
            reveal_strlit("runtime/base.raw.zst");
            reveal_strlit("build/guest/varmint-debian.raw.zst");
            reveal_strlit("kernel/Image");
            reveal_strlit("build/guest/Image");
            reveal_strlit("kernel/initrd");
            reveal_strlit("build/guest/initrd");
        }
        let base_image = match &file.base_image {
            Some(p) => resolve_path(base, p.as_slice()),
            None => {
                let b = chars_of("runtime/base.raw.zst");
                let d = chars_of("build/guest/varmint-debian.raw.zst");
                resource_path(resources, b.as_slice(), d.as_slice())
            },
        };
        let (kernel, initrd) = match &file.kernel {
            Some(k) => {
                let kernel = resolve_path(base, k.as_slice());
                let initrd = match &file.initrd {
                    Some(i) => Some(resolve_path(base, i.as_slice())),
                    None => None,
                };
                (kernel, initrd)
            },
            None => {
                let kb = chars_of("kernel/Image");
                let kd = chars_of("build/guest/Image");
                let ib = chars_of("kernel/initrd");
                let id = chars_of("build/guest/initrd");
                (
                    resource_path(resources, kb.as_slice(), kd.as_slice()),
                    Some(resource_path(resources, ib.as_slice(), id.as_slice())),
                )
            },
        };
        let kernel_args = match &file.kernel_args {
            Some(args) => join_args(args),
            None => {
                proof {
                    reveal_strlit(
                        "console=ttyAMA0 earlycon=pl011,mmio32,0x09000000 root=LABEL=varmint-root rw",
                    );
                }
                String::from_str(
                    "console=ttyAMA0 earlycon=pl011,mmio32,0x09000000 root=LABEL=varmint-root rw",
                )
            },
        };
        VmConfig { memory_size, vcpus: file.vcpus, disk, disk_size, base_image, kernel, initrd, kernel_args }
    }
}

} // verus!
