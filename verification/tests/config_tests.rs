use varmint::config::{bytes_from_units, default_memory_mib, default_vcpus, resolve_path, resource_path, ConfigError, VmConfig, VmConfigFile};
use varmint::runtime::{argument_path, default_disk_path, PathsError, RuntimeEnv, RuntimePaths};

fn chars(s: &str) -> Vec<char> {
    s.chars().collect()
}

fn file() -> VmConfigFile {
    VmConfigFile {
        format_version: 1,
        memory_mib: default_memory_mib(),
        vcpus: default_vcpus(),
        disk: chars("fresh.raw"),
        disk_size_gib: 24,
        base_image: None,
        kernel: None,
        initrd: None,
        kernel_args: None,
    }
}

#[test]
fn defaults_apply() {
    let base = chars("/Users/me");
    assert_eq!(VmConfig::check(&file()), None);
    let c = VmConfig::load(&file(), &base, None);
    assert_eq!(c.memory_size, 16384 * 1024 * 1024);
    assert_eq!(c.vcpus, 12);
    assert_eq!(c.disk, chars("/Users/me/fresh.raw"));
    assert_eq!(c.disk_size, 24 << 30);
    assert_eq!(c.kernel, chars("build/guest/Image"));
    assert_eq!(c.initrd, Some(chars("build/guest/initrd")));
    assert_eq!(c.base_image, chars("build/guest/varmint-debian.raw.zst"));
    assert_eq!(c.kernel_args, "console=ttyAMA0 earlycon=pl011,mmio32,0x09000000 root=LABEL=varmint-root rw");
}

#[test]
fn bundled_resources_and_custom_kernel() {
    let base = chars("/vm/");
    let res = chars("/App/Contents/Resources");
    let c = VmConfig::load(&file(), &base, Some(&res));
    assert_eq!(c.kernel, chars("/App/Contents/Resources/kernel/Image"));
    assert_eq!(c.disk, chars("/vm/fresh.raw"));
    let mut f = file();
    f.kernel = Some(chars("/k/Image"));
    f.initrd = Some(chars("initrd"));
    f.kernel_args = Some(vec!["a=1".to_string(), "b".to_string()]);
    let c = VmConfig::load(&f, &base, Some(&res));
    assert_eq!(c.kernel, chars("/k/Image"));
    assert_eq!(c.initrd, Some(chars("/vm/initrd")));
    assert_eq!(c.kernel_args, "a=1 b");
}

#[test]
fn bad_configurations_are_refused() {
    let base = chars("/vm");
    let mut f = file();
    f.format_version = 2;
    assert_eq!(VmConfig::check(&f), Some(ConfigError::UnsupportedVersion(2)));
    let mut f = file();
    f.vcpus = 0;
    assert_eq!(VmConfig::check(&f), Some(ConfigError::NoVcpus));
    let mut f = file();
    f.memory_mib = 255;
    assert_eq!(VmConfig::check(&f), Some(ConfigError::TooLittleMemory));
    let mut f = file();
    f.disk_size_gib = 0;
    assert_eq!(VmConfig::check(&f), Some(ConfigError::NoDiskSize));
    let mut f = file();
    f.initrd = Some(chars("x"));
    assert_eq!(VmConfig::check(&f), Some(ConfigError::InitrdWithoutKernel));
    let mut f = file();
    f.memory_mib = u64::MAX;
    assert_eq!(VmConfig::check(&f), Some(ConfigError::MemoryTooLarge));
    let mut f = file();
    f.disk_size_gib = u64::MAX;
    assert_eq!(VmConfig::check(&f), Some(ConfigError::DiskTooLarge));
}

#[test]
fn paths_and_units() {
    assert_eq!(resolve_path(&chars("/a"), &chars("b")), chars("/a/b"));
    assert_eq!(resolve_path(&chars("/a/"), &chars("b")), chars("/a/b"));
    assert_eq!(resolve_path(&chars(""), &chars("b")), chars("b"));
    assert_eq!(resolve_path(&chars("/a"), &chars("/b")), chars("/b"));
    assert_eq!(resource_path(None, &chars("x"), &chars("dev/x")), chars("dev/x"));
    assert_eq!(bytes_from_units(3, 1024), Some(3072));
    assert_eq!(bytes_from_units(u64::MAX, 2), None);
}

#[test]
fn runtime_paths_follow_environment_and_arguments() {
    let env = RuntimeEnv { kernel: Some(chars("/k")), initrd: None, dtb: None, disk: None };
    let args = vec![chars("--disk"), chars("/d.img")];
    assert_eq!(RuntimePaths::check(&env, &args, None), None);
    let p = RuntimePaths::resolve(&env, &args, None);
    assert_eq!(p.kernel, chars("/k"));
    assert_eq!(p.initrd, chars("artifacts/kernel/initrd"));
    assert_eq!(p.dtb, chars("artifacts/guest.dtb"));
    assert_eq!(p.disk, chars("/d.img"));
    let none: Vec<Vec<char>> = Vec::new();
    assert_eq!(RuntimePaths::check(&env, &none, Some(&chars("/R"))), Some(PathsError::NoDisk));
    assert_eq!(RuntimePaths::check(&env, &none, None), None);
    let p = RuntimePaths::resolve(&env, &none, None);
    assert_eq!(p.disk, chars("dev0.img"));
    let dangling = vec![chars("--disk")];
    assert_eq!(RuntimePaths::check(&env, &dangling, None), Some(PathsError::MissingDiskValue));
    let named = RuntimeEnv { kernel: None, initrd: None, dtb: None, disk: Some(chars("/e.img")) };
    assert_eq!(RuntimePaths::check(&named, &dangling, Some(&chars("/R"))), None);
    assert_eq!(RuntimePaths::resolve(&named, &dangling, Some(&chars("/R"))).disk, chars("/e.img"));
    assert_eq!(argument_path(&args, &chars("--x")), None);
    assert_eq!(argument_path(&args, &chars("--disk")), Some(chars("/d.img")));
    assert_eq!(default_disk_path(false), chars("dev0.img"));
}
