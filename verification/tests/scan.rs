use nixgen::error::{Error, Halt};
use nixgen::host::{DirRead, Fact, Facts, FileRead, Probe, Process, Resolved, RunResult, Stat};
use nixgen::scan::{
    compile_time_arch_fallback, cpu_has_feature, cpu_vendor, detect_virt, has_bcache_devices,
    has_lvm_device, host_platform, pci_check, push_unique, read_uname_machine, scan, scan_warnings,
    uname_machine_to_nix, usb_check, CpuVendor, HwScan, Virt,
};
use nixgen::warning::Warning;

fn facts() -> Facts {
    Facts::new(Process {
        arch: "x86_64".to_owned(),
        little_endian: true,
        is_root: false,
        elevated: false,
    })
}

/// Answers the probe as a machine does on which there is nothing.
fn answer(f: &mut Facts, p: Probe<String>) {
    f.record(match p {
        Probe::Stat(p) => Fact::Stat(p, None),
        Probe::ReadFile(p) => Fact::ReadFile(p, FileRead::Missing),
        Probe::ReadDir(p) => Fact::ReadDir(p, DirRead::Missing),
        Probe::Resolve(p) => Fact::Resolve(p, None),
        Probe::Absolute(p) => Fact::Absolute(p, None),
        Probe::Writable(p) => Fact::Writable(p, false),
        Probe::BtrfsSubvolShow(p) => Fact::BtrfsSubvolShow(p, RunResult::NotFound),
        Probe::BcachefsUsage(p) => Fact::BcachefsUsage(p, RunResult::NotFound),
        Probe::StratisPoolList => Fact::StratisPoolList(RunResult::NotFound),
        Probe::UnameMachine => Fact::UnameMachine(RunResult::NotFound),
        Probe::DetectVirt => Fact::DetectVirt(RunResult::NotFound),
        Probe::Hostname => Fact::Hostname(None),
    });
}

fn settle<V>(f: &mut Facts, run: impl Fn(&Facts) -> Result<V, Probe<String>>) -> V {
    loop {
        match run(f) {
            Ok(v) => return v,
            Err(p) => answer(f, p),
        }
    }
}

fn scanned(f: &mut Facts) -> Result<HwScan, Error<String>> {
    loop {
        match scan(f) {
            Ok(hw) => return Ok(hw),
            Err(Halt::Fail(e)) => return Err(e),
            Err(Halt::Need(p)) => answer(f, p),
        }
    }
}

fn file(f: &mut Facts, path: &str, text: &str) {
    f.files
        .insert(path.to_owned(), FileRead::Text(text.to_owned()));
}

fn there(f: &mut Facts, path: &str) {
    f.stats
        .insert(path.to_owned(), Some(Stat { is_dir: true, rdev: 0 }));
}

fn list(f: &mut Facts, path: &str, names: &[&str]) {
    f.dirs.insert(
        path.to_owned(),
        DirRead::Names(names.iter().map(|n| (*n).to_owned()).collect(), vec![]),
    );
}

fn module(f: &mut Facts, device: &str, name: &str) {
    f.resolved.insert(
        format!("{device}/driver/module"),
        Some(Resolved {
            path: format!("/sys/module/{name}"),
            name: Some(name.to_owned()),
            name_is_utf8: true,
        }),
    );
}

fn pci(f: &mut Facts, path: &str, vendor: &str, device: &str, class: &str) {
    file(f, &format!("{path}/vendor"), &format!("{vendor}\n"));
    file(f, &format!("{path}/device"), &format!("{device}\n"));
    file(f, &format!("{path}/class"), &format!("{class}\n"));
}

fn exited(stdout: &str) -> RunResult<String> {
    RunResult::Exited {
        success: true,
        stdout: stdout.to_owned(),
    }
}

fn failed(stdout: &str) -> RunResult<String> {
    RunResult::Exited {
        success: false,
        stdout: stdout.to_owned(),
    }
}

#[test]
fn host_platform_is_arch_dash_linux() {
    let mut f = facts();
    let p = settle(&mut f, host_platform);
    assert!(p.ends_with("-linux"), "unexpected: {p}");
    assert!(!p.contains(' '));
}

#[test]
fn host_platform_prefers_the_kernel() {
    let mut f = facts();
    assert_eq!(host_platform(&f), Err(Probe::UnameMachine));
    f.uname_machine = Some(exited("armv6l\n"));
    assert_eq!(host_platform(&f), Ok("armv6l-linux".to_owned()));
    f.uname_machine = Some(exited("i586\n"));
    assert_eq!(host_platform(&f), Ok("i686-linux".to_owned()));
    f.uname_machine = Some(exited(" \n"));
    assert_eq!(host_platform(&f), Ok("x86_64-linux".to_owned()));
    f.uname_machine = Some(failed("armv6l\n"));
    assert_eq!(host_platform(&f), Ok("x86_64-linux".to_owned()));
    assert_eq!(read_uname_machine(&RunResult::Failed), None);
}

#[test]
fn uname_machine_maps_ppc_and_x86_variants() {
    assert_eq!(uname_machine_to_nix("ppc64le"), "powerpc64le");
    assert_eq!(uname_machine_to_nix("ppc64"), "powerpc64");
    assert_eq!(uname_machine_to_nix("ppc"), "powerpc");
    assert_eq!(uname_machine_to_nix("i386"), "i686");
    assert_eq!(uname_machine_to_nix("i686"), "i686");
    // Pass-through for already-correct values.
    assert_eq!(uname_machine_to_nix("x86_64"), "x86_64");
    assert_eq!(uname_machine_to_nix("aarch64"), "aarch64");
    assert_eq!(uname_machine_to_nix("armv6l"), "armv6l");
    assert_eq!(uname_machine_to_nix("armv7l"), "armv7l");
}

#[test]
fn compile_time_arch_is_a_fallback() {
    assert_eq!(compile_time_arch_fallback("x86", true), "i686");
    assert_eq!(compile_time_arch_fallback("arm", true), "armv7l");
    assert_eq!(compile_time_arch_fallback("powerpc64", true), "powerpc64le");
    assert_eq!(compile_time_arch_fallback("powerpc64", false), "powerpc64");
    assert_eq!(compile_time_arch_fallback("mips", true), "mipsel");
    assert_eq!(compile_time_arch_fallback("mips64", true), "mips64el");
    assert_eq!(compile_time_arch_fallback("mips", false), "mips");
    assert_eq!(compile_time_arch_fallback("aarch64", true), "aarch64");
}

#[test]
fn cpu_has_feature_matches_on_flags_line() {
    let s = "processor\t: 0\nvendor_id\t: GenuineIntel\nflags\t\t: fpu vme de pse tsc msr pae mce vmx smep ept\n";
    assert!(cpu_has_feature(s, "vmx"));
    assert!(cpu_has_feature(s, "smep"));
    assert!(!cpu_has_feature(s, "svm"));
}

#[test]
fn cpu_has_feature_ignores_partial_matches() {
    // "vmxx" is not "vmx".
    let s = "flags\t\t: vmxx xxx\n";
    assert!(!cpu_has_feature(s, "vmx"));
}

#[test]
fn cpu_has_feature_needs_a_flags_line() {
    assert!(!cpu_has_feature("vmx flags\t: vmx\n", "vmx"));
    assert!(!cpu_has_feature("flags vmx\n", "vmx"));
    assert!(cpu_has_feature("flags: a\nflags: vmx\n", "vmx"));
}

#[test]
fn cpu_vendor_detects_intel_amd_other() {
    let intel = "vendor_id\t: GenuineIntel\n";
    let amd = "vendor_id\t: AuthenticAMD\n";
    let other = "vendor_id\t: Unknown\n";
    assert_eq!(cpu_vendor(intel), CpuVendor::Intel);
    assert_eq!(cpu_vendor(amd), CpuVendor::Amd);
    assert_eq!(cpu_vendor(other), CpuVendor::Other);
}

#[test]
fn cpu_vendor_takes_the_first() {
    assert_eq!(
        cpu_vendor("x\nvendor_id: AuthenticAMD\nvendor_id: GenuineIntel\n"),
        CpuVendor::Amd
    );
    assert_eq!(cpu_vendor(""), CpuVendor::Other);
}

#[test]
fn virt_parse_known_and_other() {
    assert_eq!(Virt::parse("none"), Virt::Bare);
    assert_eq!(Virt::parse("qemu"), Virt::Qemu);
    assert_eq!(Virt::parse("kvm"), Virt::Kvm);
    assert_eq!(Virt::parse("systemd-nspawn"), Virt::SystemdNspawn);
    assert_eq!(Virt::parse("wsl"), Virt::Other);
}

#[test]
fn virt_parse_the_rest() {
    assert_eq!(Virt::parse(" oracle\n"), Virt::Oracle);
    assert_eq!(Virt::parse("parallels"), Virt::Parallels);
    assert_eq!(Virt::parse("bochs"), Virt::Bochs);
    assert_eq!(Virt::parse("microsoft"), Virt::Microsoft);
    assert_eq!(Virt::parse(""), Virt::Other);
    assert_eq!(Virt::default(), Virt::Bare);
}

#[test]
fn failing_detection_means_no_virtualization() {
    let mut f = facts();
    assert_eq!(detect_virt(&f), Err(Probe::DetectVirt));
    f.virt = Some(failed("none\n"));
    assert_eq!(detect_virt(&f), Ok(Virt::Bare));
    f.virt = Some(RunResult::NotFound);
    assert_eq!(detect_virt(&f), Ok(Virt::Bare));
    f.virt = Some(exited("kvm\n"));
    assert_eq!(detect_virt(&f), Ok(Virt::Kvm));
}

#[test]
fn push_unique_is_order_preserving() {
    let mut v: Vec<String> = vec![];
    push_unique(&mut v, "a");
    push_unique(&mut v, "b");
    push_unique(&mut v, "a");
    push_unique(&mut v, "c");
    assert_eq!(v, ["a", "b", "c"]);
}

#[test]
fn push_unique_no_op_on_all_duplicates() {
    let mut v: Vec<String> = vec!["x".to_owned()];
    push_unique(&mut v, "x");
    push_unique(&mut v, "x");
    assert_eq!(v, ["x"]);
}

fn checked_pci(vendor: &str, device: &str, class: &str, driver: Option<&str>) -> HwScan {
    let mut f = facts();
    pci(&mut f, "/d", vendor, device, class);
    if let Some(m) = driver {
        module(&mut f, "/d", m);
    }
    settle(&mut f, |f| {
        let mut hw = HwScan::default();
        pci_check("/d", &mut hw, f)?;
        Ok(hw)
    })
}

#[test]
fn pci_controllers_are_needed_to_boot() {
    for class in ["0x010802", "0x0c0010", "0x0c0330"] {
        let hw = checked_pci("0x1", "0x2", class, Some("nvme"));
        assert_eq!(hw.initrd_available, ["nvme"]);
    }
    assert!(checked_pci("0x1", "0x2", "0x020000", Some("e1000"))
        .initrd_available
        .is_empty());
    assert!(checked_pci("0x1", "0x2", "0x010802", None)
        .initrd_available
        .is_empty());
}

#[test]
fn pci_devices_with_profiles() {
    assert_eq!(
        checked_pci("0x14e4", "0x43a3", "0x028000", None).imports,
        ["(modulesPath + \"/hardware/network/broadcom-43xx.nix\")"]
    );
    assert!(checked_pci("0x14e4", "0x43a4", "0x028000", None)
        .imports
        .is_empty());
    assert_eq!(
        checked_pci("0x1af4", "0x1048", "0x010000", Some("virtio_pci")).initrd_available,
        ["virtio_pci", "virtio_scsi"]
    );
    let npu = checked_pci("0x8086", "0x7d1d", "0x120000", None);
    assert_eq!(
        npu.imports,
        ["(modulesPath + \"/hardware/cpu/intel-npu.nix\")"]
    );
    assert_eq!(npu.attrs, ["hardware.cpu.intel.npu.enable = true;"]);
}

#[test]
fn pci_devices_that_tell_too_little_are_skipped() {
    let mut f = facts();
    file(&mut f, "/d/vendor", "0x8086\n");
    module(&mut f, "/d", "nvme");
    let hw = settle(&mut f, |f| {
        let mut hw = HwScan::default();
        pci_check("/d", &mut hw, f)?;
        Ok(hw)
    });
    assert!(hw.initrd_available.is_empty());
}

fn checked_usb(class: &str, protocol: Option<&str>) -> HwScan {
    let mut f = facts();
    file(&mut f, "/u/bInterfaceClass", class);
    if let Some(p) = protocol {
        file(&mut f, "/u/bInterfaceProtocol", p);
    }
    module(&mut f, "/u", "m");
    settle(&mut f, |f| {
        let mut hw = HwScan::default();
        usb_check("/u", &mut hw, f)?;
        Ok(hw)
    })
}

#[test]
fn usb_storage_and_keyboards_are_needed_to_boot() {
    assert_eq!(checked_usb("08\n", None).initrd_available, ["m"]);
    assert_eq!(checked_usb("03\n", Some("01\n")).initrd_available, ["m"]);
    assert!(checked_usb("03\n", Some("02\n")).initrd_available.is_empty());
    assert!(checked_usb("03\n", None).initrd_available.is_empty());
    assert!(checked_usb("09\n", Some("01\n")).initrd_available.is_empty());
}

#[test]
fn bcache_is_not_bcachefs() {
    let mut f = facts();
    list(&mut f, "/dev", &["sda", "bcachefs-ctl"]);
    assert_eq!(has_bcache_devices(&f), Ok(false));
    list(&mut f, "/dev", &["sda", "bcache0"]);
    assert_eq!(has_bcache_devices(&f), Ok(true));
}

#[test]
fn logical_volumes_are_found() {
    let mut f = facts();
    list(&mut f, "/sys/class/block", &["sda", "dm-0"]);
    file(&mut f, "/sys/class/block/dm-0/dm/uuid", "LVM-abc\n");
    assert!(settle(&mut f, has_lvm_device));
    file(&mut f, "/sys/class/block/dm-0/dm/uuid", "CRYPT-LVM-abc\n");
    assert!(!settle(&mut f, has_lvm_device));
}

#[test]
fn scan_needs_cpuinfo() {
    let mut f = facts();
    assert_eq!(
        scanned(&mut f).unwrap_err(),
        Error::UnreadableFile {
            path: "/proc/cpuinfo".to_owned(),
            reason: None,
        }
    );
}

#[test]
fn scan_fails_on_directories_that_cannot_be_listed() {
    let mut f = facts();
    file(&mut f, "/proc/cpuinfo", "");
    f.dirs.insert(
        "/sys/bus/usb/devices".to_owned(),
        DirRead::Failed("denied".to_owned()),
    );
    assert_eq!(
        scanned(&mut f).unwrap_err(),
        Error::UnreadableDir {
            path: "/sys/bus/usb/devices".to_owned(),
            cause: "denied".to_owned(),
        }
    );
}

#[test]
fn scan_of_a_bare_machine() {
    let mut f = facts();
    file(
        &mut f,
        "/proc/cpuinfo",
        "vendor_id : GenuineIntel\nflags : vmx\n",
    );
    f.uname_machine = Some(exited("x86_64\n"));
    let hw = scanned(&mut f).unwrap();
    assert_eq!(
        hw.attrs,
        [
            "nixpkgs.hostPlatform = lib.mkDefault \"x86_64-linux\";",
            "hardware.cpu.intel.updateMicrocode = lib.mkDefault config.hardware.enableRedistributableFirmware;",
        ]
    );
    assert_eq!(hw.kmods, ["kvm-intel"]);
    assert_eq!(
        hw.imports,
        ["(modulesPath + \"/installer/scan/not-detected.nix\")"]
    );
    assert!(hw.initrd_available.is_empty());
    assert!(hw.initrd_kmods.is_empty());
    assert!(hw.module_packages.is_empty());
    assert_eq!(hw.virt, Virt::Bare);
    assert!(!hw.has_efi);
    assert!(!hw.has_extlinux);
    assert!(!hw.has_lvm);
}

#[test]
fn scan_of_a_full_machine_names_nothing_twice() {
    let mut f = facts();
    file(
        &mut f,
        "/proc/cpuinfo",
        "vendor_id : AuthenticAMD\nflags : svm vmx\n",
    );
    f.uname_machine = Some(exited("x86_64\n"));
    f.virt = Some(exited("qemu\n"));
    list(&mut f, "/sys/bus/pci/devices", &["0", "1"]);
    pci(&mut f, "/sys/bus/pci/devices/0", "0x1", "0x2", "0x010601");
    module(&mut f, "/sys/bus/pci/devices/0", "ahci");
    pci(&mut f, "/sys/bus/pci/devices/1", "0x1", "0x2", "0x010601");
    module(&mut f, "/sys/bus/pci/devices/1", "ahci");
    list(&mut f, "/sys/bus/usb/devices", &["1-1", "1-1:1.0"]);
    there(&mut f, "/sys/bus/usb/devices/1-1:1.0/bInterfaceClass");
    file(&mut f, "/sys/bus/usb/devices/1-1:1.0/bInterfaceClass", "08\n");
    module(&mut f, "/sys/bus/usb/devices/1-1:1.0", "usb_storage");
    list(&mut f, "/sys/class/block", &["sda", "dm-0"]);
    module(&mut f, "/sys/class/block/sda/device", "sd_mod");
    file(&mut f, "/sys/class/block/dm-0/dm/uuid", "LVM-x");
    list(&mut f, "/sys/class/mmc_host", &["mmc0"]);
    module(&mut f, "/sys/class/mmc_host/mmc0/device", "sdhci_pci");
    list(&mut f, "/dev", &["bcache0"]);
    there(&mut f, "/sys/firmware/efi/efivars");
    there(&mut f, "/boot/extlinux");
    let hw = scanned(&mut f).unwrap();
    assert_eq!(
        hw.initrd_available,
        ["ahci", "usb_storage", "sd_mod", "sdhci_pci", "bcache"]
    );
    assert_eq!(hw.initrd_kmods, ["dm-snapshot"]);
    assert_eq!(hw.kmods, ["kvm-intel", "kvm-amd"]);
    assert_eq!(
        hw.imports,
        ["(modulesPath + \"/profiles/qemu-guest.nix\")"]
    );
    assert_eq!(
        hw.attrs,
        ["nixpkgs.hostPlatform = lib.mkDefault \"x86_64-linux\";"]
    );
    assert_eq!(hw.virt, Virt::Qemu);
    assert!(hw.has_efi && hw.has_extlinux && hw.has_lvm);
    assert_eq!(hw.clone().initrd_available, hw.initrd_available);
}

#[test]
fn virtualization_sets_attributes() {
    for (name, attrs) in [
        ("oracle", vec!["virtualisation.virtualbox.guest.enable = true;"]),
        (
            "parallels",
            vec![
                "hardware.parallels.enable = true;",
                "nixpkgs.config.allowUnfreePackages = [ \"prl-tools\" ];",
            ],
        ),
        ("microsoft", vec!["virtualisation.hypervGuest.enable = true;"]),
        ("systemd-nspawn", vec!["boot.isNspawnContainer = true;"]),
        ("wsl", vec![]),
    ] {
        let mut f = facts();
        file(&mut f, "/proc/cpuinfo", "vendor_id : AuthenticAMD\n");
        f.virt = Some(exited(name));
        let hw = scanned(&mut f).unwrap();
        assert_eq!(hw.attrs[1..], attrs);
        assert!(hw.imports.is_empty());
    }
}

#[test]
fn walks_are_warned_of() {
    let mut f = facts();
    assert!(settle(&mut f, scan_warnings).is_empty());
    let mut f = facts();
    file(&mut f, "/proc/cpuinfo", "");
    f.dirs.insert(
        "/sys/bus/usb/devices".to_owned(),
        DirRead::Names(vec!["1-1".to_owned()], vec!["x".to_owned(), "y".to_owned()]),
    );
    list(&mut f, "/sys/class/block", &["sda"]);
    assert_eq!(
        settle(&mut f, scan_warnings),
        [
            Warning::DirMissing("/sys/bus/pci/devices".to_owned()),
            Warning::EntryUnreadable {
                dir: "/sys/bus/usb/devices".to_owned(),
                cause: "x".to_owned(),
            },
            Warning::EntryUnreadable {
                dir: "/sys/bus/usb/devices".to_owned(),
                cause: "y".to_owned(),
            },
            Warning::DirMissing("/sys/class/mmc_host".to_owned()),
        ]
    );
}

#[test]
fn warnings_end_where_the_scan_fails() {
    let mut f = facts();
    file(&mut f, "/proc/cpuinfo", "");
    f.dirs.insert(
        "/sys/bus/usb/devices".to_owned(),
        DirRead::Failed("denied".to_owned()),
    );
    assert_eq!(
        settle(&mut f, scan_warnings),
        [Warning::DirMissing("/sys/bus/pci/devices".to_owned())]
    );
}
