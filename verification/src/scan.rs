//! The hardware: kernel modules, imports and attributes for the generated
//! configuration.

use vstd::prelude::*;

use crate::device;
use crate::error;
use crate::error::Error;
use crate::error::Halt;
use crate::host;
use crate::host::DirRead;
use crate::host::Facts;
use crate::host::FileRead;
use crate::host::Host;
use crate::host::Probe;
use crate::host::RunResult;
use crate::text;
use crate::text::Text;
use crate::warning;
use crate::warning::Warning;

verus! {

/// The kind of virtualization that the system runs under.
#[derive(Debug, Clone, Copy, PartialEq, Eq, Structural)]
pub enum Virt {
    /// No virtualization: the system runs on the machine itself.
    Bare,
    Oracle,
    Parallels,
    Qemu,
    Kvm,
    Bochs,
    Microsoft,
    SystemdNspawn,
    Other,
}

impl Default for Virt {
    fn default() -> (r: Self)
        ensures
            r == Virt::Bare,
    {
        Virt::Bare
    }
}

impl DeepView for Virt {
    type V = Virt;

    open spec fn deep_view(&self) -> Virt {
        *self
    }
}

/// The virtualization that `systemd-detect-virt` names.
pub open spec fn virt_named(s: Text) -> Virt {
    let w = text::trim(s);
    if w == "none"@ {
        Virt::Bare
    } else if w == "oracle"@ {
        Virt::Oracle
    } else if w == "parallels"@ {
        Virt::Parallels
    } else if w == "qemu"@ {
        Virt::Qemu
    } else if w == "kvm"@ {
        Virt::Kvm
    } else if w == "bochs"@ {
        Virt::Bochs
    } else if w == "microsoft"@ {
        Virt::Microsoft
    } else if w == "systemd-nspawn"@ {
        Virt::SystemdNspawn
    } else {
        Virt::Other
    }
}

impl Virt {
    /// The virtualization that `systemd-detect-virt` names.
    pub fn parse(s: &str) -> (r: Self)
        ensures
            r == virt_named(s@),
    {
        let w = text::trim_of(s);
        let w = w.as_str();
        if text::same(w, "none") {
            Virt::Bare
        } else if text::same(w, "oracle") {
            Virt::Oracle
        } else if text::same(w, "parallels") {
            Virt::Parallels
        } else if text::same(w, "qemu") {
            Virt::Qemu
        } else if text::same(w, "kvm") {
            Virt::Kvm
        } else if text::same(w, "bochs") {
            Virt::Bochs
        } else if text::same(w, "microsoft") {
            Virt::Microsoft
        } else if text::same(w, "systemd-nspawn") {
            Virt::SystemdNspawn
        } else {
            Virt::Other
        }
    }
}

/// The maker of the processor.
#[derive(Debug, Clone, Copy, PartialEq, Eq, Structural)]
pub enum CpuVendor {
    Intel,
    Amd,
    Other,
}

/// What a scan of the hardware yields.
#[derive(Debug)]
pub struct HwScan {
    pub initrd_available: Vec<String>,
    pub initrd_kmods: Vec<String>,
    pub kmods: Vec<String>,
    pub module_packages: Vec<String>,
    pub imports: Vec<String>,
    pub attrs: Vec<String>,
    pub virt: Virt,
    pub has_efi: bool,
    pub has_extlinux: bool,
    pub has_lvm: bool,
}

/// The contents of a [`HwScan`].
pub struct HwModel {
    pub initrd_available: Seq<Text>,
    pub initrd_kmods: Seq<Text>,
    pub kmods: Seq<Text>,
    pub module_packages: Seq<Text>,
    pub imports: Seq<Text>,
    pub attrs: Seq<Text>,
    pub virt: Virt,
    pub has_efi: bool,
    pub has_extlinux: bool,
    pub has_lvm: bool,
}

impl DeepView for HwScan {
    type V = HwModel;

    open spec fn deep_view(&self) -> HwModel {
        HwModel {
            initrd_available: self.initrd_available.deep_view(),
            initrd_kmods: self.initrd_kmods.deep_view(),
            kmods: self.kmods.deep_view(),
            module_packages: self.module_packages.deep_view(),
            imports: self.imports.deep_view(),
            attrs: self.attrs.deep_view(),
            virt: self.virt,
            has_efi: self.has_efi,
            has_extlinux: self.has_extlinux,
            has_lvm: self.has_lvm,
        }
    }
}

/// The scan that found nothing.
pub open spec fn no_hardware() -> HwModel {
    HwModel {
        initrd_available: Seq::empty(),
        initrd_kmods: Seq::empty(),
        kmods: Seq::empty(),
        module_packages: Seq::empty(),
        imports: Seq::empty(),
        attrs: Seq::empty(),
        virt: Virt::Bare,
        has_efi: false,
        has_extlinux: false,
        has_lvm: false,
    }
}

fn no_texts() -> (r: Vec<String>)
    ensures
        r.deep_view() == Seq::<Text>::empty(),
{
    let r: Vec<String> = Vec::new();
    assert(r.deep_view() =~= Seq::<Text>::empty());
    r
}

impl Default for HwScan {
    fn default() -> (r: Self)
        ensures
            r.deep_view() == no_hardware(),
    {
        HwScan {
            initrd_available: no_texts(),
            initrd_kmods: no_texts(),
            kmods: no_texts(),
            module_packages: no_texts(),
            imports: no_texts(),
            attrs: no_texts(),
            virt: Virt::Bare,
            has_efi: false,
            has_extlinux: false,
            has_lvm: false,
        }
    }
}

impl Clone for HwScan {
    fn clone(&self) -> (r: Self)
        ensures
            r.deep_view() == self.deep_view(),
    {
        HwScan {
            initrd_available: text::copy_texts(&self.initrd_available),
            initrd_kmods: text::copy_texts(&self.initrd_kmods),
            kmods: text::copy_texts(&self.kmods),
            module_packages: text::copy_texts(&self.module_packages),
            imports: text::copy_texts(&self.imports),
            attrs: text::copy_texts(&self.attrs),
            virt: self.virt,
            has_efi: self.has_efi,
            has_extlinux: self.has_extlinux,
            has_lvm: self.has_lvm,
        }
    }
}

/// Adds `val` at the end of the list, unless it is there already.
pub fn push_unique(vec: &mut Vec<String>, val: &str)
    ensures
        final(vec).deep_view() == text::with_text(old(vec).deep_view(), val@),
{
    if !text::has_text(vec, val) {
        text::push_text(vec, val.to_owned());
    }
}

/// Whether the line lists the processor features and `feature` among them.
pub open spec fn lists_feature(line: Text, feature: Text) -> bool {
    "flags"@.is_prefix_of(line) && text::split(line, ':').len() > 1 && text::words(
        text::split(line, ':')[1],
    ).contains(feature)
}

/// Whether some line of the text of `/proc/cpuinfo` lists the feature.
pub open spec fn has_feature(cpuinfo: Text, feature: Text) -> bool {
    exists|i: int|
        0 <= i < text::lines(cpuinfo).len() && lists_feature(
            #[trigger] text::lines(cpuinfo)[i],
            feature,
        )
}

fn line_lists(line: &str, feature: &str) -> (r: bool)
    ensures
        r == lists_feature(line@, feature@),
{
    if !text::starts_with(line, "flags") {
        return false;
    }
    let parts = text::split_on(line, ':');
    if parts.len() < 2 {
        return false;
    }
    assert(parts.deep_view()[1] == parts@[1]@);
    text::has_text(&text::words_of(parts[1].as_str()), feature)
}

/// Whether the processor has the feature, by the text of `/proc/cpuinfo`.
pub fn cpu_has_feature(cpuinfo: &str, feature: &str) -> (r: bool)
    ensures
        r == has_feature(cpuinfo@, feature@),
{
    let lines = text::lines_of(cpuinfo);
    let ghost all = lines.deep_view();
    let mut i: usize = 0;
    while i < lines.len()
        invariant
            i <= lines@.len(),
            all == lines.deep_view(),
            all == text::lines(cpuinfo@),
            forall|j: int| 0 <= j < i ==> !lists_feature(#[trigger] all[j], feature@),
        decreases lines@.len() - i,
    {
        assert(all[i as int] == lines@[i as int]@);
        if line_lists(lines[i].as_str(), feature) {
            return true;
        }
        i += 1;
    }
    false
}

/// The maker that `vendor_id` names.
pub open spec fn vendor_named(id: Text) -> CpuVendor {
    if id == "GenuineIntel"@ {
        CpuVendor::Intel
    } else if id == "AuthenticAMD"@ {
        CpuVendor::Amd
    } else {
        CpuVendor::Other
    }
}

/// The key and the value of a line: what stands before its first colon and what
/// stands behind it, both trimmed.
pub open spec fn key_value(line: Text) -> (Text, Text) {
    match text::split_once(line, ':') {
        Some((key, value)) => (text::trim(key), text::trim(value)),
        None => (text::trim(line), text::trim(Seq::empty())),
    }
}

/// The maker by the first line with the key `vendor_id`.
pub open spec fn vendor_in(lines: Seq<Text>) -> CpuVendor
    decreases lines.len(),
{
    if lines.len() == 0 {
        CpuVendor::Other
    } else if key_value(lines[0]).0 == "vendor_id"@ {
        vendor_named(key_value(lines[0]).1)
    } else {
        vendor_in(lines.drop_first())
    }
}

fn key_value_of(line: &str) -> (r: (String, String))
    ensures
        (r.0@, r.1@) == key_value(line@),
{
    match text::split_once_on(line, ':') {
        Some((key, value)) => (text::trim_of(key.as_str()), text::trim_of(value.as_str())),
        None => {
            let nothing = String::new();
            (text::trim_of(line), text::trim_of(nothing.as_str()))
        },
    }
}

/// The maker of the processor, by the text of `/proc/cpuinfo`.
pub fn cpu_vendor(cpuinfo: &str) -> (r: CpuVendor)
    ensures
        r == vendor_in(text::lines(cpuinfo@)),
{
    let lines = text::lines_of(cpuinfo);
    let ghost all = lines.deep_view();
    let mut i: usize = 0;
    assert(all.skip(0) =~= all);
    while i < lines.len()
        invariant
            i <= lines@.len(),
            all == lines.deep_view(),
            all == text::lines(cpuinfo@),
            vendor_in(all) == vendor_in(all.skip(i as int)),
        decreases lines@.len() - i,
    {
        assert(all.skip(i as int)[0] == lines@[i as int]@);
        assert(all.skip(i as int).drop_first() =~= all.skip(i + 1));
        let (key, value) = key_value_of(lines[i].as_str());
        if text::same(key.as_str(), "vendor_id") {
            return if text::same(value.as_str(), "GenuineIntel") {
                CpuVendor::Intel
            } else if text::same(value.as_str(), "AuthenticAMD") {
                CpuVendor::Amd
            } else {
                CpuVendor::Other
            };
        }
        i += 1;
    }
    CpuVendor::Other
}

/// The Nix name of an architecture that the kernel names.
pub open spec fn nix_machine(m: Text) -> Text {
    if m == "ppc"@ {
        "powerpc"@
    } else if m == "ppc64"@ {
        "powerpc64"@
    } else if m == "ppc64le"@ {
        "powerpc64le"@
    } else if m == "i386"@ || m == "i486"@ || m == "i586"@ || m == "i686"@ {
        "i686"@
    } else {
        m
    }
}

/// The Nix name of an architecture that `uname -m` names.
pub fn uname_machine_to_nix(m: &str) -> (r: &str)
    ensures
        r@ == nix_machine(m@),
{
    if text::same(m, "ppc") {
        "powerpc"
    } else if text::same(m, "ppc64") {
        "powerpc64"
    } else if text::same(m, "ppc64le") {
        "powerpc64le"
    } else if text::same(m, "i386") || text::same(m, "i486") || text::same(m, "i586") || text::same(
        m,
        "i686",
    ) {
        "i686"
    } else {
        m
    }
}

/// The Nix name of an architecture that Rust names. Rust does not tell the ARM
/// versions apart.
pub open spec fn nix_arch(arch: Text, little_endian: bool) -> Text {
    if arch == "x86"@ {
        "i686"@
    } else if arch == "arm"@ {
        "armv7l"@
    } else if arch == "powerpc64"@ && little_endian {
        "powerpc64le"@
    } else if arch == "mips"@ && little_endian {
        "mipsel"@
    } else if arch == "mips64"@ && little_endian {
        "mips64el"@
    } else {
        arch
    }
}

/// The Nix name of the architecture that this program was compiled for.
pub fn compile_time_arch_fallback(arch: &str, little_endian: bool) -> (r: &str)
    ensures
        r@ == nix_arch(arch@, little_endian),
{
    proof {
        reveal_strlit("x86");
        reveal_strlit("arm");
    }
    if text::same(arch, "x86") {
        "i686"
    } else if text::same(arch, "arm") {
        "armv7l"
    } else if text::same(arch, "powerpc64") && little_endian {
        "powerpc64le"
    } else if text::same(arch, "mips") && little_endian {
        "mipsel"
    } else if text::same(arch, "mips64") && little_endian {
        "mips64el"
    } else {
        arch
    }
}

/// The machine that `uname -m` names, if it names one.
pub open spec fn machine(run: RunResult<Text>) -> Option<Text> {
    match run {
        RunResult::Exited { success: true, stdout } => {
            let m = text::trim(stdout);
            if m.len() == 0 {
                None
            } else {
                Some(m)
            }
        },
        _ => None,
    }
}

/// The machine that `uname -m` names, if it names one.
pub fn read_uname_machine(run: &RunResult<String>) -> (r: Option<String>)
    ensures
        r.deep_view() == machine(run.deep_view()),
{
    match run {
        RunResult::Exited { success, stdout } => {
            if !*success {
                return None;
            }
            let m = text::trim_of(stdout.as_str());
            if m.as_str().is_empty() {
                None
            } else {
                Some(m)
            }
        },
        _ => None,
    }
}

/// The platform of the host, by the kernel if it can be asked.
pub open spec fn platform(host: Host) -> Result<Text, Probe<Text>> {
    match host.uname() {
        Err(p) => Err(p),
        Ok(run) => Ok(
            match machine(run) {
                Some(m) => nix_machine(m),
                None => nix_arch(host.process.arch, host.process.little_endian),
            } + "-linux"@,
        ),
    }
}

/// The platform of the host as Nix names it.
pub fn host_platform(facts: &Facts) -> (r: Result<String, Probe<String>>)
    ensures
        host::shown(r) == platform(facts@),
{
    match read_uname_machine(facts.uname()?) {
        Some(m) => Ok(text::cat(uname_machine_to_nix(m.as_str()), "-linux")),
        None => Ok(
            text::cat(
                compile_time_arch_fallback(
                    facts.process.arch.as_str(),
                    facts.process.little_endian,
                ),
                "-linux",
            ),
        ),
    }
}

/// The text of the file without the white space around it; `None` if it cannot
/// be read.
pub open spec fn trimmed_file(path: Text, host: Host) -> Result<Option<Text>, Probe<Text>> {
    match host.file(path) {
        Err(p) => Err(p),
        Ok(FileRead::Text(t)) => Ok(Some(text::trim(t))),
        Ok(_) => Ok(None),
    }
}

/// The text of the file at `path` without the white space around it.
pub fn read_trim(path: &str, facts: &Facts) -> (r: Result<Option<String>, Probe<String>>)
    ensures
        host::shown(r) == trimmed_file(path@, facts@),
{
    match facts.file(path)? {
        FileRead::Text(t) => Ok(Some(text::trim_of(t.as_str()))),
        _ => Ok(None),
    }
}

/// The kernel module that drives the device: the name of the directory that
/// `driver/module` leads to.
pub open spec fn module_of(base: Text, host: Host) -> Result<Option<Text>, Probe<Text>> {
    match host.resolve(base + "/driver/module"@) {
        Err(p) => Err(p),
        Ok(Some(resolved)) => Ok(resolved.name),
        Ok(None) => Ok(None),
    }
}

/// The kernel module that drives the device with the directory `base`.
pub fn driver_module(base: &str, facts: &Facts) -> (r: Result<Option<String>, Probe<String>>)
    ensures
        host::shown(r) == module_of(base@, facts@),
{
    let link = text::cat(base, "/driver/module");
    match facts.resolve(link.as_str())? {
        Some(resolved) => match &resolved.name {
            Some(name) => Ok(Some(name.clone())),
            None => Ok(None),
        },
        None => Ok(None),
    }
}

/// Whether the PCI class is that of a mass storage, FireWire or USB controller,
/// which may be needed to reach the root file system.
pub open spec fn is_boot_class(class: Text) -> bool {
    "0x01"@.is_prefix_of(class) || "0x0c00"@.is_prefix_of(class) || "0x0c03"@.is_prefix_of(class)
}

/// The Broadcom wireless devices with a profile of their own.
pub open spec fn is_broadcom_fullmac(device: Text) -> bool {
    ||| device == "0x43a3"@
    ||| device == "0x43df"@
    ||| device == "0x43ec"@
    ||| device == "0x43d3"@
    ||| device == "0x43d9"@
    ||| device == "0x43e9"@
    ||| device == "0x43ba"@
    ||| device == "0x43bb"@
    ||| device == "0x43bc"@
    ||| device == "0xaa52"@
    ||| device == "0x43ca"@
    ||| device == "0x43cb"@
    ||| device == "0x43cc"@
    ||| device == "0x43c3"@
    ||| device == "0x43c4"@
    ||| device == "0x43c5"@
}

/// The neural processing units of Intel.
pub open spec fn is_intel_npu(device: Text) -> bool {
    ||| device == "0xfd3e"@
    ||| device == "0x7d1d"@
    ||| device == "0xad1d"@
    ||| device == "0x643e"@
    ||| device == "0xb03e"@
}

fn broadcom_fullmac(device: &str) -> (r: bool)
    ensures
        r == is_broadcom_fullmac(device@),
{
    text::same(device, "0x43a3")
        || text::same(device, "0x43df")
        || text::same(device, "0x43ec")
        || text::same(device, "0x43d3")
        || text::same(device, "0x43d9")
        || text::same(device, "0x43e9")
        || text::same(device, "0x43ba")
        || text::same(device, "0x43bb")
        || text::same(device, "0x43bc")
        || text::same(device, "0xaa52")
        || text::same(device, "0x43ca")
        || text::same(device, "0x43cb")
        || text::same(device, "0x43cc")
        || text::same(device, "0x43c3")
        || text::same(device, "0x43c4")
        || text::same(device, "0x43c5")
}

fn intel_npu(device: &str) -> (r: bool)
    ensures
        r == is_intel_npu(device@),
{
    text::same(device, "0xfd3e")
        || text::same(device, "0x7d1d")
        || text::same(device, "0xad1d")
        || text::same(device, "0x643e")
        || text::same(device, "0xb03e")
}

/// The module of a boot controller added.
pub open spec fn with_controller(s: HwModel, class: Text, module: Option<Text>) -> HwModel {
    match module {
        Some(m) => if is_boot_class(class) {
            HwModel { initrd_available: text::with_text(s.initrd_available, m), ..s }
        } else {
            s
        },
        None => s,
    }
}

/// The Broadcom profile added.
pub open spec fn with_broadcom(s: HwModel, vendor: Text, device: Text) -> HwModel {
    if vendor == "0x14e4"@ && is_broadcom_fullmac(device) {
        HwModel {
            imports: text::with_text(
                s.imports,
                "(modulesPath + \"/hardware/network/broadcom-43xx.nix\")"@,
            ),
            ..s
        }
    } else {
        s
    }
}

/// The module of the virtio SCSI controller added.
pub open spec fn with_virtio(s: HwModel, vendor: Text, device: Text) -> HwModel {
    if vendor == "0x1af4"@ && (device == "0x1004"@ || device == "0x1048"@) {
        HwModel { initrd_available: text::with_text(s.initrd_available, "virtio_scsi"@), ..s }
    } else {
        s
    }
}

/// The profile of the neural processing unit added, and the attribute that
/// enables it.
pub open spec fn with_npu(s: HwModel, vendor: Text, device: Text) -> HwModel {
    if vendor == "0x8086"@ && is_intel_npu(device) {
        HwModel {
            imports: text::with_text(s.imports, "(modulesPath + \"/hardware/cpu/intel-npu.nix\")"@),
            attrs: text::with_text(s.attrs, "hardware.cpu.intel.npu.enable = true;"@),
            ..s
        }
    } else {
        s
    }
}

/// The scan after a PCI device.
pub open spec fn with_pci(
    s: HwModel,
    vendor: Text,
    device: Text,
    class: Text,
    module: Option<Text>,
) -> HwModel {
    with_npu(
        with_virtio(
            with_broadcom(with_controller(s, class, module), vendor, device),
            vendor,
            device,
        ),
        vendor,
        device,
    )
}

/// The scan after the PCI device with the directory `path`. A device that does
/// not tell its vendor, device and class is skipped.
pub open spec fn pci_checked(s: HwModel, path: Text, host: Host) -> Result<HwModel, Probe<Text>> {
    match trimmed_file(path + "/vendor"@, host) {
        Err(p) => Err(p),
        Ok(None) => Ok(s),
        Ok(Some(vendor)) => match trimmed_file(path + "/device"@, host) {
            Err(p) => Err(p),
            Ok(None) => Ok(s),
            Ok(Some(device)) => match trimmed_file(path + "/class"@, host) {
                Err(p) => Err(p),
                Ok(None) => Ok(s),
                Ok(Some(class)) => match module_of(path, host) {
                    Err(p) => Err(p),
                    Ok(module) => Ok(with_pci(s, vendor, device, class, module)),
                },
            },
        },
    }
}

/// Takes a PCI device into account.
pub fn add_pci(
    scan: &mut HwScan,
    vendor: &str,
    device: &str,
    class: &str,
    module: &Option<String>,
)
    ensures
        final(scan).deep_view() == with_pci(
            old(scan).deep_view(),
            vendor@,
            device@,
            class@,
            module.deep_view(),
        ),
{
    if let Some(m) = module {
        if text::starts_with(class, "0x01") || text::starts_with(class, "0x0c00")
            || text::starts_with(class, "0x0c03") {
            push_unique(&mut scan.initrd_available, m.as_str());
        }
    }
    if text::same(vendor, "0x14e4") && broadcom_fullmac(device) {
        push_unique(
            &mut scan.imports,
            "(modulesPath + \"/hardware/network/broadcom-43xx.nix\")",
        );
    }
    if text::same(vendor, "0x1af4") && (text::same(device, "0x1004") || text::same(
        device,
        "0x1048",
    )) {
        push_unique(&mut scan.initrd_available, "virtio_scsi");
    }
    if text::same(vendor, "0x8086") && intel_npu(device) {
        push_unique(&mut scan.imports, "(modulesPath + \"/hardware/cpu/intel-npu.nix\")");
        push_unique(&mut scan.attrs, "hardware.cpu.intel.npu.enable = true;");
    }
}

/// Takes the PCI device with the directory `path` into account.
pub fn pci_check(path: &str, scan: &mut HwScan, facts: &Facts) -> (r: Result<(), Probe<String>>)
    ensures
        match pci_checked(old(scan).deep_view(), path@, facts@) {
            Ok(next) => r is Ok && final(scan).deep_view() == next,
            Err(p) => host::shown(r) == Err::<(), Probe<Text>>(p) && *final(scan) == *old(scan),
        },
{
    let vendor = match read_trim(text::cat(path, "/vendor").as_str(), facts)? {
        Some(v) => v,
        None => return Ok(()),
    };
    let device = match read_trim(text::cat(path, "/device").as_str(), facts)? {
        Some(d) => d,
        None => return Ok(()),
    };
    let class = match read_trim(text::cat(path, "/class").as_str(), facts)? {
        Some(c) => c,
        None => return Ok(()),
    };
    let module = driver_module(path, facts)?;
    add_pci(scan, vendor.as_str(), device.as_str(), class.as_str(), &module);
    Ok(())
}

/// Whether the USB interface is a mass storage or a boot keyboard.
pub open spec fn is_boot_interface(class: Text, protocol: Text) -> bool {
    class == "08"@ || (class == "03"@ && protocol == "01"@)
}

/// The text, or nothing.
pub open spec fn or_empty(t: Option<Text>) -> Text {
    match t {
        Some(t) => t,
        None => Seq::empty(),
    }
}

/// The scan after the USB interface with the directory `path`.
pub open spec fn usb_checked(s: HwModel, path: Text, host: Host) -> Result<HwModel, Probe<Text>> {
    match trimmed_file(path + "/bInterfaceClass"@, host) {
        Err(p) => Err(p),
        Ok(None) => Ok(s),
        Ok(Some(class)) => match trimmed_file(path + "/bInterfaceProtocol"@, host) {
            Err(p) => Err(p),
            Ok(protocol) => match module_of(path, host) {
                Err(p) => Err(p),
                Ok(None) => Ok(s),
                Ok(Some(module)) => if is_boot_interface(class, or_empty(protocol)) {
                    Ok(HwModel {
                        initrd_available: text::with_text(s.initrd_available, module),
                        ..s
                    })
                } else {
                    Ok(s)
                },
            },
        },
    }
}

/// Takes the USB interface with the directory `path` into account.
pub fn usb_check(path: &str, scan: &mut HwScan, facts: &Facts) -> (r: Result<(), Probe<String>>)
    ensures
        match usb_checked(old(scan).deep_view(), path@, facts@) {
            Ok(next) => r is Ok && final(scan).deep_view() == next,
            Err(p) => host::shown(r) == Err::<(), Probe<Text>>(p) && *final(scan) == *old(scan),
        },
{
    let class = match read_trim(text::cat(path, "/bInterfaceClass").as_str(), facts)? {
        Some(c) => c,
        None => return Ok(()),
    };
    let protocol = match read_trim(text::cat(path, "/bInterfaceProtocol").as_str(), facts)? {
        Some(p) => p,
        None => String::new(),
    };
    let module = match driver_module(path, facts)? {
        Some(m) => m,
        None => return Ok(()),
    };
    if text::same(class.as_str(), "08") || (text::same(class.as_str(), "03") && text::same(
        protocol.as_str(),
        "01",
    )) {
        push_unique(&mut scan.initrd_available, module.as_str());
    }
    Ok(())
}

/// A class of devices that a walk visits.
#[derive(Clone, Copy)]
pub enum Bus {
    Pci,
    Usb,
    /// Block devices and MMC hosts.
    Storage,
}

/// The scan after the device with the directory `path`. A USB device that is no
/// interface is skipped; of a storage device only the driver counts.
pub open spec fn checked(bus: Bus, s: HwModel, path: Text, host: Host) -> Result<
    HwModel,
    Probe<Text>,
> {
    match bus {
        Bus::Pci => pci_checked(s, path, host),
        Bus::Usb => match host.is_there(path + "/bInterfaceClass"@) {
            Err(p) => Err(p),
            Ok(true) => usb_checked(s, path, host),
            Ok(false) => Ok(s),
        },
        Bus::Storage => match module_of(path + "/device"@, host) {
            Err(p) => Err(p),
            Ok(Some(module)) => Ok(
                HwModel { initrd_available: text::with_text(s.initrd_available, module), ..s },
            ),
            Ok(None) => Ok(s),
        },
    }
}

fn check(bus: Bus, path: &str, scan: &mut HwScan, facts: &Facts) -> (r: Result<(), Probe<String>>)
    ensures
        match checked(bus, old(scan).deep_view(), path@, facts@) {
            Ok(next) => r is Ok && final(scan).deep_view() == next,
            Err(p) => host::shown(r) == Err::<(), Probe<Text>>(p) && *final(scan) == *old(scan),
        },
{
    match bus {
        Bus::Pci => pci_check(path, scan, facts),
        Bus::Usb => {
            if facts.is_there(text::cat(path, "/bInterfaceClass").as_str())? {
                usb_check(path, scan, facts)
            } else {
                Ok(())
            }
        },
        Bus::Storage => {
            if let Some(module) = driver_module(text::cat(path, "/device").as_str(), facts)? {
                push_unique(&mut scan.initrd_available, module.as_str());
            }
            Ok(())
        },
    }
}

/// The scan after the devices.
pub open spec fn all_checked(bus: Bus, s: HwModel, paths: Seq<Text>, host: Host) -> Result<
    HwModel,
    Probe<Text>,
>
    decreases paths.len(),
{
    if paths.len() == 0 {
        Ok(s)
    } else {
        match checked(bus, s, paths[0], host) {
            Err(p) => Err(p),
            Ok(next) => all_checked(bus, next, paths.drop_first(), host),
        }
    }
}

/// The scan after a walk through the directory. A missing directory is skipped;
/// one that cannot be listed is an error.
pub open spec fn walked(bus: Bus, s: HwModel, dir: Text, host: Host) -> Result<
    HwModel,
    Halt<Text>,
> {
    match host.dir(dir) {
        Err(p) => Err(Halt::Need(p)),
        Ok(DirRead::Missing) => Ok(s),
        Ok(DirRead::Failed(cause)) => Err(Halt::Fail(Error::UnreadableDir { path: dir, cause })),
        Ok(DirRead::Names(names, _)) => error::needed(
            all_checked(
                bus,
                s,
                names.map_values(|n: Text| device::entry_path(dir, n)),
                host,
            ),
        ),
    }
}

/// Visits the devices in the directory `dir`. Unless all of them can be taken
/// into account none is.
pub fn walk_dir(bus: Bus, dir: &str, scan: &mut HwScan, facts: &Facts) -> (r: Result<
    (),
    Halt<String>,
>)
    ensures
        match walked(bus, old(scan).deep_view(), dir@, facts@) {
            Ok(next) => r is Ok && final(scan).deep_view() == next,
            Err(h) => error::outcome(r) == Err::<(), Halt<Text>>(h) && *final(scan) == *old(scan),
        },
{
    let names = match error::need(facts.dir(dir))? {
        DirRead::Missing => return Ok(()),
        DirRead::Failed(cause) => return Err(
            Halt::Fail(Error::UnreadableDir { path: dir.to_owned(), cause: cause.clone() }),
        ),
        DirRead::Names(names, _) => names,
    };
    let ghost all = names.deep_view();
    let ghost paths = all.map_values(|n: Text| device::entry_path(dir@, n));
    let mut next = scan.clone();
    let mut i: usize = 0;
    assert(paths.skip(0) =~= paths);
    while i < names.len()
        invariant
            i <= names@.len(),
            all == names.deep_view(),
            paths == all.map_values(|n: Text| device::entry_path(dir@, n)),
            *scan == *old(scan),
            walked(bus, old(scan).deep_view(), dir@, facts@) == error::needed(
                all_checked(bus, next.deep_view(), paths.skip(i as int), facts@),
            ),
        decreases names@.len() - i,
    {
        assert(all[i as int] == names@[i as int]@);
        assert(paths.skip(i as int)[0] == device::entry_path(dir@, all[i as int]));
        assert(paths.skip(i as int).drop_first() =~= paths.skip(i + 1));
        let mut path = dir.to_owned();
        path.append("/");
        path.append(names[i].as_str());
        error::need(check(bus, path.as_str(), &mut next, facts))?;
        i += 1;
    }
    *scan = next;
    Ok(())
}

/// Whether the name is that of a bcache device. Those of bcachefs start alike.
pub open spec fn is_bcache(name: Text) -> bool {
    "bcache"@.is_prefix_of(name) && !"bcachefs"@.is_prefix_of(name)
}

/// Whether there is a bcache device.
pub open spec fn bcache_present(host: Host) -> Result<bool, Probe<Text>> {
    match device::dir_names("/dev"@, host) {
        Err(p) => Err(p),
        Ok(names) => Ok(exists|i: int| 0 <= i < names.len() && is_bcache(#[trigger] names[i])),
    }
}

/// Whether there is a bcache device.
pub fn has_bcache_devices(facts: &Facts) -> (r: Result<bool, Probe<String>>)
    ensures
        host::shown(r) == bcache_present(facts@),
{
    let names = device::read_dir_names("/dev", facts)?;
    let ghost all = names.deep_view();
    let mut i: usize = 0;
    while i < names.len()
        invariant
            i <= names@.len(),
            all == names.deep_view(),
            forall|j: int| 0 <= j < i ==> !is_bcache(#[trigger] all[j]),
            bcache_present(facts@) == Ok::<bool, Probe<Text>>(
                exists|j: int| 0 <= j < all.len() && is_bcache(#[trigger] all[j]),
            ),
        decreases names@.len() - i,
    {
        assert(all[i as int] == names@[i as int]@);
        if text::starts_with(names[i].as_str(), "bcache") && !text::starts_with(
            names[i].as_str(),
            "bcachefs",
        ) {
            assert(is_bcache(all[i as int]));
            return Ok(true);
        }
        i += 1;
    }
    Ok(false)
}

/// Whether one of the block devices belongs to a logical volume.
pub open spec fn some_lvm(names: Seq<Text>, host: Host) -> Result<bool, Probe<Text>>
    decreases names.len(),
{
    if names.len() == 0 {
        Ok(false)
    } else {
        match trimmed_file(device::block_file(names[0], "/dm/uuid"@), host) {
            Err(p) => Err(p),
            Ok(uuid) => if "LVM-"@.is_prefix_of(or_empty(uuid)) {
                Ok(true)
            } else {
                some_lvm(names.drop_first(), host)
            },
        }
    }
}

/// Whether there is a logical volume.
pub open spec fn lvm_present(host: Host) -> Result<bool, Probe<Text>> {
    match device::dir_names("/sys/class/block"@, host) {
        Err(p) => Err(p),
        Ok(names) => some_lvm(names, host),
    }
}

/// Whether there is a logical volume.
pub fn has_lvm_device(facts: &Facts) -> (r: Result<bool, Probe<String>>)
    ensures
        host::shown(r) == lvm_present(facts@),
{
    let names = device::read_dir_names("/sys/class/block", facts)?;
    let ghost all = names.deep_view();
    let mut i: usize = 0;
    assert(all.skip(0) =~= all);
    while i < names.len()
        invariant
            i <= names@.len(),
            all == names.deep_view(),
            lvm_present(facts@) == some_lvm(all.skip(i as int), facts@),
        decreases names@.len() - i,
    {
        assert(all.skip(i as int)[0] == names@[i as int]@);
        assert(all.skip(i as int).drop_first() =~= all.skip(i + 1));
        let path = device::block_file_of(names[i].as_str(), "/dm/uuid");
        let uuid = match read_trim(path.as_str(), facts)? {
            Some(u) => u,
            None => String::new(),
        };
        if text::starts_with(uuid.as_str(), "LVM-") {
            return Ok(true);
        }
        i += 1;
    }
    Ok(false)
}

/// The virtualization by the outcome of `systemd-detect-virt`, which fails
/// where there is none.
pub open spec fn virt_by(run: RunResult<Text>) -> Virt {
    match run {
        RunResult::Exited { success: true, stdout } => virt_named(stdout),
        _ => Virt::Bare,
    }
}

/// The virtualization that the system runs under.
pub open spec fn virt_of(host: Host) -> Result<Virt, Probe<Text>> {
    match host.detect_virt() {
        Err(p) => Err(p),
        Ok(run) => Ok(virt_by(run)),
    }
}

/// The virtualization that the system runs under.
pub fn detect_virt(facts: &Facts) -> (r: Result<Virt, Probe<String>>)
    ensures
        host::shown(r) == virt_of(facts@),
{
    match facts.detect_virt()? {
        RunResult::Exited { success, stdout } => if *success {
            Ok(Virt::parse(stdout.as_str()))
        } else {
            Ok(Virt::Bare)
        },
        _ => Ok(Virt::Bare),
    }
}

/// The scan with the platform and the virtualization modules of the processor.
pub open spec fn with_cpu(s: HwModel, platform: Text, cpuinfo: Text) -> HwModel {
    let intel = if has_feature(cpuinfo, "vmx"@) {
        text::with_text(s.kmods, "kvm-intel"@)
    } else {
        s.kmods
    };
    HwModel {
        attrs: s.attrs.push("nixpkgs.hostPlatform = lib.mkDefault \""@ + platform + "\";"@),
        kmods: if has_feature(cpuinfo, "svm"@) {
            text::with_text(intel, "kvm-amd"@)
        } else {
            intel
        },
        ..s
    }
}

/// The attribute that updates the microcode of the processor.
pub open spec fn microcode(vendor: CpuVendor) -> Seq<Text> {
    match vendor {
        CpuVendor::Amd => seq![
            "hardware.cpu.amd.updateMicrocode = lib.mkDefault config.hardware.enableRedistributableFirmware;"@,
        ],
        CpuVendor::Intel => seq![
            "hardware.cpu.intel.updateMicrocode = lib.mkDefault config.hardware.enableRedistributableFirmware;"@,
        ],
        CpuVendor::Other => Seq::empty(),
    }
}

/// The attributes that the virtualization asks for. On the machine itself these
/// are for the processor.
pub open spec fn virt_attrs(virt: Virt, vendor: CpuVendor) -> Seq<Text> {
    match virt {
        Virt::Oracle => seq!["virtualisation.virtualbox.guest.enable = true;"@],
        Virt::Parallels => seq![
            "hardware.parallels.enable = true;"@,
            "nixpkgs.config.allowUnfreePackages = [ \"prl-tools\" ];"@,
        ],
        Virt::Microsoft => seq!["virtualisation.hypervGuest.enable = true;"@],
        Virt::SystemdNspawn => seq!["boot.isNspawnContainer = true;"@],
        Virt::Bare => microcode(vendor),
        _ => Seq::empty(),
    }
}

/// The profile that the virtualization asks for, added.
pub open spec fn virt_imports(imports: Seq<Text>, virt: Virt) -> Seq<Text> {
    match virt {
        Virt::Qemu | Virt::Kvm | Virt::Bochs => text::with_text(
            imports,
            "(modulesPath + \"/profiles/qemu-guest.nix\")"@,
        ),
        Virt::Bare => text::with_text(
            imports,
            "(modulesPath + \"/installer/scan/not-detected.nix\")"@,
        ),
        _ => imports,
    }
}

/// The scan with what the virtualization asks for.
pub open spec fn with_virt(s: HwModel, virt: Virt, vendor: CpuVendor) -> HwModel {
    HwModel {
        virt,
        imports: virt_imports(s.imports, virt),
        attrs: s.attrs + virt_attrs(virt, vendor),
        ..s
    }
}

/// Takes the platform and the processor into account.
pub fn add_cpu(scan: &mut HwScan, platform: &str, cpuinfo: &str)
    ensures
        final(scan).deep_view() == with_cpu(old(scan).deep_view(), platform@, cpuinfo@),
{
    let mut attr = "nixpkgs.hostPlatform = lib.mkDefault \"".to_owned();
    attr.append(platform);
    attr.append("\";");
    text::push_text(&mut scan.attrs, attr);
    if cpu_has_feature(cpuinfo, "vmx") {
        push_unique(&mut scan.kmods, "kvm-intel");
    }
    if cpu_has_feature(cpuinfo, "svm") {
        push_unique(&mut scan.kmods, "kvm-amd");
    }
}

/// Takes the virtualization into account.
pub fn add_virt(scan: &mut HwScan, virt: Virt, vendor: CpuVendor)
    ensures
        final(scan).deep_view() == with_virt(old(scan).deep_view(), virt, vendor),
{
    let ghost attrs = scan.attrs.deep_view();
    scan.virt = virt;
    match virt {
        Virt::Oracle => {
            text::push_text(
                &mut scan.attrs,
                "virtualisation.virtualbox.guest.enable = true;".to_owned(),
            );
        },
        Virt::Parallels => {
            text::push_text(&mut scan.attrs, "hardware.parallels.enable = true;".to_owned());
            text::push_text(
                &mut scan.attrs,
                "nixpkgs.config.allowUnfreePackages = [ \"prl-tools\" ];".to_owned(),
            );
        },
        Virt::Qemu | Virt::Kvm | Virt::Bochs => {
            push_unique(&mut scan.imports, "(modulesPath + \"/profiles/qemu-guest.nix\")");
        },
        Virt::Microsoft => {
            text::push_text(
                &mut scan.attrs,
                "virtualisation.hypervGuest.enable = true;".to_owned(),
            );
        },
        Virt::SystemdNspawn => {
            text::push_text(&mut scan.attrs, "boot.isNspawnContainer = true;".to_owned());
        },
        Virt::Bare => {
            push_unique(
                &mut scan.imports,
                "(modulesPath + \"/installer/scan/not-detected.nix\")",
            );
            match vendor {
                CpuVendor::Amd => {
                    text::push_text(
                        &mut scan.attrs,
                        "hardware.cpu.amd.updateMicrocode = lib.mkDefault config.hardware.enableRedistributableFirmware;".to_owned(),
                    );
                },
                CpuVendor::Intel => {
                    text::push_text(
                        &mut scan.attrs,
                        "hardware.cpu.intel.updateMicrocode = lib.mkDefault config.hardware.enableRedistributableFirmware;".to_owned(),
                    );
                },
                CpuVendor::Other => {},
            }
        },
        Virt::Other => {},
    }
    assert(scan.attrs.deep_view() =~= attrs + virt_attrs(virt, vendor));
}

/// The scan with what the storage layers ask for.
pub open spec fn with_storage(s: HwModel, bcache: bool, lvm: bool) -> HwModel {
    HwModel {
        initrd_available: if bcache {
            text::with_text(s.initrd_available, "bcache"@)
        } else {
            s.initrd_available
        },
        initrd_kmods: if lvm {
            text::with_text(s.initrd_kmods, "dm-snapshot"@)
        } else {
            s.initrd_kmods
        },
        has_lvm: s.has_lvm || lvm,
        ..s
    }
}

/// Takes the storage layers into account.
pub fn add_storage(scan: &mut HwScan, bcache: bool, lvm: bool)
    ensures
        final(scan).deep_view() == with_storage(old(scan).deep_view(), bcache, lvm),
{
    if bcache {
        push_unique(&mut scan.initrd_available, "bcache");
    }
    if lvm {
        push_unique(&mut scan.initrd_kmods, "dm-snapshot");
        scan.has_lvm = true;
    }
}

/// The scan after the walks through the directories of devices.
pub open spec fn buses_walked(s: HwModel, host: Host) -> Result<HwModel, Halt<Text>> {
    match walked(Bus::Pci, s, "/sys/bus/pci/devices"@, host) {
        Err(h) => Err(h),
        Ok(s) => match walked(Bus::Usb, s, "/sys/bus/usb/devices"@, host) {
            Err(h) => Err(h),
            Ok(s) => match walked(Bus::Storage, s, "/sys/class/block"@, host) {
                Err(h) => Err(h),
                Ok(s) => walked(Bus::Storage, s, "/sys/class/mmc_host"@, host),
            },
        },
    }
}

/// The scan after the storage layers.
pub open spec fn storage_checked(s: HwModel, host: Host) -> Result<HwModel, Probe<Text>> {
    match bcache_present(host) {
        Err(p) => Err(p),
        Ok(bcache) => match lvm_present(host) {
            Err(p) => Err(p),
            Ok(lvm) => Ok(with_storage(s, bcache, lvm)),
        },
    }
}

/// The scan after the firmware.
pub open spec fn firmware_checked(s: HwModel, host: Host) -> Result<HwModel, Probe<Text>> {
    match host.is_there("/sys/firmware/efi/efivars"@) {
        Err(p) => Err(p),
        Ok(has_efi) => match host.is_there("/boot/extlinux"@) {
            Err(p) => Err(p),
            Ok(has_extlinux) => Ok(HwModel { has_efi, has_extlinux, ..s }),
        },
    }
}

/// The scan of the hardware.
pub open spec fn scanned(host: Host) -> Result<HwModel, Halt<Text>> {
    match error::required_file("/proc/cpuinfo"@, host) {
        Err(h) => Err(h),
        Ok(cpuinfo) => match platform(host) {
            Err(p) => Err(Halt::Need(p)),
            Ok(platform) => match buses_walked(
                with_cpu(no_hardware(), platform, cpuinfo),
                host,
            ) {
                Err(h) => Err(h),
                Ok(s) => match storage_checked(s, host) {
                    Err(p) => Err(Halt::Need(p)),
                    Ok(s) => match virt_of(host) {
                        Err(p) => Err(Halt::Need(p)),
                        Ok(virt) => error::needed(
                            firmware_checked(
                                with_virt(s, virt, vendor_in(text::lines(cpuinfo))),
                                host,
                            ),
                        ),
                    },
                },
            },
        },
    }
}

/// Scans the hardware. It is an error if `/proc/cpuinfo` cannot be read or a
/// directory of devices is there but cannot be listed.
pub fn scan(facts: &Facts) -> (r: Result<HwScan, Halt<String>>)
    ensures
        error::outcome(r) == scanned(facts@),
{
    let cpuinfo = error::require_file("/proc/cpuinfo", facts)?;
    let vendor = cpu_vendor(cpuinfo);
    let platform = error::need(host_platform(facts))?;
    let mut scan = HwScan::default();
    add_cpu(&mut scan, platform.as_str(), cpuinfo);
    walk_dir(Bus::Pci, "/sys/bus/pci/devices", &mut scan, facts)?;
    walk_dir(Bus::Usb, "/sys/bus/usb/devices", &mut scan, facts)?;
    walk_dir(Bus::Storage, "/sys/class/block", &mut scan, facts)?;
    walk_dir(Bus::Storage, "/sys/class/mmc_host", &mut scan, facts)?;
    let bcache = error::need(has_bcache_devices(facts))?;
    let lvm = error::need(has_lvm_device(facts))?;
    add_storage(&mut scan, bcache, lvm);
    let virt = error::need(detect_virt(facts))?;
    add_virt(&mut scan, virt, vendor);
    scan.has_efi = error::need(facts.is_there("/sys/firmware/efi/efivars"))?;
    scan.has_extlinux = error::need(facts.is_there("/boot/extlinux"))?;
    Ok(scan)
}

/// Whether no list of modules or imports names anything twice.
pub open spec fn names_once(s: HwModel) -> bool {
    &&& s.initrd_available.no_duplicates()
    &&& s.initrd_kmods.no_duplicates()
    &&& s.kmods.no_duplicates()
    &&& s.module_packages.no_duplicates()
    &&& s.imports.no_duplicates()
}

/// Adding an element that is not there yet creates no repetition, and adding
/// it again changes nothing.
pub proof fn adding_keeps_elements_distinct(list: Seq<Text>, x: Text)
    requires
        list.no_duplicates(),
    ensures
        text::with_text(list, x).no_duplicates(),
        text::with_text(list, x).contains(x),
        text::with_text(text::with_text(list, x), x) == text::with_text(list, x),
{
    if !list.contains(x) {
        assert(list.push(x)[list.len() as int] == x);
    }
}

proof fn pci_names_once(
    s: HwModel,
    vendor: Text,
    device: Text,
    class: Text,
    module: Option<Text>,
)
    requires
        names_once(s),
    ensures
        names_once(with_pci(s, vendor, device, class, module)),
{
    let a = with_controller(s, class, module);
    if let Some(m) = module {
        adding_keeps_elements_distinct(s.initrd_available, m);
    }
    assert(names_once(a));
    adding_keeps_elements_distinct(
        a.imports,
        "(modulesPath + \"/hardware/network/broadcom-43xx.nix\")"@,
    );
    let b = with_broadcom(a, vendor, device);
    assert(names_once(b));
    adding_keeps_elements_distinct(b.initrd_available, "virtio_scsi"@);
    let c = with_virtio(b, vendor, device);
    assert(names_once(c));
    adding_keeps_elements_distinct(
        c.imports,
        "(modulesPath + \"/hardware/cpu/intel-npu.nix\")"@,
    );
}

proof fn device_names_once(bus: Bus, s: HwModel, path: Text, host: Host)
    requires
        names_once(s),
    ensures
        checked(bus, s, path, host) matches Ok(next) ==> names_once(next),
{
    match bus {
        Bus::Pci => {
            if let (Ok(Some(vendor)), Ok(Some(device)), Ok(Some(class)), Ok(module)) = (
                trimmed_file(path + "/vendor"@, host),
                trimmed_file(path + "/device"@, host),
                trimmed_file(path + "/class"@, host),
                module_of(path, host),
            ) {
                pci_names_once(s, vendor, device, class, module);
            }
        },
        Bus::Usb => {
            if let Ok(Some(module)) = module_of(path, host) {
                adding_keeps_elements_distinct(s.initrd_available, module);
            }
        },
        Bus::Storage => {
            if let Ok(Some(module)) = module_of(path + "/device"@, host) {
                adding_keeps_elements_distinct(s.initrd_available, module);
            }
        },
    }
}

proof fn devices_name_once(bus: Bus, s: HwModel, paths: Seq<Text>, host: Host)
    requires
        names_once(s),
    ensures
        all_checked(bus, s, paths, host) matches Ok(next) ==> names_once(next),
    decreases paths.len(),
{
    if paths.len() > 0 {
        device_names_once(bus, s, paths[0], host);
        if let Ok(next) = checked(bus, s, paths[0], host) {
            devices_name_once(bus, next, paths.drop_first(), host);
        }
    }
}

proof fn walk_names_once(bus: Bus, s: HwModel, dir: Text, host: Host)
    requires
        names_once(s),
    ensures
        walked(bus, s, dir, host) matches Ok(next) ==> names_once(next),
{
    if let Ok(DirRead::Names(names, _)) = host.dir(dir) {
        devices_name_once(
            bus,
            s,
            names.map_values(|n: Text| device::entry_path(dir, n)),
            host,
        );
    }
}

/// However many devices ask for it, a scan names no module, no module package
/// and no import twice.
pub proof fn scan_names_once(host: Host)
    ensures
        scanned(host) matches Ok(hw) ==> names_once(hw),
{
    if let (Ok(cpuinfo), Ok(platform)) = (
        error::required_file("/proc/cpuinfo"@, host),
        platform(host),
    ) {
        let s = with_cpu(no_hardware(), platform, cpuinfo);
        adding_keeps_elements_distinct(Seq::empty(), "kvm-intel"@);
        adding_keeps_elements_distinct(Seq::empty(), "kvm-amd"@);
        adding_keeps_elements_distinct(
            text::with_text(Seq::empty(), "kvm-intel"@),
            "kvm-amd"@,
        );
        assert(names_once(s));
        walk_names_once(Bus::Pci, s, "/sys/bus/pci/devices"@, host);
        if let Ok(s) = walked(Bus::Pci, s, "/sys/bus/pci/devices"@, host) {
            walk_names_once(Bus::Usb, s, "/sys/bus/usb/devices"@, host);
            if let Ok(s) = walked(Bus::Usb, s, "/sys/bus/usb/devices"@, host) {
                walk_names_once(Bus::Storage, s, "/sys/class/block"@, host);
                if let Ok(s) = walked(Bus::Storage, s, "/sys/class/block"@, host) {
                    walk_names_once(Bus::Storage, s, "/sys/class/mmc_host"@, host);
                }
            }
        }
        if let Ok(s) = buses_walked(s, host) {
            assert(names_once(s));
            adding_keeps_elements_distinct(s.initrd_available, "bcache"@);
            adding_keeps_elements_distinct(s.initrd_kmods, "dm-snapshot"@);
            if let Ok(s) = storage_checked(s, host) {
                assert(names_once(s));
                adding_keeps_elements_distinct(
                    s.imports,
                    "(modulesPath + \"/profiles/qemu-guest.nix\")"@,
                );
                adding_keeps_elements_distinct(
                    s.imports,
                    "(modulesPath + \"/installer/scan/not-detected.nix\")"@,
                );
            }
        }
    }
}

/// The platform ends in `-linux`.
pub proof fn platform_is_linux(host: Host)
    ensures
        platform(host) matches Ok(p) ==> "-linux"@.is_suffix_of(p),
{
    if let Ok(p) = platform(host) {
        let n = p.len() - "-linux"@.len();
        assert("-linux"@ =~= p.subrange(n, p.len() as int));
    }
}

/// What a walk through the directory warns of: the directory is missing, or some
/// of its entries cannot be read.
pub open spec fn walk_warnings(dir: Text, read: DirRead<Seq<Text>, Text>) -> Seq<Warning<Text>> {
    match read {
        DirRead::Missing => seq![Warning::DirMissing(dir)],
        DirRead::Names(_, causes) => causes.map_values(
            |cause: Text| Warning::EntryUnreadable { dir, cause },
        ),
        DirRead::Failed(_) => Seq::empty(),
    }
}

/// The warnings after walks through the directories. One that cannot be listed
/// ends the scan.
pub open spec fn walks_warned(
    found: Seq<Warning<Text>>,
    dirs: Seq<Text>,
    host: Host,
) -> Result<Seq<Warning<Text>>, Probe<Text>>
    decreases dirs.len(),
{
    if dirs.len() == 0 {
        Ok(found)
    } else {
        match host.dir(dirs[0]) {
            Err(p) => Err(p),
            Ok(DirRead::Failed(_)) => Ok(found),
            Ok(read) => walks_warned(
                found + walk_warnings(dirs[0], read),
                dirs.drop_first(),
                host,
            ),
        }
    }
}

/// The directories of devices, in the order in which they are walked through.
pub open spec fn walked_dirs() -> Seq<Text> {
    seq![
        "/sys/bus/pci/devices"@,
        "/sys/bus/usb/devices"@,
        "/sys/class/block"@,
        "/sys/class/mmc_host"@,
    ]
}

/// What the scan of the hardware warns of. Without `/proc/cpuinfo` no directory
/// is walked through.
pub open spec fn scan_warned(host: Host) -> Result<Seq<Warning<Text>>, Probe<Text>> {
    match error::required_file("/proc/cpuinfo"@, host) {
        Err(Halt::Need(p)) => Err(p),
        Err(Halt::Fail(_)) => Ok(Seq::empty()),
        Ok(_) => walks_warned(Seq::empty(), walked_dirs(), host),
    }
}

/// Whether the walk through the directory with the number `i` is reached and
/// warns of `w`.
pub open spec fn walk_raises(dirs: Seq<Text>, i: int, w: Warning<Text>, host: Host) -> bool {
    &&& forall|j: int|
        0 <= j < i ==> !(host.dir(#[trigger] dirs[j]) matches Ok(DirRead::Failed(_)))
    &&& host.dir(dirs[i]) matches Ok(read) && walk_warnings(dirs[i], read).contains(w)
}

proof fn walks_warn_of(found: Seq<Warning<Text>>, dirs: Seq<Text>, host: Host, w: Warning<Text>)
    ensures
        walks_warned(found, dirs, host) matches Ok(list) ==> (list.contains(w) <==> found.contains(
            w,
        ) || exists|i: int| 0 <= i < dirs.len() && #[trigger] walk_raises(dirs, i, w, host)),
    decreases dirs.len(),
{
    if dirs.len() > 0 {
        if let Ok(read) = host.dir(dirs[0]) {
            let rest = dirs.drop_first();
            let more = found + walk_warnings(dirs[0], read);
            walks_warn_of(more, rest, host, w);
            warning::in_joined_lists(found, walk_warnings(dirs[0], read), w);
            if walk_warnings(dirs[0], read).contains(w) {
                assert(walk_raises(dirs, 0, w, host));
            }
            if !(read is Failed) {
                assert forall|i: int| 0 <= i < rest.len() implies (#[trigger] walk_raises(
                    rest,
                    i,
                    w,
                    host,
                ) <==> walk_raises(dirs, i + 1, w, host)) by {
                    assert(rest[i] == dirs[i + 1]);
                    if walk_raises(rest, i, w, host) {
                        assert forall|j: int| 0 <= j < i + 1 implies !(host.dir(
                            #[trigger] dirs[j],
                        ) matches Ok(DirRead::Failed(_))) by {
                            if j > 0 {
                                assert(rest[j - 1] == dirs[j]);
                            }
                        }
                    }
                    if walk_raises(dirs, i + 1, w, host) {
                        assert forall|j: int| 0 <= j < i implies !(host.dir(
                            #[trigger] rest[j],
                        ) matches Ok(DirRead::Failed(_))) by {
                            assert(rest[j] == dirs[j + 1]);
                        }
                    }
                }
                if exists|i: int| 0 <= i < rest.len() && #[trigger] walk_raises(rest, i, w, host) {
                    let i = choose|i: int|
                        0 <= i < rest.len() && #[trigger] walk_raises(rest, i, w, host);
                    assert(walk_raises(dirs, i + 1, w, host));
                }
                if exists|i: int| 0 <= i < dirs.len() && #[trigger] walk_raises(dirs, i, w, host) {
                    let i = choose|i: int|
                        0 <= i < dirs.len() && #[trigger] walk_raises(dirs, i, w, host);
                    if i > 0 {
                        assert(walk_raises(rest, i - 1, w, host));
                    }
                }
            } else {
                assert forall|i: int| 0 <= i < dirs.len() implies !#[trigger] walk_raises(
                    dirs,
                    i,
                    w,
                    host,
                ) by {
                    if i > 0 {
                        assert(host.dir(dirs[0]) matches Ok(DirRead::Failed(_)));
                    }
                }
            }
        }
    }
}

/// Whether the list holds a warning exactly if a walk that is reached raises it.
pub open spec fn warns_of_walks(list: Seq<Warning<Text>>, host: Host) -> bool {
    forall|w: Warning<Text>| #[trigger]
        list.contains(w) <==> error::required_file("/proc/cpuinfo"@, host) is Ok && exists|i: int|
            0 <= i < walked_dirs().len() && #[trigger] walk_raises(walked_dirs(), i, w, host)
}

/// A warning is given exactly if a walk that is reached raises it.
pub proof fn scan_warns_of_walks(host: Host)
    ensures
        scan_warned(host) matches Ok(list) ==> warns_of_walks(list, host),
{
    if let Ok(list) = scan_warned(host) {
        if error::required_file("/proc/cpuinfo"@, host) is Ok {
            assert forall|w: Warning<Text>| true implies (#[trigger] list.contains(w) <==> exists|
                i: int,
            |
                0 <= i < walked_dirs().len() && #[trigger] walk_raises(walked_dirs(), i, w, host))
            by {
                walks_warn_of(Seq::empty(), walked_dirs(), host, w);
            }
        }
    }
}

/// Adds what a walk through the directory warns of. Tells whether the directory
/// can be listed or is missing.
fn warn_of_walk(list: &mut Vec<Warning<String>>, dir: &str, facts: &Facts) -> (r: Result<
    bool,
    Probe<String>,
>)
    ensures
        match facts@.dir(dir@) {
            Err(p) => host::shown(r) == Err::<bool, Probe<Text>>(p),
            Ok(read) => {
                &&& r == Ok::<bool, Probe<String>>(!(read is Failed))
                &&& final(list).deep_view() == old(list).deep_view() + walk_warnings(dir@, read)
            },
        },
{
    let ghost before = list.deep_view();
    match facts.dir(dir)? {
        DirRead::Missing => {
            warning::push_warning(list, Warning::DirMissing(dir.to_owned()));
            assert(list.deep_view() =~= before + walk_warnings(dir@, DirRead::Missing));
            Ok(true)
        },
        DirRead::Failed(_) => {
            assert(list.deep_view() =~= before + Seq::<Warning<Text>>::empty());
            Ok(false)
        },
        DirRead::Names(names, causes) => {
            let ghost all = causes.deep_view();
            let ghost wanted = walk_warnings(dir@, DirRead::Names(names.deep_view(), all));
            let mut i: usize = 0;
            assert(list.deep_view() =~= before + wanted.take(0));
            while i < causes.len()
                invariant
                    i <= causes@.len(),
                    all == causes.deep_view(),
                    wanted == walk_warnings(dir@, DirRead::Names(names.deep_view(), all)),
                    list.deep_view() == before + wanted.take(i as int),
                decreases causes@.len() - i,
            {
                assert(all[i as int] == causes@[i as int]@);
                warning::push_warning(
                    list,
                    Warning::EntryUnreadable { dir: dir.to_owned(), cause: causes[i].clone() },
                );
                i += 1;
                assert(list.deep_view() =~= before + wanted.take(i as int));
            }
            assert(wanted.take(i as int) =~= wanted);
            Ok(true)
        },
    }
}

/// What the scan of the hardware warns of: directories of devices that are
/// missing and entries in them that cannot be read.
pub fn scan_warnings(facts: &Facts) -> (r: Result<Vec<Warning<String>>, Probe<String>>)
    ensures
        host::shown(r) == scan_warned(facts@),
        r matches Ok(list) ==> warns_of_walks(list.deep_view(), facts@),
{
    let mut list = warning::no_warnings();
    proof {
        scan_warns_of_walks(facts@);
    }
    match error::require_file("/proc/cpuinfo", facts) {
        Ok(_) => {},
        Err(Halt::Need(p)) => return Err(p),
        Err(Halt::Fail(_)) => return Ok(list),
    }
    let mut dirs: Vec<String> = Vec::new();
    assert(dirs.deep_view() =~= Seq::<Text>::empty());
    text::push_text(&mut dirs, "/sys/bus/pci/devices".to_owned());
    text::push_text(&mut dirs, "/sys/bus/usb/devices".to_owned());
    text::push_text(&mut dirs, "/sys/class/block".to_owned());
    text::push_text(&mut dirs, "/sys/class/mmc_host".to_owned());
    let ghost all = walked_dirs();
    assert(dirs.deep_view() =~= all);
    assert(all.skip(0) =~= all);
    let mut i: usize = 0;
    let mut listable = true;
    while i < dirs.len() && listable
        invariant
            i <= dirs@.len(),
            all == dirs.deep_view(),
            listable ==> scan_warned(facts@) == walks_warned(
                list.deep_view(),
                all.skip(i as int),
                facts@,
            ),
            !listable ==> scan_warned(facts@) == Ok::<Seq<Warning<Text>>, Probe<Text>>(
                list.deep_view(),
            ),
        decreases dirs@.len() - i,
    {
        assert(all.skip(i as int)[0] == dirs@[i as int]@);
        assert(all.skip(i as int).drop_first() =~= all.skip(i + 1));
        let ghost before = list.deep_view();
        listable = warn_of_walk(&mut list, dirs[i].as_str(), facts)?;
        assert(!listable ==> list.deep_view() =~= before);
        i += 1;
    }
    Ok(list)
}

}
