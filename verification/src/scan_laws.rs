//! What the scan of the hardware promises, in terms of the files and directories
//! of the kernel and of the programs that are asked.

use vstd::prelude::*;

use crate::device;
use crate::device_laws;
use crate::error;
use crate::error::Error;
use crate::error::Halt;
use crate::host::DirRead;
use crate::host::FileRead;
use crate::host::Host;
use crate::host::Probe;
use crate::host::RunResult;
use crate::scan;
use crate::scan::Bus;
use crate::scan::CpuVendor;
use crate::scan::HwModel;
use crate::scan::Virt;
use crate::text;
use crate::text::Text;
use crate::warning::Warning;

verus! {

/// What the file says, without the white space around it, if it can be read.
pub open spec fn said(file: Text, host: Host) -> Option<Text> {
    match host.file(file) {
        Ok(FileRead::Text(t)) => Some(text::trim(t)),
        _ => None,
    }
}

/// Whether the kernel module drives the device with this directory.
pub open spec fn is_driven_by(dir: Text, module: Text, host: Host) -> bool {
    host.resolve(dir + "/driver/module"@) matches Ok(Some(found)) && found.name == Some(module)
}

/// Whether the directory is that of a PCI device that tells its vendor, its device
/// number and its class.
pub open spec fn is_pci_device(
    dir: Text,
    vendor: Text,
    device: Text,
    class: Text,
    host: Host,
) -> bool {
    &&& said(dir + "/vendor"@, host) == Some(vendor)
    &&& said(dir + "/device"@, host) == Some(device)
    &&& said(dir + "/class"@, host) == Some(class)
}

/// Whether the directory is that of a PCI device that needs the module to start
/// the system: it is a mass storage, FireWire or USB controller that the module
/// drives, or the module is the one of virtio SCSI controllers and it is one.
pub open spec fn pci_needs(dir: Text, module: Text, host: Host) -> bool {
    exists|vendor: Text, device: Text, class: Text| #[trigger]
        is_pci_device(dir, vendor, device, class, host) && {
            ||| is_driven_by(dir, module, host) && ("0x01"@.is_prefix_of(class)
                || "0x0c00"@.is_prefix_of(class) || "0x0c03"@.is_prefix_of(class))
            ||| module == "virtio_scsi"@ && vendor == "0x1af4"@ && (device == "0x1004"@ || device
                == "0x1048"@)
        }
}

/// Whether the directory is that of a Broadcom wireless device with a profile of
/// its own.
pub open spec fn is_broadcom(dir: Text, host: Host) -> bool {
    exists|vendor: Text, device: Text, class: Text| #[trigger]
        is_pci_device(dir, vendor, device, class, host) && vendor == "0x14e4"@ && seq![
            "0x43a3"@,
            "0x43df"@,
            "0x43ec"@,
            "0x43d3"@,
            "0x43d9"@,
            "0x43e9"@,
            "0x43ba"@,
            "0x43bb"@,
            "0x43bc"@,
            "0xaa52"@,
            "0x43ca"@,
            "0x43cb"@,
            "0x43cc"@,
            "0x43c3"@,
            "0x43c4"@,
            "0x43c5"@,
        ].contains(device)
}

/// Whether the directory is that of a neural processing unit of Intel.
pub open spec fn is_npu(dir: Text, host: Host) -> bool {
    exists|vendor: Text, device: Text, class: Text| #[trigger]
        is_pci_device(dir, vendor, device, class, host) && vendor == "0x8086"@ && seq![
            "0xfd3e"@,
            "0x7d1d"@,
            "0xad1d"@,
            "0x643e"@,
            "0xb03e"@,
        ].contains(device)
}

/// Whether the directory is that of a USB interface for mass storage or for a boot
/// keyboard that the module drives.
pub open spec fn usb_needs(dir: Text, module: Text, host: Host) -> bool {
    let class = said(dir + "/bInterfaceClass"@, host);
    &&& host.is_there(dir + "/bInterfaceClass"@) == Ok::<bool, Probe<Text>>(true)
    &&& is_driven_by(dir, module, host)
    &&& class == Some("08"@) || (class == Some("03"@) && said(dir + "/bInterfaceProtocol"@, host)
        == Some("01"@))
}

/// Whether some entry of the directory of PCI devices needs the module.
pub open spec fn some_pci_needs(module: Text, host: Host) -> bool {
    exists|name: Text| #[trigger]
        device_laws::lists("/sys/bus/pci/devices"@, name, host) && pci_needs(
            "/sys/bus/pci/devices"@ + "/"@ + name,
            module,
            host,
        )
}

/// Whether some entry of the directory of USB devices needs the module.
pub open spec fn some_usb_needs(module: Text, host: Host) -> bool {
    exists|name: Text| #[trigger]
        device_laws::lists("/sys/bus/usb/devices"@, name, host) && usb_needs(
            "/sys/bus/usb/devices"@ + "/"@ + name,
            module,
            host,
        )
}

/// Whether the module drives the device of some entry of the directory.
pub open spec fn some_entry_is_driven_by(dir: Text, module: Text, host: Host) -> bool {
    exists|name: Text| #[trigger]
        device_laws::lists(dir, name, host) && is_driven_by(
            dir + "/"@ + name + "/device"@,
            module,
            host,
        )
}

/// Whether there is a wireless device of Broadcom with a profile of its own.
pub open spec fn has_broadcom(host: Host) -> bool {
    exists|name: Text| #[trigger]
        device_laws::lists("/sys/bus/pci/devices"@, name, host) && is_broadcom(
            "/sys/bus/pci/devices"@ + "/"@ + name,
            host,
        )
}

/// Whether there is a neural processing unit of Intel.
pub open spec fn has_npu(host: Host) -> bool {
    exists|name: Text| #[trigger]
        device_laws::lists("/sys/bus/pci/devices"@, name, host) && is_npu(
            "/sys/bus/pci/devices"@ + "/"@ + name,
            host,
        )
}

/// Whether there is a bcache device. A bcachefs has nodes whose names start alike.
pub open spec fn has_bcache(host: Host) -> bool {
    exists|name: Text| #[trigger]
        device_laws::lists("/dev"@, name, host) && "bcache"@.is_prefix_of(name)
            && !"bcachefs"@.is_prefix_of(name)
}

/// Whether there is a logical volume.
pub open spec fn has_lvm(host: Host) -> bool {
    exists|name: Text| #[trigger]
        device_laws::lists("/sys/class/block"@, name, host) && (said(
            "/sys/class/block/"@ + name + "/dm/uuid"@,
            host,
        ) matches Some(uuid) && "LVM-"@.is_prefix_of(uuid))
}

/// Whether the system runs under this virtualization: `systemd-detect-virt` names
/// it.
pub open spec fn runs_under(virt: Text, host: Host) -> bool {
    host.detect_virt() matches Ok(RunResult::Exited { success: true, stdout }) && text::trim(stdout)
        == virt
}

/// Whether the system runs on the machine itself: `systemd-detect-virt` says so,
/// or fails, or is not there.
pub open spec fn runs_on_the_machine(host: Host) -> bool {
    runs_under("none"@, host) || !(host.detect_virt() matches Ok(
        RunResult::Exited { success: true, .. },
    ))
}

/// Whether the processor lists the feature.
pub open spec fn processor_has(cpuinfo: Text, feature: Text) -> bool {
    exists|i: int|
        0 <= i < text::lines(cpuinfo).len() && {
            let fields = text::split(#[trigger] text::lines(cpuinfo)[i], ':');
            &&& "flags"@.is_prefix_of(text::lines(cpuinfo)[i])
            &&& fields.len() >= 2
            &&& text::words(fields[1]).contains(feature)
        }
}

/// Whether the line names the maker of the processor.
pub open spec fn names_maker(line: Text, maker: Text) -> bool {
    text::split_once(line, ':') matches Some((key, value)) && text::trim(key) == "vendor_id"@
        && text::trim(value) == maker
}

/// Whether the line is for the maker of the processor at all.
pub open spec fn is_for_maker(line: Text) -> bool {
    match text::split_once(line, ':') {
        Some((key, _)) => text::trim(key) == "vendor_id"@,
        None => text::trim(line) == "vendor_id"@,
    }
}

/// Whether the processor is of this make: the first line for the maker names it.
pub open spec fn processor_is_by(cpuinfo: Text, maker: Text) -> bool {
    exists|i: int|
        0 <= i < text::lines(cpuinfo).len() && names_maker(#[trigger] text::lines(cpuinfo)[i], maker)
            && forall|j: int|
            0 <= j < i ==> !is_for_maker(#[trigger] text::lines(cpuinfo)[j])
}

/// Whether the device with this directory on the bus needs the module.
pub open spec fn needs(bus: Bus, dir: Text, module: Text, host: Host) -> bool {
    match bus {
        Bus::Pci => pci_needs(dir, module, host),
        Bus::Usb => usb_needs(dir, module, host),
        Bus::Storage => is_driven_by(dir + "/device"@, module, host),
    }
}

/// Whether the device with this directory on the bus asks for the import.
pub open spec fn imports(bus: Bus, dir: Text, x: Text, host: Host) -> bool {
    bus is Pci && ((x == "(modulesPath + \"/hardware/network/broadcom-43xx.nix\")"@ && is_broadcom(
        dir,
        host,
    )) || (x == "(modulesPath + \"/hardware/cpu/intel-npu.nix\")"@ && is_npu(dir, host)))
}

/// Whether the device with this directory on the bus asks for the attribute.
pub open spec fn sets(bus: Bus, dir: Text, x: Text, host: Host) -> bool {
    bus is Pci && x == "hardware.cpu.intel.npu.enable = true;"@ && is_npu(dir, host)
}

/// Whether all that a device has no say in is as it was.
pub open spec fn keeps(a: HwModel, b: HwModel) -> bool {
    &&& b.kmods == a.kmods
    &&& b.initrd_kmods == a.initrd_kmods
    &&& b.module_packages == a.module_packages
    &&& b.virt == a.virt
    &&& b.has_efi == a.has_efi
    &&& b.has_extlinux == a.has_extlinux
    &&& b.has_lvm == a.has_lvm
    &&& a.attrs.len() > 0 ==> b.attrs.len() > 0 && b.attrs[0] == a.attrs[0]
}

proof fn added(list: Seq<Text>, y: Text, x: Text)
    ensures
        text::with_text(list, y).contains(x) <==> list.contains(x) || x == y,
        list.len() > 0 ==> text::with_text(list, y).len() > 0 && text::with_text(list, y)[0]
            == list[0],
{
    if !list.contains(y) {
        let more = list.push(y);
        assert(more[list.len() as int] == y);
        if list.contains(x) {
            let i = choose|i: int| 0 <= i < list.len() && list[i] == x;
            assert(more[i] == x);
        }
        if more.contains(x) && x != y {
            let i = choose|i: int| 0 <= i < more.len() && more[i] == x;
            assert(list[i] == x);
        }
    }
}

proof fn broadcom_ids(d: Text)
    ensures
        scan::is_broadcom_fullmac(d) <==> seq![
            "0x43a3"@,
            "0x43df"@,
            "0x43ec"@,
            "0x43d3"@,
            "0x43d9"@,
            "0x43e9"@,
            "0x43ba"@,
            "0x43bb"@,
            "0x43bc"@,
            "0xaa52"@,
            "0x43ca"@,
            "0x43cb"@,
            "0x43cc"@,
            "0x43c3"@,
            "0x43c4"@,
            "0x43c5"@,
        ].contains(d),
{
    let ids = seq![
        "0x43a3"@,
        "0x43df"@,
        "0x43ec"@,
        "0x43d3"@,
        "0x43d9"@,
        "0x43e9"@,
        "0x43ba"@,
        "0x43bb"@,
        "0x43bc"@,
        "0xaa52"@,
        "0x43ca"@,
        "0x43cb"@,
        "0x43cc"@,
        "0x43c3"@,
        "0x43c4"@,
        "0x43c5"@,
    ];
    assert(ids[0] == "0x43a3"@);
    assert(ids[1] == "0x43df"@);
    assert(ids[2] == "0x43ec"@);
    assert(ids[3] == "0x43d3"@);
    assert(ids[4] == "0x43d9"@);
    assert(ids[5] == "0x43e9"@);
    assert(ids[6] == "0x43ba"@);
    assert(ids[7] == "0x43bb"@);
    assert(ids[8] == "0x43bc"@);
    assert(ids[9] == "0xaa52"@);
    assert(ids[10] == "0x43ca"@);
    assert(ids[11] == "0x43cb"@);
    assert(ids[12] == "0x43cc"@);
    assert(ids[13] == "0x43c3"@);
    assert(ids[14] == "0x43c4"@);
    assert(ids[15] == "0x43c5"@);
}

proof fn npu_ids(d: Text)
    ensures
        scan::is_intel_npu(d) <==> seq![
            "0xfd3e"@,
            "0x7d1d"@,
            "0xad1d"@,
            "0x643e"@,
            "0xb03e"@,
        ].contains(d),
{
    let ids = seq!["0xfd3e"@, "0x7d1d"@, "0xad1d"@, "0x643e"@, "0xb03e"@];
    assert(ids[0] == "0xfd3e"@);
    assert(ids[1] == "0x7d1d"@);
    assert(ids[2] == "0xad1d"@);
    assert(ids[3] == "0x643e"@);
    assert(ids[4] == "0xb03e"@);
}

proof fn pci_device_adds(s: HwModel, dir: Text, host: Host, next: HwModel, x: Text)
    requires
        scan::pci_checked(s, dir, host) == Ok::<HwModel, Probe<Text>>(next),
    ensures
        next.initrd_available.contains(x) <==> s.initrd_available.contains(x) || pci_needs(
            dir,
            x,
            host,
        ),
        next.imports.contains(x) <==> s.imports.contains(x) || imports(Bus::Pci, dir, x, host),
        next.attrs.contains(x) <==> s.attrs.contains(x) || sets(Bus::Pci, dir, x, host),
        keeps(s, next),
{
    let v = said(dir + "/vendor"@, host);
    let d = said(dir + "/device"@, host);
    let c = said(dir + "/class"@, host);
    if v is Some && d is Some && c is Some {
        let vendor = v->Some_0;
        let device = d->Some_0;
        let class = c->Some_0;
        assert(is_pci_device(dir, vendor, device, class, host));
        broadcom_ids(device);
        npu_ids(device);
        let module = scan::module_of(dir, host)->Ok_0;
        let s1 = scan::with_controller(s, class, module);
        let s2 = scan::with_broadcom(s1, vendor, device);
        let s3 = scan::with_virtio(s2, vendor, device);
        if let Some(m) = module {
            added(s.initrd_available, m, x);
            assert(is_driven_by(dir, m, host));
        }
        added(s1.imports, "(modulesPath + \"/hardware/network/broadcom-43xx.nix\")"@, x);
        added(s2.initrd_available, "virtio_scsi"@, x);
        added(s3.imports, "(modulesPath + \"/hardware/cpu/intel-npu.nix\")"@, x);
        added(s3.attrs, "hardware.cpu.intel.npu.enable = true;"@, x);
    }
}

/// A device adds the module that it needs, the import and the attribute that it asks
/// for, to what is there, and changes nothing else.
pub proof fn device_adds(bus: Bus, s: HwModel, dir: Text, host: Host, next: HwModel, x: Text)
    requires
        scan::checked(bus, s, dir, host) == Ok::<HwModel, Probe<Text>>(next),
    ensures
        next.initrd_available.contains(x) <==> s.initrd_available.contains(x) || needs(
            bus,
            dir,
            x,
            host,
        ),
        next.imports.contains(x) <==> s.imports.contains(x) || imports(bus, dir, x, host),
        next.attrs.contains(x) <==> s.attrs.contains(x) || sets(bus, dir, x, host),
        keeps(s, next),
{
    match bus {
        Bus::Pci => {
            pci_device_adds(s, dir, host, next, x);
        },
        Bus::Usb => {
            reveal_strlit("01");
            reveal_strlit("03");
            reveal_strlit("08");
            assert("01"@.len() == 2);
            assert("08"@[1] == '8' && "03"@[1] == '3');
            if let Ok(Some(m)) = scan::module_of(dir, host) {
                added(s.initrd_available, m, x);
            }
        },
        Bus::Storage => {
            if let Ok(Some(m)) = scan::module_of(dir + "/device"@, host) {
                added(s.initrd_available, m, x);
            }
        },
    }
}

spec fn some_needs(bus: Bus, dirs: Seq<Text>, x: Text, host: Host) -> bool {
    exists|i: int| 0 <= i < dirs.len() && needs(bus, #[trigger] dirs[i], x, host)
}

spec fn some_imports(bus: Bus, dirs: Seq<Text>, x: Text, host: Host) -> bool {
    exists|i: int| 0 <= i < dirs.len() && imports(bus, #[trigger] dirs[i], x, host)
}

spec fn some_sets(bus: Bus, dirs: Seq<Text>, x: Text, host: Host) -> bool {
    exists|i: int| 0 <= i < dirs.len() && sets(bus, #[trigger] dirs[i], x, host)
}

proof fn first_or_rest(bus: Bus, dirs: Seq<Text>, x: Text, host: Host)
    requires
        dirs.len() > 0,
    ensures
        some_needs(bus, dirs, x, host) <==> needs(bus, dirs[0], x, host) || some_needs(
            bus,
            dirs.drop_first(),
            x,
            host,
        ),
        some_imports(bus, dirs, x, host) <==> imports(bus, dirs[0], x, host) || some_imports(
            bus,
            dirs.drop_first(),
            x,
            host,
        ),
        some_sets(bus, dirs, x, host) <==> sets(bus, dirs[0], x, host) || some_sets(
            bus,
            dirs.drop_first(),
            x,
            host,
        ),
{
    let rest = dirs.drop_first();
    if some_needs(bus, rest, x, host) {
        let i = choose|i: int| 0 <= i < rest.len() && needs(bus, #[trigger] rest[i], x, host);
        assert(dirs[i + 1] == rest[i]);
    }
    if some_needs(bus, dirs, x, host) && !needs(bus, dirs[0], x, host) {
        let i = choose|i: int| 0 <= i < dirs.len() && needs(bus, #[trigger] dirs[i], x, host);
        assert(rest[i - 1] == dirs[i]);
    }
    if some_imports(bus, rest, x, host) {
        let i = choose|i: int| 0 <= i < rest.len() && imports(bus, #[trigger] rest[i], x, host);
        assert(dirs[i + 1] == rest[i]);
    }
    if some_imports(bus, dirs, x, host) && !imports(bus, dirs[0], x, host) {
        let i = choose|i: int| 0 <= i < dirs.len() && imports(bus, #[trigger] dirs[i], x, host);
        assert(rest[i - 1] == dirs[i]);
    }
    if some_sets(bus, rest, x, host) {
        let i = choose|i: int| 0 <= i < rest.len() && sets(bus, #[trigger] rest[i], x, host);
        assert(dirs[i + 1] == rest[i]);
    }
    if some_sets(bus, dirs, x, host) && !sets(bus, dirs[0], x, host) {
        let i = choose|i: int| 0 <= i < dirs.len() && sets(bus, #[trigger] dirs[i], x, host);
        assert(rest[i - 1] == dirs[i]);
    }
}

proof fn devices_add(bus: Bus, s: HwModel, dirs: Seq<Text>, host: Host, next: HwModel, x: Text)
    requires
        scan::all_checked(bus, s, dirs, host) == Ok::<HwModel, Probe<Text>>(next),
    ensures
        next.initrd_available.contains(x) <==> s.initrd_available.contains(x) || some_needs(
            bus,
            dirs,
            x,
            host,
        ),
        next.imports.contains(x) <==> s.imports.contains(x) || some_imports(bus, dirs, x, host),
        next.attrs.contains(x) <==> s.attrs.contains(x) || some_sets(bus, dirs, x, host),
        keeps(s, next),
    decreases dirs.len(),
{
    if dirs.len() > 0 {
        let mid = scan::checked(bus, s, dirs[0], host)->Ok_0;
        device_adds(bus, s, dirs[0], host, mid, x);
        devices_add(bus, mid, dirs.drop_first(), host, next, x);
        first_or_rest(bus, dirs, x, host);
    }
}

spec fn entry_needs(bus: Bus, dir: Text, x: Text, host: Host) -> bool {
    exists|name: Text| #[trigger]
        device_laws::lists(dir, name, host) && needs(bus, dir + "/"@ + name, x, host)
}

spec fn entry_imports(bus: Bus, dir: Text, x: Text, host: Host) -> bool {
    exists|name: Text| #[trigger]
        device_laws::lists(dir, name, host) && imports(bus, dir + "/"@ + name, x, host)
}

spec fn entry_sets(bus: Bus, dir: Text, x: Text, host: Host) -> bool {
    exists|name: Text| #[trigger]
        device_laws::lists(dir, name, host) && sets(bus, dir + "/"@ + name, x, host)
}

proof fn walk_adds(bus: Bus, s: HwModel, dir: Text, host: Host, next: HwModel, x: Text)
    requires
        scan::walked(bus, s, dir, host) == Ok::<HwModel, Halt<Text>>(next),
    ensures
        next.initrd_available.contains(x) <==> s.initrd_available.contains(x) || entry_needs(
            bus,
            dir,
            x,
            host,
        ),
        next.imports.contains(x) <==> s.imports.contains(x) || entry_imports(bus, dir, x, host),
        next.attrs.contains(x) <==> s.attrs.contains(x) || entry_sets(bus, dir, x, host),
        keeps(s, next),
{
    if let Ok(DirRead::Names(names, _)) = host.dir(dir) {
        let dirs = names.map_values(|n: Text| device::entry_path(dir, n));
        devices_add(bus, s, dirs, host, next, x);
        assert forall|name: Text| #[trigger] device_laws::lists(dir, name, host) implies exists|
            i: int,
        |
            0 <= i < dirs.len() && #[trigger] dirs[i] == dir + "/"@ + name by {
            let i = choose|i: int| 0 <= i < names.len() && names[i] == name;
            assert(dirs[i] == dir + "/"@ + name);
        }
        assert forall|i: int| 0 <= i < dirs.len() implies device_laws::lists(
            dir,
            names[i],
            host,
        ) && #[trigger] dirs[i] == dir + "/"@ + names[i] by {
            assert(names.contains(names[i]));
        }
    }
}

spec fn is_walk(
    host: Host,
    s0: HwModel,
    s1: HwModel,
    s2: HwModel,
    s3: HwModel,
    s4: HwModel,
) -> bool {
    &&& scan::walked(Bus::Pci, s0, "/sys/bus/pci/devices"@, host) == Ok::<HwModel, Halt<Text>>(s1)
    &&& scan::walked(Bus::Usb, s1, "/sys/bus/usb/devices"@, host) == Ok::<HwModel, Halt<Text>>(s2)
    &&& scan::walked(Bus::Storage, s2, "/sys/class/block"@, host) == Ok::<HwModel, Halt<Text>>(s3)
    &&& scan::walked(Bus::Storage, s3, "/sys/class/mmc_host"@, host) == Ok::<HwModel, Halt<Text>>(
        s4,
    )
}

proof fn walks_add(s: HwModel, host: Host, next: HwModel, x: Text)
    requires
        scan::buses_walked(s, host) == Ok::<HwModel, Halt<Text>>(next),
    ensures
        next.initrd_available.contains(x) <==> s.initrd_available.contains(x) || some_pci_needs(
            x,
            host,
        ) || some_usb_needs(x, host) || some_entry_is_driven_by("/sys/class/block"@, x, host)
            || some_entry_is_driven_by("/sys/class/mmc_host"@, x, host),
        next.imports.contains(x) <==> s.imports.contains(x) || (x
            == "(modulesPath + \"/hardware/network/broadcom-43xx.nix\")"@ && has_broadcom(host))
            || (x == "(modulesPath + \"/hardware/cpu/intel-npu.nix\")"@ && has_npu(host)),
        next.attrs.contains(x) <==> s.attrs.contains(x) || (x
            == "hardware.cpu.intel.npu.enable = true;"@ && has_npu(host)),
        keeps(s, next),
{
    let a = scan::walked(Bus::Pci, s, "/sys/bus/pci/devices"@, host)->Ok_0;
    let b = scan::walked(Bus::Usb, a, "/sys/bus/usb/devices"@, host)->Ok_0;
    let c = scan::walked(Bus::Storage, b, "/sys/class/block"@, host)->Ok_0;
    assert(is_walk(host, s, a, b, c, next));
    walk_adds(Bus::Pci, s, "/sys/bus/pci/devices"@, host, a, x);
    walk_adds(Bus::Usb, a, "/sys/bus/usb/devices"@, host, b, x);
    walk_adds(Bus::Storage, b, "/sys/class/block"@, host, c, x);
    walk_adds(Bus::Storage, c, "/sys/class/mmc_host"@, host, next, x);
    assert(entry_needs(Bus::Pci, "/sys/bus/pci/devices"@, x, host) <==> some_pci_needs(x, host));
    assert(entry_needs(Bus::Usb, "/sys/bus/usb/devices"@, x, host) <==> some_usb_needs(x, host));
    assert(entry_needs(Bus::Storage, "/sys/class/block"@, x, host) <==> some_entry_is_driven_by(
        "/sys/class/block"@,
        x,
        host,
    ));
    assert(entry_needs(Bus::Storage, "/sys/class/mmc_host"@, x, host) <==> some_entry_is_driven_by(
        "/sys/class/mmc_host"@,
        x,
        host,
    ));
    assert(entry_imports(Bus::Pci, "/sys/bus/pci/devices"@, x, host) <==> (x
        == "(modulesPath + \"/hardware/network/broadcom-43xx.nix\")"@ && has_broadcom(host)) || (x
        == "(modulesPath + \"/hardware/cpu/intel-npu.nix\")"@ && has_npu(host)));
    assert(entry_sets(Bus::Pci, "/sys/bus/pci/devices"@, x, host) <==> x
        == "hardware.cpu.intel.npu.enable = true;"@ && has_npu(host));
    assert(!entry_imports(Bus::Usb, "/sys/bus/usb/devices"@, x, host));
    assert(!entry_imports(Bus::Storage, "/sys/class/block"@, x, host));
    assert(!entry_imports(Bus::Storage, "/sys/class/mmc_host"@, x, host));
    assert(!entry_sets(Bus::Usb, "/sys/bus/usb/devices"@, x, host));
    assert(!entry_sets(Bus::Storage, "/sys/class/block"@, x, host));
    assert(!entry_sets(Bus::Storage, "/sys/class/mmc_host"@, x, host));
}

spec fn first_names(lines: Seq<Text>, maker: Text) -> bool {
    exists|i: int|
        0 <= i < lines.len() && names_maker(#[trigger] lines[i], maker) && forall|j: int|
            0 <= j < i ==> !is_for_maker(#[trigger] lines[j])
}

proof fn maker_is_named(lines: Seq<Text>)
    ensures
        scan::vendor_in(lines) is Intel <==> first_names(lines, "GenuineIntel"@),
        scan::vendor_in(lines) is Amd <==> first_names(lines, "AuthenticAMD"@),
    decreases lines.len(),
{
    reveal_strlit("GenuineIntel");
    reveal_strlit("AuthenticAMD");
    let empty = Seq::<char>::empty();
    assert(text::trim_front(empty, text::Trimmed::Space) == empty);
    assert(text::trim_back(empty, text::Trimmed::Space) == empty);
    assert("GenuineIntel"@[0] == 'G' && "AuthenticAMD"@[0] == 'A');
    if lines.len() > 0 {
        let rest = lines.drop_first();
        if is_for_maker(lines[0]) {
            assert(!first_names(lines, "GenuineIntel"@) || names_maker(
                lines[0],
                "GenuineIntel"@,
            ));
            assert(!first_names(lines, "AuthenticAMD"@) || names_maker(
                lines[0],
                "AuthenticAMD"@,
            ));
        } else {
            maker_is_named(rest);
            first_is_shifted(lines, "GenuineIntel"@);
            first_is_shifted(lines, "AuthenticAMD"@);
        }
    }
}

proof fn first_is_shifted(lines: Seq<Text>, maker: Text)
    requires
        lines.len() > 0,
        !is_for_maker(lines[0]),
    ensures
        first_names(lines, maker) <==> first_names(lines.drop_first(), maker),
{
    let rest = lines.drop_first();
    if first_names(lines, maker) {
        let i = choose|i: int|
            0 <= i < lines.len() && names_maker(#[trigger] lines[i], maker) && forall|j: int|
                0 <= j < i ==> !is_for_maker(#[trigger] lines[j]);
        assert(rest[i - 1] == lines[i]);
        assert forall|j: int| 0 <= j < i - 1 implies !is_for_maker(#[trigger] rest[j]) by {
            assert(rest[j] == lines[j + 1]);
        }
    }
    if first_names(rest, maker) {
        let i = choose|i: int|
            0 <= i < rest.len() && names_maker(#[trigger] rest[i], maker) && forall|j: int|
                0 <= j < i ==> !is_for_maker(#[trigger] rest[j]);
        assert(lines[i + 1] == rest[i]);
        assert forall|j: int| 0 <= j < i + 1 implies !is_for_maker(#[trigger] lines[j]) by {
            if j > 0 {
                assert(rest[j - 1] == lines[j]);
            }
        }
    }
}

proof fn lvm_is_found(names: Seq<Text>, host: Host, found: bool)
    requires
        scan::some_lvm(names, host) == Ok::<bool, Probe<Text>>(found),
    ensures
        found <==> exists|i: int| 0 <= i < names.len() && #[trigger] is_lvm(names[i], host),
    decreases names.len(),
{
    if names.len() > 0 {
        let rest = names.drop_first();
        reveal_strlit("LVM-");
        assert(!"LVM-"@.is_prefix_of(Seq::<char>::empty()));
        if is_lvm(names[0], host) {
        } else {
            lvm_is_found(rest, host, found);
            if found {
                let i = choose|i: int| 0 <= i < rest.len() && #[trigger] is_lvm(rest[i], host);
                assert(is_lvm(names[i + 1], host));
            }
            if exists|i: int| 0 <= i < names.len() && #[trigger] is_lvm(names[i], host) {
                let i = choose|i: int| 0 <= i < names.len() && #[trigger] is_lvm(names[i], host);
                assert(is_lvm(rest[i - 1], host));
            }
        }
    }
}

spec fn is_lvm(name: Text, host: Host) -> bool {
    said("/sys/class/block/"@ + name + "/dm/uuid"@, host) matches Some(uuid)
        && "LVM-"@.is_prefix_of(uuid)
}

proof fn storage_is_found(s: HwModel, host: Host, next: HwModel, x: Text)
    requires
        scan::storage_checked(s, host) == Ok::<HwModel, Probe<Text>>(next),
    ensures
        next.initrd_available.contains(x) <==> s.initrd_available.contains(x) || (x == "bcache"@
            && has_bcache(host)),
        next.initrd_kmods.contains(x) <==> s.initrd_kmods.contains(x) || (x == "dm-snapshot"@
            && has_lvm(host)),
        next.has_lvm == (s.has_lvm || has_lvm(host)),
        next == (HwModel {
            initrd_available: next.initrd_available,
            initrd_kmods: next.initrd_kmods,
            has_lvm: next.has_lvm,
            ..s
        }),
{
    let nodes = device::dir_names("/dev"@, host)->Ok_0;
    let blocks = device::dir_names("/sys/class/block"@, host)->Ok_0;
    let lvm = scan::some_lvm(blocks, host)->Ok_0;
    lvm_is_found(blocks, host, lvm);
    added(s.initrd_available, "bcache"@, x);
    added(s.initrd_kmods, "dm-snapshot"@, x);
    assert(scan::bcache_present(host) == Ok::<bool, Probe<Text>>(has_bcache(host))) by {
        if has_bcache(host) {
            let name = choose|name: Text| #[trigger]
                device_laws::lists("/dev"@, name, host) && "bcache"@.is_prefix_of(name)
                    && !"bcachefs"@.is_prefix_of(name);
            let i = choose|i: int| 0 <= i < nodes.len() && nodes[i] == name;
            assert(scan::is_bcache(nodes[i]));
        }
        if exists|i: int| 0 <= i < nodes.len() && scan::is_bcache(#[trigger] nodes[i]) {
            let i = choose|i: int| 0 <= i < nodes.len() && scan::is_bcache(#[trigger] nodes[i]);
            assert(nodes.contains(nodes[i]));
            assert(device_laws::lists("/dev"@, nodes[i], host));
        }
    }
    assert(lvm == has_lvm(host)) by {
        if has_lvm(host) {
            let name = choose|name: Text| #[trigger]
                device_laws::lists("/sys/class/block"@, name, host) && is_lvm(name, host);
            let i = choose|i: int| 0 <= i < blocks.len() && blocks[i] == name;
            assert(is_lvm(blocks[i], host));
        }
        if lvm {
            let i = choose|i: int| 0 <= i < blocks.len() && #[trigger] is_lvm(blocks[i], host);
            assert(blocks.contains(blocks[i]));
            assert(device_laws::lists("/sys/class/block"@, blocks[i], host));
        }
    }
}

proof fn joined_contains(a: Seq<Text>, b: Seq<Text>, x: Text)
    ensures
        (a + b).contains(x) <==> a.contains(x) || b.contains(x),
        a.len() > 0 ==> (a + b).len() > 0 && (a + b)[0] == a[0],
{
    if a.contains(x) {
        let i = choose|i: int| 0 <= i < a.len() && a[i] == x;
        assert((a + b)[i] == x);
    }
    if b.contains(x) {
        let i = choose|i: int| 0 <= i < b.len() && b[i] == x;
        assert((a + b)[a.len() + i] == x);
    }
    if (a + b).contains(x) && !a.contains(x) {
        let i = choose|i: int| 0 <= i < (a + b).len() && (a + b)[i] == x;
        if i < a.len() {
            assert(a[i] == x);
        } else {
            assert(b[i - a.len()] == x);
        }
    }
}

/// Whether the attribute is one that the virtualization asks for: that of its
/// guest, or on the machine itself the one that updates the microcode of the
/// processor's maker.
pub open spec fn is_asked_for_by_virt(x: Text, cpuinfo: Text, host: Host) -> bool {
    ||| runs_under("oracle"@, host) && x == "virtualisation.virtualbox.guest.enable = true;"@
    ||| runs_under("parallels"@, host) && x == "hardware.parallels.enable = true;"@
    ||| runs_under("parallels"@, host) && x
        == "nixpkgs.config.allowUnfreePackages = [ \"prl-tools\" ];"@
    ||| runs_under("microsoft"@, host) && x == "virtualisation.hypervGuest.enable = true;"@
    ||| runs_under("systemd-nspawn"@, host) && x == "boot.isNspawnContainer = true;"@
    ||| runs_on_the_machine(host) && processor_is_by(cpuinfo, "AuthenticAMD"@) && x
        == "hardware.cpu.amd.updateMicrocode = lib.mkDefault config.hardware.enableRedistributableFirmware;"@
    ||| runs_on_the_machine(host) && processor_is_by(cpuinfo, "GenuineIntel"@) && x
        == "hardware.cpu.intel.updateMicrocode = lib.mkDefault config.hardware.enableRedistributableFirmware;"@
}

/// The names that `systemd-detect-virt` prints are all different.
proof fn virt_names_differ()
    ensures
        "none"@ != "oracle"@,
        "none"@ != "parallels"@,
        "none"@ != "qemu"@,
        "none"@ != "kvm"@,
        "none"@ != "bochs"@,
        "none"@ != "microsoft"@,
        "none"@ != "systemd-nspawn"@,
        "oracle"@ != "parallels"@,
        "oracle"@ != "qemu"@,
        "oracle"@ != "kvm"@,
        "oracle"@ != "bochs"@,
        "oracle"@ != "microsoft"@,
        "oracle"@ != "systemd-nspawn"@,
        "parallels"@ != "qemu"@,
        "parallels"@ != "kvm"@,
        "parallels"@ != "bochs"@,
        "parallels"@ != "microsoft"@,
        "parallels"@ != "systemd-nspawn"@,
        "qemu"@ != "kvm"@,
        "qemu"@ != "bochs"@,
        "qemu"@ != "microsoft"@,
        "qemu"@ != "systemd-nspawn"@,
        "kvm"@ != "bochs"@,
        "kvm"@ != "microsoft"@,
        "kvm"@ != "systemd-nspawn"@,
        "bochs"@ != "microsoft"@,
        "bochs"@ != "systemd-nspawn"@,
        "microsoft"@ != "systemd-nspawn"@,
{
    reveal_strlit("none");
    reveal_strlit("oracle");
    reveal_strlit("parallels");
    reveal_strlit("qemu");
    reveal_strlit("kvm");
    reveal_strlit("bochs");
    reveal_strlit("microsoft");
    reveal_strlit("systemd-nspawn");
    assert("none"@[0] == 'n' && "oracle"@[0] == 'o' && "parallels"@[0] == 'p' && "qemu"@[0] == 'q'
        && "kvm"@[0] == 'k' && "bochs"@[0] == 'b' && "microsoft"@[0] == 'm' && "systemd-nspawn"@[0]
        == 's');
}

/// The scan says which virtualization the system runs under: by the name that
/// `systemd-detect-virt` prints, if it is one of these.
pub proof fn virtualization_is_the_one_named(host: Host, hw: HwModel)
    requires
        scan::scanned(host) == Ok::<HwModel, Halt<Text>>(hw),
    ensures
        hw.virt == Virt::Bare <==> runs_on_the_machine(host),
        hw.virt == Virt::Oracle <==> runs_under("oracle"@, host),
        hw.virt == Virt::Parallels <==> runs_under("parallels"@, host),
        hw.virt == Virt::Qemu <==> runs_under("qemu"@, host),
        hw.virt == Virt::Kvm <==> runs_under("kvm"@, host),
        hw.virt == Virt::Bochs <==> runs_under("bochs"@, host),
        hw.virt == Virt::Microsoft <==> runs_under("microsoft"@, host),
        hw.virt == Virt::SystemdNspawn <==> runs_under("systemd-nspawn"@, host),
{
    virt_names_differ();
}

/// A USB interface adds the module that drives it if it is for mass storage or for a
/// boot keyboard, and changes nothing else.
pub proof fn usb_interface_adds(s: HwModel, dir: Text, host: Host, next: HwModel, x: Text)
    requires
        scan::usb_checked(s, dir, host) == Ok::<HwModel, Probe<Text>>(next),
    ensures
        ({
            let class = said(dir + "/bInterfaceClass"@, host);
            let protocol = said(dir + "/bInterfaceProtocol"@, host);
            let boots = class == Some("08"@) || (class == Some("03"@) && protocol == Some("01"@));
            next.initrd_available.contains(x) <==> s.initrd_available.contains(x) || (boots
                && is_driven_by(dir, x, host))
        }),
        next == (HwModel { initrd_available: next.initrd_available, ..s }),
{
    reveal_strlit("01");
    reveal_strlit("03");
    reveal_strlit("08");
    assert("01"@.len() == 2);
    assert("08"@[1] == '8' && "03"@[1] == '3');
    if let Ok(Some(m)) = scan::module_of(dir, host) {
        added(s.initrd_available, m, x);
    }
}

/// A PCI device adds its module if its class is that of a boot controller, the module
/// of virtio SCSI controllers if it is one, and the profiles of wireless devices and
/// processing units that have one; whatever is there stays there.
pub proof fn pci_device_adds_by_its_numbers(
    s: HwModel,
    vendor: Text,
    device: Text,
    class: Text,
    module: Option<Text>,
    x: Text,
)
    ensures
        ({
            let next = scan::with_pci(s, vendor, device, class, module);
            let npu = vendor == "0x8086"@ && seq![
                "0xfd3e"@,
                "0x7d1d"@,
                "0xad1d"@,
                "0x643e"@,
                "0xb03e"@,
            ].contains(device);
            &&& next.initrd_available.contains(x) <==> {
                ||| s.initrd_available.contains(x)
                ||| module == Some(x) && ("0x01"@.is_prefix_of(class) || "0x0c00"@.is_prefix_of(
                    class,
                ) || "0x0c03"@.is_prefix_of(class))
                ||| x == "virtio_scsi"@ && vendor == "0x1af4"@ && (device == "0x1004"@ || device
                    == "0x1048"@)
            }
            &&& next.imports.contains(x) <==> {
                ||| s.imports.contains(x)
                ||| x == "(modulesPath + \"/hardware/network/broadcom-43xx.nix\")"@ && vendor
                    == "0x14e4"@ && scan::is_broadcom_fullmac(device)
                ||| x == "(modulesPath + \"/hardware/cpu/intel-npu.nix\")"@ && npu
            }
            &&& next.attrs.contains(x) <==> s.attrs.contains(x) || (x
                == "hardware.cpu.intel.npu.enable = true;"@ && npu)
            &&& keeps(s, next)
        }),
{
    npu_ids(device);
    let a = scan::with_controller(s, class, module);
    let b = scan::with_broadcom(a, vendor, device);
    let c = scan::with_virtio(b, vendor, device);
    if let Some(m) = module {
        added(s.initrd_available, m, x);
    }
    added(a.imports, "(modulesPath + \"/hardware/network/broadcom-43xx.nix\")"@, x);
    added(b.initrd_available, "virtio_scsi"@, x);
    added(c.imports, "(modulesPath + \"/hardware/cpu/intel-npu.nix\")"@, x);
    added(c.attrs, "hardware.cpu.intel.npu.enable = true;"@, x);
}

/// The processor adds the attribute for the platform at the end and the modules for
/// virtual machines that its features ask for, and changes nothing else.
pub proof fn processor_adds(s: HwModel, platform: Text, cpuinfo: Text, x: Text)
    ensures
        ({
            let next = scan::with_cpu(s, platform, cpuinfo);
            &&& next.attrs == s.attrs.push(
                "nixpkgs.hostPlatform = lib.mkDefault \""@ + platform + "\";"@,
            )
            &&& next.kmods.contains(x) <==> {
                ||| s.kmods.contains(x)
                ||| x == "kvm-intel"@ && processor_has(cpuinfo, "vmx"@)
                ||| x == "kvm-amd"@ && processor_has(cpuinfo, "svm"@)
            }
            &&& next == (HwModel { attrs: next.attrs, kmods: next.kmods, ..s })
        }),
{
    added(s.kmods, "kvm-intel"@, x);
    added(s.kmods, "kvm-amd"@, x);
    added(text::with_text(s.kmods, "kvm-intel"@), "kvm-amd"@, x);
    assert(processor_has(cpuinfo, "vmx"@) <==> scan::has_feature(cpuinfo, "vmx"@));
    assert(processor_has(cpuinfo, "svm"@) <==> scan::has_feature(cpuinfo, "svm"@));
}

/// The virtualization is noted; it adds its attributes at the end and the profile
/// that it asks for, and changes nothing else. QEMU, KVM and Bochs ask for the
/// profile of a guest, the machine itself for the one of undetected hardware and for
/// the microcode of its processor.
pub proof fn virtualization_adds(s: HwModel, virt: Virt, vendor: CpuVendor, x: Text)
    ensures
        ({
            let next = scan::with_virt(s, virt, vendor);
            &&& next.virt == virt
            &&& next.imports.contains(x) <==> {
                ||| s.imports.contains(x)
                ||| x == "(modulesPath + \"/profiles/qemu-guest.nix\")"@ && (virt == Virt::Qemu
                    || virt == Virt::Kvm || virt == Virt::Bochs)
                ||| x == "(modulesPath + \"/installer/scan/not-detected.nix\")"@ && virt
                    == Virt::Bare
            }
            &&& s.attrs.is_prefix_of(next.attrs)
            &&& next.attrs.skip(s.attrs.len() as int) == match (virt, vendor) {
                (Virt::Oracle, _) => seq!["virtualisation.virtualbox.guest.enable = true;"@],
                (Virt::Parallels, _) => seq![
                    "hardware.parallels.enable = true;"@,
                    "nixpkgs.config.allowUnfreePackages = [ \"prl-tools\" ];"@,
                ],
                (Virt::Microsoft, _) => seq!["virtualisation.hypervGuest.enable = true;"@],
                (Virt::SystemdNspawn, _) => seq!["boot.isNspawnContainer = true;"@],
                (Virt::Bare, CpuVendor::Amd) => seq![
                    "hardware.cpu.amd.updateMicrocode = lib.mkDefault config.hardware.enableRedistributableFirmware;"@,
                ],
                (Virt::Bare, CpuVendor::Intel) => seq![
                    "hardware.cpu.intel.updateMicrocode = lib.mkDefault config.hardware.enableRedistributableFirmware;"@,
                ],
                _ => Seq::empty(),
            }
            &&& next == (HwModel { virt, imports: next.imports, attrs: next.attrs, ..s })
        }),
{
    let next = scan::with_virt(s, virt, vendor);
    added(s.imports, "(modulesPath + \"/profiles/qemu-guest.nix\")"@, x);
    added(s.imports, "(modulesPath + \"/installer/scan/not-detected.nix\")"@, x);
    let more = scan::virt_attrs(virt, vendor);
    assert(next.attrs == s.attrs + more);
    assert(s.attrs =~= (s.attrs + more).subrange(0, s.attrs.len() as int));
    assert((s.attrs + more).skip(s.attrs.len() as int) =~= more);
}

/// A bcache device adds its module, a logical volume the one for snapshots; that there
/// is a logical volume is noted and never forgotten, and nothing else changes.
pub proof fn storage_adds(s: HwModel, bcache: bool, lvm: bool, x: Text)
    ensures
        ({
            let next = scan::with_storage(s, bcache, lvm);
            &&& next.initrd_available.contains(x) <==> s.initrd_available.contains(x) || (bcache
                && x == "bcache"@)
            &&& next.initrd_kmods.contains(x) <==> s.initrd_kmods.contains(x) || (lvm && x
                == "dm-snapshot"@)
            &&& next.has_lvm <==> s.has_lvm || lvm
            &&& next == (HwModel {
                initrd_available: next.initrd_available,
                initrd_kmods: next.initrd_kmods,
                has_lvm: next.has_lvm,
                ..s
            })
        }),
{
    added(s.initrd_available, "bcache"@, x);
    added(s.initrd_kmods, "dm-snapshot"@, x);
}

/// What the scan lists, element by element.
///
/// A module is made available to the initial RAM disk exactly if a PCI device, a
/// USB interface, a block device or an MMC host needs it, or if it is the one of
/// bcache and there is such a device. The one for snapshots is loaded there
/// exactly if there is a logical volume. The modules for virtual machines are
/// loaded exactly if the processor lists the feature.
///
/// A profile is imported exactly if a wireless device of Broadcom or a neural
/// processing unit of Intel asks for it; or if it is that of a QEMU guest and the
/// system runs under QEMU, KVM or Bochs; or if it is the one for undetected
/// hardware and the system runs on the machine itself.
///
/// An attribute is set exactly if it names the platform, enables such a processing
/// unit, or is asked for by the virtualization.
pub proof fn scan_lists_what_is_there(host: Host, cpuinfo: Text, hw: HwModel, x: Text)
    requires
        host.file("/proc/cpuinfo"@) == Ok::<FileRead<Text>, Probe<Text>>(FileRead::Text(cpuinfo)),
        scan::scanned(host) == Ok::<HwModel, Halt<Text>>(hw),
    ensures
        hw.initrd_available.contains(x) <==> {
            ||| some_pci_needs(x, host)
            ||| some_usb_needs(x, host)
            ||| some_entry_is_driven_by("/sys/class/block"@, x, host)
            ||| some_entry_is_driven_by("/sys/class/mmc_host"@, x, host)
            ||| x == "bcache"@ && has_bcache(host)
        },
        hw.initrd_kmods.contains(x) <==> x == "dm-snapshot"@ && has_lvm(host),
        hw.kmods.contains(x) <==> {
            ||| x == "kvm-intel"@ && processor_has(cpuinfo, "vmx"@)
            ||| x == "kvm-amd"@ && processor_has(cpuinfo, "svm"@)
        },
        hw.imports.contains(x) <==> {
            ||| x == "(modulesPath + \"/hardware/network/broadcom-43xx.nix\")"@ && has_broadcom(
                host,
            )
            ||| x == "(modulesPath + \"/hardware/cpu/intel-npu.nix\")"@ && has_npu(host)
            ||| x == "(modulesPath + \"/profiles/qemu-guest.nix\")"@ && (runs_under("qemu"@, host)
                || runs_under("kvm"@, host) || runs_under("bochs"@, host))
            ||| x == "(modulesPath + \"/installer/scan/not-detected.nix\")"@
                && runs_on_the_machine(host)
        },
        hw.attrs.contains(x) <==> {
            ||| x == hw.attrs[0]
            ||| x == "hardware.cpu.intel.npu.enable = true;"@ && has_npu(host)
            ||| is_asked_for_by_virt(x, cpuinfo, host)
        },
        hw.attrs.len() > 0,
        hw.module_packages.len() == 0,
        hw.has_lvm <==> has_lvm(host),
        hw.has_efi <==> host.is_there("/sys/firmware/efi/efivars"@) == Ok::<bool, Probe<Text>>(
            true,
        ),
        hw.has_extlinux <==> host.is_there("/boot/extlinux"@) == Ok::<bool, Probe<Text>>(true),
{
    let platform = scan::platform(host)->Ok_0;
    let a = scan::with_cpu(scan::no_hardware(), platform, cpuinfo);
    let none = Seq::<Text>::empty();
    added(none, "kvm-intel"@, x);
    added(none, "kvm-amd"@, x);
    added(text::with_text(none, "kvm-intel"@), "kvm-amd"@, x);
    assert(processor_has(cpuinfo, "vmx"@) <==> scan::has_feature(cpuinfo, "vmx"@));
    assert(processor_has(cpuinfo, "svm"@) <==> scan::has_feature(cpuinfo, "svm"@));
    let line = "nixpkgs.hostPlatform = lib.mkDefault \""@ + platform + "\";"@;
    assert(a.attrs =~= seq![line]);
    assert(a.attrs[0] == line);
    let b = scan::buses_walked(a, host)->Ok_0;
    walks_add(a, host, b, x);
    let c = scan::storage_checked(b, host)->Ok_0;
    storage_is_found(b, host, c, x);
    let virt = scan::virt_of(host)->Ok_0;
    let vendor = scan::vendor_in(text::lines(cpuinfo));
    maker_is_named(text::lines(cpuinfo));
    assert(first_names(text::lines(cpuinfo), "GenuineIntel"@) == processor_is_by(
        cpuinfo,
        "GenuineIntel"@,
    ));
    assert(first_names(text::lines(cpuinfo), "AuthenticAMD"@) == processor_is_by(
        cpuinfo,
        "AuthenticAMD"@,
    ));
    added(c.imports, "(modulesPath + \"/profiles/qemu-guest.nix\")"@, x);
    added(c.imports, "(modulesPath + \"/installer/scan/not-detected.nix\")"@, x);
    let more = scan::virt_attrs(virt, vendor);
    joined_contains(c.attrs, more, x);
    virtualization_is_the_one_named(host, hw);
    assert(hw.virt == virt);
    assert(more.contains(x) <==> is_asked_for_by_virt(x, cpuinfo, host)) by {
        virt_names_differ();
        if more.len() > 0 {
            assert(more.contains(more[0]));
        }
        if more.len() > 1 {
            assert(more.contains(more[1]));
        }
    }
    assert(hw.attrs[0] == line);
}

/// If the system runs under QEMU, KVM or Bochs, the profile of a QEMU guest is
/// imported. If it runs on the machine itself, the profile for undetected hardware
/// is imported, and the microcode of a processor by AMD or Intel is updated.
pub proof fn virtualization_is_taken_into_account(
    host: Host,
    cpuinfo: Text,
    hw: HwModel,
    run: RunResult<Text>,
)
    requires
        host.file("/proc/cpuinfo"@) == Ok::<FileRead<Text>, Probe<Text>>(FileRead::Text(cpuinfo)),
        host.detect_virt() == Ok::<RunResult<Text>, Probe<Text>>(run),
        scan::scanned(host) == Ok::<HwModel, Halt<Text>>(hw),
    ensures
        run matches RunResult::Exited { success: true, stdout } ==> ((text::trim(stdout) == "qemu"@
            || text::trim(stdout) == "kvm"@ || text::trim(stdout) == "bochs"@)
            ==> hw.imports.contains("(modulesPath + \"/profiles/qemu-guest.nix\")"@)),
        (run matches RunResult::Exited { success: true, stdout } ==> text::trim(stdout) == "none"@)
            ==> {
            &&& hw.imports.contains("(modulesPath + \"/installer/scan/not-detected.nix\")"@)
            &&& processor_is_by(cpuinfo, "AuthenticAMD"@) ==> hw.attrs.contains(
                "hardware.cpu.amd.updateMicrocode = lib.mkDefault config.hardware.enableRedistributableFirmware;"@,
            )
            &&& processor_is_by(cpuinfo, "GenuineIntel"@) ==> hw.attrs.contains(
                "hardware.cpu.intel.updateMicrocode = lib.mkDefault config.hardware.enableRedistributableFirmware;"@,
            )
        },
{
    scan_lists_what_is_there(
        host,
        cpuinfo,
        hw,
        "(modulesPath + \"/profiles/qemu-guest.nix\")"@,
    );
    scan_lists_what_is_there(
        host,
        cpuinfo,
        hw,
        "(modulesPath + \"/installer/scan/not-detected.nix\")"@,
    );
    scan_lists_what_is_there(
        host,
        cpuinfo,
        hw,
        "hardware.cpu.amd.updateMicrocode = lib.mkDefault config.hardware.enableRedistributableFirmware;"@,
    );
    scan_lists_what_is_there(
        host,
        cpuinfo,
        hw,
        "hardware.cpu.intel.updateMicrocode = lib.mkDefault config.hardware.enableRedistributableFirmware;"@,
    );
}

/// The name that Nix has for a machine that the kernel names.
pub open spec fn is_nix_name(machine: Text, name: Text) -> bool {
    &&& machine == "ppc"@ ==> name == "powerpc"@
    &&& machine == "ppc64"@ ==> name == "powerpc64"@
    &&& machine == "ppc64le"@ ==> name == "powerpc64le"@
    &&& machine == "i386"@ || machine == "i486"@ || machine == "i586"@ || machine == "i686"@
        ==> name == "i686"@
    &&& !seq![
        "ppc"@,
        "ppc64"@,
        "ppc64le"@,
        "i386"@,
        "i486"@,
        "i586"@,
        "i686"@,
    ].contains(machine) ==> name == machine
}

/// The first attribute names the platform: the machine that `uname -m` prints, by
/// the name that Nix has for it, and Linux.
pub proof fn platform_is_the_one_printed(host: Host, hw: HwModel, stdout: Text, name: Text)
    requires
        scan::scanned(host) == Ok::<HwModel, Halt<Text>>(hw),
        host.uname() == Ok::<RunResult<Text>, Probe<Text>>(
            RunResult::Exited { success: true, stdout },
        ),
        text::trim(stdout).len() > 0,
        is_nix_name(text::trim(stdout), name),
    ensures
        hw.attrs.len() > 0,
        hw.attrs[0] == "nixpkgs.hostPlatform = lib.mkDefault \""@ + (name + "-linux"@) + "\";"@,
{
    let m = text::trim(stdout);
    let known = seq!["ppc"@, "ppc64"@, "ppc64le"@, "i386"@, "i486"@, "i586"@, "i686"@];
    assert(known[0] == "ppc"@ && known[1] == "ppc64"@ && known[2] == "ppc64le"@ && known[3]
        == "i386"@ && known[4] == "i486"@ && known[5] == "i586"@ && known[6] == "i686"@);
    assert(name == scan::nix_machine(m));
    platform_comes_first(host, hw);
}

/// If `uname` cannot be asked, the first attribute names the platform that this
/// program was built for. A 32-bit ARM is taken for the seventh version.
pub proof fn platform_falls_back_to_the_build(host: Host, hw: HwModel)
    requires
        scan::scanned(host) == Ok::<HwModel, Halt<Text>>(hw),
        !(host.uname() matches Ok(RunResult::Exited { success: true, stdout }) && text::trim(
            stdout,
        ).len() > 0),
    ensures
        hw.attrs.len() > 0,
        ({
            let arch = host.process.arch;
            let little = host.process.little_endian;
            let name = if arch == "x86"@ {
                "i686"@
            } else if arch == "arm"@ {
                "armv7l"@
            } else if little && arch == "powerpc64"@ {
                "powerpc64le"@
            } else if little && arch == "mips"@ {
                "mipsel"@
            } else if little && arch == "mips64"@ {
                "mips64el"@
            } else {
                arch
            };
            hw.attrs[0] == "nixpkgs.hostPlatform = lib.mkDefault \""@ + (name + "-linux"@)
                + "\";"@
        }),
{
    platform_comes_first(host, hw);
}

proof fn platform_comes_first(host: Host, hw: HwModel)
    requires
        scan::scanned(host) == Ok::<HwModel, Halt<Text>>(hw),
    ensures
        hw.attrs.len() > 0,
        hw.attrs[0] == "nixpkgs.hostPlatform = lib.mkDefault \""@ + scan::platform(host)->Ok_0
            + "\";"@,
{
    let cpuinfo = error::required_file("/proc/cpuinfo"@, host)->Ok_0;
    let platform = scan::platform(host)->Ok_0;
    let x = Seq::<char>::empty();
    let a = scan::with_cpu(scan::no_hardware(), platform, cpuinfo);
    let line = "nixpkgs.hostPlatform = lib.mkDefault \""@ + platform + "\";"@;
    assert(a.attrs =~= seq![line]);
    let b = scan::buses_walked(a, host)->Ok_0;
    walks_add(a, host, b, x);
    let c = scan::storage_checked(b, host)->Ok_0;
    storage_is_found(b, host, c, x);
    let virt = scan::virt_of(host)->Ok_0;
    joined_contains(
        c.attrs,
        scan::virt_attrs(virt, scan::vendor_in(text::lines(cpuinfo))),
        x,
    );
}

/// The scan fails without `/proc/cpuinfo`, with the reason if there is one, and
/// otherwise only if one of the directories of devices is there but cannot be
/// listed.
pub proof fn scan_fails_for_unreadable_files(host: Host, e: Error<Text>)
    requires
        scan::scanned(host) == Err::<HwModel, Halt<Text>>(Halt::Fail(e)),
    ensures
        match host.file("/proc/cpuinfo"@) {
            Ok(FileRead::Missing) => e == (Error::UnreadableFile {
                path: "/proc/cpuinfo"@,
                reason: None,
            }),
            Ok(FileRead::Failed(why)) => e == (Error::UnreadableFile {
                path: "/proc/cpuinfo"@,
                reason: Some(why),
            }),
            _ => e matches Error::UnreadableDir { path, cause } && (path
                == "/sys/bus/pci/devices"@ || path == "/sys/bus/usb/devices"@ || path
                == "/sys/class/block"@ || path == "/sys/class/mmc_host"@) && host.dir(path)
                == Ok::<DirRead<Seq<Text>, Text>, Probe<Text>>(DirRead::Failed(cause)),
        },
{
}

/// A directory of devices that is there but cannot be listed ends the scan, and a
/// missing `/proc/cpuinfo` does.
pub proof fn unreadable_files_end_the_scan(host: Host, dir: Text)
    requires
        host.file("/proc/cpuinfo"@) matches Ok(FileRead::Missing) || host.file("/proc/cpuinfo"@) matches Ok(
            FileRead::Failed(_),
        ) || ((dir == "/sys/bus/pci/devices"@ || dir == "/sys/bus/usb/devices"@ || dir
            == "/sys/class/block"@ || dir == "/sys/class/mmc_host"@) && host.dir(dir) matches Ok(
            DirRead::Failed(_),
        )),
    ensures
        scan::scanned(host) is Err,
{
}

/// A walk warns of a missing directory and of each entry that cannot be read, for
/// all four directories of devices.
pub proof fn walks_are_warned_of(host: Host, list: Seq<Warning<Text>>, dir: Text, w: Warning<Text>)
    requires
        host.file("/proc/cpuinfo"@) matches Ok(FileRead::Text(_)),
        scan::scan_warned(host) == Ok::<Seq<Warning<Text>>, Probe<Text>>(list),
        scan::scanned(host) is Ok,
        dir == "/sys/bus/pci/devices"@ || dir == "/sys/bus/usb/devices"@ || dir
            == "/sys/class/block"@ || dir == "/sys/class/mmc_host"@,
    ensures
        host.dir(dir) matches Ok(DirRead::Missing) ==> list.contains(Warning::DirMissing(dir)),
        host.dir(dir) matches Ok(DirRead::Names(_, causes)) ==> (w matches Warning::EntryUnreadable {
            dir: d,
            cause,
        } ==> (d == dir && causes.contains(cause) ==> list.contains(w))),
{
    scan::scan_warns_of_walks(host);
    let dirs = scan::walked_dirs();
    assert(dirs[0] == "/sys/bus/pci/devices"@);
    assert(dirs[1] == "/sys/bus/usb/devices"@);
    assert(dirs[2] == "/sys/class/block"@);
    assert(dirs[3] == "/sys/class/mmc_host"@);
    let i = if dir == "/sys/bus/pci/devices"@ {
        0int
    } else if dir == "/sys/bus/usb/devices"@ {
        1
    } else if dir == "/sys/class/block"@ {
        2
    } else {
        3
    };
    assert(dirs[i] == dir);
    assert forall|j: int| 0 <= j < 4 implies !(host.dir(#[trigger] dirs[j]) matches Ok(
        DirRead::Failed(_),
    )) by {
        if host.dir(dirs[j]) matches Ok(DirRead::Failed(_)) {
            unreadable_files_end_the_scan(host, dirs[j]);
        }
    }
    let read = host.dir(dir)->Ok_0;
    if read is Missing {
        let m = Warning::DirMissing(dir);
        assert(scan::walk_warnings(dir, read)[0] == m);
        assert(scan::walk_raises(dirs, i, m, host));
    }
    if let DirRead::Names(_, causes) = read {
        if let Warning::EntryUnreadable { dir: d, cause } = w {
            if d == dir && causes.contains(cause) {
                let k = choose|k: int| 0 <= k < causes.len() && causes[k] == cause;
                assert(scan::walk_warnings(dir, read)[k] == w);
                assert(scan::walk_raises(dirs, i, w, host));
            }
        }
    }
}

/// The scan warns of nothing else.
pub proof fn scan_warns_of_nothing_else(host: Host, list: Seq<Warning<Text>>, w: Warning<Text>)
    requires
        scan::scan_warned(host) == Ok::<Seq<Warning<Text>>, Probe<Text>>(list),
        list.contains(w),
    ensures
        match w {
            Warning::DirMissing(dir) => host.dir(dir) matches Ok(DirRead::Missing),
            Warning::EntryUnreadable { dir, cause } => host.dir(dir) matches Ok(
                DirRead::Names(_, causes),
            ) && causes.contains(cause),
            _ => false,
        },
{
    scan::scan_warns_of_walks(host);
    let dirs = scan::walked_dirs();
    let i = choose|i: int| 0 <= i < dirs.len() && #[trigger] scan::walk_raises(dirs, i, w, host);
    let read = host.dir(dirs[i])->Ok_0;
    let raised = scan::walk_warnings(dirs[i], read);
    let k = choose|k: int| 0 <= k < raised.len() && raised[k] == w;
    if let DirRead::Names(_, causes) = read {
        assert(causes.contains(causes[k]));
    }
}

/// Whether everything that is the first thing in the list stands before everything
/// that is the second.
pub open spec fn comes_before(list: Seq<Text>, x: Text, y: Text) -> bool {
    forall|i: int, j: int|
        0 <= i < list.len() && 0 <= j < list.len() && #[trigger] list[i] == x && #[trigger] list[j]
            == y ==> i < j
}

spec fn extends(a: HwModel, b: HwModel) -> bool {
    &&& a.initrd_available.is_prefix_of(b.initrd_available)
    &&& a.imports.is_prefix_of(b.imports)
    &&& a.attrs.is_prefix_of(b.attrs)
}

proof fn prefixes_add_up(a: Seq<Text>, b: Seq<Text>, c: Seq<Text>)
    requires
        a.is_prefix_of(b),
        b.is_prefix_of(c),
    ensures
        a.is_prefix_of(c),
{
    assert(a =~= b.subrange(0, a.len() as int));
    assert(b =~= c.subrange(0, b.len() as int));
    assert(a =~= c.subrange(0, a.len() as int)) by {
        assert forall|i: int| 0 <= i < a.len() implies a[i] == c[i] by {
            assert(a[i] == b.subrange(0, a.len() as int)[i]);
            assert(b[i] == c.subrange(0, b.len() as int)[i]);
        }
    }
}

proof fn extensions_add_up(a: HwModel, b: HwModel, c: HwModel)
    requires
        extends(a, b),
        extends(b, c),
    ensures
        extends(a, c),
{
    prefixes_add_up(a.initrd_available, b.initrd_available, c.initrd_available);
    prefixes_add_up(a.imports, b.imports, c.imports);
    prefixes_add_up(a.attrs, b.attrs, c.attrs);
}

proof fn is_own_prefix(list: Seq<Text>, more: Seq<Text>, y: Text)
    ensures
        list.is_prefix_of(list),
        list.is_prefix_of(text::with_text(list, y)),
        list.is_prefix_of(list + more),
{
    assert(list =~= list.subrange(0, list.len() as int));
    assert(list =~= list.push(y).subrange(0, list.len() as int));
    assert(list =~= (list + more).subrange(0, list.len() as int));
}

proof fn device_extends(bus: Bus, s: HwModel, dir: Text, host: Host, next: HwModel)
    requires
        scan::checked(bus, s, dir, host) == Ok::<HwModel, Probe<Text>>(next),
    ensures
        extends(s, next),
{
    let none = Seq::<Text>::empty();
    let x = Seq::<char>::empty();
    is_own_prefix(s.initrd_available, none, x);
    is_own_prefix(s.imports, none, x);
    is_own_prefix(s.attrs, none, x);
    match bus {
        Bus::Pci => {
            if let (Ok(Some(vendor)), Ok(Some(device)), Ok(Some(class)), Ok(module)) = (
                scan::trimmed_file(dir + "/vendor"@, host),
                scan::trimmed_file(dir + "/device"@, host),
                scan::trimmed_file(dir + "/class"@, host),
                scan::module_of(dir, host),
            ) {
                let a = scan::with_controller(s, class, module);
                let b = scan::with_broadcom(a, vendor, device);
                let c = scan::with_virtio(b, vendor, device);
                if let Some(m) = module {
                    is_own_prefix(s.initrd_available, none, m);
                }
                assert(extends(s, a));
                is_own_prefix(
                    a.imports,
                    none,
                    "(modulesPath + \"/hardware/network/broadcom-43xx.nix\")"@,
                );
                is_own_prefix(a.initrd_available, none, x);
                is_own_prefix(a.attrs, none, x);
                assert(extends(a, b));
                extensions_add_up(s, a, b);
                is_own_prefix(b.initrd_available, none, "virtio_scsi"@);
                is_own_prefix(b.imports, none, x);
                is_own_prefix(b.attrs, none, x);
                assert(extends(b, c));
                extensions_add_up(s, b, c);
                is_own_prefix(
                    c.imports,
                    none,
                    "(modulesPath + \"/hardware/cpu/intel-npu.nix\")"@,
                );
                is_own_prefix(c.attrs, none, "hardware.cpu.intel.npu.enable = true;"@);
                is_own_prefix(c.initrd_available, none, x);
                assert(extends(c, next));
                extensions_add_up(s, c, next);
            }
        },
        Bus::Usb => {
            if let Ok(Some(m)) = scan::module_of(dir, host) {
                is_own_prefix(s.initrd_available, none, m);
            }
        },
        Bus::Storage => {
            if let Ok(Some(m)) = scan::module_of(dir + "/device"@, host) {
                is_own_prefix(s.initrd_available, none, m);
            }
        },
    }
}

proof fn devices_extend(bus: Bus, s: HwModel, dirs: Seq<Text>, host: Host, next: HwModel)
    requires
        scan::all_checked(bus, s, dirs, host) == Ok::<HwModel, Probe<Text>>(next),
    ensures
        extends(s, next),
    decreases dirs.len(),
{
    if dirs.len() == 0 {
        let none = Seq::<Text>::empty();
        is_own_prefix(s.initrd_available, none, Seq::empty());
        is_own_prefix(s.imports, none, Seq::empty());
        is_own_prefix(s.attrs, none, Seq::empty());
    } else {
        let mid = scan::checked(bus, s, dirs[0], host)->Ok_0;
        device_extends(bus, s, dirs[0], host, mid);
        devices_extend(bus, mid, dirs.drop_first(), host, next);
        extensions_add_up(s, mid, next);
    }
}

proof fn walk_extends(bus: Bus, s: HwModel, dir: Text, host: Host, next: HwModel)
    requires
        scan::walked(bus, s, dir, host) == Ok::<HwModel, Halt<Text>>(next),
    ensures
        extends(s, next),
{
    if let Ok(DirRead::Names(names, _)) = host.dir(dir) {
        devices_extend(
            bus,
            s,
            names.map_values(|n: Text| device::entry_path(dir, n)),
            host,
            next,
        );
    } else {
        let none = Seq::<Text>::empty();
        is_own_prefix(s.initrd_available, none, Seq::empty());
        is_own_prefix(s.imports, none, Seq::empty());
        is_own_prefix(s.attrs, none, Seq::empty());
    }
}

proof fn first_comes_before(front: Seq<Text>, list: Seq<Text>, x: Text, y: Text)
    requires
        front.is_prefix_of(list),
        list.no_duplicates(),
        front.contains(x),
        !front.contains(y),
    ensures
        comes_before(list, x, y),
{
    let k = choose|k: int| 0 <= k < front.len() && front[k] == x;
    assert(front =~= list.subrange(0, front.len() as int));
    assert(list[k] == x) by {
        assert(front[k] == list.subrange(0, front.len() as int)[k]);
    }
    assert forall|i: int, j: int|
        0 <= i < list.len() && 0 <= j < list.len() && #[trigger] list[i] == x && #[trigger] list[j]
            == y implies i < j by {
        assert(i == k);
        if j < front.len() {
            assert(front[j] == list.subrange(0, front.len() as int)[j]);
            assert(front.contains(front[j]));
        }
    }
}

/// Modules are listed in the order in which their devices are looked at: first those
/// that a PCI device needs, then those that a USB interface needs, then those of
/// block devices, then those of MMC hosts, and the one of bcache last.
pub proof fn modules_are_listed_bus_by_bus(host: Host, hw: HwModel, x: Text, y: Text)
    requires
        scan::scanned(host) == Ok::<HwModel, Halt<Text>>(hw),
    ensures
        ({
            let pci = |m: Text| some_pci_needs(m, host);
            let usb = |m: Text| pci(m) || some_usb_needs(m, host);
            let block = |m: Text|
                usb(m) || some_entry_is_driven_by("/sys/class/block"@, m, host);
            let mmc = |m: Text|
                block(m) || some_entry_is_driven_by("/sys/class/mmc_host"@, m, host);
            &&& pci(x) && !pci(y) ==> comes_before(hw.initrd_available, x, y)
            &&& usb(x) && !usb(y) ==> comes_before(hw.initrd_available, x, y)
            &&& block(x) && !block(y) ==> comes_before(hw.initrd_available, x, y)
            &&& mmc(x) && !mmc(y) ==> comes_before(hw.initrd_available, x, y)
        }),
{
    scan::scan_names_once(host);
    let cpuinfo = error::required_file("/proc/cpuinfo"@, host)->Ok_0;
    let platform = scan::platform(host)->Ok_0;
    let s = scan::with_cpu(scan::no_hardware(), platform, cpuinfo);
    let a = scan::walked(Bus::Pci, s, "/sys/bus/pci/devices"@, host)->Ok_0;
    let b = scan::walked(Bus::Usb, a, "/sys/bus/usb/devices"@, host)->Ok_0;
    let c = scan::walked(Bus::Storage, b, "/sys/class/block"@, host)->Ok_0;
    let d = scan::walked(Bus::Storage, c, "/sys/class/mmc_host"@, host)->Ok_0;
    assert(is_walk(host, s, a, b, c, d));
    walk_extends(Bus::Usb, a, "/sys/bus/usb/devices"@, host, b);
    walk_extends(Bus::Storage, b, "/sys/class/block"@, host, c);
    walk_extends(Bus::Storage, c, "/sys/class/mmc_host"@, host, d);
    let e = scan::storage_checked(d, host)->Ok_0;
    is_own_prefix(d.initrd_available, Seq::empty(), "bcache"@);
    assert(hw.initrd_available == e.initrd_available);
    prefixes_add_up(c.initrd_available, d.initrd_available, hw.initrd_available);
    prefixes_add_up(b.initrd_available, c.initrd_available, hw.initrd_available);
    prefixes_add_up(a.initrd_available, b.initrd_available, hw.initrd_available);
    stages_hold(s, a, b, c, d, host, x);
    stages_hold(s, a, b, c, d, host, y);
    if a.initrd_available.contains(x) && !a.initrd_available.contains(y) {
        first_comes_before(a.initrd_available, hw.initrd_available, x, y);
    }
    if b.initrd_available.contains(x) && !b.initrd_available.contains(y) {
        first_comes_before(b.initrd_available, hw.initrd_available, x, y);
    }
    if c.initrd_available.contains(x) && !c.initrd_available.contains(y) {
        first_comes_before(c.initrd_available, hw.initrd_available, x, y);
    }
    if d.initrd_available.contains(x) && !d.initrd_available.contains(y) {
        first_comes_before(d.initrd_available, hw.initrd_available, x, y);
    }
}

proof fn stages_hold(
    s: HwModel,
    a: HwModel,
    b: HwModel,
    c: HwModel,
    d: HwModel,
    host: Host,
    x: Text,
)
    requires
        is_walk(host, s, a, b, c, d),
        s.initrd_available.len() == 0,
    ensures
        a.initrd_available.contains(x) <==> some_pci_needs(x, host),
        b.initrd_available.contains(x) <==> a.initrd_available.contains(x) || some_usb_needs(
            x,
            host,
        ),
        c.initrd_available.contains(x) <==> b.initrd_available.contains(x)
            || some_entry_is_driven_by("/sys/class/block"@, x, host),
        d.initrd_available.contains(x) <==> c.initrd_available.contains(x)
            || some_entry_is_driven_by("/sys/class/mmc_host"@, x, host),
{
    walk_adds(Bus::Pci, s, "/sys/bus/pci/devices"@, host, a, x);
    walk_adds(Bus::Usb, a, "/sys/bus/usb/devices"@, host, b, x);
    walk_adds(Bus::Storage, b, "/sys/class/block"@, host, c, x);
    walk_adds(Bus::Storage, c, "/sys/class/mmc_host"@, host, d, x);
    assert(entry_needs(Bus::Pci, "/sys/bus/pci/devices"@, x, host) <==> some_pci_needs(x, host));
    assert(entry_needs(Bus::Usb, "/sys/bus/usb/devices"@, x, host) <==> some_usb_needs(x, host));
    assert(entry_needs(Bus::Storage, "/sys/class/block"@, x, host) <==> some_entry_is_driven_by(
        "/sys/class/block"@,
        x,
        host,
    ));
    assert(entry_needs(Bus::Storage, "/sys/class/mmc_host"@, x, host) <==> some_entry_is_driven_by(
        "/sys/class/mmc_host"@,
        x,
        host,
    ));
}

}
