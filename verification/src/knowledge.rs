//! What is settled stays settled.
//!
//! A function that depends on the machine is called again and again with ever
//! more facts. Here it is proved that this is sound: a result that came of the
//! facts so far is the one that all facts would give, and a probe that is asked
//! for is one whose answer is not known, so that every call brings the caller
//! further.

use vstd::prelude::*;

use crate::args::ArgsModel;
use crate::atomic;
use crate::config_file;
use crate::config_file::ConfigModel;
use crate::device;
use crate::error;
use crate::error::Halt;
use crate::generate;
use crate::generate::ParamsModel;
use crate::host;
use crate::host::Fact;
use crate::host::Host;
use crate::host::Probe;
use crate::mount;
use crate::mountinfo;
use crate::mountinfo::Below;
use crate::mountinfo::Entry;
use crate::mountinfo::MountState;
use crate::path;
use crate::scan;
use crate::scan::Bus;
use crate::scan::HwModel;
use crate::text;
use crate::text::Text;
use crate::warning;
use crate::warning::Warning;


verus! {

/// Whether all that is known of the machine `now` is known `later`.
pub open spec fn grows_to(now: Host, later: Host) -> bool {
    &&& now.process == later.process
    &&& now.stats.submap_of(later.stats)
    &&& now.files.submap_of(later.files)
    &&& now.dirs.submap_of(later.dirs)
    &&& now.resolved.submap_of(later.resolved)
    &&& now.absolute.submap_of(later.absolute)
    &&& now.writable.submap_of(later.writable)
    &&& now.btrfs_subvols.submap_of(later.btrfs_subvols)
    &&& now.bcachefs_usages.submap_of(later.bcachefs_usages)
    &&& now.stratis_pools is Some ==> later.stratis_pools == now.stratis_pools
    &&& now.uname_machine is Some ==> later.uname_machine == now.uname_machine
    &&& now.virt is Some ==> later.virt == now.virt
    &&& now.hostname is Some ==> later.hostname == now.hostname
}

/// Whether the answer to the probe is not known.
pub open spec fn lacks(now: Host, probe: Probe<Text>) -> bool {
    match probe {
        Probe::Stat(p) => !now.stats.contains_key(p),
        Probe::ReadFile(p) => !now.files.contains_key(p),
        Probe::ReadDir(p) => !now.dirs.contains_key(p),
        Probe::Resolve(p) => !now.resolved.contains_key(p),
        Probe::Absolute(p) => !now.absolute.contains_key(p),
        Probe::Writable(p) => !now.writable.contains_key(p),
        Probe::BtrfsSubvolShow(p) => !now.btrfs_subvols.contains_key(p),
        Probe::BcachefsUsage(p) => !now.bcachefs_usages.contains_key(p),
        Probe::StratisPoolList => now.stratis_pools is None,
        Probe::UnameMachine => now.uname_machine is None,
        Probe::DetectVirt => now.virt is None,
        Probe::Hostname => now.hostname is None,
    }
}

/// Whether a result stays what it is as more becomes known, and a probe is one
/// whose answer is not known.
pub open spec fn stays<V>(now: Host, before: Result<V, Probe<Text>>, after: Result<V, Probe<Text>>) -> bool {
    match before {
        Ok(_) => after == before,
        Err(probe) => lacks(now, probe),
    }
}

/// The same for a result that may be a failure: a failure stays too.
pub open spec fn stays_or_fails<V>(
    now: Host,
    before: Result<V, Halt<Text>>,
    after: Result<V, Halt<Text>>,
) -> bool {
    match before {
        Err(Halt::Need(probe)) => lacks(now, probe),
        _ => after == before,
    }
}

/// To record the answer to a probe that was asked for takes nothing back, and
/// the probe is not asked for again.
pub proof fn recording_grows(now: Host, fact: Fact<Text, Seq<Text>>)
    requires
        lacks(now, host::question(fact)),
    ensures
        grows_to(now, host::recorded(now, fact)),
        !lacks(host::recorded(now, fact), host::question(fact)),
{
}

/// An answer that is recorded is what is known from then on, of that one question
/// and of no other.
pub proof fn answers_are_found_again(now: Host, fact: Fact<Text, Seq<Text>>, q: Text)
    ensures
        ({
            let later = host::recorded(now, fact);
            &&& later.process == now.process
            &&& later.stat(q) == match fact {
                Fact::Stat(p, a) if p == q => Ok(a),
                _ => now.stat(q),
            }
            &&& later.file(q) == match fact {
                Fact::ReadFile(p, a) if p == q => Ok(a),
                _ => now.file(q),
            }
            &&& later.dir(q) == match fact {
                Fact::ReadDir(p, a) if p == q => Ok(a),
                _ => now.dir(q),
            }
            &&& later.resolve(q) == match fact {
                Fact::Resolve(p, a) if p == q => Ok(a),
                _ => now.resolve(q),
            }
            &&& later.absolute(q) == match fact {
                Fact::Absolute(p, a) if p == q => Ok(a),
                _ => now.absolute(q),
            }
            &&& later.writable(q) == match fact {
                Fact::Writable(p, a) if p == q => Ok(a),
                _ => now.writable(q),
            }
            &&& later.btrfs_subvol_show(q) == match fact {
                Fact::BtrfsSubvolShow(p, a) if p == q => Ok(a),
                _ => now.btrfs_subvol_show(q),
            }
            &&& later.bcachefs_usage(q) == match fact {
                Fact::BcachefsUsage(p, a) if p == q => Ok(a),
                _ => now.bcachefs_usage(q),
            }
            &&& later.stratis_pool_list() == match fact {
                Fact::StratisPoolList(a) => Ok(a),
                _ => now.stratis_pool_list(),
            }
            &&& later.uname() == match fact {
                Fact::UnameMachine(a) => Ok(a),
                _ => now.uname(),
            }
            &&& later.detect_virt() == match fact {
                Fact::DetectVirt(a) => Ok(a),
                _ => now.detect_virt(),
            }
            &&& later.host_name() == match fact {
                Fact::Hostname(a) => Ok(a),
                _ => now.host_name(),
            }
        }),
{
}

/// A path is there if it leads anywhere, and is a directory if it leads to one.
pub proof fn presence_is_that_of_the_path(now: Host, p: Text, answer: Option<host::Stat>)
    requires
        now.stat(p) == Ok::<Option<host::Stat>, Probe<Text>>(answer),
    ensures
        now.is_there(p) == Ok::<bool, Probe<Text>>(answer is Some),
        now.is_dir(p) == Ok::<bool, Probe<Text>>(
            match answer {
                Some(s) => s.is_dir,
                None => false,
            },
        ),
{
}

proof fn submaps_add_up<V>(a: Map<Text, V>, b: Map<Text, V>, c: Map<Text, V>)
    requires
        a.submap_of(b),
        b.submap_of(c),
    ensures
        a.submap_of(c),
{
    assert forall|k: Text| #[trigger] a.dom().contains(k) implies c.dom().contains(k) && a[k]
        == c[k] by {
        assert(b.dom().contains(k));
    }
}

/// What is recorded step by step is kept to the end.
pub proof fn growth_adds_up(now: Host, later: Host, last: Host)
    requires
        grows_to(now, later),
        grows_to(later, last),
    ensures
        grows_to(now, last),
{
    submaps_add_up(now.stats, later.stats, last.stats);
    submaps_add_up(now.files, later.files, last.files);
    submaps_add_up(now.dirs, later.dirs, last.dirs);
    submaps_add_up(now.resolved, later.resolved, last.resolved);
    submaps_add_up(now.absolute, later.absolute, last.absolute);
    submaps_add_up(now.writable, later.writable, last.writable);
    submaps_add_up(now.btrfs_subvols, later.btrfs_subvols, last.btrfs_subvols);
    submaps_add_up(now.bcachefs_usages, later.bcachefs_usages, last.bcachefs_usages);
}

proof fn first_with_rdev_stays(paths: Seq<Text>, target: u64, now: Host, later: Host)
    requires
        grows_to(now, later),
    ensures
        stays(
            now,
            device::first_with_rdev(paths, target, now),
            device::first_with_rdev(paths, target, later),
        ),
    decreases paths.len(),
{
    if paths.len() > 0 {
        first_with_rdev_stays(paths.drop_first(), target, now, later);
    }
}

proof fn alias_in_dirs_stays(dirs: Seq<Text>, target: u64, now: Host, later: Host)
    requires
        grows_to(now, later),
    ensures
        stays(
            now,
            device::alias_in_dirs(dirs, target, now),
            device::alias_in_dirs(dirs, target, later),
        ),
    decreases dirs.len(),
{
    if dirs.len() > 0 {
        if let Ok(paths) = device::sorted_entries(dirs[0], now) {
            first_with_rdev_stays(paths, target, now, later);
        }
        alias_in_dirs_stays(dirs.drop_first(), target, now, later);
    }
}

/// The stable name of a device stays.
pub proof fn stable_path_stays(dev: Text, now: Host, later: Host)
    requires
        grows_to(now, later),
    ensures
        stays(now, device::stable_path(dev, now), device::stable_path(dev, later)),
{
    if let (Ok(Some(s)), Ok(pools)) = (
        now.stat(dev),
        device::sorted_entries("/dev/stratis"@, now),
    ) {
        alias_in_dirs_stays(pools + device::alias_dirs(), s.rdev, now, later);
    }
}

proof fn luks_lines_stays(lines: Seq<Text>, base: Text, now: Host, later: Host)
    requires
        grows_to(now, later),
    ensures
        stays(now, device::luks_lines(lines, base, now), device::luks_lines(lines, base, later)),
{
    if let Ok(slaves) = device::dir_names(device::block_file(base, "/slaves"@), now) {
        stable_path_stays("/dev/"@ + slaves[0], now, later);
    }
}

proof fn layers_stays(below: Below, base: Text, now: Host, later: Host)
    requires
        grows_to(now, later),
    ensures
        stays(now, mountinfo::layers(below, base, now), mountinfo::layers(below, base, later)),
{
    luks_lines_stays(below.luks, base, now, later);
}

proof fn mounted_stays(st: MountState, e: Entry<Text>, root: Text, now: Host, later: Host)
    requires
        grows_to(now, later),
    ensures
        stays(now, mountinfo::mounted(st, e, root, now), mountinfo::mounted(st, e, root, later)),
{
    if let Ok(s) = mountinfo::source(e, root, now) {
        stable_path_stays(s.device, now, later);
        assert(stays(
            now,
            mountinfo::own_block(e, s, root, now),
            mountinfo::own_block(e, s, root, later),
        ));
    }
    if let Ok(Some(base)) = mountinfo::block_name(e.device, now) {
        layers_stays(st.below, base, now, later);
    }
    assert(stays(
        now,
        mountinfo::own_mount(st, e, root, now),
        mountinfo::own_mount(st, e, root, later),
    ));
}

proof fn mount_lines_stays(
    st: MountState,
    lines: Seq<Text>,
    root: Text,
    now: Host,
    later: Host,
)
    requires
        grows_to(now, later),
    ensures
        stays(
            now,
            mountinfo::mount_lines(st, lines, root, now),
            mountinfo::mount_lines(st, lines, root, later),
        ),
    decreases lines.len(),
{
    if lines.len() > 0 {
        if let Ok(Some(e)) = mountinfo::entry(lines[0], root, now) {
            mounted_stays(st, e, root, now, later);
        }
        if let Ok(next) = mountinfo::mount_line(st, lines[0], root, now) {
            mount_lines_stays(next, lines.drop_first(), root, now, later);
        }
    }
}

/// The scan of the mounts stays.
pub proof fn mounts_stay(root: Text, now: Host, later: Host)
    requires
        grows_to(now, later),
    ensures
        stays_or_fails(now, mountinfo::mounts_of(root, now), mountinfo::mounts_of(root, later)),
{
    if let Ok(body) = error::required_file("/proc/self/mountinfo"@, now) {
        mount_lines_stays(mountinfo::nothing_read(), text::lines(body), root, now, later);
    }
}

proof fn swap_lines_stays(entries: Seq<Text>, lines: Seq<Text>, now: Host, later: Host)
    requires
        grows_to(now, later),
    ensures
        stays(
            now,
            mount::swap_lines(entries, lines, now),
            mount::swap_lines(entries, lines, later),
        ),
    decreases lines.len(),
{
    if lines.len() > 0 {
        let w = text::words(lines[0]);
        if w.len() >= 2 {
            stable_path_stays(w[0], now, later);
        }
        if let Ok(more) = mount::swap_line(entries, lines[0], now) {
            swap_lines_stays(more, lines.drop_first(), now, later);
        }
    }
}

/// The scan of the swap devices stays.
pub proof fn swaps_stay(now: Host, later: Host)
    requires
        grows_to(now, later),
    ensures
        stays(now, mount::swaps_of(now), mount::swaps_of(later)),
{
    if let Ok(host::FileRead::Text(body)) = now.file("/proc/swaps"@) {
        let lines = text::lines(body);
        if lines.len() > 0 {
            swap_lines_stays(Seq::empty(), lines.drop_first(), now, later);
        }
    }
}

proof fn all_checked_stays(bus: Bus, s: HwModel, paths: Seq<Text>, now: Host, later: Host)
    requires
        grows_to(now, later),
    ensures
        stays(now, scan::all_checked(bus, s, paths, now), scan::all_checked(bus, s, paths, later)),
    decreases paths.len(),
{
    if paths.len() > 0 {
        if let Ok(next) = scan::checked(bus, s, paths[0], now) {
            all_checked_stays(bus, next, paths.drop_first(), now, later);
        }
    }
}

proof fn walked_stays(bus: Bus, s: HwModel, dir: Text, now: Host, later: Host)
    requires
        grows_to(now, later),
    ensures
        stays_or_fails(now, scan::walked(bus, s, dir, now), scan::walked(bus, s, dir, later)),
{
    if let Ok(host::DirRead::Names(names, _)) = now.dir(dir) {
        all_checked_stays(
            bus,
            s,
            names.map_values(|n: Text| device::entry_path(dir, n)),
            now,
            later,
        );
    }
}

proof fn buses_walked_stays(s: HwModel, now: Host, later: Host)
    requires
        grows_to(now, later),
    ensures
        stays_or_fails(now, scan::buses_walked(s, now), scan::buses_walked(s, later)),
{
    walked_stays(Bus::Pci, s, "/sys/bus/pci/devices"@, now, later);
    if let Ok(s) = scan::walked(Bus::Pci, s, "/sys/bus/pci/devices"@, now) {
        walked_stays(Bus::Usb, s, "/sys/bus/usb/devices"@, now, later);
        if let Ok(s) = scan::walked(Bus::Usb, s, "/sys/bus/usb/devices"@, now) {
            walked_stays(Bus::Storage, s, "/sys/class/block"@, now, later);
            if let Ok(s) = scan::walked(Bus::Storage, s, "/sys/class/block"@, now) {
                walked_stays(Bus::Storage, s, "/sys/class/mmc_host"@, now, later);
            }
        }
    }
}

proof fn some_lvm_stays(names: Seq<Text>, now: Host, later: Host)
    requires
        grows_to(now, later),
    ensures
        stays(now, scan::some_lvm(names, now), scan::some_lvm(names, later)),
    decreases names.len(),
{
    if names.len() > 0 {
        some_lvm_stays(names.drop_first(), now, later);
    }
}

/// The scan of the hardware stays.
pub proof fn scan_stays(now: Host, later: Host)
    requires
        grows_to(now, later),
    ensures
        stays_or_fails(now, scan::scanned(now), scan::scanned(later)),
{
    if let (Ok(cpuinfo), Ok(platform)) = (
        error::required_file("/proc/cpuinfo"@, now),
        scan::platform(now),
    ) {
        buses_walked_stays(
            scan::with_cpu(scan::no_hardware(), platform, cpuinfo),
            now,
            later,
        );
    }
    if let Ok(names) = device::dir_names("/sys/class/block"@, now) {
        some_lvm_stays(names, now, later);
    }
    assert(stays(now, scan::bcache_present(now), scan::bcache_present(later)));
    assert(stays(now, scan::lvm_present(now), scan::lvm_present(later)));
    assert(stays(now, scan::virt_of(now), scan::virt_of(later)));
}

/// The configuration file stays.
pub proof fn configuration_file_stays(file: Text, now: Host, later: Host)
    requires
        grows_to(now, later),
    ensures
        stays_or_fails(now, config_file::loaded(file, now), config_file::loaded(file, later)),
{
}

/// The merged arguments stay.
pub proof fn parameters_stay(args: ArgsModel, file: ConfigModel, now: Host, later: Host)
    requires
        grows_to(now, later),
    ensures
        stays_or_fails(
            now,
            generate::merged(args, file, now),
            generate::merged(args, file, later),
        ),
{
}

proof fn writable_above_stays(absolute: bool, parts: Seq<Text>, now: Host, later: Host)
    requires
        grows_to(now, later),
    ensures
        stays(
            now,
            path::writable_above(absolute, parts, now),
            path::writable_above(absolute, parts, later),
        ),
    decreases parts.len(),
{
    if parts.len() > 0 {
        writable_above_stays(absolute, parts.drop_last(), now, later);
    }
}

proof fn next_stays(
    params: ParamsModel,
    hw: HwModel,
    can_elevate: bool,
    now: Host,
    later: Host,
)
    requires
        grows_to(now, later),
    ensures
        stays(
            now,
            generate::next(params, hw, can_elevate, now),
            generate::next(params, hw, can_elevate, later),
        ),
{
    let dir = params.out_dir;
    writable_above_stays(path::is_absolute(dir), path::components(dir), now, later);
    assert(stays(
        now,
        generate::must_elevate(params, can_elevate, now),
        generate::must_elevate(params, can_elevate, later),
    ));
    assert(stays(
        now,
        generate::flake_action(params, now),
        generate::flake_action(params, later),
    ));
    assert(stays(
        now,
        generate::configuration_action(params, hw, now),
        generate::configuration_action(params, hw, later),
    ));
}

/// The outcome of a whole run stays: what is planned with the facts that the
/// probes brought is what the whole machine calls for, and as long as nothing
/// is planned there is a fact to be learned.
pub proof fn outcome_stays(args: ArgsModel, can_elevate: bool, now: Host, later: Host)
    requires
        grows_to(now, later),
    ensures
        stays_or_fails(
            now,
            generate::generated(args, can_elevate, now),
            generate::generated(args, can_elevate, later),
        ),
{
    configuration_file_stays(config_file::DEFAULT_PATH@, now, later);
    if let Ok(file) = config_file::loaded(config_file::DEFAULT_PATH@, now) {
        parameters_stay(args, file, now, later);
        if let Ok(params) = generate::merged(args, file, now) {
            scan_stays(now, later);
            mounts_stay(params.root_dir, now, later);
            swaps_stay(now, later);
            assert(stays_or_fails(
                now,
                generate::storage(params, now),
                generate::storage(params, later),
            ));
            if let Ok(hw) = scan::scanned(now) {
                next_stays(params, hw, can_elevate, now, later);
            }
        }
    }
}

/// The steps of writing a file stay.
pub proof fn write_steps_stay(
    target: Text,
    content: Text,
    keep_backup: bool,
    dry: bool,
    now: Host,
    later: Host,
)
    requires
        grows_to(now, later),
    ensures
        stays(
            now,
            atomic::written_or_said(target, content, keep_backup, dry, now),
            atomic::written_or_said(target, content, keep_backup, dry, later),
        ),
{
}

proof fn walks_warned_stays(
    found: Seq<Warning<Text>>,
    dirs: Seq<Text>,
    now: Host,
    later: Host,
)
    requires
        grows_to(now, later),
    ensures
        stays(now, scan::walks_warned(found, dirs, now), scan::walks_warned(found, dirs, later)),
    decreases dirs.len(),
{
    if dirs.len() > 0 {
        if let Ok(read) = now.dir(dirs[0]) {
            walks_warned_stays(
                found + scan::walk_warnings(dirs[0], read),
                dirs.drop_first(),
                now,
                later,
            );
        }
    }
}

proof fn lines_warned_stays(
    found: Seq<Warning<Text>>,
    st: MountState,
    lines: Seq<Text>,
    root: Text,
    now: Host,
    later: Host,
)
    requires
        grows_to(now, later),
    ensures
        stays(
            now,
            mountinfo::lines_warned(found, st, lines, root, now),
            mountinfo::lines_warned(found, st, lines, root, later),
        ),
    decreases lines.len(),
{
    if lines.len() > 0 {
        if let Ok(Some(e)) = mountinfo::entry(lines[0], root, now) {
            mounted_stays(st, e, root, now, later);
        }
        if let (Ok(w), Ok(next)) = (
            mountinfo::line_warning(st, lines[0], root, now),
            mountinfo::mount_line(st, lines[0], root, now),
        ) {
            lines_warned_stays(
                warning::with_warning(found, w),
                next,
                lines.drop_first(),
                root,
                now,
                later,
            );
        }
    }
}

proof fn swap_lines_warned_stays(
    found: Seq<Warning<Text>>,
    lines: Seq<Text>,
    now: Host,
    later: Host,
)
    requires
        grows_to(now, later),
    ensures
        stays(
            now,
            mount::swap_lines_warned(found, lines, now),
            mount::swap_lines_warned(found, lines, later),
        ),
    decreases lines.len(),
{
    if lines.len() > 0 {
        if let Ok(w) = mount::swap_warning(lines[0], now) {
            swap_lines_warned_stays(
                warning::with_warning(found, w),
                lines.drop_first(),
                now,
                later,
            );
        }
    }
}

/// What a run warns of stays.
pub proof fn warnings_stay(args: ArgsModel, now: Host, later: Host)
    requires
        grows_to(now, later),
    ensures
        stays(now, generate::warned(args, now), generate::warned(args, later)),
{
    configuration_file_stays(config_file::DEFAULT_PATH@, now, later);
    scan_stays(now, later);
    walks_warned_stays(Seq::empty(), scan::walked_dirs(), now, later);
    assert(stays(now, scan::scan_warned(now), scan::scan_warned(later)));
    if let Ok(host::FileRead::Text(body)) = now.file("/proc/swaps"@) {
        swap_lines_warned_stays(Seq::empty(), mount::swap_rows(body), now, later);
    }
    assert(stays(now, mount::swap_scan_warned(now), mount::swap_scan_warned(later)));
    if let Ok(file) = config_file::loaded(config_file::DEFAULT_PATH@, now) {
        parameters_stay(args, file, now, later);
        if let Ok(params) = generate::merged(args, file, now) {
            if let Ok(body) = error::required_file("/proc/self/mountinfo"@, now) {
                lines_warned_stays(
                    Seq::empty(),
                    mountinfo::nothing_read(),
                    text::lines(body),
                    params.root_dir,
                    now,
                    later,
                );
            }
            assert(stays(
                now,
                generate::storage_warned(params, now),
                generate::storage_warned(params, later),
            ));
        }
    }
}

}
