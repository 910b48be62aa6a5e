//! `/proc/self/mountinfo`, line by line.

use vstd::prelude::*;

use crate::device;
use crate::device::BtrfsProbe;
use crate::error;
use crate::error::Halt;
use crate::host;
use crate::host::Facts;
use crate::host::FileRead;
use crate::host::Host;
use crate::host::Probe;
use crate::host::Table;
use crate::mount;
use crate::mount::MountModel;
use crate::mount::MountScan;
use crate::mount::RootDir;
use crate::text;
use crate::text::Text;
use crate::warning;
use crate::warning::Warning;

verus! {

/// A mount that may get a `fileSystems` entry.
#[derive(Debug, PartialEq, Eq)]
pub struct Entry<T> {
    /// The device number of the file system.
    pub dev_id: T,
    /// The directory of the file system that is mounted.
    pub fs_root: T,
    /// The mount point, as seen from the root directory.
    pub mount_point: T,
    pub mount_options: T,
    pub fs_type: T,
    pub device: T,
    pub super_options: T,
}

impl DeepView for Entry<String> {
    type V = Entry<Text>;

    open spec fn deep_view(&self) -> Entry<Text> {
        Entry {
            dev_id: self.dev_id@,
            fs_root: self.fs_root@,
            mount_point: self.mount_point@,
            mount_options: self.mount_options@,
            fs_type: self.fs_type@,
            device: self.device@,
            super_options: self.super_options@,
        }
    }
}

/// The position of the first field that is a hyphen, or the number of fields if
/// there is none.
pub open spec fn separator(fields: Seq<Text>) -> int
    decreases fields.len(),
{
    if fields.len() == 0 || fields[0] == "-"@ {
        0
    } else {
        1 + separator(fields.drop_first())
    }
}

/// The mount that the fields describe, for the mount point `mount_point` as
/// seen from the root directory. The file system type, the device and the
/// options of the file system follow the separator; the options may be left
/// out.
pub open spec fn described(fields: Seq<Text>, mount_point: Text) -> Option<Entry<Text>> {
    let sep = separator(fields);
    if sep + 3 > fields.len() {
        None
    } else {
        Some(
            Entry {
                dev_id: fields[2],
                fs_root: mount::unescaped(fields[3]),
                mount_point,
                mount_options: fields[5],
                fs_type: fields[sep + 1],
                device: mount::unescaped(fields[sep + 2]),
                super_options: if sep + 3 < fields.len() {
                    fields[sep + 3]
                } else {
                    Seq::empty()
                },
            },
        )
    }
}

/// The mount that a line describes, if it is one of the scanned system: its
/// mount point is a directory in the root directory that does not belong to the
/// running kernel.
pub open spec fn entry(line: Text, root: Text, host: Host) -> Result<
    Option<Entry<Text>>,
    Probe<Text>,
> {
    let fields = text::split(line, ' ');
    if fields.len() < 10 {
        Ok(None)
    } else {
        let mp = mount::unescaped(fields[4]);
        match host.is_dir(mp) {
            Err(p) => Err(p),
            Ok(is_dir) => if !is_dir || !mount::lies_in(root, mp) || mount::is_pseudo(
                mount::seen_from(root, mp),
            ) {
                Ok(None)
            } else {
                Ok(described(fields, mount::seen_from(root, mp)))
            },
        }
    }
}

fn separator_of(fields: &Vec<String>) -> (r: usize)
    ensures
        r == separator(fields.deep_view()),
        r <= fields@.len(),
{
    let ghost all = fields.deep_view();
    let mut i: usize = 0;
    assert(all.skip(0) =~= all);
    while i < fields.len()
        invariant
            i <= fields@.len(),
            all == fields.deep_view(),
            separator(all) == i + separator(all.skip(i as int)),
        decreases fields@.len() - i,
    {
        assert(all.skip(i as int)[0] == fields@[i as int]@);
        if text::same(fields[i].as_str(), "-") {
            return i;
        }
        assert(all.skip(i as int).drop_first() =~= all.skip(i + 1));
        i += 1;
    }
    i
}

fn described_of(fields: &Vec<String>, mount_point: String) -> (r: Option<Entry<String>>)
    requires
        fields@.len() >= 10,
    ensures
        r.deep_view() == described(fields.deep_view(), mount_point@),
{
    let sep = separator_of(fields);
    let n = fields.len();
    if n - sep < 3 {
        return None;
    }
    let ghost all = fields.deep_view();
    assert(forall|i: int| 0 <= i < n ==> #[trigger] all[i] == fields@[i]@);
    Some(
        Entry {
            dev_id: fields[2].clone(),
            fs_root: mount::mountinfo_unescape(fields[3].as_str()),
            mount_point,
            mount_options: fields[5].clone(),
            fs_type: fields[sep + 1].clone(),
            device: mount::mountinfo_unescape(fields[sep + 2].as_str()),
            super_options: if n - sep > 3 {
                fields[sep + 3].clone()
            } else {
                String::new()
            },
        },
    )
}

/// Reads one line of `/proc/self/mountinfo`.
pub fn mount_entry(line: &str, root_dir: &RootDir, facts: &Facts) -> (r: Result<
    Option<Entry<String>>,
    Probe<String>,
>)
    ensures
        host::shown(r) == entry(line@, root_dir@, facts@),
{
    let fields = text::split_on(line, ' ');
    if fields.len() < 10 {
        return Ok(None);
    }
    assert(fields.deep_view()[4] == fields@[4]@);
    let mp = mount::mountinfo_unescape(fields[4].as_str());
    if !facts.is_dir(mp.as_str())? {
        return Ok(None);
    }
    if !root_dir.contains(mp.as_str()) {
        return Ok(None);
    }
    proof {
        mount::what_lies_in_starts_with_root(root_dir@, mp@);
        mount::after_prefix_bytes(root_dir@, mp@);
    }
    let mount_point = root_dir.strip(mp.as_str());
    if mount::is_pseudo_mount(mount_point.as_str()) {
        return Ok(None);
    }
    Ok(described_of(&fields, mount_point))
}

/// Whether the comma-separated list holds the option.
pub open spec fn has_option(options: Text, option: Text) -> bool {
    text::split(options, ',').contains(option)
}

fn option_in(options: &str, option: &str) -> (r: bool)
    ensures
        r == has_option(options@, option@),
{
    text::has_text(&text::split_on(options, ','), option)
}

/// Whether the mount is the read-only view of the Nix store on a writable file
/// system, which NixOS sets up by itself.
pub open spec fn is_store_view(e: Entry<Text>) -> bool {
    e.mount_point == "/nix/store"@ && has_option(e.super_options, "rw"@) && has_option(
        e.mount_options,
        "ro"@,
    )
}

/// The path of the mount on this host.
pub open spec fn full_path(root: Text, e: Entry<Text>) -> Text {
    root + e.mount_point
}

/// Whether the mount is a bind mount, given whether its file system has been
/// seen before. A btrfs that has been seen may also be another subvolume.
pub open spec fn is_bind(seen: bool, e: Entry<Text>, root: Text, host: Host) -> Result<
    bool,
    Probe<Text>,
> {
    if !seen {
        Ok(false)
    } else if e.fs_type == "btrfs"@ {
        match device::subvolume_at(full_path(root, e), host) {
            Ok(probe) => Ok(probe is NotASubvolume),
            Err(p) => Err(p),
        }
    } else {
        Ok(true)
    }
}

fn is_bind_mount(seen: bool, e: &Entry<String>, root_dir: &RootDir, facts: &Facts) -> (r: Result<
    bool,
    Probe<String>,
>)
    ensures
        host::shown(r) == is_bind(seen, e.deep_view(), root_dir@, facts@),
{
    if !seen {
        Ok(false)
    } else if text::same(e.fs_type.as_str(), "btrfs") {
        let full = text::cat(root_dir.as_str(), e.mount_point.as_str());
        match device::btrfs_subvol_path(full.as_str(), facts)? {
            BtrfsProbe::NotASubvolume => Ok(true),
            _ => Ok(false),
        }
    } else {
        Ok(true)
    }
}

/// A path, or nothing for the root of a file system.
pub open spec fn unless_root(path: Text) -> Text {
    if path == "/"@ {
        Seq::empty()
    } else {
        path
    }
}

/// The `fileSystems` entry of a bind mount whose file system is mounted at
/// `prev`.
pub open spec fn bind_block(e: Entry<Text>, prev: Text) -> Text {
    mount::fs_block(
        e.mount_point,
        unless_root(prev) + unless_root(e.fs_root),
        "none"@,
        seq!["bind"@],
        None,
    )
}

fn unless_root_of(path: &str) -> (r: String)
    ensures
        r@ == unless_root(path@),
{
    if text::same(path, "/") {
        String::new()
    } else {
        path.to_owned()
    }
}

fn emit_bind(out: &mut String, e: &Entry<String>, prev: &str)
    ensures
        final(out)@ == old(out)@ + bind_block(e.deep_view(), prev@),
{
    let source = text::cat(
        unless_root_of(prev).as_str(),
        unless_root_of(e.fs_root.as_str()).as_str(),
    );
    let mut options: Vec<String> = Vec::new();
    options.push("bind".to_owned());
    assert(options.deep_view() =~= seq!["bind"@]);
    mount::emit_filesystem(
        out,
        e.mount_point.as_str(),
        source.as_str(),
        "none",
        options.as_slice(),
        None,
    );
}

/// A device with the mount options that it asks for.
pub struct Source<T, L> {
    pub device: T,
    pub options: L,
}

impl DeepView for Source<String, Vec<String>> {
    type V = Source<Text, Seq<Text>>;

    open spec fn deep_view(&self) -> Source<Text, Seq<Text>> {
        Source { device: self.device@, options: self.options.deep_view() }
    }
}

/// The number of a loop device.
pub open spec fn loop_number(device: Text) -> Option<u32> {
    match text::after_prefix(device, "/dev/loop"@) {
        Some(rest) => text::parsed_u32(rest),
        None => None,
    }
}

/// The file that names the backing file of a loop device.
pub open spec fn backing_file_path(n: u32) -> Text {
    "/sys/block/loop"@ + text::decimal(n as nat) + "/loop/backing_file"@
}

/// The device of the mount; for a loop device its backing file, with the option
/// that mounts a file.
pub open spec fn backing(device: Text, host: Host) -> Result<Source<Text, Seq<Text>>, Probe<Text>> {
    let itself = Source { device, options: Seq::empty() };
    match loop_number(device) {
        None => Ok(itself),
        Some(n) => match host.file(backing_file_path(n)) {
            Err(p) => Err(p),
            Ok(FileRead::Text(t)) => Ok(Source { device: text::trim(t), options: seq!["loop"@] }),
            Ok(_) => Ok(itself),
        },
    }
}

fn backing_of(device: &str, facts: &Facts) -> (r: Result<Source<String, Vec<String>>, Probe<String>>)
    ensures
        host::shown(r) == backing(device@, facts@),
{
    let none: Vec<String> = Vec::new();
    assert(none.deep_view() =~= Seq::<Text>::empty());
    let n: u32 = match text::strip_prefix(device, "/dev/loop") {
        None => return Ok(Source { device: device.to_owned(), options: none }),
        Some(rest) => match text::parse_u32(rest.as_str()) {
            None => return Ok(Source { device: device.to_owned(), options: none }),
            Some(n) => n,
        },
    };
    let mut path = "/sys/block/loop".to_owned();
    path.append(text::decimal_of(n).as_str());
    path.append("/loop/backing_file");
    match facts.file(path.as_str())? {
        FileRead::Text(t) => {
            let mut options: Vec<String> = Vec::new();
            options.push("loop".to_owned());
            assert(options.deep_view() =~= seq!["loop"@]);
            Ok(Source { device: text::trim_of(t.as_str()), options })
        },
        _ => Ok(Source { device: device.to_owned(), options: none }),
    }
}

/// The option that selects a btrfs subvolume; none for the top level.
pub open spec fn subvol_options(probe: BtrfsProbe<Text>) -> Seq<Text> {
    match probe {
        BtrfsProbe::Subvol(path) => seq!["subvol="@ + path],
        _ => Seq::empty(),
    }
}

/// Whether the option sets the permissions of a FAT file system.
pub open spec fn is_mask(option: Text) -> bool {
    "fmask"@.is_prefix_of(option) || "dmask"@.is_prefix_of(option)
}

/// The options that set the permissions of a FAT file system, in order.
pub open spec fn masks(options: Seq<Text>) -> Seq<Text>
    decreases options.len(),
{
    if options.len() == 0 {
        options
    } else {
        let before = masks(options.drop_last());
        if is_mask(options.last()) {
            before.push(options.last())
        } else {
            before
        }
    }
}

fn push_masks(list: &mut Vec<String>, options: &str)
    ensures
        final(list).deep_view() == old(list).deep_view() + masks(text::split(options@, ',')),
{
    let parts = text::split_on(options, ',');
    let ghost all = parts.deep_view();
    let ghost before = list.deep_view();
    let mut i: usize = 0;
    assert(list.deep_view() =~= before + masks(all.take(0)));
    while i < parts.len()
        invariant
            i <= parts@.len(),
            all == parts.deep_view(),
            list.deep_view() == before + masks(all.take(i as int)),
        decreases parts@.len() - i,
    {
        assert(all[i as int] == parts@[i as int]@);
        assert(all.take(i + 1).drop_last() =~= all.take(i as int));
        if text::starts_with(parts[i].as_str(), "fmask") || text::starts_with(
            parts[i].as_str(),
            "dmask",
        ) {
            text::push_text(list, parts[i].clone());
        }
        i += 1;
        assert(list.deep_view() =~= before + masks(all.take(i as int)));
    }
    assert(all.take(all.len() as int) =~= all);
}

/// The device of the mount and the options that its kind of file system asks
/// for.
pub open spec fn source(e: Entry<Text>, root: Text, host: Host) -> Result<
    Source<Text, Seq<Text>>,
    Probe<Text>,
> {
    match backing(e.device, host) {
        Err(p) => Err(p),
        Ok(s) => if e.fs_type == "btrfs"@ {
            match device::subvolume_at(full_path(root, e), host) {
                Err(p) => Err(p),
                Ok(probe) => Ok(
                    Source { device: s.device, options: s.options + subvol_options(probe) },
                ),
            }
        } else if e.fs_type == "vfat"@ {
            Ok(
                Source {
                    device: s.device,
                    options: s.options + masks(text::split(e.super_options, ',')),
                },
            )
        } else {
            Ok(s)
        },
    }
}

fn source_of(e: &Entry<String>, root_dir: &RootDir, facts: &Facts) -> (r: Result<
    Source<String, Vec<String>>,
    Probe<String>,
>)
    ensures
        host::shown(r) == source(e.deep_view(), root_dir@, facts@),
{
    let s = backing_of(e.device.as_str(), facts)?;
    let device = s.device;
    let mut options = s.options;
    proof {
        reveal_strlit("btrfs");
        reveal_strlit("vfat");
    }
    if text::same(e.fs_type.as_str(), "btrfs") {
        let full = text::cat(root_dir.as_str(), e.mount_point.as_str());
        let ghost before = options.deep_view();
        match device::btrfs_subvol_path(full.as_str(), facts)? {
            BtrfsProbe::Subvol(path) => {
                text::push_text(&mut options, text::cat("subvol=", path.as_str()));
                assert(options.deep_view() =~= before + seq!["subvol="@ + path@]);
            },
            _ => {
                assert(options.deep_view() =~= before + Seq::<Text>::empty());
            },
        }
    } else if text::same(e.fs_type.as_str(), "vfat") {
        push_masks(&mut options, e.super_options.as_str());
    }
    Ok(Source { device, options })
}

/// The UUID of the stratis pool that the device belongs to.
pub open spec fn pool_uuid_of_device(device: Text, host: Host) -> Result<
    Option<Text>,
    Probe<Text>,
> {
    match device::pool_of(device) {
        Some(pool) => device::pool_uuid(pool, host),
        None => Ok(None),
    }
}

fn pool_uuid_for(device: &str, facts: &Facts) -> (r: Result<Option<String>, Probe<String>>)
    ensures
        host::shown(r) == pool_uuid_of_device(device@, facts@),
{
    match device::stratis_pool_from_dev(device) {
        Some(pool) => device::stratis_pool_uuid(pool.as_str(), facts),
        None => Ok(None),
    }
}

/// The device that the entry names: the stable name, but for a bcachefs whose
/// UUID can be told.
pub open spec fn entry_device(stable: Text, e: Entry<Text>, root: Text, host: Host) -> Result<
    Text,
    Probe<Text>,
> {
    if e.fs_type == "bcachefs"@ {
        match device::bcachefs_uuid_at(full_path(root, e), host) {
            Err(p) => Err(p),
            Ok(Some(uuid)) => Ok("UUID="@ + uuid),
            Ok(None) => Ok(stable),
        }
    } else {
        Ok(stable)
    }
}

fn entry_device_of(
    stable: String,
    e: &Entry<String>,
    root_dir: &RootDir,
    facts: &Facts,
) -> (r: Result<String, Probe<String>>)
    ensures
        host::shown(r) == entry_device(stable@, e.deep_view(), root_dir@, facts@),
{
    if text::same(e.fs_type.as_str(), "bcachefs") {
        let full = text::cat(root_dir.as_str(), e.mount_point.as_str());
        match device::bcachefs_uuid(full.as_str(), facts)? {
            Some(uuid) => Ok(text::cat("UUID=", uuid.as_str())),
            None => Ok(stable),
        }
    } else {
        Ok(stable)
    }
}

/// The `fileSystems` entry of a mount of its own, given its device and options.
pub open spec fn own_block(
    e: Entry<Text>,
    s: Source<Text, Seq<Text>>,
    root: Text,
    host: Host,
) -> Result<Text, Probe<Text>> {
    match device::stable_path(s.device, host) {
        Err(p) => Err(p),
        Ok(stable) => match pool_uuid_of_device(stable, host) {
            Err(p) => Err(p),
            Ok(pool_uuid) => match entry_device(stable, e, root, host) {
                Err(p) => Err(p),
                Ok(device) => Ok(
                    mount::fs_block(
                        e.mount_point,
                        device,
                        e.fs_type,
                        mount::distinct(s.options),
                        pool_uuid,
                    ),
                ),
            },
        },
    }
}

fn emit_own(
    out: &mut String,
    e: &Entry<String>,
    s: Source<String, Vec<String>>,
    root_dir: &RootDir,
    facts: &Facts,
) -> (r: Result<(), Probe<String>>)
    ensures
        match own_block(e.deep_view(), s.deep_view(), root_dir@, facts@) {
            Ok(block) => r is Ok && final(out)@ == old(out)@ + block,
            Err(p) => host::shown(r) == Err::<(), Probe<Text>>(p),
        },
{
    let stable = device::find_stable_dev_path(s.device.as_str(), facts)?;
    let pool_uuid = pool_uuid_for(stable.as_str(), facts)?;
    let device = entry_device_of(stable, e, root_dir, facts)?;
    let options = mount::uniq(s.options);
    let pool_text: Option<&str> = match &pool_uuid {
        Some(u) => Some(u.as_str()),
        None => None,
    };
    assert(pool_text.deep_view() == pool_uuid.deep_view());
    let list = options.as_slice();
    assert(list.deep_view() =~= options.deep_view());
    mount::emit_filesystem(
        out,
        e.mount_point.as_str(),
        device.as_str(),
        e.fs_type.as_str(),
        list,
        pool_text,
    );
    Ok(())
}

/// The kernel's name for the block device at the path, if there is one.
pub open spec fn block_name(device: Text, host: Host) -> Result<Option<Text>, Probe<Text>> {
    match host.is_there(device) {
        Err(p) => Err(p),
        Ok(false) => Ok(None),
        Ok(true) => match host.resolve(device) {
            Err(p) => Err(p),
            Ok(Some(resolved)) => if resolved.name_is_utf8 {
                Ok(resolved.name)
            } else {
                Ok(None)
            },
            Ok(None) => Ok(None),
        },
    }
}

fn block_name_of(device: &str, facts: &Facts) -> (r: Result<Option<String>, Probe<String>>)
    ensures
        host::shown(r) == block_name(device@, facts@),
{
    if !facts.is_there(device)? {
        return Ok(None);
    }
    match facts.resolve(device)? {
        Some(resolved) => if resolved.name_is_utf8 {
            match &resolved.name {
                Some(name) => Ok(Some(name.clone())),
                None => Ok(None),
            }
        } else {
            Ok(None)
        },
        None => Ok(None),
    }
}

/// The LUKS lines, and whether a software RAID has been met.
pub struct Below {
    pub luks: Seq<Text>,
    pub use_swraid: bool,
}

/// What is known of the layers below the file systems after the device `base`
/// has been looked at: an encrypted device may add a LUKS line, a software RAID
/// is noted.
pub open spec fn layers(below: Below, base: Text, host: Host) -> Result<Below, Probe<Text>> {
    match host.file(device::block_file(base, "/dm/uuid"@)) {
        Err(p) => Err(p),
        Ok(read) => {
            let encrypted = "CRYPT-LUKS"@.is_prefix_of(
                text::trim_start(device::text_or_empty(read)),
            );
            match if encrypted {
                device::luks_lines(below.luks, base, host)
            } else {
                Ok(below.luks)
            } {
                Err(p) => Err(p),
                Ok(luks) => match host.is_there(device::block_file(base, "/md/uuid"@)) {
                    Err(p) => Err(p),
                    Ok(raid) => Ok(Below { luks, use_swraid: below.use_swraid || raid }),
                },
            }
        },
    }
}

/// What is known after the mounts read so far.
pub struct Mounts {
    pub file_systems: String,
    pub use_swraid: bool,
    /// Where each file system, by its device number, was last mounted.
    pub seen: Table<String>,
    pub luks_devices: Vec<String>,
}

/// The contents of [`Mounts`].
pub struct MountState {
    pub file_systems: Text,
    pub seen: Map<Text, Text>,
    pub below: Below,
}

impl DeepView for Mounts {
    type V = MountState;

    open spec fn deep_view(&self) -> MountState {
        MountState {
            file_systems: self.file_systems@,
            seen: self.seen@,
            below: Below { luks: self.luks_devices.deep_view(), use_swraid: self.use_swraid },
        }
    }
}

/// The state before the first line.
pub open spec fn nothing_read() -> MountState {
    MountState {
        file_systems: Seq::empty(),
        seen: Map::empty(),
        below: Below { luks: Seq::empty(), use_swraid: false },
    }
}

/// Whether the file system is one that no entry can describe.
pub open spec fn is_fuse(fs_type: Text) -> bool {
    fs_type == "fuseblk"@ || fs_type == "fuse"@
}

/// Whether the mount is the temporary file system on `/tmp`, which has an
/// option of its own.
pub open spec fn is_tmp(e: Entry<Text>) -> bool {
    e.mount_point == "/tmp"@ && e.fs_type == "tmpfs"@
}

/// The state after a mount that is no bind mount.
pub open spec fn own_mount(st: MountState, e: Entry<Text>, root: Text, host: Host) -> Result<
    MountState,
    Probe<Text>,
> {
    let noted = MountState { seen: st.seen.insert(e.dev_id, e.mount_point), ..st };
    if is_fuse(e.fs_type) {
        Ok(noted)
    } else {
        match source(e, root, host) {
            Err(p) => Err(p),
            Ok(s) => if is_tmp(e) {
                Ok(noted)
            } else {
                match own_block(e, s, root, host) {
                    Err(p) => Err(p),
                    Ok(block) => {
                        let emitted = MountState {
                            file_systems: st.file_systems + block,
                            ..noted
                        };
                        match block_name(e.device, host) {
                            Err(p) => Err(p),
                            Ok(None) => Ok(emitted),
                            Ok(Some(base)) => match layers(st.below, base, host) {
                                Err(p) => Err(p),
                                Ok(below) => Ok(MountState { below, ..emitted }),
                            },
                        }
                    },
                }
            },
        }
    }
}

/// The state after the mount `e`.
pub open spec fn mounted(st: MountState, e: Entry<Text>, root: Text, host: Host) -> Result<
    MountState,
    Probe<Text>,
> {
    if is_store_view(e) {
        Ok(st)
    } else {
        match is_bind(st.seen.contains_key(e.dev_id), e, root, host) {
            Err(p) => Err(p),
            Ok(true) => Ok(
                MountState {
                    file_systems: st.file_systems + bind_block(e, st.seen[e.dev_id]),
                    ..st
                },
            ),
            Ok(false) => own_mount(st, e, root, host),
        }
    }
}

/// The state after a line of `/proc/self/mountinfo`.
pub open spec fn mount_line(st: MountState, line: Text, root: Text, host: Host) -> Result<
    MountState,
    Probe<Text>,
> {
    match entry(line, root, host) {
        Err(p) => Err(p),
        Ok(None) => Ok(st),
        Ok(Some(e)) => mounted(st, e, root, host),
    }
}

/// The state after the lines.
pub open spec fn mount_lines(st: MountState, lines: Seq<Text>, root: Text, host: Host) -> Result<
    MountState,
    Probe<Text>,
>
    decreases lines.len(),
{
    if lines.len() == 0 {
        Ok(st)
    } else {
        match mount_line(st, lines[0], root, host) {
            Err(p) => Err(p),
            Ok(next) => mount_lines(next, lines.drop_first(), root, host),
        }
    }
}

/// The attribute that enables software RAID, if there is any.
pub open spec fn raid_attrs(use_swraid: bool) -> Seq<Text> {
    if use_swraid {
        seq!["boot.swraid.enable = true;"@]
    } else {
        Seq::empty()
    }
}

/// The scan that ends in the state. The LUKS devices are among the further
/// attributes.
pub open spec fn finished(st: MountState) -> MountModel {
    MountModel {
        file_systems: st.file_systems,
        swap_devices: Seq::empty(),
        use_swraid: st.below.use_swraid,
        extra_attrs: st.below.luks + raid_attrs(st.below.use_swraid),
    }
}

/// The scan of the text of `/proc/self/mountinfo`.
pub open spec fn mounts(body: Text, root: Text, host: Host) -> Result<MountModel, Probe<Text>> {
    match mount_lines(nothing_read(), text::lines(body), root, host) {
        Err(p) => Err(p),
        Ok(st) => Ok(finished(st)),
    }
}

/// Looks at the layers below a file system on the block device `base`.
fn look_below(st: &mut Mounts, base: &str, facts: &Facts) -> (r: Result<(), Probe<String>>)
    ensures
        match layers(old(st).deep_view().below, base@, facts@) {
            Ok(below) => r is Ok && final(st).deep_view() == (MountState {
                below,
                ..old(st).deep_view()
            }),
            Err(p) => host::shown(r) == Err::<(), Probe<Text>>(p),
        },
{
    let read = facts.file(device::block_file_of(base, "/dm/uuid").as_str())?;
    let dm_uuid = device::text_or_empty_of(read);
    if text::starts_with(text::trim_start_of(dm_uuid.as_str()).as_str(), "CRYPT-LUKS") {
        device::probe_luks(base, &mut st.luks_devices, facts)?;
    }
    if facts.is_there(device::block_file_of(base, "/md/uuid").as_str())? {
        st.use_swraid = true;
    }
    Ok(())
}

/// Takes a mount that is no bind mount into account.
fn take_own(st: &mut Mounts, e: &Entry<String>, root_dir: &RootDir, facts: &Facts) -> (r: Result<
    (),
    Probe<String>,
>)
    ensures
        match own_mount(old(st).deep_view(), e.deep_view(), root_dir@, facts@) {
            Ok(next) => r is Ok && final(st).deep_view() == next,
            Err(p) => host::shown(r) == Err::<(), Probe<Text>>(p),
        },
{
    st.seen.insert(e.dev_id.clone(), e.mount_point.clone());
    if text::same(e.fs_type.as_str(), "fuseblk") || text::same(e.fs_type.as_str(), "fuse") {
        return Ok(());
    }
    let s = source_of(e, root_dir, facts)?;
    if text::same(e.mount_point.as_str(), "/tmp") && text::same(e.fs_type.as_str(), "tmpfs") {
        return Ok(());
    }
    emit_own(&mut st.file_systems, e, s, root_dir, facts)?;
    match block_name_of(e.device.as_str(), facts)? {
        Some(base) => look_below(st, base.as_str(), facts),
        None => Ok(()),
    }
}

/// Takes the mount `e` into account.
fn take_mount(st: &mut Mounts, e: &Entry<String>, root_dir: &RootDir, facts: &Facts) -> (r: Result<
    (),
    Probe<String>,
>)
    ensures
        match mounted(old(st).deep_view(), e.deep_view(), root_dir@, facts@) {
            Ok(next) => r is Ok && final(st).deep_view() == next,
            Err(p) => host::shown(r) == Err::<(), Probe<Text>>(p),
        },
{
    if text::same(e.mount_point.as_str(), "/nix/store") && option_in(
        e.super_options.as_str(),
        "rw",
    ) && option_in(e.mount_options.as_str(), "ro") {
        return Ok(());
    }
    let prev: Option<String> = match st.seen.get(e.dev_id.as_str()) {
        Some(p) => Some(p.clone()),
        None => None,
    };
    if is_bind_mount(prev.is_some(), e, root_dir, facts)? {
        if let Some(p) = prev {
            emit_bind(&mut st.file_systems, e, p.as_str());
        }
        return Ok(());
    }
    take_own(st, e, root_dir, facts)
}

/// Scans the text of `/proc/self/mountinfo`.
pub fn parse_mounts(body: &str, root_dir: &RootDir, facts: &Facts) -> (r: Result<
    MountScan,
    Probe<String>,
>)
    ensures
        host::shown(r) == mounts(body@, root_dir@, facts@),
{
    let lines = text::lines_of(body);
    let ghost all = lines.deep_view();
    let mut st = Mounts {
        file_systems: String::new(),
        use_swraid: false,
        seen: Table::new(),
        luks_devices: Vec::new(),
    };
    assert(st.luks_devices.deep_view() =~= Seq::<Text>::empty());
    assert(all.skip(0) =~= all);
    let mut i: usize = 0;
    while i < lines.len()
        invariant
            i <= lines@.len(),
            all == lines.deep_view(),
            mount_lines(nothing_read(), text::lines(body@), root_dir@, facts@) == mount_lines(
                st.deep_view(),
                all.skip(i as int),
                root_dir@,
                facts@,
            ),
        decreases lines@.len() - i,
    {
        assert(all.skip(i as int)[0] == lines@[i as int]@);
        assert(all.skip(i as int).drop_first() =~= all.skip(i + 1));
        if let Some(e) = mount_entry(lines[i].as_str(), root_dir, facts)? {
            take_mount(&mut st, &e, root_dir, facts)?;
        }
        i += 1;
    }
    let ghost luks = st.luks_devices.deep_view();
    let mut extra_attrs = st.luks_devices;
    if st.use_swraid {
        text::push_text(&mut extra_attrs, "boot.swraid.enable = true;".to_owned());
    }
    assert(extra_attrs.deep_view() =~= luks + raid_attrs(st.use_swraid));
    let swap_devices: Vec<String> = Vec::new();
    assert(swap_devices.deep_view() =~= Seq::<Text>::empty());
    Ok(
        MountScan {
            file_systems: st.file_systems,
            swap_devices,
            use_swraid: st.use_swraid,
            extra_attrs,
        },
    )
}

/// The scan of the mounts of this host.
pub open spec fn mounts_of(root: Text, host: Host) -> Result<MountModel, Halt<Text>> {
    match error::required_file("/proc/self/mountinfo"@, host) {
        Err(h) => Err(h),
        Ok(body) => error::needed(mounts(body, root, host)),
    }
}

/// Scans the mounts. It is an error if `/proc/self/mountinfo` cannot be read.
pub fn scan_mounts(root_dir: &RootDir, facts: &Facts) -> (r: Result<MountScan, Halt<String>>)
    ensures
        error::outcome(r) == mounts_of(root_dir@, facts@),
{
    let body = error::require_file("/proc/self/mountinfo", facts)?;
    error::need(parse_mounts(body, root_dir, facts))
}

/// A mount that belongs to the running kernel, that lies outside of the root
/// directory or whose mount point is no directory leaves no trace.
pub proof fn other_mounts_are_skipped(st: MountState, line: Text, root: Text, host: Host)
    requires
        text::split(line, ' ').len() >= 10,
        ({
            let mp = mount::unescaped(text::split(line, ' ')[4]);
            host.is_dir(mp) is Ok && (host.is_dir(mp)->Ok_0 ==> !mount::lies_in(root, mp)
                || mount::is_pseudo(mount::seen_from(root, mp)))
        }),
    ensures
        mount_line(st, line, root, host) == Ok::<MountState, Probe<Text>>(st),
{
}

/// Without the `btrfs` program a btrfs mount is taken for a subvolume and never
/// for a bind mount.
pub proof fn unknown_btrfs_mount_is_a_subvolume(seen: bool, e: Entry<Text>, root: Text, host: Host)
    requires
        e.fs_type == "btrfs"@,
        host.btrfs_subvol_show(full_path(root, e)) == Ok::<host::RunResult<Text>, Probe<Text>>(
            host::RunResult::NotFound,
        ),
    ensures
        is_bind(seen, e, root, host) == Ok::<bool, Probe<Text>>(false),
{
}

/// Whether the lines set the attributes of the named devices, one each and in
/// order.
pub open spec fn lines_set(lines: Seq<Text>, names: Seq<Text>) -> bool {
    lines.len() == names.len() && forall|i: int|
        0 <= i < lines.len() ==> device::luks_key(#[trigger] names[i]).is_prefix_of(lines[i])
}

proof fn line_sets_key(name: Text, device: Text)
    ensures
        device::luks_key(name).is_prefix_of(device::luks_line(device::luks_key(name), device)),
{
    let key = device::luks_key(name);
    let line = device::luks_line(key, device);
    assert(key =~= line.subrange(0, key.len() as int));
}

proof fn layers_set_once(below: Below, base: Text, host: Host, names: Seq<Text>) -> (more: Seq<Text>)
    requires
        lines_set(below.luks, names),
        names.no_duplicates(),
    ensures
        layers(below, base, host) matches Ok(next) ==> lines_set(next.luks, more)
            && more.no_duplicates(),
{
    match layers(below, base, host) {
        Err(_) => names,
        Ok(next) => if next.luks == below.luks {
            names
        } else {
            let name = text::trim(
                device::text_or_empty(host.file(device::block_file(base, "/dm/name"@))->Ok_0),
            );
            let slave = "/dev/"@ + device::dir_names(
                device::block_file(base, "/slaves"@),
                host,
            )->Ok_0[0];
            let device = device::stable_path(slave, host)->Ok_0;
            line_sets_key(name, device);
            let more = names.push(name);
            assert(!names.contains(name)) by {
                if names.contains(name) {
                    let i = names.index_of(name);
                    assert(device::luks_key(names[i]).is_prefix_of(below.luks[i]));
                }
            }
            assert(next.luks == below.luks.push(
                device::luks_line(device::luks_key(name), device),
            ));
            assert(lines_set(next.luks, more)) by {
                assert forall|i: int| 0 <= i < next.luks.len() implies device::luks_key(
                    #[trigger] more[i],
                ).is_prefix_of(next.luks[i]) by {
                    if i < names.len() {
                        assert(more[i] == names[i]);
                        assert(next.luks[i] == below.luks[i]);
                    }
                }
            }
            more
        },
    }
}

proof fn lines_set_once(
    st: MountState,
    lines: Seq<Text>,
    root: Text,
    host: Host,
    names: Seq<Text>,
) -> (more: Seq<Text>)
    requires
        lines_set(st.below.luks, names),
        names.no_duplicates(),
    ensures
        mount_lines(st, lines, root, host) matches Ok(end) ==> lines_set(end.below.luks, more)
            && more.no_duplicates(),
    decreases lines.len(),
{
    if lines.len() == 0 {
        names
    } else {
        match mount_line(st, lines[0], root, host) {
            Err(_) => names,
            Ok(next) => if next.below == st.below {
                lines_set_once(next, lines.drop_first(), root, host, names)
            } else {
                let e = entry(lines[0], root, host)->Ok_0->Some_0;
                let base = block_name(e.device, host)->Ok_0->Some_0;
                let some = layers_set_once(st.below, base, host, names);
                lines_set_once(next, lines.drop_first(), root, host, some)
            },
        }
    }
}

/// However many mounts lie on it, an encrypted device is set up once: the LUKS
/// lines among the further attributes are for devices with different names.
pub proof fn encrypted_devices_are_set_once(body: Text, root: Text, host: Host)
    ensures
        mounts(body, root, host) matches Ok(scan) ==> exists|lines: Seq<Text>, names: Seq<Text>|
            #![trigger lines_set(lines, names)]
            scan.extra_attrs == lines + raid_attrs(scan.use_swraid) && lines_set(lines, names)
                && names.no_duplicates(),
{
    let names = lines_set_once(nothing_read(), text::lines(body), root, host, Seq::empty());
    if let Ok(end) = mount_lines(nothing_read(), text::lines(body), root, host) {
        assert(lines_set(end.below.luks, names));
    }
}

/// An encrypted device with one device below it that is there gets a line.
pub proof fn encrypted_device_gets_a_line(below: Below, base: Text, host: Host)
    requires
        host.file(device::block_file(base, "/dm/uuid"@)) matches Ok(read)
            && "CRYPT-LUKS"@.is_prefix_of(text::trim_start(device::text_or_empty(read))),
        device::dir_names(device::block_file(base, "/slaves"@), host) matches Ok(slaves)
            && slaves.len() == 1 && host.is_there("/dev/"@ + slaves[0]) == Ok::<bool, Probe<Text>>(
            true,
        ),
    ensures
        layers(below, base, host) matches Ok(next) ==> (host.file(
            device::block_file(base, "/dm/name"@),
        ) matches Ok(read) && device::has_key(
            next.luks,
            device::luks_key(text::trim(device::text_or_empty(read))),
        )),
{
    if let Ok(next) = layers(below, base, host) {
        let name = text::trim(
            device::text_or_empty(host.file(device::block_file(base, "/dm/name"@))->Ok_0),
        );
        if next.luks != below.luks {
            let slave = "/dev/"@ + device::dir_names(
                device::block_file(base, "/slaves"@),
                host,
            )->Ok_0[0];
            line_sets_key(name, device::stable_path(slave, host)->Ok_0);
            assert(device::luks_key(name).is_prefix_of(next.luks[below.luks.len() as int]));
        }
    }
}

/// A LUKS line that is there stays there, whatever mounts follow.
pub proof fn luks_lines_are_kept(st: MountState, lines: Seq<Text>, root: Text, host: Host)
    ensures
        mount_lines(st, lines, root, host) matches Ok(end) ==> st.below.luks.is_prefix_of(
            end.below.luks,
        ),
    decreases lines.len(),
{
    if lines.len() == 0 {
        assert(st.below.luks =~= st.below.luks.subrange(0, st.below.luks.len() as int));
    } else if let Ok(next) = mount_line(st, lines[0], root, host) {
        luks_lines_are_kept(next, lines.drop_first(), root, host);
        if let Ok(end) = mount_lines(st, lines, root, host) {
            let a = st.below.luks;
            let b = next.below.luks;
            let c = end.below.luks;
            assert(a =~= b || (a.len() + 1 == b.len() && b.drop_last() =~= a));
            assert(b =~= c.subrange(0, b.len() as int));
            assert(a =~= c.subrange(0, a.len() as int)) by {
                assert forall|i: int| 0 <= i < a.len() implies a[i] == c[i] by {
                    assert(b[i] == a[i]);
                    assert(b[i] == c.subrange(0, b.len() as int)[i]);
                }
            }
        }
    }
}

/// What a mount that is no bind mount warns of.
pub open spec fn own_warning(e: Entry<Text>, root: Text, host: Host) -> Result<
    Option<Warning<Text>>,
    Probe<Text>,
> {
    if is_fuse(e.fs_type) {
        Ok(Some(Warning::FuseMount(e.mount_point)))
    } else if e.fs_type == "btrfs"@ {
        match device::subvolume_at(full_path(root, e), host) {
            Err(p) => Err(p),
            Ok(BtrfsProbe::BinaryMissing) => Ok(Some(Warning::BtrfsMissing(e.mount_point))),
            Ok(_) => Ok(None),
        }
    } else if e.fs_type == "bcachefs"@ {
        match device::bcachefs_uuid_at(full_path(root, e), host) {
            Err(p) => Err(p),
            Ok(None) => Ok(Some(Warning::BcachefsUuidUnknown(e.mount_point))),
            Ok(Some(_)) => Ok(None),
        }
    } else {
        Ok(None)
    }
}

/// What a line of `/proc/self/mountinfo` warns of, in the state before it.
pub open spec fn line_warning(st: MountState, line: Text, root: Text, host: Host) -> Result<
    Option<Warning<Text>>,
    Probe<Text>,
> {
    match entry(line, root, host) {
        Err(p) => Err(p),
        Ok(None) => Ok(None),
        Ok(Some(e)) => if is_store_view(e) {
            Ok(None)
        } else {
            match is_bind(st.seen.contains_key(e.dev_id), e, root, host) {
                Err(p) => Err(p),
                Ok(true) => Ok(None),
                Ok(false) => own_warning(e, root, host),
            }
        },
    }
}

/// The warnings after the lines.
pub open spec fn lines_warned(
    found: Seq<Warning<Text>>,
    st: MountState,
    lines: Seq<Text>,
    root: Text,
    host: Host,
) -> Result<Seq<Warning<Text>>, Probe<Text>>
    decreases lines.len(),
{
    if lines.len() == 0 {
        Ok(found)
    } else {
        match line_warning(st, lines[0], root, host) {
            Err(p) => Err(p),
            Ok(w) => match mount_line(st, lines[0], root, host) {
                Err(p) => Err(p),
                Ok(next) => lines_warned(
                    warning::with_warning(found, w),
                    next,
                    lines.drop_first(),
                    root,
                    host,
                ),
            },
        }
    }
}

/// What the text of `/proc/self/mountinfo` warns of.
pub open spec fn mounts_warned(body: Text, root: Text, host: Host) -> Result<
    Seq<Warning<Text>>,
    Probe<Text>,
> {
    lines_warned(Seq::empty(), nothing_read(), text::lines(body), root, host)
}

/// Whether the line with the number `i`, in the state after those before it,
/// raises the warning.
pub open spec fn line_raises(
    st: MountState,
    lines: Seq<Text>,
    i: int,
    w: Warning<Text>,
    root: Text,
    host: Host,
) -> bool {
    mount_lines(st, lines.take(i), root, host) matches Ok(before) && line_warning(
        before,
        lines[i],
        root,
        host,
    ) == Ok::<Option<Warning<Text>>, Probe<Text>>(Some(w))
}

proof fn lines_warn_of(
    found: Seq<Warning<Text>>,
    st: MountState,
    lines: Seq<Text>,
    root: Text,
    host: Host,
    w: Warning<Text>,
)
    ensures
        lines_warned(found, st, lines, root, host) matches Ok(list) ==> (list.contains(w)
            <==> found.contains(w) || exists|i: int|
            0 <= i < lines.len() && #[trigger] line_raises(st, lines, i, w, root, host)),
    decreases lines.len(),
{
    if lines.len() > 0 {
        if let (Ok(first), Ok(next)) = (
            line_warning(st, lines[0], root, host),
            mount_line(st, lines[0], root, host),
        ) {
            let rest = lines.drop_first();
            lines_warn_of(warning::with_warning(found, first), next, rest, root, host, w);
            warning::in_list_with_warning(found, first, w);
            assert(lines.take(0) =~= Seq::<Text>::empty());
            assert(line_raises(st, lines, 0, w, root, host) <==> first == Some(w));
            assert forall|i: int| 0 <= i < rest.len() implies (#[trigger] line_raises(
                next,
                rest,
                i,
                w,
                root,
                host,
            ) <==> line_raises(st, lines, i + 1, w, root, host)) by {
                assert(lines.take(i + 1).drop_first() =~= rest.take(i));
                assert(lines.take(i + 1)[0] == lines[0]);
                assert(rest[i] == lines[i + 1]);
            }
            if exists|i: int|
                0 <= i < rest.len() && #[trigger] line_raises(next, rest, i, w, root, host) {
                let i = choose|i: int|
                    0 <= i < rest.len() && #[trigger] line_raises(next, rest, i, w, root, host);
                assert(line_raises(st, lines, i + 1, w, root, host));
            }
            if exists|i: int|
                0 <= i < lines.len() && #[trigger] line_raises(st, lines, i, w, root, host) {
                let i = choose|i: int|
                    0 <= i < lines.len() && #[trigger] line_raises(st, lines, i, w, root, host);
                if i > 0 {
                    assert(line_raises(next, rest, i - 1, w, root, host));
                }
            }
        }
    }
}

/// Whether the list holds a warning exactly if one of the lines raises it.
pub open spec fn warns_of_mounts(
    list: Seq<Warning<Text>>,
    lines: Seq<Text>,
    root: Text,
    host: Host,
) -> bool {
    forall|w: Warning<Text>| #[trigger]
        list.contains(w) <==> exists|i: int|
            0 <= i < lines.len() && #[trigger] line_raises(
                nothing_read(),
                lines,
                i,
                w,
                root,
                host,
            )
}

/// A warning is given exactly if one of the lines raises it.
pub proof fn mounts_warn_of_lines(body: Text, root: Text, host: Host)
    ensures
        mounts_warned(body, root, host) matches Ok(list) ==> warns_of_mounts(
            list,
            text::lines(body),
            root,
            host,
        ),
{
    if let Ok(list) = mounts_warned(body, root, host) {
        let lines = text::lines(body);
        assert forall|w: Warning<Text>| true implies (#[trigger] list.contains(w) <==> exists|
            i: int,
        |
            0 <= i < lines.len() && #[trigger] line_raises(
                nothing_read(),
                lines,
                i,
                w,
                root,
                host,
            )) by {
            lines_warn_of(Seq::empty(), nothing_read(), lines, root, host, w);
        }
    }
}

fn own_warning_of(e: &Entry<String>, root_dir: &RootDir, facts: &Facts) -> (r: Result<
    Option<Warning<String>>,
    Probe<String>,
>)
    ensures
        host::shown(r) == own_warning(e.deep_view(), root_dir@, facts@),
{
    let mount_point = e.mount_point.clone();
    let full = text::cat(root_dir.as_str(), e.mount_point.as_str());
    if text::same(e.fs_type.as_str(), "fuseblk") || text::same(e.fs_type.as_str(), "fuse") {
        Ok(Some(Warning::FuseMount(mount_point)))
    } else if text::same(e.fs_type.as_str(), "btrfs") {
        match device::btrfs_subvol_path(full.as_str(), facts)? {
            BtrfsProbe::BinaryMissing => Ok(Some(Warning::BtrfsMissing(mount_point))),
            _ => Ok(None),
        }
    } else if text::same(e.fs_type.as_str(), "bcachefs") {
        match device::bcachefs_uuid(full.as_str(), facts)? {
            None => Ok(Some(Warning::BcachefsUuidUnknown(mount_point))),
            Some(_) => Ok(None),
        }
    } else {
        Ok(None)
    }
}

fn warning_of(st: &Mounts, e: &Entry<String>, root_dir: &RootDir, facts: &Facts) -> (r: Result<
    Option<Warning<String>>,
    Probe<String>,
>)
    ensures
        host::shown(r) == (if is_store_view(e.deep_view()) {
            Ok(None)
        } else {
            match is_bind(
                st.deep_view().seen.contains_key(e.dev_id@),
                e.deep_view(),
                root_dir@,
                facts@,
            ) {
                Err(p) => Err(p),
                Ok(true) => Ok(None),
                Ok(false) => own_warning(e.deep_view(), root_dir@, facts@),
            }
        }),
{
    if text::same(e.mount_point.as_str(), "/nix/store") && option_in(
        e.super_options.as_str(),
        "rw",
    ) && option_in(e.mount_options.as_str(), "ro") {
        return Ok(None);
    }
    let seen = st.seen.get(e.dev_id.as_str()).is_some();
    if is_bind_mount(seen, e, root_dir, facts)? {
        return Ok(None);
    }
    own_warning_of(e, root_dir, facts)
}

/// What the text of `/proc/self/mountinfo` warns of: FUSE file systems, which get
/// no entry, btrfs mounts whose subvolume cannot be told because the program is
/// missing, and bcachefs mounts whose UUID cannot be told.
pub fn mount_warnings(body: &str, root_dir: &RootDir, facts: &Facts) -> (r: Result<
    Vec<Warning<String>>,
    Probe<String>,
>)
    ensures
        host::shown(r) == mounts_warned(body@, root_dir@, facts@),
        r matches Ok(list) ==> warns_of_mounts(
            list.deep_view(),
            text::lines(body@),
            root_dir@,
            facts@,
        ),
{
    proof {
        mounts_warn_of_lines(body@, root_dir@, facts@);
    }
    let lines = text::lines_of(body);
    let ghost all = lines.deep_view();
    let mut list = warning::no_warnings();
    let mut st = Mounts {
        file_systems: String::new(),
        use_swraid: false,
        seen: Table::new(),
        luks_devices: Vec::new(),
    };
    assert(st.luks_devices.deep_view() =~= Seq::<Text>::empty());
    assert(all.skip(0) =~= all);
    let mut i: usize = 0;
    while i < lines.len()
        invariant
            i <= lines@.len(),
            all == lines.deep_view(),
            mounts_warned(body@, root_dir@, facts@) == lines_warned(
                list.deep_view(),
                st.deep_view(),
                all.skip(i as int),
                root_dir@,
                facts@,
            ),
        decreases lines@.len() - i,
    {
        assert(all.skip(i as int)[0] == lines@[i as int]@);
        assert(all.skip(i as int).drop_first() =~= all.skip(i + 1));
        if let Some(e) = mount_entry(lines[i].as_str(), root_dir, facts)? {
            if let Some(w) = warning_of(&st, &e, root_dir, facts)? {
                warning::push_warning(&mut list, w);
            }
            take_mount(&mut st, &e, root_dir, facts)?;
        }
        i += 1;
    }
    Ok(list)
}

/// What the scan of the mounts of this host warns of. Without
/// `/proc/self/mountinfo` there is no scan.
pub open spec fn mount_scan_warned(root: Text, host: Host) -> Result<
    Seq<Warning<Text>>,
    Probe<Text>,
> {
    match error::required_file("/proc/self/mountinfo"@, host) {
        Err(Halt::Need(p)) => Err(p),
        Err(Halt::Fail(_)) => Ok(Seq::empty()),
        Ok(body) => mounts_warned(body, root, host),
    }
}

/// What the scan of the mounts of this host warns of.
pub fn mount_scan_warnings(root_dir: &RootDir, facts: &Facts) -> (r: Result<
    Vec<Warning<String>>,
    Probe<String>,
>)
    ensures
        host::shown(r) == mount_scan_warned(root_dir@, facts@),
{
    match error::require_file("/proc/self/mountinfo", facts) {
        Ok(body) => mount_warnings(body, root_dir, facts),
        Err(Halt::Need(p)) => Err(p),
        Err(Halt::Fail(_)) => Ok(warning::no_warnings()),
    }
}

}
