//! What the scan of the mounts and of the swap devices promises, in terms of the
//! lines that are read and of what the machine answers.

use vstd::prelude::*;

use crate::device;
use crate::error;
use crate::error::Error;
use crate::error::Halt;
use crate::host::DirRead;
use crate::host::FileRead;
use crate::host::Host;
use crate::host::Probe;
use crate::host::RunResult;
use crate::mount;
use crate::mount::MountModel;
use crate::mountinfo;
use crate::mountinfo::Below;
use crate::mountinfo::MountState;
use crate::template;
use crate::text;
use crate::text::Text;
use crate::warning::Warning;

verus! {

/// A line of `/proc/self/mountinfo`, field by field.
pub struct MountLine {
    pub dev_id: Text,
    pub fs_root: Text,
    /// The mount point on this host.
    pub mp: Text,
    /// The mount point as seen from the root directory.
    pub name: Text,
    pub options: Text,
    pub fs_type: Text,
    pub device: Text,
    pub super_options: Text,
}

/// Whether the line tells of the mount: its fields are separated by spaces, and
/// the first field that is a hyphen stands before the type of the file system.
pub open spec fn tells_of(line: Text, sep: int, m: MountLine) -> bool {
    let fields = text::split(line, ' ');
    &&& fields.len() >= 10
    &&& m.dev_id == fields[2]
    &&& m.fs_root == mount::unescaped(fields[3])
    &&& m.mp == mount::unescaped(fields[4])
    &&& m.options == fields[5]
    &&& 0 <= sep
    &&& sep + 3 <= fields.len()
    &&& fields[sep] == "-"@
    &&& forall|i: int| 0 <= i < sep ==> fields[i] != "-"@
    &&& m.fs_type == fields[sep + 1]
    &&& m.device == mount::unescaped(fields[sep + 2])
    &&& sep + 3 < fields.len() ==> m.super_options == fields[sep + 3]
    &&& sep + 3 == fields.len() ==> m.super_options.len() == 0
}

/// Whether the path is the directory or lies in it.
pub open spec fn is_under(dir: Text, path: Text) -> bool {
    path == dir || exists|rest: Text| path == #[trigger] (dir + "/"@ + rest)
}

/// Whether the mount point is a directory in the root directory, goes by this
/// name there, and does not belong to the running kernel.
pub open spec fn is_scanned(m: MountLine, root: Text, host: Host) -> bool {
    &&& host.stat(m.mp) matches Ok(Some(s)) && s.is_dir
    &&& m.mp == root ==> m.name == "/"@
    &&& m.mp != root ==> m.mp == root + m.name && m.name.len() > 0 && m.name[0] == '/'
    &&& !is_under("/proc"@, m.name)
    &&& !is_under("/dev"@, m.name)
    &&& !is_under("/sys"@, m.name)
    &&& !is_under("/run"@, m.name)
    &&& m.name != "/var/lib/nfs/rpc_pipefs"@
}

/// The path that the file system tools are asked about: the mount point on this
/// host. The root directory is asked about with a slash behind it.
pub open spec fn asked(m: MountLine, root: Text) -> Text {
    if m.mp == root {
        root + "/"@
    } else {
        m.mp
    }
}

/// Whether the mount is the read-only view of the store on a writable file
/// system.
pub open spec fn is_view_of_the_store(m: MountLine) -> bool {
    &&& m.name == "/nix/store"@
    &&& text::split(m.super_options, ',').contains("rw"@)
    &&& text::split(m.options, ',').contains("ro"@)
}

/// Whether btrfs says that there is no subvolume: the program could be run and
/// failed, or reports an error.
pub open spec fn denies_subvolume(run: RunResult<Text>) -> bool {
    match run {
        RunResult::NotFound => false,
        RunResult::Failed => true,
        RunResult::Exited { success, stdout } => !success || text::occurs(stdout, "ERROR:"@),
    }
}

/// Whether btrfs names the subvolume: on the first line that it prints.
pub open spec fn names_subvolume(run: RunResult<Text>, path: Text) -> bool {
    &&& !denies_subvolume(run)
    &&& run matches RunResult::Exited { stdout, .. } && text::lines(stdout).len() > 0 && path
        == text::trim(text::lines(stdout)[0])
    &&& path.len() > 0
    &&& path != "/"@
}

/// Whether the mount shows a file system that is mounted elsewhere already, given
/// what btrfs says of the mount point.
pub open spec fn is_bound(st: MountState, m: MountLine, run: RunResult<Text>) -> bool {
    st.seen.contains_key(m.dev_id) && (m.fs_type == "btrfs"@ ==> denies_subvolume(run))
}

proof fn separator_is_first(fields: Seq<Text>, sep: int)
    requires
        0 <= sep < fields.len(),
        fields[sep] == "-"@,
        forall|i: int| 0 <= i < sep ==> fields[i] != "-"@,
    ensures
        mountinfo::separator(fields) == sep,
    decreases sep,
{
    if sep > 0 {
        let rest = fields.drop_first();
        assert(fields[0] != "-"@);
        assert(rest[sep - 1] == fields[sep]);
        assert forall|i: int| 0 <= i < sep - 1 implies rest[i] != "-"@ by {
            assert(fields[i + 1] != "-"@);
        }
        separator_is_first(rest, sep - 1);
    }
}

proof fn under_is_in(dir: Text, path: Text)
    ensures
        is_under(dir, path) <==> mount::lies_in(dir, path),
{
    reveal_strlit("/");
    let p = dir + "/"@;
    if p.is_prefix_of(path) {
        assert(path =~= p + path.skip(p.len() as int));
    }
    if is_under(dir, path) && path != dir {
        let rest = choose|rest: Text| path == #[trigger] (p + rest);
        assert(p =~= path.subrange(0, p.len() as int));
    }
}

/// What the line says becomes the entry that the scan goes by.
proof fn line_is_read(line: Text, sep: int, m: MountLine, root: Text, host: Host)
    requires
        tells_of(line, sep, m),
        is_scanned(m, root, host),
    ensures
        mountinfo::entry(line, root, host) matches Ok(Some(e)) && e.dev_id == m.dev_id && e.fs_root
            == m.fs_root && e.mount_point == m.name && e.mount_options == m.options && e.fs_type
            == m.fs_type && e.device == m.device && e.super_options == m.super_options
            && mountinfo::full_path(root, e) == asked(m, root),
{
    reveal_strlit("/");
    let fields = text::split(line, ' ');
    separator_is_first(fields, sep);
    if m.mp != root {
        assert((root + "/"@) =~= m.mp.subrange(0, root.len() as int + 1));
    }
    assert(mount::lies_in(root, m.mp));
    mount::stripping_can_be_undone(root, m.mp);
    if m.mp != root {
        assert(m.name =~= m.mp.skip(root.len() as int));
        assert(mount::seen_from(root, m.mp) == m.name);
    }
    under_is_in("/proc"@, m.name);
    under_is_in("/dev"@, m.name);
    under_is_in("/sys"@, m.name);
    under_is_in("/run"@, m.name);
    if sep + 3 == fields.len() {
        assert(m.super_options =~= Seq::<char>::empty());
    }
}

/// A line with too few fields, with no hyphen among them, or with too few fields
/// behind it leaves no trace; nor does one whose mount point is no directory, lies
/// outside of the root directory, or belongs to the running kernel.
pub proof fn other_lines_leave_no_trace(st: MountState, line: Text, root: Text, host: Host)
    requires
        ({
            let fields = text::split(line, ' ');
            let mp = mount::unescaped(fields[4]);
            ||| fields.len() < 10
            ||| host.stat(mp) == Ok::<Option<crate::host::Stat>, Probe<Text>>(None)
            ||| host.stat(mp) matches Ok(Some(s)) && {
                ||| !s.is_dir
                ||| !is_under(root, mp)
                ||| exists|name: Text| #[trigger]
                    (root + name) == mp && mp != root && (is_under("/proc"@, name) || is_under(
                        "/dev"@,
                        name,
                    ) || is_under("/sys"@, name) || is_under("/run"@, name) || name
                        == "/var/lib/nfs/rpc_pipefs"@)
                ||| forall|i: int| 0 <= i && i + 3 <= fields.len() ==> fields[i] != "-"@
            }
        }),
    ensures
        mountinfo::mount_line(st, line, root, host) == Ok::<MountState, Probe<Text>>(st),
{
    let fields = text::split(line, ' ');
    if fields.len() >= 10 {
        let mp = mount::unescaped(fields[4]);
        under_is_in(root, mp);
        if host.stat(mp) matches Ok(Some(s)) && s.is_dir && is_under(root, mp) {
            mount::stripping_can_be_undone(root, mp);
            let seen = mount::seen_from(root, mp);
            if exists|name: Text| #[trigger]
                (root + name) == mp && mp != root && (is_under("/proc"@, name) || is_under(
                    "/dev"@,
                    name,
                ) || is_under("/sys"@, name) || is_under("/run"@, name) || name
                    == "/var/lib/nfs/rpc_pipefs"@) {
                let name = choose|name: Text| #[trigger]
                    (root + name) == mp && mp != root && (is_under("/proc"@, name) || is_under(
                        "/dev"@,
                        name,
                    ) || is_under("/sys"@, name) || is_under("/run"@, name) || name
                        == "/var/lib/nfs/rpc_pipefs"@);
                assert(name =~= mp.skip(root.len() as int));
                assert((root + seen).skip(root.len() as int) =~= seen);
                assert(seen =~= name);
                under_is_in("/proc"@, name);
                under_is_in("/dev"@, name);
                under_is_in("/sys"@, name);
                under_is_in("/run"@, name);
            } else {
                no_separator(fields);
            }
        }
    }
}

proof fn no_separator(fields: Seq<Text>)
    ensures
        mountinfo::separator(fields) + 3 <= fields.len() ==> exists|i: int|
            0 <= i && i + 3 <= fields.len() && fields[i] == "-"@,
        0 <= mountinfo::separator(fields) <= fields.len(),
        mountinfo::separator(fields) < fields.len() ==> fields[mountinfo::separator(fields)]
            == "-"@,
    decreases fields.len(),
{
    if fields.len() > 0 && fields[0] != "-"@ {
        no_separator(fields.drop_first());
    }
}

/// The read-only view of the store on a writable file system leaves no trace.
pub proof fn view_of_the_store_leaves_no_trace(
    st: MountState,
    line: Text,
    sep: int,
    m: MountLine,
    root: Text,
    host: Host,
)
    requires
        tells_of(line, sep, m),
        is_scanned(m, root, host),
        is_view_of_the_store(m),
    ensures
        mountinfo::mount_line(st, line, root, host) == Ok::<MountState, Probe<Text>>(st),
        mountinfo::line_warning(st, line, root, host) == Ok::<Option<Warning<Text>>, Probe<Text>>(
            None,
        ),
{
    line_is_read(line, sep, m, root, host);
}

/// A file system that is mounted elsewhere already is bound: its entry names the
/// place where it was mounted and the directory of it that is shown here, and
/// nothing else changes. For a btrfs this holds if it says of the mount point, by
/// its path on this host, that there is no subvolume.
pub proof fn known_file_system_is_bound(
    st: MountState,
    line: Text,
    sep: int,
    m: MountLine,
    root: Text,
    host: Host,
    run: RunResult<Text>,
    next: MountState,
)
    requires
        tells_of(line, sep, m),
        is_scanned(m, root, host),
        !is_view_of_the_store(m),
        m.fs_type == "btrfs"@ ==> host.btrfs_subvol_show(asked(m, root)) == Ok::<
            RunResult<Text>,
            Probe<Text>,
        >(run),
        is_bound(st, m, run),
        mountinfo::mount_line(st, line, root, host) == Ok::<MountState, Probe<Text>>(next),
    ensures
        ({
            let shown = if m.fs_root == "/"@ {
                Seq::<char>::empty()
            } else {
                m.fs_root
            };
            let there = if st.seen[m.dev_id] == "/"@ {
                shown
            } else {
                st.seen[m.dev_id] + shown
            };
            next.file_systems == st.file_systems + mount::fs_block(
                m.name,
                there,
                "none"@,
                seq!["bind"@],
                None,
            )
        }),
        next.seen == st.seen,
        next.below == st.below,
        mountinfo::line_warning(st, line, root, host) == Ok::<Option<Warning<Text>>, Probe<Text>>(
            None,
        ),
{
    line_is_read(line, sep, m, root, host);
    let shown = mountinfo::unless_root(m.fs_root);
    assert(Seq::<char>::empty() + shown =~= shown);
}

/// A mount through FUSE, and the temporary file system on `/tmp`, get no entry.
/// Where they are mounted is noted.
pub proof fn fuse_and_tmp_get_no_entry(
    st: MountState,
    line: Text,
    sep: int,
    m: MountLine,
    root: Text,
    host: Host,
    next: MountState,
)
    requires
        tells_of(line, sep, m),
        is_scanned(m, root, host),
        !st.seen.contains_key(m.dev_id),
        m.fs_type == "fuse"@ || m.fs_type == "fuseblk"@ || (m.fs_type == "tmpfs"@ && m.name
            == "/tmp"@),
        !is_view_of_the_store(m),
        mountinfo::mount_line(st, line, root, host) == Ok::<MountState, Probe<Text>>(next),
    ensures
        next.file_systems == st.file_systems,
        next.seen == st.seen.insert(m.dev_id, m.name),
        next.below == st.below,
{
    line_is_read(line, sep, m, root, host);
}

/// The file that names the backing file of a loop device, for the path of such a
/// device.
pub open spec fn loop_file(dev: Text) -> Option<Text> {
    if "/dev/loop"@.is_prefix_of(dev) {
        match text::parsed_u32(dev.skip("/dev/loop"@.len() as int)) {
            Some(n) => Some(
                "/sys/block/loop"@ + text::decimal(n as nat) + "/loop/backing_file"@,
            ),
            None => None,
        }
    } else {
        None
    }
}

/// Whether the device is mounted through a loop whose backing file is this one.
pub open spec fn is_backed_by(dev: Text, file: Text, host: Host) -> bool {
    loop_file(dev) matches Some(path) && host.file(path) matches Ok(FileRead::Text(t)) && file
        == text::trim(t)
}

/// Whether the device is mounted through a loop whose backing file is known.
pub open spec fn is_looped(dev: Text, host: Host) -> bool {
    loop_file(dev) matches Some(path) && host.file(path) matches Ok(FileRead::Text(_))
}

/// Whether the options are those that the mount asks for: `loop` for a backing
/// file, the subvolume of a btrfs, the permissions of a FAT file system, each
/// once.
pub open spec fn are_options_of(
    options: Seq<Text>,
    m: MountLine,
    run: RunResult<Text>,
    host: Host,
) -> bool {
    &&& options.no_duplicates()
    &&& forall|o: Text| #[trigger]
        options.contains(o) <==> {
            ||| o == "loop"@ && is_looped(m.device, host)
            ||| m.fs_type == "btrfs"@ && exists|path: Text| #[trigger]
                names_subvolume(run, path) && o == "subvol="@ + path
            ||| m.fs_type == "vfat"@ && text::split(m.super_options, ',').contains(o) && (
            "fmask"@.is_prefix_of(o) || "dmask"@.is_prefix_of(o))
        }
}

/// The options that the mount asks for, in order, some of them perhaps twice.
pub open spec fn asked_options(m: MountLine, run: RunResult<Text>, host: Host) -> Seq<Text> {
    (if is_looped(m.device, host) {
        seq!["loop"@]
    } else {
        Seq::empty()
    }) + (if m.fs_type == "btrfs"@ {
        match run {
            RunResult::Exited { stdout, .. } => if names_subvolume(
                run,
                text::trim(text::lines(stdout)[0]),
            ) {
                seq!["subvol="@ + text::trim(text::lines(stdout)[0])]
            } else {
                Seq::empty()
            },
            _ => Seq::empty(),
        }
    } else if m.fs_type == "vfat"@ {
        text::split(m.super_options, ',').filter(
            |o: Text| "fmask"@.is_prefix_of(o) || "dmask"@.is_prefix_of(o),
        )
    } else {
        Seq::empty()
    })
}

proof fn masks_are_filtered(options: Seq<Text>)
    ensures
        mountinfo::masks(options) == options.filter(
            |o: Text| "fmask"@.is_prefix_of(o) || "dmask"@.is_prefix_of(o),
        ),
    decreases options.len(),
{
    reveal(Seq::filter);
    if options.len() > 0 {
        masks_are_filtered(options.drop_last());
    }
}

/// Of options that are asked for more than once the first counts: what is added
/// behind leaves the ones in front as they are.
pub proof fn earlier_options_stay_in_front(a: Seq<Text>, b: Seq<Text>)
    ensures
        mount::distinct(a).is_prefix_of(mount::distinct(a + b)),
    decreases b.len(),
{
    let front = mount::distinct(a);
    if b.len() == 0 {
        assert(a + b =~= a);
        assert(front =~= front.subrange(0, front.len() as int));
    } else {
        let less = b.drop_last();
        earlier_options_stay_in_front(a, less);
        assert((a + b).drop_last() =~= a + less);
        assert((a + b).last() == b.last());
        let shorter = mount::distinct(a + less);
        let longer = mount::distinct(a + b);
        assert(longer == text::with_text(shorter, b.last()));
        assert(front =~= shorter.subrange(0, front.len() as int));
        assert(front =~= longer.subrange(0, front.len() as int)) by {
            assert forall|i: int| 0 <= i < front.len() implies front[i] == longer[i] by {
                assert(front[i] == shorter.subrange(0, front.len() as int)[i]);
            }
        }
    }
}

/// Whether bcachefs prints the UUID: behind `Filesystem:` on its first line, as
/// far as the characters can stand in one.
pub open spec fn prints_uuid(run: RunResult<Text>, uuid: Text) -> bool {
    run matches RunResult::Exited { success: true, stdout } && {
        let first = text::lines(stdout)[0];
        let rest = text::trim(first.skip("Filesystem:"@.len() as int));
        &&& text::lines(stdout).len() > 0
        &&& "Filesystem:"@.is_prefix_of(first)
        &&& uuid.len() > 0
        &&& uuid.is_prefix_of(rest)
        &&& forall|i: int| 0 <= i < uuid.len() ==> can_stand_in_uuid(#[trigger] uuid[i])
        &&& uuid.len() == rest.len() || !can_stand_in_uuid(rest[uuid.len() as int])
    }
}

/// Whether the character is a hexadecimal digit or a hyphen.
pub open spec fn can_stand_in_uuid(c: char) -> bool {
    c == '-' || ('0' <= c <= '9') || ('a' <= c <= 'f') || ('A' <= c <= 'F')
}

/// Whether the device is what the entry names: the UUID that bcachefs prints for
/// the mount point, if it prints one, else the stable name.
pub open spec fn is_named(
    device: Text,
    stable: Text,
    m: MountLine,
    root: Text,
    host: Host,
) -> bool {
    if m.fs_type == "bcachefs"@ && exists|uuid: Text| #[trigger]
        is_uuid_at(asked(m, root), uuid, host) {
        exists|uuid: Text| #[trigger]
            is_uuid_at(asked(m, root), uuid, host) && device == "UUID="@ + uuid
    } else {
        device == stable
    }
}

/// Whether bcachefs, asked about the path, prints the UUID.
pub open spec fn is_uuid_at(path: Text, uuid: Text, host: Host) -> bool {
    host.bcachefs_usage(path) matches Ok(run) && prints_uuid(run, uuid)
}

/// Whether the path is that of a volume of the stratis pool.
pub open spec fn is_volume_of(path: Text, pool: Text) -> bool {
    !pool.contains('/') && exists|volume: Text|
        path == #[trigger] ("/dev/stratis/"@ + pool + "/"@ + volume)
}

proof fn uuid_run_is_longest(s: Text)
    ensures
        device::uuid_run(s).is_prefix_of(s),
        forall|i: int|
            0 <= i < device::uuid_run(s).len() ==> can_stand_in_uuid(
                #[trigger] device::uuid_run(s)[i],
            ),
        device::uuid_run(s).len() == s.len() || !can_stand_in_uuid(
            s[device::uuid_run(s).len() as int],
        ),
    decreases s.len(),
{
    let run = device::uuid_run(s);
    if s.len() > 0 && device::is_uuid_char(s[0]) {
        let rest = s.drop_first();
        uuid_run_is_longest(rest);
        let r = device::uuid_run(rest);
        assert(run == seq![s[0]] + r);
        assert(r =~= rest.subrange(0, r.len() as int));
        assert forall|i: int| 0 <= i < run.len() implies run[i] == s[i] && can_stand_in_uuid(
            #[trigger] run[i],
        ) by {
            if i > 0 {
                assert(run[i] == r[i - 1]);
                assert(r[i - 1] == rest.subrange(0, r.len() as int)[i - 1]);
            }
        }
        assert(run =~= s.subrange(0, run.len() as int));
        if run.len() < s.len() {
            assert(s[run.len() as int] == rest[r.len() as int]);
        }
    } else {
        assert(run =~= s.subrange(0, 0));
    }
}

proof fn prefixes_are_equal(a: Text, b: Text, s: Text)
    requires
        a.is_prefix_of(s),
        b.is_prefix_of(s),
        forall|i: int| 0 <= i < a.len() ==> can_stand_in_uuid(#[trigger] a[i]),
        forall|i: int| 0 <= i < b.len() ==> can_stand_in_uuid(#[trigger] b[i]),
        a.len() == s.len() || !can_stand_in_uuid(s[a.len() as int]),
        b.len() == s.len() || !can_stand_in_uuid(s[b.len() as int]),
    ensures
        a == b,
{
    assert(a =~= s.subrange(0, a.len() as int));
    assert(b =~= s.subrange(0, b.len() as int));
    if a.len() < b.len() {
        assert(b[a.len() as int] == s.subrange(0, b.len() as int)[a.len() as int]);
    }
    if b.len() < a.len() {
        assert(a[b.len() as int] == s.subrange(0, a.len() as int)[b.len() as int]);
    }
}

/// The UUID of a bcachefs is told exactly if the program prints one, and is the
/// one that it prints.
pub proof fn bcachefs_uuid_is_printed(run: RunResult<Text>, uuid: Text)
    ensures
        device::usage_uuid(run) == Some(uuid) <==> prints_uuid(run, uuid),
{
    if let RunResult::Exited { success, stdout } = run {
        if success && text::lines(stdout).len() > 0 {
            let first = text::lines(stdout)[0];
            let rest = text::trim(first.skip("Filesystem:"@.len() as int));
            uuid_run_is_longest(rest);
            if prints_uuid(run, uuid) {
                prefixes_are_equal(uuid, device::uuid_run(rest), rest);
            }
        }
    }
}

/// The pool of a device is told exactly if it is the path of a volume.
pub proof fn pool_is_that_of_the_volume(path: Text, pool: Text)
    ensures
        device::pool_of(path) == Some(pool) <==> is_volume_of(path, pool),
{
    reveal_strlit("/");
    assert("/"@ =~= seq!['/']);
    let head = "/dev/stratis/"@;
    if is_volume_of(path, pool) {
        let volume = choose|volume: Text|
            path == #[trigger] (head + pool + "/"@ + volume);
        assert(head =~= path.subrange(0, head.len() as int));
        let rest = path.skip(head.len() as int);
        assert(rest =~= pool + "/"@ + volume);
        slash_is_at(rest, pool.len() as int);
        assert(rest.take(pool.len() as int) =~= pool);
    }
    if device::pool_of(path) == Some(pool) {
        let rest = path.skip(head.len() as int);
        assert(path =~= head + rest);
        let i = text::position(rest, '/');
        slash_is_first(rest);
        assert(pool == rest.take(i));
        let volume = rest.skip(i + 1);
        assert(path =~= head + pool + "/"@ + volume);
        assert(!pool.contains('/')) by {
            if pool.contains('/') {
                let k = choose|k: int| 0 <= k < pool.len() && pool[k] == '/';
                assert(rest[k] == '/');
            }
        }
    }
}

proof fn slash_is_first(s: Text)
    ensures
        0 <= text::position(s, '/') <= s.len(),
        text::position(s, '/') < s.len() ==> s[text::position(s, '/')] == '/',
        forall|i: int| 0 <= i < text::position(s, '/') ==> s[i] != '/',
    decreases s.len(),
{
    if s.len() > 0 && s[0] != '/' {
        slash_is_first(s.drop_first());
        assert forall|i: int| 0 <= i < text::position(s, '/') implies s[i] != '/' by {
            if i > 0 {
                assert(s.drop_first()[i - 1] == s[i]);
            }
        }
    }
}

proof fn slash_is_at(s: Text, k: int)
    requires
        0 <= k < s.len(),
        s[k] == '/',
        !s.take(k).contains('/'),
    ensures
        text::position(s, '/') == k,
{
    slash_is_first(s);
    if text::position(s, '/') < k {
        assert(s.take(k)[text::position(s, '/')] == '/');
    }
}

proof fn masks_are_the_mask_options(options: Seq<Text>, o: Text)
    ensures
        mountinfo::masks(options).contains(o) <==> options.contains(o) && ("fmask"@.is_prefix_of(o)
            || "dmask"@.is_prefix_of(o)),
    decreases options.len(),
{
    if options.len() > 0 {
        let before = options.drop_last();
        masks_are_the_mask_options(before, o);
        let kept = mountinfo::masks(before);
        let last = options.last();
        assert(options =~= before.push(last));
        pushed(before, last, o);
        pushed(kept, last, o);
    }
}

proof fn pushed(s: Seq<Text>, x: Text, o: Text)
    ensures
        s.push(x).contains(o) <==> s.contains(o) || o == x,
{
    if s.contains(o) {
        let i = choose|i: int| 0 <= i < s.len() && s[i] == o;
        assert(s.push(x)[i] == o);
    }
    assert(s.push(x)[s.len() as int] == x);
    if s.push(x).contains(o) && o != x {
        let i = choose|i: int| 0 <= i < s.push(x).len() && s.push(x)[i] == o;
        assert(s[i] == o);
    }
}

proof fn joined_contains(a: Seq<Text>, b: Seq<Text>, o: Text)
    ensures
        (a + b).contains(o) <==> a.contains(o) || b.contains(o),
{
    if a.contains(o) {
        let i = choose|i: int| 0 <= i < a.len() && a[i] == o;
        assert((a + b)[i] == o);
    }
    if b.contains(o) {
        let i = choose|i: int| 0 <= i < b.len() && b[i] == o;
        assert((a + b)[a.len() + i] == o);
    }
    if (a + b).contains(o) && !a.contains(o) {
        let i = choose|i: int| 0 <= i < (a + b).len() && (a + b)[i] == o;
        if i < a.len() {
            assert(a[i] == o);
        } else {
            assert(b[i - a.len()] == o);
        }
    }
}

/// Whether what is known of a btrfs and of the place of the mount makes the mount
/// one of its own, which gets an entry.
pub open spec fn gets_own_entry(st: MountState, m: MountLine, run: RunResult<Text>) -> bool {
    &&& !is_view_of_the_store(m)
    &&& !is_bound(st, m, run)
    &&& m.fs_type != "fuse"@
    &&& m.fs_type != "fuseblk"@
    &&& !(m.fs_type == "tmpfs"@ && m.name == "/tmp"@)
}

/// Whether the text is the entry of the mount, given the stable name of its
/// device: the mount point as seen from the root directory, the device, the type,
/// the options, and the UUID of the stratis pool that the device belongs to.
pub open spec fn is_entry_of(
    block: Text,
    m: MountLine,
    stable: Text,
    run: RunResult<Text>,
    root: Text,
    host: Host,
) -> bool {
    exists|device: Text, options: Seq<Text>, uuid: Option<Text>|
        #![trigger mount::fs_block(m.name, device, m.fs_type, options, uuid)]
        {
            &&& block == mount::fs_block(m.name, device, m.fs_type, options, uuid)
            &&& is_named(device, stable, m, root, host)
            &&& are_options_of(options, m, run, host)
            &&& options == mount::distinct(asked_options(m, run, host))
            &&& (forall|pool: Text| !is_volume_of(stable, pool)) ==> uuid is None
            &&& forall|pool: Text| #[trigger]
                is_volume_of(stable, pool) ==> device::pool_uuid(pool, host) == Ok::<
                    Option<Text>,
                    Probe<Text>,
                >(uuid)
        }
}

proof fn options_are_found(
    e: mountinfo::Entry<Text>,
    m: MountLine,
    root: Text,
    host: Host,
    run: RunResult<Text>,
    s: mountinfo::Source<Text, Seq<Text>>,
)
    requires
        e.fs_type == m.fs_type,
        e.device == m.device,
        e.super_options == m.super_options,
        mountinfo::full_path(root, e) == asked(m, root),
        mountinfo::source(e, root, host) == Ok::<
            mountinfo::Source<Text, Seq<Text>>,
            Probe<Text>,
        >(s),
        m.fs_type == "btrfs"@ ==> host.btrfs_subvol_show(asked(m, root)) == Ok::<
            RunResult<Text>,
            Probe<Text>,
        >(run),
    ensures
        are_options_of(mount::distinct(s.options), m, run, host),
        s.options == asked_options(m, run, host),
        is_looped(m.device, host) ==> is_backed_by(m.device, s.device, host),
        !is_looped(m.device, host) ==> s.device == m.device,
{
    reveal_strlit("btrfs");
    reveal_strlit("vfat");
    assert("btrfs"@.len() == 5);
    assert("vfat"@.len() == 4);
    let b = mountinfo::backing(e.device, host)->Ok_0;
    assert(is_looped(m.device, host) ==> b.options == seq!["loop"@]);
    assert(!is_looped(m.device, host) ==> b.options.len() == 0);
    mount::distinct_keeps_each_element_once(s.options);
    masks_are_filtered(text::split(m.super_options, ','));
    assert(s.options =~= asked_options(m, run, host));
    assert forall|o: Text| #[trigger] mount::distinct(s.options).contains(o) <==> {
        ||| o == "loop"@ && is_looped(m.device, host)
        ||| m.fs_type == "btrfs"@ && exists|path: Text| #[trigger]
            names_subvolume(run, path) && o == "subvol="@ + path
        ||| m.fs_type == "vfat"@ && text::split(m.super_options, ',').contains(o) && (
        "fmask"@.is_prefix_of(o) || "dmask"@.is_prefix_of(o))
    } by {
        assert(b.options.contains(o) <==> o == "loop"@ && is_looped(m.device, host)) by {
            if is_looped(m.device, host) {
                assert(b.options[0] == "loop"@);
            }
        }
        assert(mount::distinct(s.options).contains(o) <==> s.options.contains(o));
        if m.fs_type == "btrfs"@ {
            let more = mountinfo::subvol_options(device::subvolume(run));
            joined_contains(b.options, more, o);
            assert(more.contains(o) <==> exists|path: Text| #[trigger]
                names_subvolume(run, path) && o == "subvol="@ + path) by {
                if let device::BtrfsProbe::Subvol(path) = device::subvolume(run) {
                    assert(names_subvolume(run, path));
                    assert(more[0] == "subvol="@ + path);
                }
            }
        } else if m.fs_type == "vfat"@ {
            let given = text::split(m.super_options, ',');
            joined_contains(b.options, mountinfo::masks(given), o);
            masks_are_the_mask_options(given, o);
        }
    }
}

/// A mount of its own gets exactly one entry, behind those that are there, and is
/// noted under its device number. The entry tells of the mount point on this host:
/// the subvolume is the one that btrfs names for it, and the UUID the one that
/// bcachefs prints for it.
pub proof fn own_mount_gets_its_entry(
    st: MountState,
    line: Text,
    sep: int,
    m: MountLine,
    root: Text,
    host: Host,
    run: RunResult<Text>,
    next: MountState,
)
    requires
        tells_of(line, sep, m),
        is_scanned(m, root, host),
        m.fs_type == "btrfs"@ ==> host.btrfs_subvol_show(asked(m, root)) == Ok::<
            RunResult<Text>,
            Probe<Text>,
        >(run),
        gets_own_entry(st, m, run),
        mountinfo::mount_line(st, line, root, host) == Ok::<MountState, Probe<Text>>(next),
    ensures
        next.seen == st.seen.insert(m.dev_id, m.name),
        exists|block: Text, source: Text, stable: Text| #[trigger]
            is_entry_of(block, m, stable, run, root, host) && next.file_systems
                == st.file_systems + block && #[trigger] is_stable_name(source, stable, host) && (
            if is_looped(m.device, host) {
                is_backed_by(m.device, source, host)
            } else {
                source == m.device
            }),
{
    line_is_read(line, sep, m, root, host);
    let e = mountinfo::entry(line, root, host)->Ok_0->Some_0;
    let s = mountinfo::source(e, root, host)->Ok_0;
    let stable = device::stable_path(s.device, host)->Ok_0;
    let uuid = mountinfo::pool_uuid_of_device(stable, host)->Ok_0;
    let dev = mountinfo::entry_device(stable, e, root, host)->Ok_0;
    let block = mountinfo::own_block(e, s, root, host)->Ok_0;
    options_are_found(e, m, root, host, run, s);
    assert(block == mount::fs_block(m.name, dev, m.fs_type, mount::distinct(s.options), uuid));
    assert(is_named(dev, stable, m, root, host)) by {
        if m.fs_type == "bcachefs"@ {
            let usage = host.bcachefs_usage(asked(m, root))->Ok_0;
            assert forall|u: Text| #[trigger]
                is_uuid_at(asked(m, root), u, host) <==> device::usage_uuid(usage) == Some(u) by {
                bcachefs_uuid_is_printed(usage, u);
            }
            if let Some(u) = device::usage_uuid(usage) {
                assert(is_uuid_at(asked(m, root), u, host));
            }
        }
    }
    assert forall|pool: Text| #[trigger] is_volume_of(stable, pool) implies device::pool_uuid(
        pool,
        host,
    ) == Ok::<Option<Text>, Probe<Text>>(uuid) by {
        pool_is_that_of_the_volume(stable, pool);
    }
    if uuid is Some {
        let pool = device::pool_of(stable)->Some_0;
        pool_is_that_of_the_volume(stable, pool);
    }
    assert(is_entry_of(block, m, stable, run, root, host));
    assert(is_stable_name(s.device, stable, host));
}

/// Whether the second path is the stable name of the first.
pub open spec fn is_stable_name(dev: Text, stable: Text, host: Host) -> bool {
    device::stable_path(dev, host) == Ok::<Text, Probe<Text>>(stable)
}

/// A btrfs that is known already is bound exactly if btrfs says of the mount point
/// on this host that there is no subvolume. If it names a subvolume instead, the
/// entry selects it.
pub proof fn btrfs_is_asked_about_the_mount_point(
    st: MountState,
    line: Text,
    sep: int,
    m: MountLine,
    root: Text,
    host: Host,
    run: RunResult<Text>,
    next: MountState,
)
    requires
        tells_of(line, sep, m),
        is_scanned(m, root, host),
        !is_view_of_the_store(m),
        m.mp != root,
        m.fs_type == "btrfs"@,
        st.seen.contains_key(m.dev_id),
        host.btrfs_subvol_show(m.mp) == Ok::<RunResult<Text>, Probe<Text>>(run),
        mountinfo::mount_line(st, line, root, host) == Ok::<MountState, Probe<Text>>(next),
    ensures
        denies_subvolume(run) ==> next.seen == st.seen && exists|there: Text|
            next.file_systems == st.file_systems + #[trigger] mount::fs_block(
                m.name,
                there,
                "none"@,
                seq!["bind"@],
                None,
            ),
        !denies_subvolume(run) ==> exists|device: Text, options: Seq<Text>, uuid: Option<Text>|
            next.file_systems == st.file_systems + #[trigger] mount::fs_block(
                m.name,
                device,
                "btrfs"@,
                options,
                uuid,
            ) && are_options_of(options, m, run, host),
{
    reveal_strlit("btrfs");
    reveal_strlit("fuse");
    reveal_strlit("fuseblk");
    reveal_strlit("tmpfs");
    assert("btrfs"@[0] == 'b' && "fuse"@[0] == 'f' && "fuseblk"@[0] == 'f' && "tmpfs"@[0] == 't');
    if denies_subvolume(run) {
        known_file_system_is_bound(st, line, sep, m, root, host, run, next);
    } else {
        own_mount_gets_its_entry(st, line, sep, m, root, host, run, next);
        let (block, source, stable) = choose|block: Text, source: Text, stable: Text| #[trigger]
            is_entry_of(block, m, stable, run, root, host) && next.file_systems
                == st.file_systems + block && #[trigger] is_stable_name(source, stable, host);
        let (device, options, uuid) = choose|
            device: Text,
            options: Seq<Text>,
            uuid: Option<Text>,
        |
            #![trigger mount::fs_block(m.name, device, m.fs_type, options, uuid)]
            block == mount::fs_block(m.name, device, m.fs_type, options, uuid) && are_options_of(
                options,
                m,
                run,
                host,
            );
        assert(next.file_systems == st.file_systems + mount::fs_block(
            m.name,
            device,
            "btrfs"@,
            options,
            uuid,
        ));
    }
}

/// The entry of a bcachefs names the UUID that bcachefs prints for the mount point
/// on this host.
pub proof fn bcachefs_is_asked_about_the_mount_point(
    st: MountState,
    line: Text,
    sep: int,
    m: MountLine,
    root: Text,
    host: Host,
    uuid: Text,
    next: MountState,
)
    requires
        tells_of(line, sep, m),
        is_scanned(m, root, host),
        !is_view_of_the_store(m),
        m.mp != root,
        m.fs_type == "bcachefs"@,
        !st.seen.contains_key(m.dev_id),
        is_uuid_at(m.mp, uuid, host),
        mountinfo::mount_line(st, line, root, host) == Ok::<MountState, Probe<Text>>(next),
    ensures
        exists|options: Seq<Text>, pool: Option<Text>|
            next.file_systems == st.file_systems + #[trigger] mount::fs_block(
                m.name,
                "UUID="@ + uuid,
                "bcachefs"@,
                options,
                pool,
            ),
{
    reveal_strlit("bcachefs");
    reveal_strlit("btrfs");
    reveal_strlit("fuse");
    reveal_strlit("fuseblk");
    reveal_strlit("tmpfs");
    assert("bcachefs"@[0] == 'b' && "fuse"@[0] == 'f' && "fuseblk"@[0] == 'f' && "tmpfs"@[0]
        == 't');
    assert("bcachefs"@[1] == 'c' && "btrfs"@[1] == 't');
    let run = RunResult::<Text>::NotFound;
    own_mount_gets_its_entry(st, line, sep, m, root, host, run, next);
    let (block, source, stable) = choose|block: Text, source: Text, stable: Text| #[trigger]
        is_entry_of(block, m, stable, run, root, host) && next.file_systems == st.file_systems
            + block && #[trigger] is_stable_name(source, stable, host);
    let (device, options, pool) = choose|device: Text, options: Seq<Text>, pool: Option<Text>|
        #![trigger mount::fs_block(m.name, device, m.fs_type, options, pool)]
        block == mount::fs_block(m.name, device, m.fs_type, options, pool) && is_named(
            device,
            stable,
            m,
            root,
            host,
        );
    assert(is_uuid_at(asked(m, root), uuid, host));
    let other = choose|other: Text| #[trigger]
        is_uuid_at(asked(m, root), other, host) && device == "UUID="@ + other;
    let usage = host.bcachefs_usage(m.mp)->Ok_0;
    bcachefs_uuid_is_printed(usage, uuid);
    bcachefs_uuid_is_printed(usage, other);
    assert(next.file_systems == st.file_systems + mount::fs_block(
        m.name,
        "UUID="@ + uuid,
        "bcachefs"@,
        options,
        pool,
    ));
}

/// Whether the kernel knows the device at the path by this name.
pub open spec fn is_known_as(dev: Text, base: Text, host: Host) -> bool {
    &&& host.is_there(dev) == Ok::<bool, Probe<Text>>(true)
    &&& host.resolve(dev) matches Ok(Some(found)) && found.name_is_utf8 && found.name == Some(base)
}

/// Whether the kernel says that the block device is encrypted.
pub open spec fn is_encrypted(base: Text, host: Host) -> bool {
    host.file("/sys/class/block/"@ + base + "/dm/uuid"@) matches Ok(FileRead::Text(t))
        && "CRYPT-LUKS"@.is_prefix_of(text::trim_start(t))
}

/// Whether this is the one device below the block device.
pub open spec fn lies_alone_below(slave: Text, base: Text, host: Host) -> bool {
    host.dir("/sys/class/block/"@ + base + "/slaves"@) matches Ok(DirRead::Names(names, _))
        && names.len() == 1 && slave == "/dev/"@ + names[0]
}

/// The attribute for an encrypted device, up to the equals sign.
pub open spec fn luks_attribute(base: Text, host: Host) -> Text {
    let name = match host.file("/sys/class/block/"@ + base + "/dm/name"@) {
        Ok(FileRead::Text(t)) => text::trim(t),
        _ => text::trim(Seq::empty()),
    };
    "boot.initrd.luks.devices.\""@ + template::escaped(name) + "\".device"@
}

/// What lies below a mount of its own is noted. A software RAID is noted if the
/// kernel has a file on it. An encrypted device adds one line if exactly one
/// device lies below it, that one is there and no line sets the attribute yet; the
/// line sets it to the stable name of the device below. Nothing else changes.
pub proof fn layers_below_are_noted(
    st: MountState,
    line: Text,
    sep: int,
    m: MountLine,
    root: Text,
    host: Host,
    run: RunResult<Text>,
    next: MountState,
)
    requires
        tells_of(line, sep, m),
        is_scanned(m, root, host),
        m.fs_type == "btrfs"@ ==> host.btrfs_subvol_show(asked(m, root)) == Ok::<
            RunResult<Text>,
            Probe<Text>,
        >(run),
        gets_own_entry(st, m, run),
        mountinfo::mount_line(st, line, root, host) == Ok::<MountState, Probe<Text>>(next),
    ensures
        (forall|base: Text| !is_known_as(m.device, base, host)) ==> next.below == st.below,
        forall|base: Text| #[trigger]
            is_known_as(m.device, base, host) ==> {
                let luks = st.below.luks;
                let key = luks_attribute(base, host);
                &&& next.below.use_swraid <==> (st.below.use_swraid || host.is_there(
                    "/sys/class/block/"@ + base + "/md/uuid"@,
                ) == Ok::<bool, Probe<Text>>(true))
                &&& if is_encrypted(base, host) && !sets(luks, key) && exists|slave: Text| #[trigger]
                    lies_alone_below(slave, base, host) && host.is_there(slave) == Ok::<
                        bool,
                        Probe<Text>,
                    >(true) {
                    exists|slave: Text, stable: Text| #[trigger]
                        lies_alone_below(slave, base, host) && #[trigger] is_stable_name(
                            slave,
                            stable,
                            host,
                        ) && next.below.luks == luks.push(
                            key + " = \""@ + template::escaped(stable) + "\";"@,
                        )
                } else {
                    next.below.luks == luks
                }
            },
{
    line_is_read(line, sep, m, root, host);
    let e = mountinfo::entry(line, root, host)->Ok_0->Some_0;
    assert forall|base: Text| #[trigger] is_known_as(m.device, base, host) implies {
        let luks = st.below.luks;
        let key = luks_attribute(base, host);
        &&& next.below.use_swraid <==> (st.below.use_swraid || host.is_there(
            "/sys/class/block/"@ + base + "/md/uuid"@,
        ) == Ok::<bool, Probe<Text>>(true))
        &&& if is_encrypted(base, host) && !sets(luks, key) && exists|slave: Text| #[trigger]
            lies_alone_below(slave, base, host) && host.is_there(slave) == Ok::<bool, Probe<Text>>(
                true,
            ) {
            exists|slave: Text, stable: Text| #[trigger]
                lies_alone_below(slave, base, host) && #[trigger] is_stable_name(
                    slave,
                    stable,
                    host,
                ) && next.below.luks == luks.push(
                    key + " = \""@ + template::escaped(stable) + "\";"@,
                )
        } else {
            next.below.luks == luks
        }
    } by {
        assert(mountinfo::block_name(m.device, host) == Ok::<Option<Text>, Probe<Text>>(
            Some(base),
        ));
        assert(mountinfo::layers(st.below, base, host) == Ok::<Below, Probe<Text>>(next.below));
        layers_are_noted(st.below, base, host, next.below);
    }
    if next.below != st.below {
        let base = mountinfo::block_name(m.device, host)->Ok_0->Some_0;
        assert(is_known_as(m.device, base, host));
    }
}

/// Whether one of the lines starts with the attribute.
pub open spec fn sets(lines: Seq<Text>, key: Text) -> bool {
    exists|i: int| 0 <= i < lines.len() && key.is_prefix_of(#[trigger] lines[i])
}

proof fn layers_are_noted(below: Below, base: Text, host: Host, after: Below)
    requires
        mountinfo::layers(below, base, host) == Ok::<Below, Probe<Text>>(after),
    ensures
        after.use_swraid <==> (below.use_swraid || host.is_there(
            "/sys/class/block/"@ + base + "/md/uuid"@,
        ) == Ok::<bool, Probe<Text>>(true)),
        if is_encrypted(base, host) && !sets(below.luks, luks_attribute(base, host)) && exists|
            slave: Text,
        | #[trigger]
            lies_alone_below(slave, base, host) && host.is_there(slave) == Ok::<bool, Probe<Text>>(
                true,
            ) {
            exists|slave: Text, stable: Text| #[trigger]
                lies_alone_below(slave, base, host) && #[trigger] is_stable_name(
                    slave,
                    stable,
                    host,
                ) && after.luks == below.luks.push(
                    luks_attribute(base, host) + " = \""@ + template::escaped(stable) + "\";"@,
                )
        } else {
            after.luks == below.luks
        },
{
    let dm = "/sys/class/block/"@ + base + "/dm/uuid"@;
    let empty = Seq::<char>::empty();
    assert(!"CRYPT-LUKS"@.is_prefix_of(text::trim_start(empty))) by {
        reveal_strlit("CRYPT-LUKS");
        assert(text::trim_front(empty, text::Trimmed::Space) == empty);
    }
    assert(is_encrypted(base, host) <==> "CRYPT-LUKS"@.is_prefix_of(
        text::trim_start(device::text_or_empty(host.file(dm)->Ok_0)),
    ));
    if is_encrypted(base, host) {
        let slaves = device::dir_names(device::block_file(base, "/slaves"@), host)->Ok_0;
        if slaves.len() == 1 {
            let slave = "/dev/"@ + slaves[0];
            assert(lies_alone_below(slave, base, host));
            assert(forall|other: Text| #[trigger]
                lies_alone_below(other, base, host) ==> other == slave);
            if host.is_there(slave) == Ok::<bool, Probe<Text>>(true) && !sets(
                below.luks,
                luks_attribute(base, host),
            ) {
                let stable = device::stable_path(slave, host)->Ok_0;
                assert(is_stable_name(slave, stable, host));
            }
        }
    }
}

/// Whether these are the states of a scan of the lines, from the first on: in the
/// first nothing has been read, and each line leads from one to the next.
pub open spec fn are_states(states: Seq<MountState>, lines: Seq<Text>, root: Text, host: Host) -> bool {
    &&& states.len() == lines.len() + 1
    &&& states[0].file_systems.len() == 0
    &&& states[0].seen == Map::<Text, Text>::empty()
    &&& states[0].below.luks.len() == 0
    &&& !states[0].below.use_swraid
    &&& forall|i: int|
        0 <= i < lines.len() ==> mountinfo::mount_line(states[i], #[trigger] lines[i], root, host)
            == Ok::<MountState, Probe<Text>>(states[i + 1])
}

spec fn leads(states: Seq<MountState>, st: MountState, lines: Seq<Text>, root: Text, host: Host) -> bool {
    &&& states.len() == lines.len() + 1
    &&& states[0] == st
    &&& forall|i: int|
        0 <= i < lines.len() ==> mountinfo::mount_line(states[i], #[trigger] lines[i], root, host)
            == Ok::<MountState, Probe<Text>>(states[i + 1])
}

proof fn lines_lead_on(
    st: MountState,
    lines: Seq<Text>,
    root: Text,
    host: Host,
    end: MountState,
) -> (states: Seq<MountState>)
    requires
        mountinfo::mount_lines(st, lines, root, host) == Ok::<MountState, Probe<Text>>(end),
    ensures
        leads(states, st, lines, root, host),
        states.last() == end,
    decreases lines.len(),
{
    if lines.len() == 0 {
        seq![st]
    } else {
        let next = mountinfo::mount_line(st, lines[0], root, host)->Ok_0;
        let rest = lines.drop_first();
        let more = lines_lead_on(next, rest, root, host, end);
        let states = seq![st] + more;
        assert forall|i: int| 0 <= i < lines.len() implies mountinfo::mount_line(
            states[i],
            #[trigger] lines[i],
            root,
            host,
        ) == Ok::<MountState, Probe<Text>>(states[i + 1]) by {
            if i > 0 {
                assert(states[i] == more[i - 1]);
                assert(rest[i - 1] == lines[i]);
                assert(states[i + 1] == more[i]);
            }
        }
        states
    }
}

/// The scan of the mounts goes through all lines of `/proc/self/mountinfo` in
/// order. Its entries are those of the last state; its further attributes are the
/// lines for encrypted devices and, behind them, the one for a software RAID. It
/// knows of no swap device.
pub proof fn scan_goes_through_the_lines(body: Text, root: Text, host: Host, scan: MountModel)
    requires
        host.file("/proc/self/mountinfo"@) == Ok::<FileRead<Text>, Probe<Text>>(
            FileRead::Text(body),
        ),
        mountinfo::mounts_of(root, host) == Ok::<MountModel, Halt<Text>>(scan),
    ensures
        exists|states: Seq<MountState>| #[trigger]
            are_states(states, text::lines(body), root, host) && {
                let end = states.last();
                &&& scan.file_systems == end.file_systems
                &&& scan.use_swraid == end.below.use_swraid
                &&& scan.extra_attrs == if end.below.use_swraid {
                    end.below.luks.push("boot.swraid.enable = true;"@)
                } else {
                    end.below.luks
                }
                &&& scan.swap_devices.len() == 0
            },
{
    let lines = text::lines(body);
    let end = mountinfo::mount_lines(mountinfo::nothing_read(), lines, root, host)->Ok_0;
    let states = lines_lead_on(mountinfo::nothing_read(), lines, root, host, end);
    assert(are_states(states, lines, root, host));
    if end.below.use_swraid {
        assert(scan.extra_attrs =~= end.below.luks.push("boot.swraid.enable = true;"@));
    } else {
        assert(scan.extra_attrs =~= end.below.luks);
    }
}

/// Without `/proc/self/mountinfo` the scan of the mounts fails, with the reason if
/// there is one; with it, it does not.
pub proof fn scan_fails_without_mountinfo(root: Text, host: Host)
    ensures
        host.file("/proc/self/mountinfo"@) matches Ok(FileRead::Missing) ==> mountinfo::mounts_of(
            root,
            host,
        ) == Err::<MountModel, Halt<Text>>(
            Halt::Fail(Error::UnreadableFile { path: "/proc/self/mountinfo"@, reason: None }),
        ),
        host.file("/proc/self/mountinfo"@) matches Ok(FileRead::Failed(why))
            ==> mountinfo::mounts_of(root, host) == Err::<MountModel, Halt<Text>>(
            Halt::Fail(
                Error::UnreadableFile { path: "/proc/self/mountinfo"@, reason: Some(why) },
            ),
        ),
        host.file("/proc/self/mountinfo"@) matches Ok(FileRead::Text(_)) ==> !(
        mountinfo::mounts_of(root, host) matches Err(Halt::Fail(_))),
{
}

/// A mount of its own warns of FUSE, of a btrfs whose program is missing, and of a
/// bcachefs that prints no UUID for the mount point on this host; and of nothing
/// else.
pub proof fn own_mount_warns(
    st: MountState,
    line: Text,
    sep: int,
    m: MountLine,
    root: Text,
    host: Host,
    run: RunResult<Text>,
    w: Option<Warning<Text>>,
)
    requires
        tells_of(line, sep, m),
        is_scanned(m, root, host),
        m.fs_type == "btrfs"@ ==> host.btrfs_subvol_show(asked(m, root)) == Ok::<
            RunResult<Text>,
            Probe<Text>,
        >(run),
        !is_view_of_the_store(m),
        !is_bound(st, m, run),
        mountinfo::line_warning(st, line, root, host) == Ok::<Option<Warning<Text>>, Probe<Text>>(
            w,
        ),
    ensures
        w == Some(Warning::FuseMount(m.name)) <==> m.fs_type == "fuse"@ || m.fs_type
            == "fuseblk"@,
        w == Some(Warning::BtrfsMissing(m.name)) <==> m.fs_type == "btrfs"@ && run is NotFound,
        w == Some(Warning::BcachefsUuidUnknown(m.name)) <==> m.fs_type == "bcachefs"@ && forall|
            uuid: Text,
        |
            !#[trigger] is_uuid_at(asked(m, root), uuid, host),
        w matches Some(x) ==> x == Warning::FuseMount(m.name) || x == Warning::BtrfsMissing(m.name)
            || x == Warning::BcachefsUuidUnknown(m.name),
{
    line_is_read(line, sep, m, root, host);
    reveal_strlit("btrfs");
    reveal_strlit("fuse");
    reveal_strlit("fuseblk");
    reveal_strlit("bcachefs");
    assert("btrfs"@[0] == 'b' && "fuse"@[0] == 'f' && "fuseblk"@[0] == 'f' && "bcachefs"@[0]
        == 'b');
    assert("btrfs"@[1] == 't' && "bcachefs"@[1] == 'c');
    if m.fs_type == "bcachefs"@ {
        let usage = host.bcachefs_usage(asked(m, root))->Ok_0;
        assert forall|u: Text| #[trigger]
            is_uuid_at(asked(m, root), u, host) <==> device::usage_uuid(usage) == Some(u) by {
            bcachefs_uuid_is_printed(usage, u);
        }
        if let Some(u) = device::usage_uuid(usage) {
            assert(is_uuid_at(asked(m, root), u, host));
        }
    }
}

/// Whether the row tells of a partition that is there and that is no compressed
/// memory.
pub open spec fn is_swap_partition(row: Text, host: Host) -> bool {
    let w = text::words(row);
    &&& w.len() >= 2
    &&& host.stat(w[0]) matches Ok(Some(_))
    &&& w[1] == "partition"@
    &&& !"/dev/zram"@.is_prefix_of(w[0])
}

/// Whether the row leads from one list of swap devices to the next: a partition
/// adds its stable name behind those that are there, another row adds nothing.
pub open spec fn row_leads(before: Seq<Text>, row: Text, after: Seq<Text>, host: Host) -> bool {
    if is_swap_partition(row, host) {
        exists|stable: Text| #[trigger]
            is_stable_name(text::words(row)[0], stable, host) && after == before.push(
                "{ device = \""@ + template::escaped(stable) + "\"; }"@,
            )
    } else {
        after == before
    }
}

/// Whether these are the lists of swap devices after each row, from the first on.
pub open spec fn are_swap_lists(lists: Seq<Seq<Text>>, rows: Seq<Text>, host: Host) -> bool {
    &&& lists.len() == rows.len() + 1
    &&& forall|i: int|
        0 <= i < rows.len() ==> row_leads(lists[i], #[trigger] rows[i], lists[i + 1], host)
}

proof fn rows_lead_on(
    entries: Seq<Text>,
    rows: Seq<Text>,
    host: Host,
    end: Seq<Text>,
) -> (lists: Seq<Seq<Text>>)
    requires
        mount::swap_lines(entries, rows, host) == Ok::<Seq<Text>, Probe<Text>>(end),
    ensures
        are_swap_lists(lists, rows, host),
        lists[0] == entries,
        lists.last() == end,
    decreases rows.len(),
{
    if rows.len() == 0 {
        seq![entries]
    } else {
        let next = mount::swap_line(entries, rows[0], host)->Ok_0;
        let rest = rows.drop_first();
        let more = rows_lead_on(next, rest, host, end);
        let lists = seq![entries] + more;
        let w = text::words(rows[0]);
        assert(row_leads(entries, rows[0], next, host)) by {
            if is_swap_partition(rows[0], host) {
                assert(is_stable_name(w[0], device::stable_path(w[0], host)->Ok_0, host));
            }
        }
        assert forall|i: int| 0 <= i < rows.len() implies row_leads(
            lists[i],
            #[trigger] rows[i],
            lists[i + 1],
            host,
        ) by {
            if i > 0 {
                assert(lists[i] == more[i - 1]);
                assert(rest[i - 1] == rows[i]);
                assert(lists[i + 1] == more[i]);
            } else {
                assert(lists[1] == more[0]);
            }
        }
        lists
    }
}

/// The swap devices are the partitions that `/proc/swaps` lists behind its first
/// line, each by its stable name and in order.
pub proof fn swap_devices_are_the_partitions(body: Text, host: Host, list: Seq<Text>)
    requires
        host.file("/proc/swaps"@) == Ok::<FileRead<Text>, Probe<Text>>(FileRead::Text(body)),
        mount::swaps_of(host) == Ok::<Seq<Text>, Probe<Text>>(list),
    ensures
        text::lines(body).len() == 0 ==> list.len() == 0,
        text::lines(body).len() > 0 ==> exists|lists: Seq<Seq<Text>>| #[trigger]
            are_swap_lists(lists, text::lines(body).skip(1), host) && lists[0].len() == 0
                && lists.last() == list,
{
    let lines = text::lines(body);
    if lines.len() > 0 {
        assert(lines.skip(1) =~= lines.drop_first());
        let lists = rows_lead_on(Seq::empty(), lines.skip(1), host, list);
        assert(are_swap_lists(lists, lines.skip(1), host));
    }
}

/// If `/proc/swaps` cannot be read there are no swap devices, which the user is
/// told of with the reason.
pub proof fn unreadable_swaps_are_warned_of(host: Host)
    ensures
        host.file("/proc/swaps"@) matches Ok(FileRead::Missing) ==> mount::swaps_of(host) == Ok::<
            Seq<Text>,
            Probe<Text>,
        >(Seq::empty()) && mount::swap_scan_warned(host) == Ok::<Seq<Warning<Text>>, Probe<Text>>(
            seq![Warning::SwapsUnreadable(None)],
        ),
        host.file("/proc/swaps"@) matches Ok(FileRead::Failed(why)) ==> mount::swaps_of(host)
            == Ok::<Seq<Text>, Probe<Text>>(Seq::empty()) && mount::swap_scan_warned(host) == Ok::<
            Seq<Warning<Text>>,
            Probe<Text>,
        >(seq![Warning::SwapsUnreadable(Some(why))]),
{
}

/// A row of `/proc/swaps` warns exactly if what it names is there and is neither a
/// partition nor a file, and then of just that.
pub proof fn other_swap_is_warned_of(row: Text, host: Host, w: Option<Warning<Text>>)
    requires
        mount::swap_warning(row, host) == Ok::<Option<Warning<Text>>, Probe<Text>>(w),
    ensures
        ({
            let words = text::words(row);
            let unsupported = words.len() >= 2 && host.is_there(words[0]) == Ok::<
                bool,
                Probe<Text>,
            >(true) && words[1] != "partition"@ && words[1] != "file"@;
            w == if unsupported {
                Some(Warning::UnsupportedSwap { swap_type: words[1], file: words[0] })
            } else {
                None
            }
        }),
{
}

/// Whether the row lists the pool and is long enough to hold a UUID from the byte
/// `start` on.
pub open spec fn lists_pool(row: Text, pool: Text, start: int) -> bool {
    (pool + " "@).is_prefix_of(row) && crate::bytes::sliced(row, start, start + 36) is Some
}

/// The UUID of a stratis pool stands in the table that stratis prints: in the
/// first row of the pool that is long enough, in the 36 bytes that start 32 bytes
/// before the heading, or with the row if the heading stands further left.
pub proof fn pool_uuid_stands_in_its_row(pool: Text, stdout: Text, heading: nat, i: int)
    requires
        heading + 36 <= usize::MAX,
        text::lines(stdout).len() > 0,
        crate::bytes::found(text::lines(stdout)[0], "UUID"@) == Some(heading),
        1 <= i < text::lines(stdout).len(),
        ({
            let start = if heading < 32 {
                0
            } else {
                heading - 32
            };
            lists_pool(text::lines(stdout)[i], pool, start) && forall|j: int|
                1 <= j < i ==> !lists_pool(#[trigger] text::lines(stdout)[j], pool, start)
        }),
    ensures
        ({
            let start = if heading < 32 {
                0
            } else {
                heading - 32
            };
            device::listed_pool_uuid(pool, RunResult::Exited { success: true, stdout }) == Some(
                text::trim(
                    crate::bytes::sliced(text::lines(stdout)[i], start, start + 36)->Some_0,
                ),
            )
        }),
{
    let start = device::uuid_start(heading);
    let lines = text::lines(stdout);
    let rows = lines.drop_first();
    assert(rows[i - 1] == lines[i]);
    assert forall|j: int| 0 <= j < i - 1 implies !lists_pool(
        #[trigger] rows[j],
        pool,
        start as int,
    ) by {
        assert(rows[j] == lines[j + 1]);
    }
    first_row_counts(rows, pool, start, i - 1);
}

proof fn first_row_counts(rows: Seq<Text>, pool: Text, start: nat, i: int)
    requires
        start + 36 <= usize::MAX,
        0 <= i < rows.len(),
        lists_pool(rows[i], pool, start as int),
        forall|j: int| 0 <= j < i ==> !lists_pool(#[trigger] rows[j], pool, start as int),
    ensures
        device::uuid_in_rows(rows, pool, start) == Some(
            text::trim(crate::bytes::sliced(rows[i], start as int, start as int + 36)->Some_0),
        ),
    decreases i,
{
    if i > 0 {
        let rest = rows.drop_first();
        assert(!lists_pool(rows[0], pool, start as int));
        assert(rest[i - 1] == rows[i]);
        assert forall|j: int| 0 <= j < i - 1 implies !lists_pool(
            #[trigger] rest[j],
            pool,
            start as int,
        ) by {
            assert(rest[j] == rows[j + 1]);
        }
        first_row_counts(rest, pool, start, i - 1);
    }
}

proof fn no_row_counts(rows: Seq<Text>, pool: Text, start: nat)
    requires
        forall|j: int| 0 <= j < rows.len() ==> !lists_pool(#[trigger] rows[j], pool, start as int),
    ensures
        device::uuid_in_rows(rows, pool, start) is None,
    decreases rows.len(),
{
    if rows.len() > 0 {
        let rest = rows.drop_first();
        assert(!lists_pool(rows[0], pool, start as int));
        assert forall|j: int| 0 <= j < rest.len() implies !lists_pool(
            #[trigger] rest[j],
            pool,
            start as int,
        ) by {
            assert(rest[j] == rows[j + 1]);
        }
        no_row_counts(rest, pool, start);
    }
}

/// No UUID is told of a pool if stratis cannot be run or fails, if the table has
/// no heading for it, or if no row of the pool is long enough.
pub proof fn pool_without_row_has_no_uuid(pool: Text, run: RunResult<Text>)
    requires
        match run {
            RunResult::Exited { success: true, stdout } => {
                let lines = text::lines(stdout);
                lines.len() > 0 ==> match crate::bytes::found(lines[0], "UUID"@) {
                    None => true,
                    Some(heading) => forall|j: int|
                        1 <= j < lines.len() ==> !lists_pool(
                            #[trigger] lines[j],
                            pool,
                            if heading < 32 {
                                0
                            } else {
                                heading - 32
                            },
                        ),
                }
            },
            _ => true,
        },
    ensures
        device::listed_pool_uuid(pool, run) is None,
{
    if let RunResult::Exited { success, stdout } = run {
        let lines = text::lines(stdout);
        if success && lines.len() > 0 {
            if let Some(heading) = crate::bytes::found(lines[0], "UUID"@) {
                let rows = lines.drop_first();
                let start = device::uuid_start(heading);
                assert forall|j: int| 0 <= j < rows.len() implies !lists_pool(
                    #[trigger] rows[j],
                    pool,
                    start as int,
                ) by {
                    assert(rows[j] == lines[j + 1]);
                }
                no_row_counts(rows, pool, start);
            }
        }
    }
}

/// The text of an entry: every value stands escaped between double quotes, and the
/// lines for the options and for the pool are there only if there is any.
pub proof fn entry_quotes_every_value(
    name: Text,
    device: Text,
    fs_type: Text,
    options: Seq<Text>,
    uuid: Option<Text>,
)
    ensures
        ({
            let head = "  fileSystems.\""@ + template::escaped(name) + "\" = {\n"@
                + "    device = \""@ + template::escaped(device) + "\";\n"@ + "    fsType = \""@
                + template::escaped(fs_type) + "\";\n"@;
            let listed = "    options = [ "@ + text::join(
                Seq::new(
                    options.len(),
                    |i: int| "\""@ + template::escaped(options[i]) + "\""@,
                ),
                " "@,
            ) + " ];\n"@;
            let with_options = if options.len() > 0 {
                head + listed
            } else {
                head
            };
            mount::fs_block(name, device, fs_type, options, uuid) == match uuid {
                Some(u) => with_options + ("    stratis.poolUuid = \""@ + template::escaped(u)
                    + "\";\n"@) + "  };\n\n"@,
                None => with_options + "  };\n\n"@,
            }
        }),
{
    let quoted = options.map_values(|o: Text| mount::quoted(o));
    assert(quoted =~= Seq::new(
        options.len(),
        |i: int| "\""@ + template::escaped(options[i]) + "\""@,
    ));
    let head = "  fileSystems.\""@ + template::escaped(name) + "\" = {\n"@ + "    device = \""@
        + template::escaped(device) + "\";\n"@ + "    fsType = \""@ + template::escaped(fs_type)
        + "\";\n"@;
    let none = Seq::<char>::empty();
    assert(head + none =~= head);
    let block = mount::fs_block(name, device, fs_type, options, uuid);
    assert(block == head + mount::options_line(options) + mount::pool_line(uuid) + "  };\n\n"@);
    let front = head + mount::options_line(options);
    assert(front + none =~= front);
}

/// Whether the row with this number, behind the first line, warns of what it names.
pub open spec fn swap_row_warns(body: Text, i: int, w: Warning<Text>, host: Host) -> bool {
    &&& 1 <= i < text::lines(body).len()
    &&& mount::swap_warning(text::lines(body)[i], host) == Ok::<Option<Warning<Text>>, Probe<Text>>(
        Some(w),
    )
}

/// The scan of the swap devices warns exactly of what a row behind the first line
/// warns of.
pub proof fn swap_scan_warns_of_rows(
    body: Text,
    host: Host,
    list: Seq<Warning<Text>>,
    w: Warning<Text>,
)
    requires
        host.file("/proc/swaps"@) == Ok::<FileRead<Text>, Probe<Text>>(FileRead::Text(body)),
        mount::swap_scan_warned(host) == Ok::<Seq<Warning<Text>>, Probe<Text>>(list),
    ensures
        list.contains(w) <==> exists|i: int| #[trigger] swap_row_warns(body, i, w, host),
{
    mount::swaps_warn_of_rows(body, host);
    let lines = text::lines(body);
    let rows = mount::swap_rows(body);
    assert(mount::warns_of_swaps(list, rows, host));
    if list.contains(w) {
        let i = choose|i: int|
            0 <= i < rows.len() && mount::swap_warning(#[trigger] rows[i], host) == Ok::<
                Option<Warning<Text>>,
                Probe<Text>,
            >(Some(w));
        assert(rows[i] == lines[i + 1]);
        assert(swap_row_warns(body, i + 1, w, host));
    }
    if exists|i: int| #[trigger] swap_row_warns(body, i, w, host) {
        let i = choose|i: int| #[trigger] swap_row_warns(body, i, w, host);
        assert(rows[i - 1] == lines[i]);
    }
}

/// Whether the line with this number warns, after those before it have been read.
pub open spec fn mount_line_warns(
    body: Text,
    i: int,
    w: Warning<Text>,
    root: Text,
    host: Host,
) -> bool {
    &&& 0 <= i < text::lines(body).len()
    &&& exists|states: Seq<MountState>| #[trigger]
        are_states(states, text::lines(body).take(i), root, host) && mountinfo::line_warning(
            states.last(),
            text::lines(body)[i],
            root,
            host,
        ) == Ok::<Option<Warning<Text>>, Probe<Text>>(Some(w))
}

/// The scan of the mounts warns exactly of what a line warns of after those before
/// it have been read.
pub proof fn mount_scan_warns_of_lines(
    body: Text,
    root: Text,
    host: Host,
    list: Seq<Warning<Text>>,
    w: Warning<Text>,
)
    requires
        host.file("/proc/self/mountinfo"@) == Ok::<FileRead<Text>, Probe<Text>>(
            FileRead::Text(body),
        ),
        mountinfo::mount_scan_warned(root, host) == Ok::<Seq<Warning<Text>>, Probe<Text>>(list),
    ensures
        list.contains(w) <==> exists|i: int| #[trigger] mount_line_warns(body, i, w, root, host),
{
    mountinfo::mounts_warn_of_lines(body, root, host);
    let lines = text::lines(body);
    let start = mountinfo::nothing_read();
    assert(mountinfo::warns_of_mounts(list, lines, root, host));
    if list.contains(w) {
        let i = choose|i: int|
            0 <= i < lines.len() && #[trigger] mountinfo::line_raises(
                start,
                lines,
                i,
                w,
                root,
                host,
            );
        let before = mountinfo::mount_lines(start, lines.take(i), root, host)->Ok_0;
        let states = lines_lead_on(start, lines.take(i), root, host, before);
        assert(are_states(states, lines.take(i), root, host));
        assert(mount_line_warns(body, i, w, root, host));
    }
    if exists|i: int| #[trigger] mount_line_warns(body, i, w, root, host) {
        let i = choose|i: int| #[trigger] mount_line_warns(body, i, w, root, host);
        let states = choose|states: Seq<MountState>| #[trigger]
            are_states(states, lines.take(i), root, host) && mountinfo::line_warning(
                states.last(),
                lines[i],
                root,
                host,
            ) == Ok::<Option<Warning<Text>>, Probe<Text>>(Some(w));
        assert(states[0].file_systems =~= start.file_systems);
        assert(states[0].below.luks =~= start.below.luks);
        assert(states[0] == start);
        states_lead_there(states, start, lines.take(i), root, host);
        assert(mountinfo::line_raises(start, lines, i, w, root, host));
    }
}

proof fn states_lead_there(
    states: Seq<MountState>,
    st: MountState,
    lines: Seq<Text>,
    root: Text,
    host: Host,
)
    requires
        leads(states, st, lines, root, host),
    ensures
        mountinfo::mount_lines(st, lines, root, host) == Ok::<MountState, Probe<Text>>(
            states.last(),
        ),
    decreases lines.len(),
{
    if lines.len() > 0 {
        let rest = lines.drop_first();
        let more = states.drop_first();
        assert(mountinfo::mount_line(states[0], lines[0], root, host) == Ok::<
            MountState,
            Probe<Text>,
        >(states[1]));
        assert forall|i: int| 0 <= i < rest.len() implies mountinfo::mount_line(
            more[i],
            #[trigger] rest[i],
            root,
            host,
        ) == Ok::<MountState, Probe<Text>>(more[i + 1]) by {
            assert(rest[i] == lines[i + 1]);
            assert(mountinfo::mount_line(states[i + 1], lines[i + 1], root, host) == Ok::<
                MountState,
                Probe<Text>,
            >(states[i + 1 + 1]));
        }
        states_lead_there(more, more[0], rest, root, host);
    }
}

}
