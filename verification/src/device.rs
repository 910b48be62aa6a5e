//! Block devices: stable names, and what the file system tools tell of them.

use vstd::prelude::*;

use crate::bytes;
use crate::host;
use crate::host::DirRead;
use crate::host::Facts;
use crate::host::FileRead;
use crate::host::Host;
use crate::host::Probe;
use crate::host::RunResult;
use crate::order;
use crate::template;
use crate::text;
use crate::text::Text;

verus! {

/// The path of the entry `name` of the directory `dir`.
pub open spec fn entry_path(dir: Text, name: Text) -> Text {
    dir + "/"@ + name
}

/// The names in a listing; none if there is no listing.
pub open spec fn listed(read: DirRead<Seq<Text>, Text>) -> Seq<Text> {
    match read {
        DirRead::Names(names, _) => names,
        _ => Seq::empty(),
    }
}

/// The text of a file; empty if it cannot be read.
pub open spec fn text_or_empty(read: FileRead<Text>) -> Text {
    match read {
        FileRead::Text(t) => t,
        _ => Seq::empty(),
    }
}

/// The names in the directory, in the order of the listing. A directory that
/// cannot be listed counts as empty.
pub open spec fn dir_names(dir: Text, host: Host) -> Result<Seq<Text>, Probe<Text>> {
    match host.dir(dir) {
        Ok(read) => Ok(listed(read)),
        Err(p) => Err(p),
    }
}

/// The names in the directory `dir`; none if it cannot be listed.
pub fn read_dir_names(dir: &str, facts: &Facts) -> (r: Result<Vec<String>, Probe<String>>)
    ensures
        host::shown(r) == dir_names(dir@, facts@),
{
    match facts.dir(dir)? {
        DirRead::Names(names, _) => Ok(text::copy_texts(names)),
        _ => {
            let none: Vec<String> = Vec::new();
            assert(none.deep_view() =~= Seq::<Text>::empty());
            Ok(none)
        },
    }
}

/// The paths of the entries of the directory, in ascending order. A directory
/// that cannot be listed counts as empty.
pub open spec fn sorted_entries(dir: Text, host: Host) -> Result<Seq<Text>, Probe<Text>> {
    match dir_names(dir, host) {
        Ok(names) => Ok(order::sorted(names.map_values(|n: Text| entry_path(dir, n)))),
        Err(p) => Err(p),
    }
}

/// The paths of the entries of `dir` in ascending order, so that among several
/// names of one device the same one is chosen every time.
pub fn sorted_dir(dir: &str, facts: &Facts) -> (r: Result<Vec<String>, Probe<String>>)
    ensures
        host::shown(r) == sorted_entries(dir@, facts@),
{
    let names = read_dir_names(dir, facts)?;
    let ghost all = names.deep_view();
    let ghost wanted = all.map_values(|n: Text| entry_path(dir@, n));
    let mut paths: Vec<String> = Vec::new();
    let mut i: usize = 0;
    assert(paths.deep_view() =~= wanted.take(0));
    while i < names.len()
        invariant
            i <= names@.len(),
            all == names.deep_view(),
            wanted == all.map_values(|n: Text| entry_path(dir@, n)),
            paths.deep_view() == wanted.take(i as int),
        decreases names@.len() - i,
    {
        let mut path = dir.to_owned();
        path.append("/");
        path.append(names[i].as_str());
        assert(all[i as int] == names@[i as int]@);
        text::push_text(&mut paths, path);
        i += 1;
        assert(wanted.take(i as int) =~= wanted.take(i - 1).push(wanted[i - 1]));
    }
    assert(wanted.take(i as int) =~= wanted);
    Ok(order::sorted_of(paths))
}

/// Whether the path leads to a node with the device number `target`.
pub open spec fn has_rdev(path: Text, target: u64, host: Host) -> Result<bool, Probe<Text>> {
    match host.stat(path) {
        Ok(Some(s)) => Ok(s.rdev == target),
        Ok(None) => Ok(false),
        Err(p) => Err(p),
    }
}

/// Whether `path` leads to a node with the device number `target`.
pub fn matches_rdev(path: &str, target: u64, facts: &Facts) -> (r: Result<bool, Probe<String>>)
    ensures
        host::shown(r) == has_rdev(path@, target, facts@),
{
    match facts.stat(path)? {
        Some(s) => Ok(s.rdev == target),
        None => Ok(false),
    }
}

/// The first of the paths that leads to a node with the device number
/// `target`.
pub open spec fn first_with_rdev(paths: Seq<Text>, target: u64, host: Host) -> Result<
    Option<Text>,
    Probe<Text>,
>
    decreases paths.len(),
{
    if paths.len() == 0 {
        Ok(None)
    } else {
        match has_rdev(paths[0], target, host) {
            Ok(true) => Ok(Some(paths[0])),
            Ok(false) => first_with_rdev(paths.drop_first(), target, host),
            Err(p) => Err(p),
        }
    }
}

/// The first entry of the directory, in ascending order, with the device
/// number `target`.
pub open spec fn alias_in(dir: Text, target: u64, host: Host) -> Result<
    Option<Text>,
    Probe<Text>,
> {
    match sorted_entries(dir, host) {
        Ok(paths) => first_with_rdev(paths, target, host),
        Err(p) => Err(p),
    }
}

/// The first entry of `dir`, in ascending order, with the device number
/// `target`.
pub fn find_matching_rdev_flat(dir: &str, target: u64, facts: &Facts) -> (r: Result<
    Option<String>,
    Probe<String>,
>)
    ensures
        host::shown(r) == alias_in(dir@, target, facts@),
{
    let paths = sorted_dir(dir, facts)?;
    let ghost all = paths.deep_view();
    let mut i: usize = 0;
    assert(all.skip(0) =~= all);
    while i < paths.len()
        invariant
            i <= paths@.len(),
            all == paths.deep_view(),
            alias_in(dir@, target, facts@) == first_with_rdev(all.skip(i as int), target, facts@),
        decreases paths@.len() - i,
    {
        assert(all.skip(i as int)[0] == paths@[i as int]@);
        assert(all.skip(i as int).drop_first() =~= all.skip(i + 1));
        if matches_rdev(paths[i].as_str(), target, facts)? {
            return Ok(Some(paths[i].clone()));
        }
        i += 1;
    }
    Ok(None)
}

/// The first alias of the device number `target` in the directories, taken in
/// order.
pub open spec fn alias_in_dirs(dirs: Seq<Text>, target: u64, host: Host) -> Result<
    Option<Text>,
    Probe<Text>,
>
    decreases dirs.len(),
{
    if dirs.len() == 0 {
        Ok(None)
    } else {
        match alias_in(dirs[0], target, host) {
            Ok(Some(path)) => Ok(Some(path)),
            Ok(None) => alias_in_dirs(dirs.drop_first(), target, host),
            Err(p) => Err(p),
        }
    }
}

/// The directories that hold stable names, behind those of the stratis pools.
pub open spec fn alias_dirs() -> Seq<Text> {
    seq!["/dev/mapper"@, "/dev/disk/by-uuid"@, "/dev/disk/by-label"@]
}

/// The stable name of a device: the first alias of its device number among the
/// volumes of the stratis pools, then `/dev/mapper`, `/dev/disk/by-uuid` and
/// `/dev/disk/by-label`. Anything that is not the absolute path of a device
/// node, or that has no alias, keeps its name.
pub open spec fn stable_path(dev: Text, host: Host) -> Result<Text, Probe<Text>> {
    if dev.len() == 0 || dev[0] != '/' {
        Ok(dev)
    } else {
        match host.stat(dev) {
            Err(p) => Err(p),
            Ok(None) => Ok(dev),
            Ok(Some(s)) => if s.rdev == 0 {
                Ok(dev)
            } else {
                match sorted_entries("/dev/stratis"@, host) {
                    Err(p) => Err(p),
                    Ok(pools) => match alias_in_dirs(pools + alias_dirs(), s.rdev, host) {
                        Ok(Some(path)) => Ok(path),
                        Ok(None) => Ok(dev),
                        Err(p) => Err(p),
                    },
                }
            },
        }
    }
}

/// The stable name of the device `dev`.
pub fn find_stable_dev_path(dev: &str, facts: &Facts) -> (r: Result<String, Probe<String>>)
    ensures
        host::shown(r) == stable_path(dev@, facts@),
{
    assert("/"@.is_prefix_of(dev@) <==> dev@.len() > 0 && dev@[0] == '/') by {
        reveal_strlit("/");
        if dev@.len() > 0 && dev@[0] == '/' {
            assert("/"@ =~= dev@.subrange(0, 1));
        }
        if "/"@.is_prefix_of(dev@) {
            assert(dev@.subrange(0, 1)[0] == '/');
        }
    }
    if !text::starts_with(dev, "/") {
        return Ok(dev.to_owned());
    }
    let target: u64 = match facts.stat(dev)? {
        Some(s) => s.rdev,
        None => return Ok(dev.to_owned()),
    };
    if target == 0 {
        return Ok(dev.to_owned());
    }
    let mut dirs = sorted_dir("/dev/stratis", facts)?;
    let ghost pools = dirs.deep_view();
    text::push_text(&mut dirs, "/dev/mapper".to_owned());
    text::push_text(&mut dirs, "/dev/disk/by-uuid".to_owned());
    text::push_text(&mut dirs, "/dev/disk/by-label".to_owned());
    let ghost all = dirs.deep_view();
    assert(all =~= pools + alias_dirs());
    let mut i: usize = 0;
    assert(all.skip(0) =~= all);
    while i < dirs.len()
        invariant
            i <= dirs@.len(),
            all == dirs.deep_view(),
            alias_in_dirs(all, target, facts@) == alias_in_dirs(
                all.skip(i as int),
                target,
                facts@,
            ),
            stable_path(dev@, facts@) == (match alias_in_dirs(all, target, facts@) {
                Ok(Some(path)) => Ok(path),
                Ok(None) => Ok(dev@),
                Err(p) => Err(p),
            }),
        decreases dirs@.len() - i,
    {
        assert(all.skip(i as int)[0] == dirs@[i as int]@);
        assert(all.skip(i as int).drop_first() =~= all.skip(i + 1));
        if let Some(path) = find_matching_rdev_flat(dirs[i].as_str(), target, facts)? {
            return Ok(path);
        }
        i += 1;
    }
    Ok(dev.to_owned())
}

proof fn first_has_rdev(paths: Seq<Text>, target: u64, host: Host)
    ensures
        first_with_rdev(paths, target, host) matches Ok(Some(path)) ==> has_rdev(path, target, host)
            == Ok::<bool, Probe<Text>>(true),
    decreases paths.len(),
{
    if paths.len() > 0 {
        first_has_rdev(paths.drop_first(), target, host);
    }
}

proof fn alias_has_rdev(dirs: Seq<Text>, target: u64, host: Host)
    ensures
        alias_in_dirs(dirs, target, host) matches Ok(Some(path)) ==> has_rdev(path, target, host)
            == Ok::<bool, Probe<Text>>(true),
    decreases dirs.len(),
{
    if dirs.len() > 0 {
        if let Ok(paths) = sorted_entries(dirs[0], host) {
            first_has_rdev(paths, target, host);
        }
        alias_has_rdev(dirs.drop_first(), target, host);
    }
}

/// A stable name leads to the device that it stands for: it is the name that
/// was given, or it has the same device number.
pub proof fn stable_name_leads_to_the_device(dev: Text, host: Host, path: Text)
    requires
        stable_path(dev, host) == Ok::<Text, Probe<Text>>(path),
    ensures
        path == dev || exists|s: host::Stat|
            host.stat(dev) == Ok::<Option<host::Stat>, Probe<Text>>(Some(s)) && s.rdev != 0
                && has_rdev(path, s.rdev, host) == Ok::<bool, Probe<Text>>(true),
{
    if path != dev {
        let s = host.stat(dev)->Ok_0->Some_0;
        let pools = sorted_entries("/dev/stratis"@, host)->Ok_0;
        alias_has_rdev(pools + alias_dirs(), s.rdev, host);
        assert(host.stat(dev) == Ok::<Option<host::Stat>, Probe<Text>>(Some(s)));
    }
}

/// Whether two hosts differ at most in the order in which their directories are
/// listed.
pub open spec fn listed_in_another_order(a: Host, b: Host) -> bool {
    &&& a.stats == b.stats
    &&& forall|dir: Text| #[trigger]
        a.dirs.contains_key(dir) <==> b.dirs.contains_key(dir)
    &&& forall|dir: Text| #[trigger]
        a.dirs.contains_key(dir) ==> listed(a.dirs[dir]).to_multiset() == listed(
            b.dirs[dir],
        ).to_multiset()
}

proof fn paths_keep_multiset(dir: Text, a: Seq<Text>, b: Seq<Text>)
    requires
        a.to_multiset() == b.to_multiset(),
    ensures
        a.map_values(|n: Text| entry_path(dir, n)).to_multiset() == b.map_values(
            |n: Text| entry_path(dir, n),
        ).to_multiset(),
    decreases a.len(),
{
    broadcast use vstd::seq_lib::group_to_multiset_ensures;

    let f = |n: Text| entry_path(dir, n);
    assert(a.len() == a.to_multiset().len());
    assert(b.len() == b.to_multiset().len());
    if a.len() == 0 {
        assert(a =~= b);
    } else {
        let x = a.last();
        assert(a =~= a.drop_last().push(x));
        assert(a.contains(x));
        assert(b.to_multiset().count(x) > 0);
        assert(b.contains(x));
        let i = b.index_of(x);
        let rest = b.remove(i);
        assert(a.drop_last().to_multiset() =~= rest.to_multiset()) by {
            assert(a.to_multiset() =~= a.drop_last().to_multiset().insert(x));
            assert(rest.to_multiset() =~= b.to_multiset().remove(x));
        }
        paths_keep_multiset(dir, a.drop_last(), rest);
        assert(a.map_values(f) =~= a.drop_last().map_values(f).push(f(x)));
        assert(b.map_values(f).remove(i) =~= rest.map_values(f));
        assert(b.map_values(f)[i] == f(x));
        assert(a.map_values(f).to_multiset() =~= a.drop_last().map_values(f).to_multiset().insert(
            f(x),
        ));
        assert(rest.map_values(f).to_multiset() =~= b.map_values(f).to_multiset().remove(f(x)));
        assert(b.map_values(f).contains(f(x)));
        assert(b.map_values(f).to_multiset() =~= rest.map_values(f).to_multiset().insert(f(x)));
    }
}

proof fn entries_ignore_order(dir: Text, a: Host, b: Host)
    requires
        listed_in_another_order(a, b),
    ensures
        sorted_entries(dir, a) == sorted_entries(dir, b),
{
    assert(a.dirs.contains_key(dir) <==> b.dirs.contains_key(dir));
    if a.dirs.contains_key(dir) {
        let x = listed(a.dirs[dir]);
        let y = listed(b.dirs[dir]);
        paths_keep_multiset(dir, x, y);
        order::sorting_ignores_order(
            x.map_values(|n: Text| entry_path(dir, n)),
            y.map_values(|n: Text| entry_path(dir, n)),
        );
    }
}

proof fn first_ignores_order(paths: Seq<Text>, target: u64, a: Host, b: Host)
    requires
        listed_in_another_order(a, b),
    ensures
        first_with_rdev(paths, target, a) == first_with_rdev(paths, target, b),
    decreases paths.len(),
{
    if paths.len() > 0 {
        first_ignores_order(paths.drop_first(), target, a, b);
    }
}

proof fn alias_ignores_order(dirs: Seq<Text>, target: u64, a: Host, b: Host)
    requires
        listed_in_another_order(a, b),
    ensures
        alias_in_dirs(dirs, target, a) == alias_in_dirs(dirs, target, b),
    decreases dirs.len(),
{
    if dirs.len() > 0 {
        entries_ignore_order(dirs[0], a, b);
        if let Ok(paths) = sorted_entries(dirs[0], a) {
            first_ignores_order(paths, target, a, b);
        }
        alias_ignores_order(dirs.drop_first(), target, a, b);
    }
}

/// Among several names of a device the same one is chosen every time: the order
/// in which directories are listed does not matter.
pub proof fn choice_ignores_listing_order(dev: Text, a: Host, b: Host)
    requires
        listed_in_another_order(a, b),
    ensures
        stable_path(dev, a) == stable_path(dev, b),
{
    entries_ignore_order("/dev/stratis"@, a, b);
    if let Ok(Some(s)) = a.stat(dev) {
        if let Ok(pools) = sorted_entries("/dev/stratis"@, a) {
            alias_ignores_order(pools + alias_dirs(), s.rdev, a, b);
        }
    }
}

/// What `btrfs subvol show` tells of a mount point.
#[derive(Debug, PartialEq, Eq)]
pub enum BtrfsProbe<T> {
    /// The mount is the subvolume with this path.
    Subvol(T),
    /// The mount is the top-level subvolume, or the path is not told.
    TopLevel,
    /// The mount is no subvolume: most likely a bind mount.
    NotASubvolume,
    /// The `btrfs` program is missing, so nothing can be told.
    BinaryMissing,
}

impl DeepView for BtrfsProbe<String> {
    type V = BtrfsProbe<Text>;

    open spec fn deep_view(&self) -> BtrfsProbe<Text> {
        match self {
            BtrfsProbe::Subvol(t) => BtrfsProbe::Subvol(t@),
            BtrfsProbe::TopLevel => BtrfsProbe::TopLevel,
            BtrfsProbe::NotASubvolume => BtrfsProbe::NotASubvolume,
            BtrfsProbe::BinaryMissing => BtrfsProbe::BinaryMissing,
        }
    }
}

/// The first line of a text; empty if there is no line.
pub open spec fn first_line(s: Text) -> Text {
    if text::lines(s).len() > 0 {
        text::lines(s)[0]
    } else {
        Seq::empty()
    }
}

/// What the outcome of `btrfs subvol show` tells: the first line of a
/// successful run that reports no error is the path of the subvolume.
pub open spec fn subvolume(run: RunResult<Text>) -> BtrfsProbe<Text> {
    match run {
        RunResult::NotFound => BtrfsProbe::BinaryMissing,
        RunResult::Failed => BtrfsProbe::NotASubvolume,
        RunResult::Exited { success, stdout } => {
            let path = text::trim(first_line(stdout));
            if !success || text::occurs(stdout, "ERROR:"@) {
                BtrfsProbe::NotASubvolume
            } else if path.len() == 0 || path == "/"@ {
                BtrfsProbe::TopLevel
            } else {
                BtrfsProbe::Subvol(path)
            }
        },
    }
}

/// Interprets the outcome of `btrfs subvol show`.
pub fn subvolume_of(run: &RunResult<String>) -> (r: BtrfsProbe<String>)
    ensures
        r.deep_view() == subvolume(run.deep_view()),
{
    match run {
        RunResult::NotFound => BtrfsProbe::BinaryMissing,
        RunResult::Failed => BtrfsProbe::NotASubvolume,
        RunResult::Exited { success, stdout } => {
            if !*success || text::contains(stdout.as_str(), "ERROR:") {
                return BtrfsProbe::NotASubvolume;
            }
            let lines = text::lines_of(stdout.as_str());
            let first = if lines.len() > 0 {
                assert(lines.deep_view()[0] == lines@[0]@);
                lines[0].clone()
            } else {
                String::new()
            };
            let path = text::trim_of(first.as_str());
            if path.as_str().is_empty() || text::same(path.as_str(), "/") {
                BtrfsProbe::TopLevel
            } else {
                BtrfsProbe::Subvol(path)
            }
        },
    }
}

/// What btrfs tells of the mount point.
pub open spec fn subvolume_at(mount_point: Text, host: Host) -> Result<
    BtrfsProbe<Text>,
    Probe<Text>,
> {
    match host.btrfs_subvol_show(mount_point) {
        Ok(run) => Ok(subvolume(run)),
        Err(p) => Err(p),
    }
}

/// What btrfs tells of the mount point.
pub fn btrfs_subvol_path(mount_point: &str, facts: &Facts) -> (r: Result<
    BtrfsProbe<String>,
    Probe<String>,
>)
    ensures
        host::shown(r) == subvolume_at(mount_point@, facts@),
{
    let run = facts.btrfs_subvol_show(mount_point)?;
    Ok(subvolume_of(run))
}

/// Whether `c` can stand in a UUID: a hexadecimal digit or a hyphen.
pub open spec fn is_uuid_char(c: char) -> bool {
    ('0' <= c <= '9') || ('a' <= c <= 'f') || ('A' <= c <= 'F') || c == '-'
}

/// The characters at the start of `s` that can stand in a UUID.
pub open spec fn uuid_run(s: Text) -> Text
    decreases s.len(),
{
    if s.len() > 0 && is_uuid_char(s[0]) {
        seq![s[0]] + uuid_run(s.drop_first())
    } else {
        Seq::empty()
    }
}

/// The UUID in the output of `bcachefs fs usage`: it follows `Filesystem:` on
/// the first line.
pub open spec fn usage_uuid(run: RunResult<Text>) -> Option<Text> {
    match run {
        RunResult::Exited { success: true, stdout } => {
            if text::lines(stdout).len() == 0 {
                None
            } else {
                match text::after_prefix(text::lines(stdout)[0], "Filesystem:"@) {
                    None => None,
                    Some(rest) => {
                        let uuid = uuid_run(text::trim(rest));
                        if uuid.len() == 0 {
                            None
                        } else {
                            Some(uuid)
                        }
                    },
                }
            }
        },
        _ => None,
    }
}

fn uuid_run_of(s: &str) -> (r: String)
    ensures
        r@ == uuid_run(s@),
{
    let v = text::chars_of(s);
    let mut r = String::new();
    let mut i: usize = 0;
    assert(v@.skip(0) =~= v@);
    assert(r@ + uuid_run(v@.skip(0)) =~= uuid_run(s@));
    while i < v.len()
        invariant
            v@ == s@,
            i <= v@.len(),
            r@ + uuid_run(v@.skip(i as int)) == uuid_run(s@),
        decreases v@.len() - i,
    {
        let c = v[i];
        if !(('0' <= c && c <= '9') || ('a' <= c && c <= 'f') || ('A' <= c && c <= 'F') || c
            == '-') {
            assert(r@ =~= uuid_run(s@));
            return r;
        }
        let ghost rest = v@.skip(i as int);
        let ghost done = r@;
        r.push(c);
        i += 1;
        assert(rest.drop_first() =~= v@.skip(i as int));
        assert(r@ + uuid_run(v@.skip(i as int)) =~= done + uuid_run(rest));
    }
    assert(r@ =~= uuid_run(s@));
    r
}

/// Interprets the outcome of `bcachefs fs usage`.
pub fn usage_uuid_of(run: &RunResult<String>) -> (r: Option<String>)
    ensures
        r.deep_view() == usage_uuid(run.deep_view()),
{
    match run {
        RunResult::Exited { success, stdout } => {
            if !*success {
                return None;
            }
            let lines = text::lines_of(stdout.as_str());
            if lines.len() == 0 {
                return None;
            }
            assert(lines.deep_view()[0] == lines@[0]@);
            match text::strip_prefix(lines[0].as_str(), "Filesystem:") {
                None => None,
                Some(rest) => {
                    let uuid = uuid_run_of(text::trim_of(rest.as_str()).as_str());
                    if uuid.as_str().is_empty() {
                        None
                    } else {
                        Some(uuid)
                    }
                },
            }
        },
        _ => None,
    }
}

/// The UUID of the bcachefs mounted at the mount point, if it can be told.
pub open spec fn bcachefs_uuid_at(mount_point: Text, host: Host) -> Result<
    Option<Text>,
    Probe<Text>,
> {
    match host.bcachefs_usage(mount_point) {
        Ok(run) => Ok(usage_uuid(run)),
        Err(p) => Err(p),
    }
}

/// The UUID of the bcachefs mounted at the mount point, if it can be told.
pub fn bcachefs_uuid(mount_point: &str, facts: &Facts) -> (r: Result<
    Option<String>,
    Probe<String>,
>)
    ensures
        host::shown(r) == bcachefs_uuid_at(mount_point@, facts@),
{
    let run = facts.bcachefs_usage(mount_point)?;
    Ok(usage_uuid_of(run))
}

/// The stratis pool that a device path names: the component behind
/// `/dev/stratis/`, if another follows it.
pub open spec fn pool_of(dev: Text) -> Option<Text> {
    match text::after_prefix(dev, "/dev/stratis/"@) {
        None => None,
        Some(rest) => match text::split_once(rest, '/') {
            None => None,
            Some((pool, _)) => Some(pool),
        },
    }
}

/// The stratis pool that a device path names.
pub fn stratis_pool_from_dev(dev: &str) -> (r: Option<String>)
    ensures
        r.deep_view() == pool_of(dev@),
{
    match text::strip_prefix(dev, "/dev/stratis/") {
        None => None,
        Some(rest) => match text::split_once_on(rest.as_str(), '/') {
            None => None,
            Some((pool, _)) => Some(pool),
        },
    }
}

/// The first byte of the UUID column: it is right aligned, so that it starts
/// 32 bytes before its heading.
pub open spec fn uuid_start(heading: nat) -> nat {
    if heading < 32 {
        0
    } else {
        (heading - 32) as nat
    }
}

/// The UUID in the first row of the pool that is long enough to hold one.
pub open spec fn uuid_in_rows(rows: Seq<Text>, pool: Text, start: nat) -> Option<Text>
    decreases rows.len(),
{
    if rows.len() == 0 {
        None
    } else if (pool + " "@).is_prefix_of(rows[0]) {
        if start + 36 > usize::MAX {
            None
        } else {
            match bytes::sliced(rows[0], start as int, start as int + 36) {
                Some(uuid) => Some(text::trim(uuid)),
                None => uuid_in_rows(rows.drop_first(), pool, start),
            }
        }
    } else {
        uuid_in_rows(rows.drop_first(), pool, start)
    }
}

/// The UUID of the pool in the output of `stratis pool list`, a table whose
/// first line holds the headings.
pub open spec fn listed_pool_uuid(pool: Text, run: RunResult<Text>) -> Option<Text> {
    match run {
        RunResult::Exited { success: true, stdout } => {
            let lines = text::lines(stdout);
            if lines.len() == 0 {
                None
            } else {
                match bytes::found(lines[0], "UUID"@) {
                    None => None,
                    Some(heading) => uuid_in_rows(lines.drop_first(), pool, uuid_start(heading)),
                }
            }
        },
        _ => None,
    }
}

/// Finds the UUID of the pool in the output of `stratis pool list`.
pub fn listed_pool_uuid_of(pool_name: &str, run: &RunResult<String>) -> (r: Option<String>)
    ensures
        r.deep_view() == listed_pool_uuid(pool_name@, run.deep_view()),
{
    match run {
        RunResult::Exited { success, stdout } => {
            if !*success {
                return None;
            }
            let lines = text::lines_of(stdout.as_str());
            let ghost all = lines.deep_view();
            if lines.len() == 0 {
                return None;
            }
            assert(all[0] == lines@[0]@);
            let heading = match bytes::find(lines[0].as_str(), "UUID") {
                None => return None,
                Some(i) => i,
            };
            let start: usize = if heading < 32 {
                0
            } else {
                heading - 32
            };
            let row_start = text::cat(pool_name, " ");
            let mut i: usize = 1;
            assert(all.skip(1) =~= all.drop_first());
            while i < lines.len()
                invariant
                    1 <= i <= lines@.len(),
                    all == lines.deep_view(),
                    row_start@ == pool_name@ + " "@,
                    start == uuid_start(heading as nat),
                    listed_pool_uuid(pool_name@, run.deep_view()) == uuid_in_rows(
                        all.skip(i as int),
                        pool_name@,
                        start as nat,
                    ),
                decreases lines@.len() - i,
            {
                assert(all.skip(i as int)[0] == lines@[i as int]@);
                assert(all.skip(i as int).drop_first() =~= all.skip(i + 1));
                if text::starts_with(lines[i].as_str(), row_start.as_str()) {
                    match start.checked_add(36) {
                        None => return None,
                        Some(end) => {
                            if let Some(uuid) = bytes::slice_of(lines[i].as_str(), start, end) {
                                return Some(text::trim_of(uuid.as_str()));
                            }
                        },
                    }
                }
                i += 1;
            }
            None
        },
        _ => None,
    }
}

/// The UUID of the stratis pool, if it can be told.
pub open spec fn pool_uuid(pool: Text, host: Host) -> Result<Option<Text>, Probe<Text>> {
    match host.stratis_pool_list() {
        Ok(run) => Ok(listed_pool_uuid(pool, run)),
        Err(p) => Err(p),
    }
}

/// The UUID of the stratis pool, if it can be told.
pub fn stratis_pool_uuid(pool_name: &str, facts: &Facts) -> (r: Result<
    Option<String>,
    Probe<String>,
>)
    ensures
        host::shown(r) == pool_uuid(pool_name@, facts@),
{
    let run = facts.stratis_pool_list()?;
    Ok(listed_pool_uuid_of(pool_name, run))
}

/// The attribute that names the device below an encrypted one.
pub open spec fn luks_key(name: Text) -> Text {
    "boot.initrd.luks.devices.\""@ + template::escaped(name) + "\".device"@
}

/// The line that sets the attribute `key` to the device.
pub open spec fn luks_line(key: Text, device: Text) -> Text {
    key + " = \""@ + template::escaped(device) + "\";"@
}

/// Whether one of the lines starts with `key`.
pub open spec fn has_key(lines: Seq<Text>, key: Text) -> bool {
    exists|i: int| 0 <= i < lines.len() && key.is_prefix_of(#[trigger] lines[i])
}

/// A file of the kernel's directory for the block device `base`.
pub open spec fn block_file(base: Text, file: Text) -> Text {
    "/sys/class/block/"@ + base + file
}

/// The LUKS lines after the encrypted device `base` has been looked at: one is
/// added if exactly one device lies below it, that device is there, and no line
/// sets the attribute yet.
pub open spec fn luks_lines(lines: Seq<Text>, base: Text, host: Host) -> Result<
    Seq<Text>,
    Probe<Text>,
> {
    match dir_names(block_file(base, "/slaves"@), host) {
        Err(p) => Err(p),
        Ok(slaves) => if slaves.len() != 1 {
            Ok(lines)
        } else {
            let slave = "/dev/"@ + slaves[0];
            match host.is_there(slave) {
                Err(p) => Err(p),
                Ok(false) => Ok(lines),
                Ok(true) => match host.file(block_file(base, "/dm/name"@)) {
                    Err(p) => Err(p),
                    Ok(read) => {
                        let key = luks_key(text::trim(text_or_empty(read)));
                        if has_key(lines, key) {
                            Ok(lines)
                        } else {
                            match stable_path(slave, host) {
                                Err(p) => Err(p),
                                Ok(device) => Ok(lines.push(luks_line(key, device))),
                            }
                        }
                    },
                },
            }
        },
    }
}

/// A file of the kernel's directory for the block device `base`.
pub fn block_file_of(base: &str, file: &str) -> (r: String)
    ensures
        r@ == block_file(base@, file@),
{
    let mut s = "/sys/class/block/".to_owned();
    s.append(base);
    s.append(file);
    s
}

/// The text of a file; empty if it cannot be read.
pub fn text_or_empty_of(read: &FileRead<String>) -> (r: String)
    ensures
        r@ == text_or_empty(read.deep_view()),
{
    match read {
        FileRead::Text(t) => t.clone(),
        _ => String::new(),
    }
}

/// Adds the line for the device below the encrypted device `base`.
pub fn probe_luks(base: &str, luks_devices: &mut Vec<String>, facts: &Facts) -> (r: Result<
    (),
    Probe<String>,
>)
    ensures
        match luks_lines(old(luks_devices).deep_view(), base@, facts@) {
            Ok(lines) => r is Ok && final(luks_devices).deep_view() == lines,
            Err(p) => host::shown(r) == Err::<(), Probe<Text>>(p) && *final(luks_devices) == *old(
                luks_devices,
            ),
        },
{
    let slaves = read_dir_names(block_file_of(base, "/slaves").as_str(), facts)?;
    if slaves.len() != 1 {
        return Ok(());
    }
    assert(slaves.deep_view()[0] == slaves@[0]@);
    let slave = text::cat("/dev/", slaves[0].as_str());
    if !facts.is_there(slave.as_str())? {
        return Ok(());
    }
    let read = facts.file(block_file_of(base, "/dm/name").as_str())?;
    let name = text::trim_of(text_or_empty_of(read).as_str());
    let mut key = "boot.initrd.luks.devices.\"".to_owned();
    key.append(template::nix_escape(name.as_str()).as_str());
    key.append("\".device");
    let ghost lines = luks_devices.deep_view();
    let mut i: usize = 0;
    while i < luks_devices.len()
        invariant
            i <= luks_devices@.len(),
            lines == luks_devices.deep_view(),
            *luks_devices == *old(luks_devices),
            luks_lines(lines, base@, facts@) == (if has_key(lines, key@) {
                Ok(lines)
            } else {
                match stable_path(slave@, facts@) {
                    Err(p) => Err(p),
                    Ok(device) => Ok(lines.push(luks_line(key@, device))),
                }
            }),
            forall|j: int| 0 <= j < i ==> !key@.is_prefix_of(#[trigger] lines[j]),
        decreases luks_devices@.len() - i,
    {
        assert(lines[i as int] == luks_devices@[i as int]@);
        if text::starts_with(luks_devices[i].as_str(), key.as_str()) {
            return Ok(());
        }
        i += 1;
    }
    let device = find_stable_dev_path(slave.as_str(), facts)?;
    let mut line = key.clone();
    line.append(" = \"");
    line.append(template::nix_escape(device.as_str()).as_str());
    line.append("\";");
    text::push_text(luks_devices, line);
    Ok(())
}

}
