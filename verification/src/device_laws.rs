//! What the stable name of a device promises, in terms of the directories and the
//! device numbers of the machine.

use vstd::prelude::*;

use crate::device;
use crate::host::DirRead;
use crate::host::Host;
use crate::host::Probe;
use crate::host::Stat;
use crate::order;
use crate::text::Text;

verus! {

/// Whether the directory lists the name.
pub open spec fn lists(dir: Text, name: Text, host: Host) -> bool {
    host.dir(dir) matches Ok(DirRead::Names(names, _)) && names.contains(name)
}

/// Whether the path leads to a node with this device number.
pub open spec fn is_numbered(path: Text, rdev: u64, host: Host) -> bool {
    host.stat(path) matches Ok(Some(s)) && s.rdev == rdev
}

/// Whether the entry of the directory is a name for this device number.
pub open spec fn is_alias(dir: Text, name: Text, rdev: u64, host: Host) -> bool {
    lists(dir, name, host) && is_numbered(dir + "/"@ + name, rdev, host)
}

/// Whether the directory has a name for this device number.
pub open spec fn has_alias(dir: Text, rdev: u64, host: Host) -> bool {
    exists|name: Text| is_alias(dir, name, rdev, host)
}

/// Whether the path is the least of the names that the directory has for this
/// device number.
pub open spec fn is_least_alias(path: Text, dir: Text, rdev: u64, host: Host) -> bool {
    &&& exists|name: Text| is_alias(dir, name, rdev, host) && path == dir + "/"@ + name
    &&& forall|name: Text|
        is_alias(dir, name, rdev, host) ==> order::at_most(path, dir + "/"@ + name)
}

/// Whether the stratis pool has a volume with this device number.
pub open spec fn is_pool_with(pool: Text, rdev: u64, host: Host) -> bool {
    lists("/dev/stratis"@, pool, host) && has_alias("/dev/stratis"@ + "/"@ + pool, rdev, host)
}

/// Whether it is the least of the pools that have a volume with this device
/// number.
pub open spec fn is_least_pool(pool: Text, rdev: u64, host: Host) -> bool {
    &&& is_pool_with(pool, rdev, host)
    &&& forall|other: Text| #[trigger]
        is_pool_with(other, rdev, host) ==> order::at_most(
            "/dev/stratis"@ + "/"@ + pool,
            "/dev/stratis"@ + "/"@ + other,
        )
}

/// One path is at most another if it is the start of it, or if at the first place
/// where they differ its character is the smaller one.
pub proof fn paths_are_ordered_by_their_first_difference(a: Text, b: Text, k: int)
    requires
        0 <= k <= a.len(),
        k <= b.len(),
        a.take(k) == b.take(k),
        k == a.len() || k == b.len() || a[k] != b[k],
    ensures
        order::at_most(a, b) <==> k == a.len() || (k < b.len() && a[k] < b[k]),
    decreases k,
{
    if k > 0 {
        assert(a.take(k)[0] == b.take(k)[0]);
        let x = a.drop_first();
        let y = b.drop_first();
        assert(x.take(k - 1) =~= a.take(k).drop_first());
        assert(y.take(k - 1) =~= b.take(k).drop_first());
        assert(a.take(k)[0] == a[0]);
        assert(b.take(k)[0] == b[0]);
        assert(k < a.len() ==> a[k] == x[k - 1]);
        assert(k < b.len() ==> b[k] == y[k - 1]);
        paths_are_ordered_by_their_first_difference(x, y, k - 1);
    }
}

proof fn first_is_found(paths: Seq<Text>, rdev: u64, host: Host, found: Option<Text>)
    requires
        device::first_with_rdev(paths, rdev, host) == Ok::<Option<Text>, Probe<Text>>(found),
    ensures
        match found {
            Some(path) => exists|i: int|
                0 <= i < paths.len() && #[trigger] paths[i] == path && is_numbered(path, rdev, host)
                    && forall|j: int|
                    0 <= j < i ==> !is_numbered(#[trigger] paths[j], rdev, host),
            None => forall|j: int|
                0 <= j < paths.len() ==> !is_numbered(#[trigger] paths[j], rdev, host),
        },
    decreases paths.len(),
{
    if paths.len() > 0 {
        let rest = paths.drop_first();
        if is_numbered(paths[0], rdev, host) {
            assert(paths[0] == found->0);
        } else {
            first_is_found(rest, rdev, host, found);
            match found {
                Some(path) => {
                    let i = choose|i: int|
                        0 <= i < rest.len() && #[trigger] rest[i] == path && is_numbered(
                            path,
                            rdev,
                            host,
                        ) && forall|j: int|
                            0 <= j < i ==> !is_numbered(#[trigger] rest[j], rdev, host);
                    assert(paths[i + 1] == path);
                    assert forall|j: int| 0 <= j < i + 1 implies !is_numbered(
                        #[trigger] paths[j],
                        rdev,
                        host,
                    ) by {
                        if j > 0 {
                            assert(rest[j - 1] == paths[j]);
                        }
                    }
                },
                None => {
                    assert forall|j: int| 0 <= j < paths.len() implies !is_numbered(
                        #[trigger] paths[j],
                        rdev,
                        host,
                    ) by {
                        if j > 0 {
                            assert(rest[j - 1] == paths[j]);
                        }
                    }
                },
            }
        }
    }
}

/// Whether the path is that of an entry of the directory.
pub open spec fn is_entry(path: Text, dir: Text, host: Host) -> bool {
    exists|name: Text| #[trigger] lists(dir, name, host) && path == dir + "/"@ + name
}

/// The paths of the entries of a directory are those of the names that it lists, all
/// of them and in ascending order.
pub proof fn entries_are_listed(dir: Text, host: Host, paths: Seq<Text>)
    requires
        device::sorted_entries(dir, host) == Ok::<Seq<Text>, Probe<Text>>(paths),
    ensures
        order::ascending(paths),
        forall|i: int|
            #![trigger paths[i]]
            0 <= i < paths.len() ==> is_entry(paths[i], dir, host),
        forall|name: Text| #[trigger] lists(dir, name, host) ==> paths.contains(dir + "/"@ + name),
{
    broadcast use vstd::seq_lib::group_to_multiset_ensures;

    let names = device::listed(host.dir(dir)->Ok_0);
    let given = names.map_values(|n: Text| device::entry_path(dir, n));
    order::sorting_orders_and_keeps(given);
    assert forall|i: int|
        #![trigger paths[i]]
        0 <= i < paths.len() implies is_entry(paths[i], dir, host) by {
        assert(paths.contains(paths[i]));
        assert(paths.to_multiset().count(paths[i]) > 0);
        assert(given.contains(paths[i]));
        let k = choose|k: int| 0 <= k < given.len() && given[k] == paths[i];
        assert(names.contains(names[k]));
        assert(lists(dir, names[k], host));
    }
    assert forall|name: Text| #[trigger] lists(dir, name, host) implies paths.contains(
        dir + "/"@ + name,
    ) by {
        let k = choose|k: int| 0 <= k < names.len() && names[k] == name;
        assert(given[k] == dir + "/"@ + name);
        assert(given.contains(dir + "/"@ + name));
        assert(given.to_multiset().count(dir + "/"@ + name) > 0);
    }
}

/// Among the entries of a directory the least that is a name for the device number is
/// found, and none exactly if there is none.
pub proof fn alias_is_least(dir: Text, rdev: u64, host: Host, found: Option<Text>)
    requires
        device::alias_in(dir, rdev, host) == Ok::<Option<Text>, Probe<Text>>(found),
    ensures
        match found {
            Some(path) => is_least_alias(path, dir, rdev, host),
            None => !has_alias(dir, rdev, host),
        },
{
    let paths = device::sorted_entries(dir, host)->Ok_0;
    entries_are_listed(dir, host, paths);
    first_is_found(paths, rdev, host, found);
    match found {
        Some(path) => {
            let i = choose|i: int|
                0 <= i < paths.len() && #[trigger] paths[i] == path && is_numbered(path, rdev, host)
                    && forall|j: int|
                    0 <= j < i ==> !is_numbered(#[trigger] paths[j], rdev, host);
            assert(is_entry(paths[i], dir, host));
            let name = choose|name: Text| #[trigger]
                lists(dir, name, host) && paths[i] == dir + "/"@ + name;
            assert(is_alias(dir, name, rdev, host));
            assert forall|name: Text| is_alias(dir, name, rdev, host) implies order::at_most(
                path,
                dir + "/"@ + name,
            ) by {
                let other = dir + "/"@ + name;
                assert(paths.contains(other));
                let k = choose|k: int| 0 <= k < paths.len() && paths[k] == other;
                if k == i {
                    paths_are_ordered_by_their_first_difference(path, path, path.len() as int);
                }
            }
        },
        None => {
            assert forall|name: Text| !is_alias(dir, name, rdev, host) by {
                if is_alias(dir, name, rdev, host) {
                    let other = dir + "/"@ + name;
                    assert(paths.contains(other));
                    let k = choose|k: int| 0 <= k < paths.len() && paths[k] == other;
                    assert(!is_numbered(paths[k], rdev, host));
                }
            }
        },
    }
}

proof fn first_directory_counts(dirs: Seq<Text>, rdev: u64, host: Host, found: Option<Text>)
    requires
        device::alias_in_dirs(dirs, rdev, host) == Ok::<Option<Text>, Probe<Text>>(found),
    ensures
        match found {
            Some(path) => exists|i: int|
                0 <= i < dirs.len() && is_least_alias(path, #[trigger] dirs[i], rdev, host)
                    && forall|j: int| 0 <= j < i ==> !has_alias(#[trigger] dirs[j], rdev, host),
            None => forall|j: int|
                0 <= j < dirs.len() ==> !has_alias(#[trigger] dirs[j], rdev, host),
        },
    decreases dirs.len(),
{
    if dirs.len() > 0 {
        let rest = dirs.drop_first();
        let here = device::alias_in(dirs[0], rdev, host)->Ok_0;
        alias_is_least(dirs[0], rdev, host, here);
        if here is Some {
            assert(is_least_alias(found->0, dirs[0], rdev, host));
        } else {
            first_directory_counts(rest, rdev, host, found);
            match found {
                Some(path) => {
                    let i = choose|i: int|
                        0 <= i < rest.len() && is_least_alias(path, #[trigger] rest[i], rdev, host)
                            && forall|j: int|
                            0 <= j < i ==> !has_alias(#[trigger] rest[j], rdev, host);
                    assert(dirs[i + 1] == rest[i]);
                    assert forall|j: int| 0 <= j < i + 1 implies !has_alias(
                        #[trigger] dirs[j],
                        rdev,
                        host,
                    ) by {
                        if j > 0 {
                            assert(rest[j - 1] == dirs[j]);
                        }
                    }
                },
                None => {
                    assert forall|j: int| 0 <= j < dirs.len() implies !has_alias(
                        #[trigger] dirs[j],
                        rdev,
                        host,
                    ) by {
                        if j > 0 {
                            assert(rest[j - 1] == dirs[j]);
                        }
                    }
                },
            }
        }
    }
}

/// A stable name that is not the one given leads to a node with the very device
/// number of the node that the given one leads to.
pub proof fn stable_name_has_the_device_number(dev: Text, host: Host, path: Text)
    requires
        device::stable_path(dev, host) == Ok::<Text, Probe<Text>>(path),
        path != dev,
    ensures
        exists|s: Stat, t: Stat| #[trigger]
            host.stat(dev) == Ok::<Option<Stat>, Probe<Text>>(Some(s)) && #[trigger] host.stat(path)
                == Ok::<Option<Stat>, Probe<Text>>(Some(t)) && t.rdev == s.rdev && s.rdev != 0,
{
    let s = host.stat(dev)->Ok_0->0;
    let pools = device::sorted_entries("/dev/stratis"@, host)->Ok_0;
    let dirs = pools + device::alias_dirs();
    first_directory_counts(dirs, s.rdev, host, Some(path));
    assert(is_numbered(path, s.rdev, host));
    assert(host.stat(path) == Ok::<Option<Stat>, Probe<Text>>(Some(host.stat(path)->Ok_0->0)));
}

/// What is not the absolute path of a device node keeps its name.
pub proof fn other_names_are_kept(dev: Text, host: Host, path: Text)
    requires
        device::stable_path(dev, host) == Ok::<Text, Probe<Text>>(path),
        dev.len() == 0 || dev[0] != '/' || !(host.stat(dev) matches Ok(Some(s)) && s.rdev != 0),
    ensures
        path == dev,
{
}

/// The stable name of a device node is the least name that it has among the
/// volumes of the least stratis pool that has one; else the least that it has in
/// `/dev/mapper`; else in `/dev/disk/by-uuid`; else in `/dev/disk/by-label`; else
/// the name that was given.
pub proof fn stable_name_is_the_first_alias(dev: Text, host: Host, s: Stat, path: Text)
    requires
        device::stable_path(dev, host) == Ok::<Text, Probe<Text>>(path),
        dev.len() > 0,
        dev[0] == '/',
        host.stat(dev) == Ok::<Option<Stat>, Probe<Text>>(Some(s)),
        s.rdev != 0,
    ensures
        if exists|pool: Text| is_pool_with(pool, s.rdev, host) {
            exists|pool: Text| #[trigger]
                is_least_pool(pool, s.rdev, host) && is_least_alias(
                    path,
                    "/dev/stratis"@ + "/"@ + pool,
                    s.rdev,
                    host,
                )
        } else if has_alias("/dev/mapper"@, s.rdev, host) {
            is_least_alias(path, "/dev/mapper"@, s.rdev, host)
        } else if has_alias("/dev/disk/by-uuid"@, s.rdev, host) {
            is_least_alias(path, "/dev/disk/by-uuid"@, s.rdev, host)
        } else if has_alias("/dev/disk/by-label"@, s.rdev, host) {
            is_least_alias(path, "/dev/disk/by-label"@, s.rdev, host)
        } else {
            path == dev
        },
{
    let base = "/dev/stratis"@;
    let pools = device::sorted_entries(base, host)->Ok_0;
    entries_are_listed(base, host, pools);
    let last = device::alias_dirs();
    let dirs = pools + last;
    let n = pools.len() as int;
    assert(dirs[n] == "/dev/mapper"@);
    assert(dirs[n + 1] == "/dev/disk/by-uuid"@);
    assert(dirs[n + 2] == "/dev/disk/by-label"@);
    let found = device::alias_in_dirs(dirs, s.rdev, host)->Ok_0;
    first_directory_counts(dirs, s.rdev, host, found);
    assert forall|pool: Text| is_pool_with(pool, s.rdev, host) implies exists|k: int|
        0 <= k < n && #[trigger] dirs[k] == base + "/"@ + pool && has_alias(
            dirs[k],
            s.rdev,
            host,
        ) by {
        assert(pools.contains(base + "/"@ + pool));
        let k = choose|k: int| 0 <= k < pools.len() && pools[k] == base + "/"@ + pool;
        assert(dirs[k] == base + "/"@ + pool);
    }
    if let Some(path) = found {
        let i = choose|i: int|
            0 <= i < dirs.len() && is_least_alias(path, #[trigger] dirs[i], s.rdev, host)
                && forall|j: int| 0 <= j < i ==> !has_alias(#[trigger] dirs[j], s.rdev, host);
        assert(has_alias(dirs[i], s.rdev, host));
        if i < n {
            assert(dirs[i] == pools[i]);
            assert(is_entry(pools[i], base, host));
            let pool = choose|pool: Text| #[trigger]
                lists(base, pool, host) && pools[i] == base + "/"@ + pool;
            assert(is_pool_with(pool, s.rdev, host));
            assert forall|other: Text| #[trigger]
                is_pool_with(other, s.rdev, host) implies order::at_most(
                base + "/"@ + pool,
                base + "/"@ + other,
            ) by {
                let k = choose|k: int|
                    0 <= k < n && #[trigger] dirs[k] == base + "/"@ + other && has_alias(
                        dirs[k],
                        s.rdev,
                        host,
                    );
                assert(k >= i);
                assert(pools[k] == dirs[k]);
                if k == i {
                    let p = base + "/"@ + pool;
                    paths_are_ordered_by_their_first_difference(p, p, p.len() as int);
                }
            }
            assert(is_least_pool(pool, s.rdev, host));
        }
    }
}

}
