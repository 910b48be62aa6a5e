use nixgen::device::{
    bcachefs_uuid, btrfs_subvol_path, find_stable_dev_path, probe_luks, stratis_pool_from_dev,
    stratis_pool_uuid, subvolume_of, usage_uuid_of, BtrfsProbe,
};
use nixgen::error::{Error, Halt};
use nixgen::host::{DirRead, Fact, Facts, FileRead, Probe, Process, Resolved, RunResult, Stat};
use nixgen::mount::{
    emit_filesystem, is_pseudo_mount, mount_warnings, mountinfo_unescape, parse_swaps, scan_mounts,
    scan_swap, swap_warnings, uniq, MountScan, RootDir,
};
use nixgen::mountinfo::{mount_entry, parse_mounts};
use nixgen::warning::Warning;

fn facts() -> Facts {
    Facts::new(Process {
        arch: "x86_64".to_owned(),
        little_endian: true,
        is_root: false,
        elevated: false,
    })
}

/// Answers the probe as a machine does on which there is nothing.
fn answer(f: &mut Facts, p: Probe<String>) {
    f.record(match p {
        Probe::Stat(p) => Fact::Stat(p, None),
        Probe::ReadFile(p) => Fact::ReadFile(p, FileRead::Missing),
        Probe::ReadDir(p) => Fact::ReadDir(p, DirRead::Missing),
        Probe::Resolve(p) => Fact::Resolve(p, None),
        Probe::Absolute(p) => Fact::Absolute(p.clone(), Some(format!("/work/{p}"))),
        Probe::Writable(p) => Fact::Writable(p, false),
        Probe::BtrfsSubvolShow(p) => Fact::BtrfsSubvolShow(p, RunResult::NotFound),
        Probe::BcachefsUsage(p) => Fact::BcachefsUsage(p, RunResult::NotFound),
        Probe::StratisPoolList => Fact::StratisPoolList(RunResult::NotFound),
        Probe::UnameMachine => Fact::UnameMachine(RunResult::NotFound),
        Probe::DetectVirt => Fact::DetectVirt(RunResult::NotFound),
        Probe::Hostname => Fact::Hostname(None),
    });
}

fn settle<V>(f: &mut Facts, run: impl Fn(&Facts) -> Result<V, Probe<String>>) -> V {
    loop {
        match run(f) {
            Ok(v) => return v,
            Err(p) => answer(f, p),
        }
    }
}

fn dir(f: &mut Facts, path: &str) {
    f.stats
        .insert(path.to_owned(), Some(Stat { is_dir: true, rdev: 0 }));
}

fn node(f: &mut Facts, path: &str, rdev: u64) {
    f.stats
        .insert(path.to_owned(), Some(Stat { is_dir: false, rdev }));
}

fn list(f: &mut Facts, path: &str, names: &[&str]) {
    f.dirs.insert(
        path.to_owned(),
        DirRead::Names(names.iter().map(|n| (*n).to_owned()).collect(), vec![]),
    );
}

fn file(f: &mut Facts, path: &str, text: &str) {
    f.files
        .insert(path.to_owned(), FileRead::Text(text.to_owned()));
}

fn exited(stdout: &str) -> RunResult<String> {
    RunResult::Exited {
        success: true,
        stdout: stdout.to_owned(),
    }
}

fn mounts(f: &mut Facts, body: &str, root: &str) -> MountScan {
    let r = RootDir::parse_str(root);
    settle(f, |f| parse_mounts(body, &r, f))
}

#[test]
fn root_dir_default_is_empty() {
    let r = RootDir::default();
    assert_eq!(r.as_str(), "");
}

#[test]
fn root_dir_contains_handles_empty_default() {
    let r = RootDir::parse_str("");
    assert!(r.contains("/"));
    assert!(r.contains("/home"));
    assert!(r.contains("/mnt/x"));
}

#[test]
fn root_dir_contains_rejects_siblings() {
    let r = RootDir::parse_str("/mnt");
    assert!(r.contains("/mnt"));
    assert!(r.contains("/mnt/home"));
    assert!(!r.contains("/mnt2"));
    assert!(!r.contains("/home"));
}

#[test]
fn root_dir_new_absolutizes_nonexistent_relative_paths() {
    let mut f = facts();
    let r = settle(&mut f, |f| RootDir::new(Some("mnt-target"), f));
    assert!(
        r.as_str().starts_with('/'),
        "expected absolute path, got {:?}",
        r.as_str()
    );
    assert!(r.as_str().ends_with("mnt-target"));
}

#[test]
fn root_dir_strip_maps_equal_to_slash() {
    let r = RootDir::parse_str("/mnt");
    assert_eq!(r.strip("/mnt"), "/");
    assert_eq!(r.strip("/mnt/home"), "/home");
}

#[test]
fn root_dir_carries_no_trailing_slash() {
    assert_eq!(RootDir::parse_str("/mnt//").as_str(), "/mnt");
    assert_eq!(RootDir::parse_str("///").as_str(), "");
    assert_eq!(RootDir::parse_str("/").clone().as_str(), "");
    let r = RootDir::parse_str("/mnt/");
    assert_eq!(RootDir::parse_str(r.as_str()).as_str(), r.as_str());
}

#[test]
fn root_dir_new_resolves_what_is_there() {
    let mut f = facts();
    assert_eq!(RootDir::new(None, &f).unwrap().as_str(), "");
    f.resolved.insert(
        "/link".to_owned(),
        Some(Resolved {
            path: "/mnt/target".to_owned(),
            name: Some("target".to_owned()),
            name_is_utf8: true,
        }),
    );
    assert_eq!(
        RootDir::new(Some("/link"), &f).unwrap().as_str(),
        "/mnt/target"
    );
    f.resolved.insert("odd/".to_owned(), None);
    f.absolute.insert("odd/".to_owned(), None);
    assert_eq!(RootDir::new(Some("odd/"), &f).unwrap().as_str(), "/odd");
}

#[test]
fn stripped_mount_point_can_be_put_back() {
    for (root, mp) in [
        ("/mnt", "/mnt/a b"),
        ("", "/home"),
        ("/\u{e9}t\u{e9}", "/\u{e9}t\u{e9}/x"),
    ] {
        let r = RootDir::parse_str(root);
        assert!(r.contains(mp));
        assert_eq!(format!("{}{}", r.as_str(), r.strip(mp)), mp);
    }
}

#[test]
fn is_pseudo_mount_exact_and_prefix() {
    assert!(is_pseudo_mount("/proc"));
    assert!(is_pseudo_mount("/proc/self"));
    assert!(is_pseudo_mount("/sys"));
    assert!(is_pseudo_mount("/dev/pts"));
    assert!(is_pseudo_mount("/run/user/1000"));
    assert!(is_pseudo_mount("/var/lib/nfs/rpc_pipefs"));
    // Should not match sibling directories with pseudo-prefixes.
    assert!(!is_pseudo_mount("/procdata"));
    assert!(!is_pseudo_mount("/devops"));
    assert!(!is_pseudo_mount("/sysroot"));
    assert!(!is_pseudo_mount("/runner"));
    assert!(!is_pseudo_mount("/"));
    assert!(!is_pseudo_mount("/home"));
}

#[test]
fn unescape_mountinfo_octals() {
    assert_eq!(mountinfo_unescape("a\\040b"), "a b");
    assert_eq!(mountinfo_unescape("x\\011y"), "x\ty");
    assert_eq!(mountinfo_unescape("back\\134slash"), "back\\slash");
}

#[test]
fn unescaping_reads_awkward_paths_back() {
    assert_eq!(mountinfo_unescape("a\\012b"), "a\nb");
    assert_eq!(mountinfo_unescape("\\134040"), "\\040");
    assert_eq!(mountinfo_unescape("\\134134"), "\\134");
    assert_eq!(mountinfo_unescape("\\043"), "\\043");
    assert_eq!(mountinfo_unescape(""), "");
}

#[test]
fn uniq_preserves_insertion_order() {
    assert_eq!(
        uniq(vec![
            "a".to_owned(),
            "b".to_owned(),
            "a".to_owned(),
            "c".to_owned()
        ]),
        vec!["a", "b", "c"]
    );
}

#[test]
fn parse_swaps_emits_partitions_only() {
    let body = "\
Filename\tType\t\tSize\tUsed\tPriority
/dev/zram0\tpartition\t1024\t0\t-1
/dev/does-not-exist\tpartition\t1024\t0\t-1
/swapfile\tfile\t\t1024\t0\t-1
";
    let r = RootDir::default();
    // None of these entries exist at scan time, so we expect zero output.
    let mut f = facts();
    let devs = settle(&mut f, |f| parse_swaps(body, &r, f));
    assert!(devs.is_empty());
}

#[test]
fn swaps_that_are_there_are_emitted() {
    let body = "\
Filename\tType\t\tSize\tUsed\tPriority
/dev/zram0\tpartition\t1024\t0\t-1
/dev/sda2 partition 1024 0 -2
/swapfile\tfile\t\t1024\t0\t-1
/odd\tother\t\t1024\t0\t-1
/dev/lonely
";
    let mut f = facts();
    node(&mut f, "/dev/zram0", 7);
    node(&mut f, "/dev/sda2", 8);
    node(&mut f, "/swapfile", 0);
    node(&mut f, "/odd", 0);
    list(&mut f, "/dev/disk/by-uuid", &["11", "22"]);
    node(&mut f, "/dev/disk/by-uuid/22", 8);
    let r = RootDir::default();
    let devs = settle(&mut f, |f| parse_swaps(body, &r, f));
    assert_eq!(devs, ["{ device = \"/dev/disk/by-uuid/22\"; }"]);
    assert!(settle(&mut f, |f| parse_swaps("", &r, f)).is_empty());
}

#[test]
fn unreadable_swaps_are_no_error() {
    let mut f = facts();
    let r = RootDir::default();
    assert_eq!(
        scan_swap(&r, &f),
        Err(Probe::ReadFile("/proc/swaps".to_owned()))
    );
    f.files
        .insert("/proc/swaps".to_owned(), FileRead::Failed("x".to_owned()));
    assert_eq!(scan_swap(&r, &f), Ok(vec![]));
    file(
        &mut f,
        "/proc/swaps",
        "Filename Type\n/dev/x partition 1 0 -1\n",
    );
    node(&mut f, "/dev/x", 0);
    assert_eq!(
        scan_swap(&r, &f),
        Ok(vec!["{ device = \"/dev/x\"; }".to_owned()])
    );
}

#[test]
fn stratis_pool_from_dev_extracts_name() {
    assert_eq!(
        stratis_pool_from_dev("/dev/stratis/mypool/vol1"),
        Some("mypool".to_owned())
    );
    assert_eq!(stratis_pool_from_dev("/dev/sda1"), None);
}

#[test]
fn emit_filesystem_formats_expected_block() {
    let mut out = String::new();
    emit_filesystem(
        &mut out,
        "/home",
        "/dev/disk/by-uuid/1234",
        "ext4",
        &[],
        None,
    );
    let expected = "  fileSystems.\"/home\" = {\n\x20\x20\x20\x20device = \"/dev/disk/by-uuid/1234\";\n\x20\x20\x20\x20fsType = \"ext4\";\n\x20\x20};\n\n";
    assert_eq!(out, expected);
}

#[test]
fn emit_filesystem_with_options_and_stratis() {
    let mut out = String::new();
    emit_filesystem(
        &mut out,
        "/data",
        "/dev/stratis/p/v",
        "ext4",
        &["subvol=@data".to_owned()],
        Some("deadbeef-...-uuid"),
    );
    assert!(out.contains("options = [ \"subvol=@data\" ]"));
    assert!(out.contains("stratis.poolUuid = \"deadbeef-...-uuid\""));
}

#[test]
fn emitted_block_is_appended_and_quoted() {
    let mut out = "x".to_owned();
    emit_filesystem(
        &mut out,
        "/a\"b",
        "${c}",
        "none",
        &["o1".to_owned(), "o\\2".to_owned()],
        Some("u"),
    );
    assert_eq!(
        out,
        "x  fileSystems.\"/a\\\"b\" = {\n    device = \"\\${c}\";\n    fsType = \"none\";\n    options = [ \"o1\" \"o\\\\2\" ];\n    stratis.poolUuid = \"u\";\n  };\n\n"
    );
}

#[test]
fn parse_mounts_unescapes_bind_source_root() {
    // Two mountinfo entries with the same dev_id (8:1). The second is a
    // bind mount whose source root contains an escaped space (\040). We
    // should see the unescaped value in the generated `device` field, not
    // the raw `\040` sequence.
    let body = "\
35 1 8:1 / / rw,relatime shared:1 - ext4 /dev/x rw
36 35 8:1 /home/foo\\040bar /tmp rw,relatime shared:2 - ext4 /dev/x rw
";
    let mut f = facts();
    dir(&mut f, "/");
    dir(&mut f, "/tmp");
    let scan = mounts(&mut f, body, "");
    assert!(
        scan.file_systems.contains("device = \"/home/foo bar\""),
        "expected unescaped bind source, got:\n{}",
        scan.file_systems
    );
    assert!(
        !scan.file_systems.contains("\\040"),
        "raw octal escape leaked into output:\n{}",
        scan.file_systems
    );
}

#[test]
fn parse_mounts_skips_pseudo_and_emits_ext4() {
    let body = "\
25 23 0:24 / /proc rw,nosuid,nodev,noexec,relatime shared:12 - proc proc rw
35 1 8:1 / / rw,relatime shared:1 - ext4 /dev/nonexistent rw
";
    let mut f = facts();
    dir(&mut f, "/");
    dir(&mut f, "/proc");
    let scan = mounts(&mut f, body, "");
    // /proc must be excluded.
    assert!(!scan.file_systems.contains("fileSystems.\"/proc\""));
    assert_eq!(
        scan.file_systems,
        "  fileSystems.\"/\" = {\n    device = \"/dev/nonexistent\";\n    fsType = \"ext4\";\n  };\n\n"
    );
    assert!(scan.swap_devices.is_empty());
    assert!(!scan.use_swraid);
    assert!(scan.extra_attrs.is_empty());
}

#[test]
fn short_lines_and_missing_separators_are_skipped() {
    let mut f = facts();
    dir(&mut f, "/");
    let r = RootDir::default();
    assert_eq!(mount_entry("1 2 3 / /", &r, &f), Ok(None));
    assert_eq!(mount_entry("1 2 8:1 / / rw a b c d e", &r, &f), Ok(None));
    assert_eq!(
        mount_entry("1 2 8:1 / / rw a b c - ext4", &r, &f),
        Ok(None)
    );
    let e = mount_entry("1 2 8:1 /r / rw a b - ext4 /dev/a\\040b", &r, &f)
        .unwrap()
        .unwrap();
    assert_eq!(e.device, "/dev/a b");
    assert_eq!(e.super_options, "");
    assert_eq!(e.dev_id, "8:1");
    assert_eq!(e.fs_root, "/r");
}

#[test]
fn mounts_outside_of_the_root_are_skipped() {
    let body = "\
1 1 8:1 / / rw shared:1 - ext4 /dev/a rw
2 1 8:2 / /mnt rw shared:1 - ext4 /dev/b rw
3 1 8:3 / /mnt/boot rw shared:1 - vfat /dev/c rw,fmask=0022,dmask=0022,codepage=437
4 1 8:4 / /mnt2 rw shared:1 - ext4 /dev/d rw
5 1 0:5 / /mnt/proc rw shared:1 - proc proc rw
6 1 8:6 / /mnt/gone rw shared:1 - ext4 /dev/e rw
";
    let mut f = facts();
    for d in ["/", "/mnt", "/mnt/boot", "/mnt2", "/mnt/proc"] {
        dir(&mut f, d);
    }
    let scan = mounts(&mut f, body, "/mnt");
    assert_eq!(
        scan.file_systems,
        "  fileSystems.\"/\" = {\n    device = \"/dev/b\";\n    fsType = \"ext4\";\n  };\n\n  fileSystems.\"/boot\" = {\n    device = \"/dev/c\";\n    fsType = \"vfat\";\n    options = [ \"fmask=0022\" \"dmask=0022\" ];\n  };\n\n"
    );
}

#[test]
fn special_mounts_are_left_out() {
    let body = "\
1 1 8:1 / / rw shared:1 - ext4 /dev/a rw
2 1 8:2 / /nix/store ro,nosuid shared:1 - ext4 /dev/b rw,x
3 1 8:3 / /usb rw shared:1 - fuseblk /dev/c rw
4 1 0:9 / /tmp rw shared:1 - tmpfs tmpfs rw
";
    let mut f = facts();
    for d in ["/", "/nix/store", "/usb", "/tmp"] {
        dir(&mut f, d);
    }
    let scan = mounts(&mut f, body, "");
    assert_eq!(scan.file_systems.matches("fileSystems").count(), 1);
    // A store that is writable is a mount like any other.
    let scan = mounts(
        &mut f,
        "2 1 8:2 / /nix/store rw,nosuid shared:1 - ext4 /dev/b rw,x\n",
        "",
    );
    assert!(scan.file_systems.contains("\"/nix/store\""));
}

#[test]
fn bind_mounts_name_where_the_file_system_is() {
    let body = "\
1 1 8:1 / /srv rw shared:1 - ext4 /dev/a rw
2 1 8:1 /x /data rw shared:1 - ext4 /dev/a rw
3 1 8:1 / /again rw shared:1 - ext4 /dev/a rw
";
    let mut f = facts();
    for d in ["/srv", "/data", "/again"] {
        dir(&mut f, d);
    }
    let scan = mounts(&mut f, body, "");
    assert!(scan.file_systems.contains(
        "  fileSystems.\"/data\" = {\n    device = \"/srv/x\";\n    fsType = \"none\";\n    options = [ \"bind\" ];\n  };\n\n"
    ));
    assert!(scan.file_systems.contains(
        "  fileSystems.\"/again\" = {\n    device = \"/srv\";\n    fsType = \"none\";\n    options = [ \"bind\" ];\n  };\n\n"
    ));
}

#[test]
fn btrfs_subvolumes_are_told_from_bind_mounts() {
    let body = "\
1 1 0:30 /@ / rw shared:1 - btrfs /dev/a rw
2 1 0:30 /@home /home rw shared:1 - btrfs /dev/a rw
3 1 0:30 /@/x /bind rw shared:1 - btrfs /dev/a rw
";
    let mut f = facts();
    for d in ["/", "/home", "/bind"] {
        dir(&mut f, d);
    }
    f.btrfs_subvols.insert("/".to_owned(), exited("@\n\tName: @\n"));
    f.btrfs_subvols.insert("/home".to_owned(), exited("@home\n"));
    f.btrfs_subvols.insert(
        "/bind".to_owned(),
        RunResult::Exited {
            success: false,
            stdout: String::new(),
        },
    );
    let scan = mounts(&mut f, body, "");
    assert!(scan
        .file_systems
        .contains("fsType = \"btrfs\";\n    options = [ \"subvol=@\" ];"));
    assert!(scan.file_systems.contains("options = [ \"subvol=@home\" ];"));
    assert!(scan
        .file_systems
        .contains("fileSystems.\"/bind\" = {\n    device = \"/home/@/x\";\n    fsType = \"none\";"));
    // Without the program everything is a subvolume.
    let mut g = facts();
    for d in ["/", "/home", "/bind"] {
        dir(&mut g, d);
    }
    let scan = mounts(&mut g, body, "");
    assert_eq!(scan.file_systems.matches("fsType = \"btrfs\"").count(), 3);
    assert!(!scan.file_systems.contains("options"));
}

#[test]
fn btrfs_outcomes() {
    assert_eq!(subvolume_of(&RunResult::NotFound), BtrfsProbe::BinaryMissing);
    assert_eq!(subvolume_of(&RunResult::Failed), BtrfsProbe::NotASubvolume);
    assert_eq!(subvolume_of(&exited("/\n")), BtrfsProbe::TopLevel);
    assert_eq!(subvolume_of(&exited("")), BtrfsProbe::TopLevel);
    assert_eq!(
        subvolume_of(&exited("x\nERROR: no\n")),
        BtrfsProbe::NotASubvolume
    );
    assert_eq!(
        subvolume_of(&exited("  @a b \nmore")),
        BtrfsProbe::Subvol("@a b".to_owned())
    );
    assert_eq!(
        btrfs_subvol_path("/x", &facts()),
        Err(Probe::BtrfsSubvolShow("/x".to_owned()))
    );
}

#[test]
fn bcachefs_mounts_are_named_by_uuid() {
    assert_eq!(
        usage_uuid_of(&exited("Filesystem: 0123-ABef-zz\nSize: 1\n")),
        Some("0123-ABef-".to_owned())
    );
    assert_eq!(usage_uuid_of(&exited("Filesystem: z\n")), None);
    assert_eq!(usage_uuid_of(&exited("")), None);
    assert_eq!(usage_uuid_of(&exited("Size: 1\nFilesystem: 01\n")), None);
    assert_eq!(usage_uuid_of(&RunResult::NotFound), None);
    let body = "1 1 0:30 / /b rw shared:1 - bcachefs /dev/a:/dev/b rw\n";
    let mut f = facts();
    dir(&mut f, "/b");
    f.bcachefs_usages
        .insert("/b".to_owned(), exited("Filesystem: aa-bb\n"));
    assert_eq!(bcachefs_uuid("/b", &f), Ok(Some("aa-bb".to_owned())));
    let scan = mounts(&mut f, body, "");
    assert!(scan.file_systems.contains("device = \"UUID=aa-bb\";"));
}

#[test]
fn loop_devices_name_their_backing_file() {
    let body = "1 1 7:3 / /iso rw shared:1 - iso9660 /dev/loop3 ro\n";
    let mut f = facts();
    dir(&mut f, "/iso");
    file(&mut f, "/sys/block/loop3/loop/backing_file", "/var/disk.iso\n");
    let scan = mounts(&mut f, body, "");
    assert_eq!(
        scan.file_systems,
        "  fileSystems.\"/iso\" = {\n    device = \"/var/disk.iso\";\n    fsType = \"iso9660\";\n    options = [ \"loop\" ];\n  };\n\n"
    );
    let mut g = facts();
    dir(&mut g, "/iso");
    let scan = mounts(&mut g, body, "");
    assert!(scan.file_systems.contains("device = \"/dev/loop3\";"));
    assert!(!scan.file_systems.contains("options"));
}

fn pool_list() -> RunResult<String> {
    exited(&format!(
        "Name  Size {}UUID\ntankX    1 {}\ntank     2 {}\n",
        " ".repeat(32),
        "0".repeat(36),
        "01234567-89ab-cdef-0123-456789abcdef"
    ))
}

#[test]
fn stratis_pools_are_named_by_uuid() {
    let mut f = facts();
    assert_eq!(stratis_pool_uuid("tank", &f), Err(Probe::StratisPoolList));
    f.stratis_pools = Some(pool_list());
    assert_eq!(
        stratis_pool_uuid("tank", &f),
        Ok(Some("01234567-89ab-cdef-0123-456789abcdef".to_owned()))
    );
    assert_eq!(stratis_pool_uuid("pool", &f), Ok(None));
    f.stratis_pools = Some(exited("Name Size\ntank 1\n"));
    assert_eq!(stratis_pool_uuid("tank", &f), Ok(None));
    f.stratis_pools = Some(exited("UUID\ntank 1\n"));
    assert_eq!(stratis_pool_uuid("tank", &f), Ok(None));
    f.stratis_pools = Some(exited("UUID\ntank \u{e9}\ntank 123456789 123456789 123456789 1\n"));
    assert_eq!(
        stratis_pool_uuid("tank", &f),
        Ok(Some("tank 123456789 123456789 123456789 1".to_owned()))
    );
}

#[test]
fn stratis_volumes_come_first() {
    let mut f = facts();
    node(&mut f, "/dev/dm-0", 64);
    list(&mut f, "/dev/stratis", &["tank"]);
    list(&mut f, "/dev/stratis/tank", &["vol"]);
    node(&mut f, "/dev/stratis/tank/vol", 64);
    list(&mut f, "/dev/mapper", &["x"]);
    node(&mut f, "/dev/mapper/x", 64);
    f.stratis_pools = Some(pool_list());
    dir(&mut f, "/data");
    assert_eq!(
        settle(&mut f, |f| find_stable_dev_path("/dev/dm-0", f)),
        "/dev/stratis/tank/vol"
    );
    let scan = mounts(
        &mut f,
        "1 1 253:0 / /data rw shared:1 - xfs /dev/dm-0 rw\n",
        "",
    );
    assert!(scan.file_systems.contains(
        "    stratis.poolUuid = \"01234567-89ab-cdef-0123-456789abcdef\";\n"
    ));
}

#[test]
fn stable_names_do_not_depend_on_the_listing() {
    for names in [["a", "b", "c"], ["c", "b", "a"], ["b", "c", "a"]] {
        let mut f = facts();
        node(&mut f, "/dev/sda1", 5);
        list(&mut f, "/dev/disk/by-label", &names);
        node(&mut f, "/dev/disk/by-label/a", 6);
        node(&mut f, "/dev/disk/by-label/b", 5);
        node(&mut f, "/dev/disk/by-label/c", 5);
        assert_eq!(
            settle(&mut f, |f| find_stable_dev_path("/dev/sda1", f)),
            "/dev/disk/by-label/b"
        );
    }
}

#[test]
fn stable_names_of_other_things_are_their_own() {
    let mut f = facts();
    assert_eq!(find_stable_dev_path("tmpfs", &f), Ok("tmpfs".to_owned()));
    assert_eq!(find_stable_dev_path("", &f), Ok(String::new()));
    node(&mut f, "/file", 0);
    assert_eq!(find_stable_dev_path("/file", &f), Ok("/file".to_owned()));
    assert_eq!(
        settle(&mut f, |f| find_stable_dev_path("/gone", f)),
        "/gone"
    );
    node(&mut f, "/dev/sdz", 9);
    assert_eq!(
        settle(&mut f, |f| find_stable_dev_path("/dev/sdz", f)),
        "/dev/sdz"
    );
}

fn crypt(f: &mut Facts) {
    node(f, "/dev/mapper/c", 40);
    f.resolved.insert(
        "/dev/mapper/c".to_owned(),
        Some(Resolved {
            path: "/dev/dm-1".to_owned(),
            name: Some("dm-1".to_owned()),
            name_is_utf8: true,
        }),
    );
    file(f, "/sys/class/block/dm-1/dm/uuid", "CRYPT-LUKS2-x\n");
    list(f, "/sys/class/block/dm-1/slaves", &["sda2"]);
    file(f, "/sys/class/block/dm-1/dm/name", "c\n");
    node(f, "/dev/sda2", 41);
}

#[test]
fn encrypted_devices_are_set_up_once() {
    let body = "\
1 1 253:1 / / rw shared:1 - ext4 /dev/mapper/c rw
2 1 253:9 / /home rw shared:1 - ext4 /dev/mapper/c rw
";
    let mut f = facts();
    dir(&mut f, "/");
    dir(&mut f, "/home");
    crypt(&mut f);
    let scan = mounts(&mut f, body, "");
    assert!(scan
        .file_systems
        .ends_with("    fsType = \"ext4\";\n  };\n\n"));
    assert!(!scan.file_systems.contains("luks"));
    assert_eq!(
        scan.extra_attrs,
        ["boot.initrd.luks.devices.\"c\".device = \"/dev/sda2\";"]
    );
    assert!(!scan.use_swraid);
    let mut lines: Vec<String> = vec![];
    settle(&mut f, |f| {
        let mut l: Vec<String> = vec![];
        probe_luks("dm-1", &mut l, f)
    });
    probe_luks("dm-1", &mut lines, &f).unwrap();
    probe_luks("dm-1", &mut lines, &f).unwrap();
    assert_eq!(
        lines,
        ["boot.initrd.luks.devices.\"c\".device = \"/dev/sda2\";"]
    );
}

#[test]
fn encrypted_devices_come_before_the_raid() {
    let body = "\
1 1 253:1 / / rw shared:1 - ext4 /dev/mapper/c rw
2 1 9:0 / /home rw shared:1 - ext4 /dev/md0 rw
";
    let mut f = facts();
    dir(&mut f, "/");
    dir(&mut f, "/home");
    crypt(&mut f);
    list(&mut f, "/dev/disk/by-uuid", &["aa"]);
    node(&mut f, "/dev/disk/by-uuid/aa", 41);
    node(&mut f, "/dev/md0", 50);
    f.resolved.insert(
        "/dev/md0".to_owned(),
        Some(Resolved {
            path: "/dev/md0".to_owned(),
            name: Some("md0".to_owned()),
            name_is_utf8: true,
        }),
    );
    node(&mut f, "/sys/class/block/md0/md/uuid", 0);
    assert_eq!(
        mounts(&mut f, body, "").extra_attrs,
        [
            "boot.initrd.luks.devices.\"c\".device = \"/dev/disk/by-uuid/aa\";",
            "boot.swraid.enable = true;",
        ]
    );
}

#[test]
fn root_dir_is_empty_or_absolute() {
    assert_eq!(RootDir::parse_str("mnt").as_str(), "/mnt");
    assert_eq!(RootDir::parse_str("mnt/x//").as_str(), "/mnt/x");
    assert_eq!(RootDir::parse_str("/mnt").as_str(), "/mnt");
    assert_eq!(RootDir::parse_str("").as_str(), "");
}

fn warned(f: &mut Facts, body: &str) -> Vec<Warning<String>> {
    let r = RootDir::default();
    settle(f, |f| mount_warnings(body, &r, f))
}

#[test]
fn mounts_that_are_described_in_part_are_warned_of() {
    let body = "\
1 1 8:1 / /usb rw shared:1 - fuseblk /dev/a rw
2 1 0:30 /@ /data rw shared:1 - btrfs /dev/b rw
3 1 0:30 /@x /more rw shared:1 - btrfs /dev/b rw
4 1 0:31 / /b rw shared:1 - bcachefs /dev/c rw
5 1 8:1 / /bind rw shared:1 - fuse /dev/a rw
6 1 8:9 / /plain rw shared:1 - ext4 /dev/d rw
7 1 8:8 / /gone rw shared:1 - fuse /dev/e rw
";
    let mut f = facts();
    for d in ["/usb", "/data", "/more", "/b", "/bind", "/plain"] {
        dir(&mut f, d);
    }
    assert_eq!(
        warned(&mut f, body),
        [
            Warning::FuseMount("/usb".to_owned()),
            Warning::BtrfsMissing("/data".to_owned()),
            Warning::BtrfsMissing("/more".to_owned()),
            Warning::BcachefsUuidUnknown("/b".to_owned()),
        ]
    );
    f.btrfs_subvols.insert("/data".to_owned(), exited("@\n"));
    f.btrfs_subvols.insert("/more".to_owned(), exited("@x\n"));
    f.bcachefs_usages
        .insert("/b".to_owned(), exited("Filesystem: aa\n"));
    assert_eq!(
        warned(&mut f, body),
        [Warning::FuseMount("/usb".to_owned())]
    );
    assert!(warned(&mut f, "").is_empty());
}

#[test]
fn unsupported_swap_space_is_warned_of() {
    let mut f = facts();
    assert_eq!(
        swap_warnings(&f),
        Err(Probe::ReadFile("/proc/swaps".to_owned()))
    );
    f.files.insert("/proc/swaps".to_owned(), FileRead::Missing);
    assert_eq!(swap_warnings(&f), Ok(vec![Warning::SwapsUnreadable(None)]));
    f.files.insert(
        "/proc/swaps".to_owned(),
        FileRead::Failed("denied".to_owned()),
    );
    assert_eq!(
        swap_warnings(&f),
        Ok(vec![Warning::SwapsUnreadable(Some("denied".to_owned()))])
    );
    file(
        &mut f,
        "/proc/swaps",
        "Filename Type\n/odd other 1\n/gone other 1\n/swapfile file 1\n/dev/x partition 1\n/alone\n",
    );
    for n in ["/odd", "/swapfile", "/dev/x", "/alone"] {
        node(&mut f, n, 0);
    }
    assert_eq!(
        settle(&mut f, swap_warnings),
        [Warning::UnsupportedSwap {
            swap_type: "other".to_owned(),
            file: "/odd".to_owned(),
        }]
    );
}

#[test]
fn software_raid_is_noted() {
    let mut f = facts();
    dir(&mut f, "/");
    node(&mut f, "/dev/md0", 50);
    f.resolved.insert(
        "/dev/md0".to_owned(),
        Some(Resolved {
            path: "/dev/md0".to_owned(),
            name: Some("md0".to_owned()),
            name_is_utf8: true,
        }),
    );
    node(&mut f, "/sys/class/block/md0/md/uuid", 0);
    let scan = mounts(&mut f, "1 1 9:0 / / rw shared:1 - ext4 /dev/md0 rw\n", "");
    assert!(scan.use_swraid);
    assert_eq!(scan.extra_attrs, ["boot.swraid.enable = true;"]);
    assert_eq!(scan.clone().extra_attrs, scan.extra_attrs);
}

#[test]
fn unreadable_mountinfo_is_an_error() {
    let mut f = facts();
    let r = RootDir::default();
    f.files
        .insert("/proc/self/mountinfo".to_owned(), FileRead::Missing);
    assert_eq!(
        scan_mounts(&r, &f).unwrap_err(),
        Halt::Fail(Error::UnreadableFile {
            path: "/proc/self/mountinfo".to_owned(),
            reason: None,
        })
    );
    file(&mut f, "/proc/self/mountinfo", "");
    assert_eq!(scan_mounts(&r, &f).unwrap().file_systems, "");
}

#[test]
fn missing_facts_are_asked_for() {
    let f = facts();
    let r = RootDir::default();
    let body = "1 1 8:1 / /a\\040b rw shared:1 - ext4 /dev/x rw\n";
    assert_eq!(
        parse_mounts(body, &r, &f).unwrap_err(),
        Probe::Stat("/a b".to_owned())
    );
}
