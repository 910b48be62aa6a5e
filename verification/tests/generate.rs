use nixgen::args::OsGenerateConfigArgs;
use nixgen::atomic::{write_atomic, write_or_dry, WriteStep};
use nixgen::config_file::{ConfigFile, DEFAULT_PATH};
use nixgen::error::{Error, Halt};
use nixgen::generate::{
    build_report, detect_state_version, gethostname, reexec_args, select_boot_loader, write_outputs,
    Action, Document, Generated, Next, Params,
};
use nixgen::host::{DirRead, Fact, Facts, FileRead, Probe, Process, Resolved, RunResult, Stat};
use nixgen::mount::{MountScan, RootDir};
use nixgen::path::{can_write_to, join_path, same_path, sibling};
use nixgen::scan::{HwScan, Virt};
use nixgen::template::{
    nix_escape, BootLoader, ConfigurationCtx, FlakeCtx, HardwareReport, Kernel,
};
use nixgen::warning::Warning;

fn process(is_root: bool, elevated: bool) -> Process<String> {
    Process {
        arch: "x86_64".to_owned(),
        little_endian: true,
        is_root,
        elevated,
    }
}

fn facts() -> Facts {
    Facts::new(process(false, false))
}

/// Answers the probe as a machine does on which there is nothing.
fn answer(f: &mut Facts, p: Probe<String>) {
    f.record(match p {
        Probe::Stat(p) => Fact::Stat(p, None),
        Probe::ReadFile(p) => Fact::ReadFile(p, FileRead::Missing),
        Probe::ReadDir(p) => Fact::ReadDir(p, DirRead::Missing),
        Probe::Resolve(p) => Fact::Resolve(p, None),
        Probe::Absolute(p) => Fact::Absolute(p.clone(), Some(format!("/work/{p}"))),
        Probe::Writable(p) => Fact::Writable(p, false),
        Probe::BtrfsSubvolShow(p) => Fact::BtrfsSubvolShow(p, RunResult::NotFound),
        Probe::BcachefsUsage(p) => Fact::BcachefsUsage(p, RunResult::NotFound),
        Probe::StratisPoolList => Fact::StratisPoolList(RunResult::NotFound),
        Probe::UnameMachine => Fact::UnameMachine(RunResult::NotFound),
        Probe::DetectVirt => Fact::DetectVirt(RunResult::NotFound),
        Probe::Hostname => Fact::Hostname(None),
    });
}

fn settle<V>(f: &mut Facts, run: impl Fn(&Facts) -> Result<V, Probe<String>>) -> V {
    loop {
        match run(f) {
            Ok(v) => return v,
            Err(p) => answer(f, p),
        }
    }
}

fn finish<V>(
    f: &mut Facts,
    run: impl Fn(&Facts) -> Result<V, Halt<String>>,
) -> Result<V, Error<String>> {
    loop {
        match run(f) {
            Ok(v) => return Ok(v),
            Err(Halt::Fail(e)) => return Err(e),
            Err(Halt::Need(p)) => answer(f, p),
        }
    }
}

fn there(f: &mut Facts, path: &str) {
    f.stats
        .insert(path.to_owned(), Some(Stat { is_dir: true, rdev: 0 }));
}

fn file(f: &mut Facts, path: &str, text: &str) {
    f.files
        .insert(path.to_owned(), FileRead::Text(text.to_owned()));
}

fn params(f: &mut Facts, args: &OsGenerateConfigArgs, cfg: &ConfigFile) -> Params {
    finish(f, |f| Params::from_args_and_file(args, cfg, f)).unwrap()
}

fn plain_params() -> Params {
    Params {
        out_dir: "/etc/nixos".to_owned(),
        root_dir: RootDir::default(),
        force: false,
        dry: false,
        no_filesystems: false,
        show_hardware_config: false,
        flake: false,
        kernel: Kernel::Lts,
        bypass_root_check: false,
    }
}

#[test]
fn detect_state_version_parses_first_two_components() {
    let mut f = facts();
    let v = settle(&mut f, detect_state_version);
    assert!(v.contains('.'), "state version should contain a dot: {v}");
}

#[test]
fn state_version_is_that_of_the_system() {
    let mut f = facts();
    let path = "/run/current-system/nixos-version";
    file(&mut f, path, "25.11.20240519.abcdef1\n");
    assert_eq!(detect_state_version(&f), Ok("25.11".to_owned()));
    file(&mut f, path, " 26.05 \n");
    assert_eq!(detect_state_version(&f), Ok("26.05".to_owned()));
    file(&mut f, path, "unknown\n");
    assert_eq!(detect_state_version(&f), Ok("25.05".to_owned()));
    f.files.insert(path.to_owned(), FileRead::Missing);
    assert_eq!(detect_state_version(&f), Ok("25.05".to_owned()));
}

#[test]
fn select_boot_loader_priority() {
    let mut hw = HwScan {
        has_efi: true,
        ..Default::default()
    };
    assert!(matches!(select_boot_loader(&hw), BootLoader::SystemdBoot));

    hw.has_efi = false;
    hw.has_extlinux = true;
    assert!(matches!(select_boot_loader(&hw), BootLoader::Extlinux));

    hw.has_extlinux = false;
    hw.virt = Virt::SystemdNspawn;
    assert!(matches!(select_boot_loader(&hw), BootLoader::Nspawn));

    hw.virt = Virt::Bare;
    assert!(matches!(select_boot_loader(&hw), BootLoader::Grub));
}

#[test]
fn gethostname_never_empty() {
    // Always produces a usable string, worst case the fallback.
    let mut f = facts();
    assert!(!settle(&mut f, gethostname).is_empty());
}

#[test]
fn hostname_is_that_of_the_host() {
    let mut f = facts();
    assert_eq!(gethostname(&f), Err(Probe::Hostname));
    f.hostname = Some(Some("box".to_owned()));
    assert_eq!(gethostname(&f), Ok("box".to_owned()));
    f.hostname = Some(Some(String::new()));
    assert_eq!(gethostname(&f), Ok("nixos".to_owned()));
    f.hostname = Some(None);
    assert_eq!(gethostname(&f), Ok("nixos".to_owned()));
}

#[test]
fn parameters_have_defaults() {
    let mut f = facts();
    let p = params(
        &mut f,
        &OsGenerateConfigArgs::default(),
        &ConfigFile::default(),
    );
    assert_eq!(p.out_dir, "/etc/nixos");
    assert_eq!(p.root_dir.as_str(), "");
    assert_eq!(p.kernel, Kernel::Lts);
    assert!(!p.flake && !p.force && !p.dry);
}

#[test]
fn arguments_win_over_the_file() {
    let cfg = ConfigFile {
        directory: Some("/from/file".to_owned()),
        root_directory: Some("/file-root".to_owned()),
        kernel: Some("lts".to_owned()),
        flake: Some(false),
    };
    let args = OsGenerateConfigArgs {
        dir: Some("/from/args".to_owned()),
        root: Some("/args-root".to_owned()),
        kernel: Some("latest".to_owned()),
        flake: true,
        ..Default::default()
    };
    let mut f = facts();
    for p in ["/from/args", "/args-root", "/from/file", "/file-root"] {
        f.resolved.insert(
            p.to_owned(),
            Some(Resolved {
                path: p.to_owned(),
                name: None,
                name_is_utf8: true,
            }),
        );
    }
    let p = params(&mut f, &args, &cfg);
    assert_eq!(p.out_dir, "/from/args");
    assert_eq!(p.root_dir.as_str(), "/args-root");
    assert_eq!(p.kernel, Kernel::Latest);
    assert!(p.flake);
    let p = params(&mut f, &OsGenerateConfigArgs::default(), &cfg);
    assert_eq!(p.out_dir, "/from/file");
    assert_eq!(p.root_dir.as_str(), "/file-root");
    assert_eq!(p.kernel, Kernel::Lts);
    assert!(!p.flake);
}

#[test]
fn file_can_ask_for_a_flake() {
    let mut f = facts();
    let cfg = ConfigFile {
        flake: Some(true),
        ..Default::default()
    };
    assert!(params(&mut f, &OsGenerateConfigArgs::default(), &cfg).flake);
}

#[test]
fn default_directory_moves_with_the_root() {
    let mut f = facts();
    let mut args = OsGenerateConfigArgs {
        root: Some("mnt/".to_owned()),
        ..Default::default()
    };
    let p = params(&mut f, &args, &ConfigFile::default());
    assert_eq!(p.root_dir.as_str(), "/work/mnt");
    assert_eq!(p.out_dir, "/work/mnt/etc/nixos");
    args.dir = Some("/etc//nixos/".to_owned());
    let p = params(&mut f, &args, &ConfigFile::default());
    assert_eq!(p.out_dir, "/work/mnt/etc/nixos");
    args.dir = Some("conf".to_owned());
    let p = params(&mut f, &args, &ConfigFile::default());
    assert_eq!(p.out_dir, "/work/conf");
}

#[test]
fn slash_is_no_root_directory() {
    for root in ["/", "//", "/./"] {
        let args = OsGenerateConfigArgs {
            root: Some(root.to_owned()),
            ..Default::default()
        };
        assert_eq!(
            Params::from_args_and_file(&args, &ConfigFile::default(), &facts()).unwrap_err(),
            Halt::Fail(Error::NeedlessRoot)
        );
    }
}

#[test]
fn kernels_are_checked() {
    let mut f = facts();
    let args = OsGenerateConfigArgs {
        kernel: Some("newest".to_owned()),
        ..Default::default()
    };
    assert_eq!(
        finish(&mut f, |f| Params::from_args_and_file(
            &args,
            &ConfigFile::default(),
            f
        ))
        .unwrap_err(),
        Error::InvalidKernel("newest".to_owned())
    );
}

#[test]
fn report_joins_hardware_and_mounts() {
    let hw = HwScan {
        attrs: vec!["a".to_owned()],
        imports: vec!["i".to_owned()],
        initrd_available: vec!["ia".to_owned()],
        initrd_kmods: vec!["ik".to_owned()],
        kmods: vec!["k".to_owned()],
        module_packages: vec!["m".to_owned()],
        ..Default::default()
    };
    let mount = MountScan {
        file_systems: "fs".to_owned(),
        extra_attrs: vec!["b".to_owned()],
        ..Default::default()
    };
    assert_eq!(
        build_report(&hw, &mount, vec!["s".to_owned()], true),
        HardwareReport {
            imports: vec!["i".to_owned()],
            initrd_available_kernel_mods: vec!["ia".to_owned()],
            initrd_kernel_modules: vec!["ik".to_owned()],
            kernel_modules: vec!["k".to_owned()],
            extra_module_packages: vec!["m".to_owned()],
            attrs: vec!["a".to_owned(), "b".to_owned()],
            file_systems: "fs".to_owned(),
            swap_devices: vec!["s".to_owned()],
            no_filesystems: true,
        }
    );
}

fn hardware(dir: &str) -> Action<String> {
    Action::Write {
        path: format!("{dir}/hardware-configuration.nix"),
        document: Document::Hardware,
        keep_backup: true,
    }
}

fn configuration(dir: &str, kernel: Kernel, keep_backup: bool) -> Action<String> {
    Action::Write {
        path: format!("{dir}/configuration.nix"),
        document: Document::Configuration(ConfigurationCtx {
            state_version: "25.05".to_owned(),
            boot_loader: BootLoader::Grub,
            kernel,
            desktop_configuration: None,
        }),
        keep_backup,
    }
}

#[test]
fn new_configuration_is_written() {
    let mut f = facts();
    let hw = HwScan::default();
    let p = Params {
        flake: true,
        ..plain_params()
    };
    f.hostname = Some(Some("box".to_owned()));
    assert_eq!(
        settle(&mut f, |f| write_outputs(&p, &hw, f)),
        [
            Action::CreateDir("/etc/nixos".to_owned()),
            hardware("/etc/nixos"),
            Action::Write {
                path: "/etc/nixos/flake.nix".to_owned(),
                document: Document::Flake(FlakeCtx {
                    hostname: "box".to_owned()
                }),
                keep_backup: false,
            },
            configuration("/etc/nixos", Kernel::Lts, false),
        ]
    );
}

#[test]
fn existing_configuration_is_kept() {
    let mut f = facts();
    there(&mut f, "/etc/nixos/configuration.nix");
    there(&mut f, "/etc/nixos/flake.nix");
    there(&mut f, "/etc/nixos/hardware-configuration.nix");
    let hw = HwScan::default();
    let p = Params {
        flake: true,
        ..plain_params()
    };
    assert_eq!(
        settle(&mut f, |f| write_outputs(&p, &hw, f)),
        [
            Action::CreateDir("/etc/nixos".to_owned()),
            hardware("/etc/nixos"),
            Action::NotOverwriting("/etc/nixos/flake.nix".to_owned()),
            Action::NotOverwriting("/etc/nixos/configuration.nix".to_owned()),
        ]
    );
}

#[test]
fn existing_configuration_is_overwritten_by_force() {
    let mut f = facts();
    there(&mut f, "/c/configuration.nix");
    let hw = HwScan::default();
    let p = Params {
        out_dir: "/c/".to_owned(),
        force: true,
        dry: true,
        kernel: Kernel::Latest,
        ..plain_params()
    };
    assert_eq!(
        settle(&mut f, |f| write_outputs(&p, &hw, f)),
        [
            Action::WouldCreateDir("/c/".to_owned()),
            hardware("/c"),
            configuration("/c", Kernel::Latest, true),
        ]
    );
}

fn machine(process: Process<String>) -> Facts {
    let mut f = Facts::new(process);
    file(&mut f, "/proc/cpuinfo", "");
    file(
        &mut f,
        "/proc/self/mountinfo",
        "1 1 8:1 / / rw shared:1 - ext4 /dev/x rw\n",
    );
    file(&mut f, "/proc/swaps", "Filename Type\n");
    there(&mut f, "/");
    f
}

fn generated(
    f: &mut Facts,
    args: &OsGenerateConfigArgs,
    can_elevate: bool,
) -> Generated<HardwareReport, Vec<Action<String>>> {
    finish(f, |f| args.generate_config(can_elevate, f)).unwrap()
}

#[test]
fn hardware_configuration_is_shown() {
    let mut f = machine(process(false, false));
    let args = OsGenerateConfigArgs {
        show_hardware_config: true,
        ..Default::default()
    };
    let g = generated(&mut f, &args, true);
    assert_eq!(g.next, Next::Show);
    assert!(g.report.file_systems.contains("fileSystems.\"/\""));
    assert!(!g.report.no_filesystems);
}

#[test]
fn file_systems_can_be_left_out() {
    let mut f = machine(process(false, false));
    let args = OsGenerateConfigArgs {
        show_hardware_config: true,
        no_filesystems: true,
        ..Default::default()
    };
    let g = generated(&mut f, &args, true);
    assert_eq!(g.report.file_systems, "");
    assert!(g.report.swap_devices.is_empty());
    assert!(g.report.no_filesystems);
}

#[test]
fn elevation_is_for_those_who_cannot_write() {
    let bare = OsGenerateConfigArgs::default();
    let mut f = machine(process(false, false));
    assert_eq!(generated(&mut f, &bare, true).next, Next::Elevate);
    assert!(matches!(
        generated(&mut f, &bare, false).next,
        Next::Write(_)
    ));
    let bypass = OsGenerateConfigArgs {
        bypass_root_check: true,
        ..Default::default()
    };
    assert!(matches!(
        generated(&mut f, &bypass, true).next,
        Next::Write(_)
    ));
    let mut f = machine(process(true, false));
    assert!(matches!(generated(&mut f, &bare, true).next, Next::Write(_)));
    let mut f = machine(process(false, true));
    assert!(matches!(generated(&mut f, &bare, true).next, Next::Write(_)));
    let mut f = machine(process(false, false));
    f.writable.insert("/".to_owned(), true);
    assert!(matches!(generated(&mut f, &bare, true).next, Next::Write(_)));
}

#[test]
fn errors_come_out() {
    let bare = OsGenerateConfigArgs::default();
    let mut f = machine(process(true, false));
    file(&mut f, DEFAULT_PATH, "[Defaults]\nx\n");
    assert_eq!(
        finish(&mut f, |f| bare.generate_config(true, f)).unwrap_err(),
        Error::Syntax {
            path: DEFAULT_PATH.to_owned(),
            line: 2,
            text: "x".to_owned(),
        }
    );
    file(&mut f, DEFAULT_PATH, "[Defaults]\nRootDirectory = /\n");
    assert_eq!(
        finish(&mut f, |f| bare.generate_config(true, f)).unwrap_err(),
        Error::NeedlessRoot
    );
    f.files.insert(DEFAULT_PATH.to_owned(), FileRead::Missing);
    f.files.insert(
        "/proc/self/mountinfo".to_owned(),
        FileRead::Failed("denied".to_owned()),
    );
    assert_eq!(
        finish(&mut f, |f| bare.generate_config(true, f)).unwrap_err(),
        Error::UnreadableFile {
            path: "/proc/self/mountinfo".to_owned(),
            reason: Some("denied".to_owned()),
        }
    );
}

#[test]
fn more_facts_do_not_change_the_outcome() {
    let bare = OsGenerateConfigArgs::default();
    let mut f = machine(process(true, false));
    let before = generated(&mut f, &bare, true);
    there(&mut f, "/some/where");
    file(&mut f, "/else", "x");
    f.writable.insert("/etc/nixos".to_owned(), true);
    assert_eq!(bare.generate_config(true, &f), Ok(before));
}

#[test]
fn elevated_process_gets_the_same_arguments() {
    assert_eq!(
        reexec_args(vec!["nh", "os", "--force"], "--bypass-root-check"),
        ["os", "--force", "--bypass-root-check"]
    );
    assert_eq!(reexec_args(vec![], 'x'), ['x']);
}

#[test]
fn paths_are_compared_by_components() {
    assert!(same_path("/etc/nixos", "/etc//nixos/."));
    assert!(same_path("a/b", "a/./b/"));
    assert!(!same_path("/a", "a"));
    assert!(!same_path("./a", "a"));
    assert!(!same_path("a/../b", "b"));
    assert!(same_path("", ""));
    assert!(!same_path("", "/"));
}

#[test]
fn siblings_are_in_the_same_directory() {
    assert_eq!(sibling("/a/b.nix", ".tmp"), "/a/b.nix.tmp");
    assert_eq!(sibling("b", ".bak"), "b.bak");
    assert_eq!(sibling("/", ".tmp"), "/.tmp");
    assert_eq!(sibling("a/..", ".tmp"), "a/../.tmp");
    assert_eq!(sibling("a/b/", ".tmp"), "a/b.tmp");
    assert_eq!(sibling("", ".tmp"), ".tmp");
}

#[test]
fn entries_are_joined_to_directories() {
    assert_eq!(join_path("/a", "b"), "/a/b");
    assert_eq!(join_path("/a/", "b"), "/a/b");
    assert_eq!(join_path("", "b"), "b");
    assert_eq!(join_path("/", "b"), "/b");
}

#[test]
fn nearest_existing_directory_decides() {
    let mut f = facts();
    there(&mut f, "/a");
    f.writable.insert("/a".to_owned(), true);
    assert!(settle(&mut f, |f| can_write_to("/a/b/c", f)));
    there(&mut f, "/a/b");
    f.writable.insert("/a/b".to_owned(), false);
    assert!(!settle(&mut f, |f| can_write_to("/a/b/c", f)));
    assert!(!settle(&mut f, |f| can_write_to("x/y", f)));
    assert!(!settle(&mut f, |f| can_write_to("/gone", f)));
    assert!(!settle(&mut f, |f| can_write_to("", f)));
    there(&mut f, "/");
    f.writable.insert("/".to_owned(), true);
    assert!(settle(&mut f, |f| can_write_to("/gone", f)));
}

fn create(file: &str) -> WriteStep<String> {
    WriteStep::Create {
        file: file.to_owned(),
        content: "text".to_owned(),
    }
}

fn rename(from: &str, to: &str) -> WriteStep<String> {
    WriteStep::Rename {
        from: from.to_owned(),
        to: to.to_owned(),
    }
}

#[test]
fn files_are_replaced_by_renaming() {
    let mut f = facts();
    assert_eq!(
        write_atomic("/a/b", "text", false, &f),
        Ok(vec![create("/a/b.tmp"), rename("/a/b.tmp", "/a/b")])
    );
    assert_eq!(
        write_atomic("/a/b", "text", true, &f),
        Err(Probe::Stat("/a/b".to_owned()))
    );
    f.stats.insert("/a/b".to_owned(), None);
    assert_eq!(
        write_atomic("/a/b", "text", true, &f),
        Ok(vec![create("/a/b.tmp"), rename("/a/b.tmp", "/a/b")])
    );
    there(&mut f, "/a/b");
    assert_eq!(
        write_atomic("/a/b", "text", true, &f),
        Ok(vec![
            create("/a/b.tmp"),
            rename("/a/b", "/a/b.bak"),
            rename("/a/b.tmp", "/a/b")
        ])
    );
}

#[test]
fn dry_run_only_reports() {
    let f = facts();
    assert_eq!(
        write_or_dry("/a/b", "\u{e9}t\u{e9}", true, true, &f),
        Ok(vec![WriteStep::Report {
            target: "/a/b".to_owned(),
            bytes: 5,
        }])
    );
    assert_eq!(
        write_or_dry("/a/b", "text", false, false, &f),
        Ok(vec![create("/a/b.tmp"), rename("/a/b.tmp", "/a/b")])
    );
}

#[test]
fn nix_strings_are_escaped() {
    assert_eq!(nix_escape("a\"b\\c${d}$e$"), "a\\\"b\\\\c\\${d}$e$");
    assert_eq!(nix_escape(""), "");
    assert_eq!(nix_escape("$${"), "$\\${");
}

#[test]
fn run_warns_as_far_as_it_gets() {
    let missing = |dir: &str| Warning::DirMissing(dir.to_owned());
    let hardware = || {
        vec![
            missing("/sys/bus/pci/devices"),
            missing("/sys/bus/usb/devices"),
            missing("/sys/class/block"),
            missing("/sys/class/mmc_host"),
        ]
    };
    let bare = OsGenerateConfigArgs::default();
    let mut f = machine(process(true, false));
    file(
        &mut f,
        "/proc/self/mountinfo",
        "1 1 8:1 / / rw shared:1 - fuse /dev/x rw\n",
    );
    f.files.insert("/proc/swaps".to_owned(), FileRead::Missing);
    let mut all = hardware();
    all.push(Warning::FuseMount("/".to_owned()));
    all.push(Warning::SwapsUnreadable(None));
    assert_eq!(settle(&mut f, |f| bare.warnings(f)), all);
    let no_filesystems = OsGenerateConfigArgs {
        no_filesystems: true,
        ..Default::default()
    };
    assert_eq!(settle(&mut f, |f| no_filesystems.warnings(f)), hardware());
    f.files
        .insert("/proc/self/mountinfo".to_owned(), FileRead::Missing);
    assert_eq!(settle(&mut f, |f| bare.warnings(f)), hardware());
    f.dirs.insert(
        "/sys/bus/usb/devices".to_owned(),
        DirRead::Failed("denied".to_owned()),
    );
    assert_eq!(
        settle(&mut f, |f| bare.warnings(f)),
        [missing("/sys/bus/pci/devices")]
    );
    let needless = OsGenerateConfigArgs {
        root: Some("/".to_owned()),
        ..Default::default()
    };
    assert!(settle(&mut f, |f| needless.warnings(f)).is_empty());
}

/// Carries out the plan on made-up files, each document being its own debug
/// output.
fn carried_out(
    f: &mut Facts,
    files: &mut Vec<(String, String)>,
    actions: &[Action<String>],
    dry: bool,
) {
    for action in actions {
        if let Action::Write {
            path,
            document,
            keep_backup,
        } = action
        {
            let content = format!("{document:?}");
            for step in settle(f, |f| write_or_dry(path, &content, *keep_backup, dry, f)) {
                match step {
                    WriteStep::Report { .. } => {}
                    WriteStep::Create { file, content } => {
                        files.retain(|(name, _)| *name != file);
                        files.push((file, content));
                    }
                    WriteStep::Rename { from, to } => {
                        files.retain(|(name, _)| *name != to);
                        for (name, _) in files.iter_mut() {
                            if *name == from {
                                *name = to.clone();
                            }
                        }
                    }
                }
            }
        }
    }
    files.sort();
}

fn old_files() -> Vec<(String, String)> {
    vec![
        ("/etc/nixos/configuration.nix".to_owned(), "mine".to_owned()),
        (
            "/etc/nixos/hardware-configuration.nix".to_owned(),
            "old".to_owned(),
        ),
    ]
}

#[test]
fn dry_run_leaves_the_files_alone() {
    for force in [false, true] {
        let mut f = machine(process(true, false));
        for (name, _) in old_files() {
            there(&mut f, &name);
        }
        let args = OsGenerateConfigArgs {
            dry: true,
            flake: true,
            force,
            ..Default::default()
        };
        let mut files = old_files();
        match generated(&mut f, &args, true).next {
            Next::Write(actions) => {
                assert_eq!(actions[0], Action::WouldCreateDir("/etc/nixos".to_owned()));
                carried_out(&mut f, &mut files, &actions, args.dry);
            }
            _ => panic!("nothing planned"),
        }
        assert_eq!(files, old_files());
    }
}

#[test]
fn plan_does_what_it_says() {
    let mut f = machine(process(true, false));
    for (name, _) in old_files() {
        there(&mut f, &name);
    }
    let args = OsGenerateConfigArgs {
        flake: true,
        ..Default::default()
    };
    let mut files = old_files();
    match generated(&mut f, &args, true).next {
        Next::Write(actions) => carried_out(&mut f, &mut files, &actions, args.dry),
        _ => panic!("nothing planned"),
    }
    let names: Vec<&str> = files.iter().map(|(name, _)| name.as_str()).collect();
    assert_eq!(
        names,
        [
            "/etc/nixos/configuration.nix",
            "/etc/nixos/flake.nix",
            "/etc/nixos/hardware-configuration.nix",
            "/etc/nixos/hardware-configuration.nix.bak",
        ]
    );
    assert_eq!(files[0].1, "mine");
    assert!(files[1].1.starts_with("Flake("));
    assert_eq!(files[2].1, "Hardware");
    assert_eq!(files[3].1, "old");
}
