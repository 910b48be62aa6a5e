//! What the parameters, the plan and the report promise, in terms of what goes
//! in and what comes out.

use vstd::prelude::*;

use crate::args::ArgsModel;
use crate::atomic;
use crate::atomic::WriteStep;
use crate::config_file;
use crate::config_file::ConfigModel;
use crate::error::Error;
use crate::error::Halt;
use crate::generate;
use crate::generate::Action;
use crate::generate::Document;
use crate::generate::Generated;
use crate::generate::Next;
use crate::generate::ParamsModel;
use crate::host::FileRead;
use crate::host::Host;
use crate::host::Probe;
use crate::mount;
use crate::mountinfo;
use crate::path;
use crate::scan;
use crate::scan::HwModel;
use crate::scan::Virt;
use crate::template::BootLoader;
use crate::template::Kernel;
use crate::template::ReportModel;
use crate::text;
use crate::text::Text;
use crate::warning::Warning;

verus! {

/// Every flag of the arguments reaches the parameters. A flake is written if the
/// arguments or the file ask for it.
pub proof fn flags_reach_the_parameters(args: ArgsModel, file: ConfigModel, host: Host)
    ensures
        generate::merged(args, file, host) matches Ok(params) ==> {
            &&& params.force == args.force
            &&& params.dry == args.dry
            &&& params.no_filesystems == args.no_filesystems
            &&& params.show_hardware_config == args.show_hardware_config
            &&& params.bypass_root_check == args.bypass_root_check
            &&& params.flake <==> (args.flake || file.flake == Some(true))
        },
{
}

/// The kernel is that of the arguments, else that of the file, else `lts`. Only
/// `lts` and `latest` are kernels; another word is refused by name.
pub proof fn kernel_is_the_one_asked_for(args: ArgsModel, file: ConfigModel, host: Host)
    ensures
        generate::merged(args, file, host) matches Ok(params) ==> {
            &&& (args.kernel matches Some(k) ==> (params.kernel == Kernel::Lts ==> k == "lts"@) && (
            params.kernel == Kernel::Latest ==> k == "latest"@))
            &&& (args.kernel is None ==> (file.kernel matches Some(k) ==> (params.kernel
                == Kernel::Lts ==> k == "lts"@) && (params.kernel == Kernel::Latest ==> k
                == "latest"@)))
            &&& (args.kernel is None && file.kernel is None ==> params.kernel == Kernel::Lts)
        },
        generate::merged(args, file, host) matches Err(Halt::Fail(Error::InvalidKernel(k))) ==> {
            &&& k != "lts"@ && k != "latest"@
            &&& args.kernel == Some(k) || (args.kernel is None && file.kernel == Some(k))
        },
{
}

/// A merge fails for two reasons only: the root that counts is `/`, or the kernel
/// that counts is none.
pub proof fn merge_fails_for_two_reasons(args: ArgsModel, file: ConfigModel, host: Host)
    ensures
        generate::merged(args, file, host) matches Err(Halt::Fail(e)) ==> e is NeedlessRoot
            || e is InvalidKernel,
        args.root matches Some(r) ==> (path::same_components(r, "/"@) <==> generate::merged(
            args,
            file,
            host,
        ) == Err::<ParamsModel, Halt<Text>>(Halt::Fail(Error::NeedlessRoot))),
        args.root is None ==> (file.root_directory matches Some(r) ==> (path::same_components(
            r,
            "/"@,
        ) <==> generate::merged(args, file, host) == Err::<ParamsModel, Halt<Text>>(
            Halt::Fail(Error::NeedlessRoot),
        ))),
        args.root is None && file.root_directory is None ==> generate::merged(args, file, host)
            != Err::<ParamsModel, Halt<Text>>(Halt::Fail(Error::NeedlessRoot)),
{
}

/// Without a root directory the scanned system is this host. With one, it is the
/// path that the machine resolves it to, else the one it makes absolute.
pub proof fn root_is_the_one_asked_for(args: ArgsModel, file: ConfigModel, host: Host)
    ensures
        generate::merged(args, file, host) matches Ok(params) ==> {
            &&& args.root is None && file.root_directory is None ==> params.root_dir.len() == 0
            &&& (args.root matches Some(raw) ==> root_comes_from(params.root_dir, raw, host))
            &&& (args.root is None ==> (file.root_directory matches Some(raw) ==> root_comes_from(
                params.root_dir,
                raw,
                host,
            )))
        },
{
    if let Ok(params) = generate::merged(args, file, host) {
        let raw = match args.root {
            Some(r) => Some(r),
            None => file.root_directory,
        };
        if let Some(raw) = raw {
            if let Ok(found) = mount::absolute_root(raw, host) {
                mount::roots_are_empty_or_absolute(found);
                slashes_are_cut(found);
                let cut = choose|cut: Text| #[trigger]
                    is_cut_off(cut, found) && is_put_under_root(
                        mount::rooted(mount::without_slashes(found)),
                        cut,
                    );
                assert(is_cut_off(cut, found_path(raw, host)));
            }
        }
    }
}

/// Whether the root directory is what the machine makes of the text, with slashes
/// taken off its end and one put in front if there is none.
pub open spec fn root_comes_from(root: Text, raw: Text, host: Host) -> bool {
    &&& root.len() > 0 ==> root[0] == '/' && root.last() != '/'
    &&& exists|cut: Text| #[trigger]
        is_cut_off(cut, found_path(raw, host)) && is_put_under_root(root, cut)
}

/// What the machine makes of the path: what it resolves it to, else what it makes
/// absolute, else the path itself.
pub open spec fn found_path(raw: Text, host: Host) -> Text {
    match host.resolve(raw) {
        Ok(Some(resolved)) => resolved.path,
        _ => match host.absolute(raw) {
            Ok(Some(made)) => made,
            _ => raw,
        },
    }
}

/// Whether the first text is the second without some slashes at its end.
pub open spec fn is_cut_off(cut: Text, s: Text) -> bool {
    &&& cut.is_prefix_of(s)
    &&& forall|i: int| cut.len() <= i < s.len() ==> s[i] == '/'
}

/// Whether the first text is the second, with a slash in front if it had none.
pub open spec fn is_put_under_root(root: Text, cut: Text) -> bool {
    root == cut || (cut.len() > 0 && cut[0] != '/' && root == seq!['/'] + cut)
}

/// The path of a root directory is the text without the slashes at its end, with one
/// in front if it had none there.
pub proof fn slashes_are_cut(s: Text)
    ensures
        exists|cut: Text| #[trigger]
            is_cut_off(cut, s) && is_put_under_root(mount::rooted(mount::without_slashes(s)), cut),
{
    reveal_strlit("/");
    assert("/"@ =~= seq!['/']);
    slashes_end(s);
    assert(is_cut_off(mount::without_slashes(s), s));
}

proof fn slashes_end(s: Text)
    ensures
        mount::without_slashes(s).len() <= s.len(),
        mount::without_slashes(s) == s.take(mount::without_slashes(s).len() as int),
        forall|i: int| mount::without_slashes(s).len() <= i < s.len() ==> s[i] == '/',
    decreases s.len(),
{
    if s.len() > 0 && s.last() == '/' {
        slashes_end(s.drop_last());
        let n = mount::without_slashes(s).len() as int;
        assert(s.drop_last().take(n) =~= s.take(n));
        assert forall|i: int| n <= i < s.len() implies s[i] == '/' by {
            if i < s.len() - 1 {
                assert(s.drop_last()[i] == s[i]);
            }
        }
    } else {
        assert(s.take(s.len() as int) =~= s);
    }
}

/// The directory is that of the arguments, else that of the file, else
/// `/etc/nixos`. The default one, however it is written, lies in the root
/// directory; another is what the machine resolves it to, else what it makes
/// absolute.
pub proof fn directory_is_the_one_asked_for(args: ArgsModel, file: ConfigModel, host: Host)
    ensures
        generate::merged(args, file, host) matches Ok(params) ==> {
            &&& args.dir is None && file.directory is None ==> params.out_dir == params.root_dir
                + "/etc/nixos"@
            &&& (args.dir matches Some(raw) ==> directory_comes_from(params, raw, host))
            &&& (args.dir is None ==> (file.directory matches Some(raw) ==> directory_comes_from(
                params,
                raw,
                host,
            )))
        },
{
    reveal_strlit("/etc/nixos");
}

/// Whether the directory is what the text stands for.
pub open spec fn directory_comes_from(params: ParamsModel, raw: Text, host: Host) -> bool {
    if path::is_absolute(raw) && path::components(raw) == path::components("/etc/nixos"@) {
        params.out_dir == params.root_dir + "/etc/nixos"@
    } else {
        params.out_dir == found_path(raw, host)
    }
}

/// In every plan a written `configuration.nix` carries the boot loader that fits
/// the scanned hardware, the kernel of the parameters, no desktop, and the
/// release of the running system.
pub proof fn configuration_fits_the_machine(
    params: ParamsModel,
    hw: HwModel,
    host: Host,
    actions: Seq<Action<Text>>,
    i: int,
)
    requires
        generate::planned(params, hw, host) == Ok::<Seq<Action<Text>>, Probe<Text>>(actions),
        0 <= i < actions.len(),
    ensures
        actions[i] matches Action::Write { document: Document::Configuration(ctx), .. } ==> {
            &&& hw.has_efi ==> ctx.boot_loader == BootLoader::SystemdBoot
            &&& !hw.has_efi && hw.has_extlinux ==> ctx.boot_loader == BootLoader::Extlinux
            &&& !hw.has_efi && !hw.has_extlinux && hw.virt == Virt::SystemdNspawn
                ==> ctx.boot_loader == BootLoader::Nspawn
            &&& !hw.has_efi && !hw.has_extlinux && hw.virt != Virt::SystemdNspawn
                ==> ctx.boot_loader == BootLoader::Grub
            &&& ctx.kernel == params.kernel
            &&& ctx.desktop_configuration is None
            &&& is_release_of(ctx.state_version, host)
        },
{
}

/// Whether the text is the release of the running system: the first two
/// components of its version, or `25.05` if there is no version with two.
pub open spec fn is_release_of(release: Text, host: Host) -> bool {
    match host.file("/run/current-system/nixos-version"@) {
        Ok(FileRead::Text(version)) => {
            let parts = text::split(text::trim(version), '.');
            if parts.len() >= 2 {
                release == parts[0] + "."@ + parts[1]
            } else {
                release == "25.05"@
            }
        },
        _ => release == "25.05"@,
    }
}

/// In every plan a written `flake.nix` names this host: by its name if it has
/// one, else `nixos`.
pub proof fn flake_names_the_host(
    params: ParamsModel,
    hw: HwModel,
    host: Host,
    actions: Seq<Action<Text>>,
    i: int,
)
    requires
        generate::planned(params, hw, host) == Ok::<Seq<Action<Text>>, Probe<Text>>(actions),
        0 <= i < actions.len(),
    ensures
        actions[i] matches Action::Write { document: Document::Flake(ctx), .. } ==> {
            &&& params.flake
            &&& (host.hostname matches Some(Some(name)) ==> (name.len() > 0 ==> ctx.hostname
                == name) && (name.len() == 0 ==> ctx.hostname == "nixos"@))
            &&& (host.hostname == Some(None::<Text>) ==> ctx.hostname == "nixos"@)
        },
{
}

/// A plan makes sure of the directory first, and of nothing else but its three
/// files: the hardware configuration in any case, `flake.nix` exactly if it is
/// asked for, and `configuration.nix` in any case. Each is an entry of the
/// directory under its name.
pub proof fn plan_has_these_steps(
    params: ParamsModel,
    hw: HwModel,
    host: Host,
    actions: Seq<Action<Text>>,
)
    requires
        generate::planned(params, hw, host) == Ok::<Seq<Action<Text>>, Probe<Text>>(actions),
    ensures
        actions.len() == if params.flake {
            4int
        } else {
            3
        },
        actions[0] == if params.dry {
            Action::WouldCreateDir(params.out_dir)
        } else {
            Action::CreateDir(params.out_dir)
        },
        actions[1] == (Action::Write {
            path: path::joined(params.out_dir, "hardware-configuration.nix"@),
            document: Document::<Text>::Hardware,
            keep_backup: true,
        }),
        params.flake ==> is_step_for(
            actions[2],
            path::joined(params.out_dir, "flake.nix"@),
            params.force,
            host,
        ) && (actions[2] matches Action::Write { document, .. } ==> document is Flake),
        is_step_for(
            actions.last(),
            path::joined(params.out_dir, "configuration.nix"@),
            params.force,
            host,
        ) && (actions.last() matches Action::Write { document, .. } ==> document is Configuration),
{
}

/// Whether the action writes the file if it may, else keeps it. A file may be
/// written by force, and is then backed up, or if it is not there.
pub open spec fn is_step_for(action: Action<Text>, file: Text, force: bool, host: Host) -> bool {
    match action {
        Action::Write { path: p, keep_backup, .. } => p == file && keep_backup == force && (force
            || host.is_there(file) == Ok::<bool, Probe<Text>>(false)),
        Action::NotOverwriting(p) => p == file && !force && host.is_there(file) == Ok::<
            bool,
            Probe<Text>,
        >(true),
        _ => false,
    }
}

/// With `force` among the arguments nothing is kept: a run plans no step that
/// leaves a file as it is, and every file that it writes is backed up.
pub proof fn force_overwrites(
    args: ArgsModel,
    can_elevate: bool,
    host: Host,
    g: Generated<ReportModel, Seq<Action<Text>>>,
    actions: Seq<Action<Text>>,
    i: int,
)
    requires
        args.force,
        generate::generated(args, can_elevate, host) == Ok::<
            Generated<ReportModel, Seq<Action<Text>>>,
            Halt<Text>,
        >(g),
        g.next == Next::Write(actions),
        0 <= i < actions.len(),
    ensures
        !(actions[i] is NotOverwriting),
        actions[i] matches Action::Write { keep_backup, .. } ==> keep_backup,
{
}

/// Without `force` among the arguments a run plans to write, besides the hardware
/// configuration, only files that are not there.
pub proof fn nothing_is_overwritten_without_force(
    args: ArgsModel,
    can_elevate: bool,
    host: Host,
    g: Generated<ReportModel, Seq<Action<Text>>>,
    actions: Seq<Action<Text>>,
    i: int,
)
    requires
        !args.force,
        generate::generated(args, can_elevate, host) == Ok::<
            Generated<ReportModel, Seq<Action<Text>>>,
            Halt<Text>,
        >(g),
        g.next == Next::Write(actions),
        0 <= i < actions.len(),
    ensures
        actions[i] matches Action::Write { path: file, document, .. } ==> document is Hardware
            || host.is_there(file) == Ok::<bool, Probe<Text>>(false),
{
}

/// A run shows the hardware configuration exactly if it is asked to. Otherwise it
/// starts over exactly if it is not root, may not go on without, can get root
/// privileges, has not done so already, and cannot write to the directory.
/// Otherwise it writes.
pub proof fn run_shows_elevates_or_writes(
    args: ArgsModel,
    can_elevate: bool,
    host: Host,
    file: ConfigModel,
    params: ParamsModel,
    g: Generated<ReportModel, Seq<Action<Text>>>,
)
    requires
        config_file::loaded("/etc/nixos-generate-config.conf"@, host) == Ok::<
            ConfigModel,
            Halt<Text>,
        >(file),
        generate::merged(args, file, host) == Ok::<ParamsModel, Halt<Text>>(params),
        generate::generated(args, can_elevate, host) == Ok::<
            Generated<ReportModel, Seq<Action<Text>>>,
            Halt<Text>,
        >(g),
    ensures
        g.next is Show <==> args.show_hardware_config,
        g.next is Elevate <==> {
            &&& !args.show_hardware_config
            &&& !args.bypass_root_check
            &&& !host.process.is_root
            &&& !host.process.elevated
            &&& can_elevate
            &&& path::can_write(params.out_dir, host) == Ok::<bool, Probe<Text>>(false)
        },
{
}

/// The report holds what the scans found, list by list: the attributes of the
/// hardware and behind them those of the mounts.
pub proof fn report_holds_what_was_found(
    args: ArgsModel,
    can_elevate: bool,
    host: Host,
    file: ConfigModel,
    params: ParamsModel,
    hw: HwModel,
    g: Generated<ReportModel, Seq<Action<Text>>>,
)
    requires
        config_file::loaded("/etc/nixos-generate-config.conf"@, host) == Ok::<
            ConfigModel,
            Halt<Text>,
        >(file),
        generate::merged(args, file, host) == Ok::<ParamsModel, Halt<Text>>(params),
        scan::scanned(host) == Ok::<HwModel, Halt<Text>>(hw),
        generate::generated(args, can_elevate, host) == Ok::<
            Generated<ReportModel, Seq<Action<Text>>>,
            Halt<Text>,
        >(g),
    ensures
        g.report.imports == hw.imports,
        g.report.initrd_available_kernel_mods == hw.initrd_available,
        g.report.initrd_kernel_modules == hw.initrd_kmods,
        g.report.kernel_modules == hw.kmods,
        g.report.extra_module_packages == hw.module_packages,
        g.report.no_filesystems == args.no_filesystems,
        args.no_filesystems ==> g.report.attrs == hw.attrs && g.report.file_systems.len() == 0
            && g.report.swap_devices.len() == 0,
        !args.no_filesystems ==> {
            &&& mount::swaps_of(host) == Ok::<Seq<Text>, Probe<Text>>(g.report.swap_devices)
            &&& mountinfo::mounts_of(params.root_dir, host) matches Ok(mounts)
                && g.report.file_systems == mounts.file_systems && g.report.attrs == hw.attrs
                + mounts.extra_attrs
        },
{
    if args.no_filesystems {
        assert(hw.attrs + Seq::<Text>::empty() =~= hw.attrs);
    }
}

/// A report holds the lists of the hardware scan and what the scans of the mounts and
/// of the swap devices found, each in its place.
pub proof fn report_takes_each_list_over(
    hw: HwModel,
    mounts: mount::MountModel,
    swaps: Seq<Text>,
    no_filesystems: bool,
)
    ensures
        ({
            let report = generate::reported(hw, mounts, swaps, no_filesystems);
            &&& report.imports == hw.imports
            &&& report.initrd_available_kernel_mods == hw.initrd_available
            &&& report.initrd_kernel_modules == hw.initrd_kmods
            &&& report.kernel_modules == hw.kmods
            &&& report.extra_module_packages == hw.module_packages
            &&& report.attrs == hw.attrs + mounts.extra_attrs
            &&& report.file_systems == mounts.file_systems
            &&& report.swap_devices == swaps
            &&& report.no_filesystems == no_filesystems
        }),
{
}

/// A written plan is that of the parameters and the hardware that the run itself
/// finds.
pub proof fn run_writes_its_own_plan(
    args: ArgsModel,
    can_elevate: bool,
    host: Host,
    file: ConfigModel,
    params: ParamsModel,
    hw: HwModel,
    g: Generated<ReportModel, Seq<Action<Text>>>,
    actions: Seq<Action<Text>>,
)
    requires
        config_file::loaded("/etc/nixos-generate-config.conf"@, host) == Ok::<
            ConfigModel,
            Halt<Text>,
        >(file),
        generate::merged(args, file, host) == Ok::<ParamsModel, Halt<Text>>(params),
        scan::scanned(host) == Ok::<HwModel, Halt<Text>>(hw),
        generate::generated(args, can_elevate, host) == Ok::<
            Generated<ReportModel, Seq<Action<Text>>>,
            Halt<Text>,
        >(g),
        g.next == Next::Write(actions),
    ensures
        generate::planned(params, hw, host) == Ok::<Seq<Action<Text>>, Probe<Text>>(actions),
{
}

/// A run fails exactly if the configuration file, the merge, the scan of the
/// hardware or, unless file systems are left out, that of the mounts fails; and
/// with the error of the first of these that does.
pub proof fn run_fails_with_the_first_error(
    args: ArgsModel,
    can_elevate: bool,
    host: Host,
    e: Error<Text>,
)
    requires
        generate::generated(args, can_elevate, host) == Err::<
            Generated<ReportModel, Seq<Action<Text>>>,
            Halt<Text>,
        >(Halt::Fail(e)),
    ensures
        match config_file::loaded("/etc/nixos-generate-config.conf"@, host) {
            Err(h) => h == Halt::<Text>::Fail(e),
            Ok(file) => match generate::merged(args, file, host) {
                Err(h) => h == Halt::<Text>::Fail(e),
                Ok(params) => match scan::scanned(host) {
                    Err(h) => h == Halt::<Text>::Fail(e),
                    Ok(_) => !args.no_filesystems && mountinfo::mounts_of(params.root_dir, host)
                        == Err::<mount::MountModel, Halt<Text>>(Halt::Fail(e)),
                },
            },
        },
{
}

/// The nearest directory on the way up that is there decides whether a path can
/// be written. If none is there it cannot.
pub proof fn nearest_directory_decides(file: Text, host: Host, b: bool)
    requires
        path::can_write(file, host) == Ok::<bool, Probe<Text>>(b),
    ensures
        host.is_there(file) == Ok::<bool, Probe<Text>>(true) ==> host.writable(file) == Ok::<
            bool,
            Probe<Text>,
        >(b),
        host.is_there(file) != Ok::<bool, Probe<Text>>(true) ==> {
            let all = path::components(file);
            let n = all.len() as int;
            ||| !b && none_is_there(path::is_absolute(file), all, 0, n, host)
            ||| exists|k: int| #[trigger] decides(path::is_absolute(file), all, k, n, host, b)
        },
{
    let all = path::components(file);
    if host.is_there(file) != Ok::<bool, Probe<Text>>(true) {
        assert(all.take(all.len() as int) =~= all);
        nearest_above(path::is_absolute(file), all, all.len() as int, host, b);
    }
}

/// The directory made of the first `k` components.
pub open spec fn up_to(abs: bool, all: Seq<Text>, k: int) -> Text {
    (if abs {
        "/"@
    } else {
        Seq::empty()
    }) + text::join(all.take(k), "/"@)
}

/// Whether no directory made of at least `from` and fewer than `to` components is
/// there.
pub open spec fn none_is_there(abs: bool, all: Seq<Text>, from: int, to: int, host: Host) -> bool {
    forall|n: int|
        from <= n < to && (n > 0 || abs) ==> host.is_there(#[trigger] up_to(abs, all, n)) == Ok::<
            bool,
            Probe<Text>,
        >(false)
}

/// Whether the directory made of `k` components is there, none below it is, and
/// it can be written as told.
pub open spec fn decides(
    abs: bool,
    all: Seq<Text>,
    k: int,
    to: int,
    host: Host,
    b: bool,
) -> bool {
    &&& 0 <= k < to
    &&& k > 0 || abs
    &&& host.is_there(up_to(abs, all, k)) == Ok::<bool, Probe<Text>>(true)
    &&& host.writable(up_to(abs, all, k)) == Ok::<bool, Probe<Text>>(b)
    &&& none_is_there(abs, all, k + 1, to, host)
}

proof fn nearest_above(abs: bool, all: Seq<Text>, m: int, host: Host, b: bool)
    requires
        0 <= m <= all.len(),
        path::writable_above(abs, all.take(m), host) == Ok::<bool, Probe<Text>>(b),
    ensures
        (!b && none_is_there(abs, all, 0, m, host)) || exists|k: int| #[trigger]
            decides(abs, all, k, m, host, b),
    decreases m,
{
    let here = all.take(m);
    assert(here.len() == m);
    if m == 0 || (m == 1 && !abs) {
        assert(!b);
        assert(none_is_there(abs, all, 0, m, host));
    } else {
        let up = all.take(m - 1);
        assert(here.drop_last() =~= up);
        let dir = up_to(abs, all, m - 1);
        assert(path::rendered(abs, up) == dir);
        match host.is_there(dir) {
            Ok(true) => {
                assert(path::writable_above(abs, here, host) == host.writable(dir));
                assert(none_is_there(abs, all, m, m, host));
                assert(decides(abs, all, m - 1, m, host, b));
            },
            Ok(false) => {
                assert(path::writable_above(abs, here, host) == path::writable_above(
                    abs,
                    up,
                    host,
                ));
                nearest_above(abs, all, m - 1, host, b);
                if exists|k: int| #[trigger] decides(abs, all, k, m - 1, host, b) {
                    let k = choose|k: int| #[trigger] decides(abs, all, k, m - 1, host, b);
                    one_more_is_missing(abs, all, k + 1, m, host);
                    assert(decides(abs, all, k, m, host, b));
                } else {
                    one_more_is_missing(abs, all, 0, m, host);
                }
            },
            Err(_) => {},
        }
    }
}

proof fn one_more_is_missing(abs: bool, all: Seq<Text>, from: int, m: int, host: Host)
    requires
        none_is_there(abs, all, from, m - 1, host),
        host.is_there(up_to(abs, all, m - 1)) == Ok::<bool, Probe<Text>>(false),
    ensures
        none_is_there(abs, all, from, m, host),
{
    assert forall|n: int| from <= n < m && (n > 0 || abs) implies host.is_there(
        #[trigger] up_to(abs, all, n),
    ) == Ok::<bool, Probe<Text>>(false) by {
        if n == m - 1 {
            assert(up_to(abs, all, n) == up_to(abs, all, m - 1));
        }
    }
}

/// A run that scans the hardware warns of what that scan does and, behind it, unless
/// file systems are left out, of what the scans of the mounts and of the swap
/// devices do, in this order.
pub proof fn run_warns_of_its_scans(
    args: ArgsModel,
    host: Host,
    file: ConfigModel,
    params: ParamsModel,
    hardware: Seq<Warning<Text>>,
    list: Seq<Warning<Text>>,
)
    requires
        config_file::loaded("/etc/nixos-generate-config.conf"@, host) == Ok::<
            ConfigModel,
            Halt<Text>,
        >(file),
        generate::merged(args, file, host) == Ok::<ParamsModel, Halt<Text>>(params),
        scan::scanned(host) is Ok,
        scan::scan_warned(host) == Ok::<Seq<Warning<Text>>, Probe<Text>>(hardware),
        generate::warned(args, host) == Ok::<Seq<Warning<Text>>, Probe<Text>>(list),
    ensures
        args.no_filesystems ==> list == hardware,
        !args.no_filesystems && (host.file("/proc/self/mountinfo"@) matches Ok(FileRead::Text(_)))
            ==> (mountinfo::mount_scan_warned(params.root_dir, host) matches Ok(mounts) && (
        mount::swap_scan_warned(host) matches Ok(swaps) && list == hardware + mounts + swaps)),
        !args.no_filesystems && !(host.file("/proc/self/mountinfo"@) matches Ok(FileRead::Text(_)))
            ==> list == hardware,
{
    if args.no_filesystems {
        assert(hardware + Seq::<Warning<Text>>::empty() =~= hardware);
    } else if host.file("/proc/self/mountinfo"@) matches Ok(FileRead::Text(_)) {
        let mounts = mountinfo::mount_scan_warned(params.root_dir, host)->Ok_0;
        let swaps = mount::swap_scan_warned(host)->Ok_0;
        assert(hardware + (mounts + swaps) =~= hardware + mounts + swaps);
    } else {
        assert(hardware + Seq::<Warning<Text>>::empty() =~= hardware);
    }
}

/// A run that fails before it scans warns of nothing; one whose scan of the hardware
/// fails warns of what that scan does.
pub proof fn failed_run_warns_as_far_as_it_got(args: ArgsModel, host: Host)
    ensures
        match config_file::loaded("/etc/nixos-generate-config.conf"@, host) {
            Err(Halt::Fail(_)) => generate::warned(args, host) == Ok::<
                Seq<Warning<Text>>,
                Probe<Text>,
            >(Seq::empty()),
            Err(Halt::Need(_)) => true,
            Ok(file) => match generate::merged(args, file, host) {
                Err(Halt::Fail(_)) => generate::warned(args, host) == Ok::<
                    Seq<Warning<Text>>,
                    Probe<Text>,
                >(Seq::empty()),
                Err(Halt::Need(_)) => true,
                Ok(_) => scan::scanned(host) matches Err(Halt::Fail(_)) ==> generate::warned(
                    args,
                    host,
                ) == scan::scan_warned(host),
            },
        },
{
}

/// A written file goes to a file beside it first, whose name ends in `.tmp`, and
/// what is kept of it to one whose name ends in `.bak`. What the file holds is moved
/// aside exactly if it is to be kept and the file is there.
pub proof fn files_are_written_beside(
    target: Text,
    content: Text,
    keep: bool,
    host: Host,
    steps: Seq<WriteStep<Text>>,
)
    requires
        atomic::names_file(target),
        atomic::written(target, content, keep, host) == Ok::<Seq<WriteStep<Text>>, Probe<Text>>(
            steps,
        ),
    ensures
        ({
            let dir = path::components(target).drop_last();
            let name = path::components(target).last();
            let moved = keep && host.is_there(target) == Ok::<bool, Probe<Text>>(true);
            let tmp = (path::is_absolute(target), dir.push(name + ".tmp"@));
            let bak = (path::is_absolute(target), dir.push(name + ".bak"@));
            let n = if moved {
                2int
            } else {
                1
            };
            &&& steps.len() == n + 1
            &&& steps[0] matches WriteStep::Create { file, content: c } && place(file) == tmp && c
                == content
            &&& steps[n] matches WriteStep::Rename { from, to } && place(from) == tmp && to
                == target
            &&& moved ==> (steps[1] matches WriteStep::Rename { from, to } && from == target
                && place(to) == bak)
        }),
{
    reveal_strlit(".tmp");
    reveal_strlit(".bak");
    atomic::beside_is_elsewhere(target, ".tmp"@);
    atomic::beside_is_elsewhere(target, ".bak"@);
}

/// Where the path leads: whether it starts at the root directory, and its
/// components.
pub open spec fn place(file: Text) -> (bool, Seq<Text>) {
    (path::is_absolute(file), path::components(file))
}

/// In a dry run the size of the text in bytes is said, and nothing else is done.
pub proof fn dry_run_says_the_size(target: Text, content: Text, keep: bool, host: Host)
    ensures
        atomic::written_or_said(target, content, keep, true, host) == Ok::<
            Seq<WriteStep<Text>>,
            Probe<Text>,
        >(
            seq![
                WriteStep::Report {
                    target,
                    bytes: vstd::utf8::encode_utf8(content).len() as usize,
                },
            ],
        ),
        atomic::written_or_said(target, content, keep, false, host) == atomic::written(
            target,
            content,
            keep,
            host,
        ),
{
}

}
