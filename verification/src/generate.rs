//! From the arguments and the state of the machine to the files that are
//! written.

use vstd::prelude::*;

use crate::args::ArgsModel;
use crate::args::OsGenerateConfigArgs;
use crate::config_file;
use crate::config_file::ConfigFile;
use crate::config_file::ConfigModel;
use crate::error;
use crate::error::Error;
use crate::error::Halt;
use crate::host;
use crate::host::Facts;
use crate::host::FileRead;
use crate::host::Host;
use crate::host::Probe;
use crate::mount;
use crate::mount::MountModel;
use crate::mount::MountScan;
use crate::mount::RootDir;
use crate::mountinfo;
use crate::path;
use crate::scan;
use crate::scan::HwModel;
use crate::scan::HwScan;
use crate::scan::Virt;
use crate::template::BootLoader;
use crate::template::ConfigurationCtx;
use crate::template::FlakeCtx;
use crate::template::HardwareReport;
use crate::template::Kernel;
use crate::template::ReportModel;
use crate::text;
use crate::text::Text;
use crate::warning;
use crate::warning::Warning;

verus! {

/// The directory that is written to unless another is given.
pub const DEFAULT_DIR: &'static str = "/etc/nixos";

/// The environment variable that marks a process as started by an elevated
/// parent.
pub const ELEVATED_SENTINEL: &'static str = "NH_GENCONFIG_ELEVATED";

/// The argument that an elevated process is started with.
pub const BYPASS_ROOT_CHECK: &'static str = "--bypass-root-check";

/// What is to be done, after the arguments have been merged with the defaults
/// of the configuration file.
#[derive(Debug)]
pub struct Params {
    pub out_dir: String,
    pub root_dir: RootDir,
    pub force: bool,
    pub dry: bool,
    pub no_filesystems: bool,
    pub show_hardware_config: bool,
    pub flake: bool,
    pub kernel: Kernel,
    pub bypass_root_check: bool,
}

/// The contents of [`Params`].
pub struct ParamsModel {
    pub out_dir: Text,
    pub root_dir: Text,
    pub force: bool,
    pub dry: bool,
    pub no_filesystems: bool,
    pub show_hardware_config: bool,
    pub flake: bool,
    pub kernel: Kernel,
    pub bypass_root_check: bool,
}

impl DeepView for Params {
    type V = ParamsModel;

    open spec fn deep_view(&self) -> ParamsModel {
        ParamsModel {
            out_dir: self.out_dir@,
            root_dir: self.root_dir@,
            force: self.force,
            dry: self.dry,
            no_filesystems: self.no_filesystems,
            show_hardware_config: self.show_hardware_config,
            flake: self.flake,
            kernel: self.kernel,
            bypass_root_check: self.bypass_root_check,
        }
    }
}

/// The argument if it is given, else the default of the configuration file.
pub open spec fn given(arg: Option<Text>, default: Option<Text>) -> Option<Text> {
    match arg {
        Some(a) => Some(a),
        None => default,
    }
}

/// The kernel that the text selects.
pub open spec fn kernel_named(t: Text) -> Option<Kernel> {
    if t == "lts"@ {
        Some(Kernel::Lts)
    } else if t == "latest"@ {
        Some(Kernel::Latest)
    } else {
        None
    }
}

/// The directory that is written to. The default one lies in the root
/// directory; another is taken as it is, made absolute.
pub open spec fn out_dir(raw: Text, root: Text, host: Host) -> Result<Text, Probe<Text>> {
    if path::same_components(raw, DEFAULT_DIR@) {
        Ok(root + "/etc/nixos"@)
    } else {
        mount::absolute_root(raw, host)
    }
}

/// The arguments merged with the defaults of the configuration file.
pub open spec fn merged(args: ArgsModel, file: ConfigModel, host: Host) -> Result<
    ParamsModel,
    Halt<Text>,
> {
    let dir = given(given(args.dir, file.directory), Some(DEFAULT_DIR@))->0;
    let root = given(args.root, file.root_directory);
    let kernel = given(given(args.kernel, file.kernel), Some("lts"@))->0;
    if root is Some && path::same_components(root->0, "/"@) {
        Err(Halt::Fail(Error::NeedlessRoot))
    } else {
        match mount::selected_root(root, host) {
            Err(p) => Err(Halt::Need(p)),
            Ok(root_dir) => match out_dir(dir, root_dir, host) {
                Err(p) => Err(Halt::Need(p)),
                Ok(out_dir) => match kernel_named(kernel) {
                    None => Err(Halt::Fail(Error::InvalidKernel(kernel))),
                    Some(kernel) => Ok(
                        ParamsModel {
                            out_dir,
                            root_dir,
                            force: args.force,
                            dry: args.dry,
                            no_filesystems: args.no_filesystems,
                            show_hardware_config: args.show_hardware_config,
                            flake: args.flake || file.flake == Some(true),
                            kernel,
                            bypass_root_check: args.bypass_root_check,
                        },
                    ),
                },
            },
        }
    }
}

fn given_of<'a>(arg: &'a Option<String>, default: &'a Option<String>) -> (r: Option<&'a str>)
    ensures
        r.deep_view() == given(arg.deep_view(), default.deep_view()),
{
    match arg {
        Some(a) => Some(a.as_str()),
        None => match default {
            Some(d) => Some(d.as_str()),
            None => None,
        },
    }
}

impl Params {
    /// Merges the arguments with the defaults of the configuration file. An
    /// argument counts more than a default.
    pub fn from_args_and_file(
        args: &OsGenerateConfigArgs,
        file: &ConfigFile,
        facts: &Facts,
    ) -> (r: Result<Self, Halt<String>>)
        ensures
            error::outcome(r) == merged(args.deep_view(), file.deep_view(), facts@),
    {
        let dir = match given_of(&args.dir, &file.directory) {
            Some(d) => d,
            None => DEFAULT_DIR,
        };
        let root = given_of(&args.root, &file.root_directory);
        if let Some(r) = root {
            if path::same_path(r, "/") {
                return Err(Halt::Fail(Error::NeedlessRoot));
            }
        }
        let root_dir = match RootDir::new(root, facts) {
            Ok(root_dir) => root_dir,
            Err(p) => {
                return Err(Halt::Need(p));
            },
        };
        let out_dir = if path::same_path(dir, DEFAULT_DIR) {
            text::cat(root_dir.as_str(), "/etc/nixos")
        } else {
            error::need(mount::absolute_path(dir, facts))?
        };
        let kernel = match given_of(&args.kernel, &file.kernel) {
            Some(k) => k,
            None => "lts",
        };
        let kernel = if text::same(kernel, "lts") {
            Kernel::Lts
        } else if text::same(kernel, "latest") {
            Kernel::Latest
        } else {
            return Err(Halt::Fail(Error::InvalidKernel(kernel.to_owned())));
        };
        let flake = args.flake || (match file.flake {
            Some(flake) => flake,
            None => false,
        });
        Ok(
            Params {
                out_dir,
                root_dir,
                force: args.force,
                dry: args.dry,
                no_filesystems: args.no_filesystems,
                show_hardware_config: args.show_hardware_config,
                flake,
                kernel,
                bypass_root_check: args.bypass_root_check,
            },
        )
    }
}

/// The report on the hardware, the mounts and the swap devices.
pub open spec fn reported(
    hw: HwModel,
    mount: MountModel,
    swap_devices: Seq<Text>,
    no_filesystems: bool,
) -> ReportModel {
    ReportModel {
        imports: hw.imports,
        initrd_available_kernel_mods: hw.initrd_available,
        initrd_kernel_modules: hw.initrd_kmods,
        kernel_modules: hw.kmods,
        extra_module_packages: hw.module_packages,
        attrs: hw.attrs + mount.extra_attrs,
        file_systems: mount.file_systems,
        swap_devices,
        no_filesystems,
    }
}

fn add_texts(list: &mut Vec<String>, more: &Vec<String>)
    ensures
        final(list).deep_view() == old(list).deep_view() + more.deep_view(),
{
    let ghost before = list.deep_view();
    let ghost all = more.deep_view();
    let mut i: usize = 0;
    assert(list.deep_view() =~= before + all.take(0));
    while i < more.len()
        invariant
            i <= more@.len(),
            all == more.deep_view(),
            list.deep_view() == before + all.take(i as int),
        decreases more@.len() - i,
    {
        assert(all[i as int] == more@[i as int]@);
        text::push_text(list, more[i].clone());
        i += 1;
        assert(list.deep_view() =~= before + all.take(i as int));
    }
    assert(all.take(i as int) =~= all);
}

/// Collects what the hardware configuration is rendered from.
pub fn build_report(
    hw: &HwScan,
    mount: &MountScan,
    swap_devices: Vec<String>,
    no_filesystems: bool,
) -> (r: HardwareReport)
    ensures
        r.deep_view() == reported(
            hw.deep_view(),
            mount.deep_view(),
            swap_devices.deep_view(),
            no_filesystems,
        ),
{
    let mut attrs = text::copy_texts(&hw.attrs);
    add_texts(&mut attrs, &mount.extra_attrs);
    HardwareReport {
        imports: text::copy_texts(&hw.imports),
        initrd_available_kernel_mods: text::copy_texts(&hw.initrd_available),
        initrd_kernel_modules: text::copy_texts(&hw.initrd_kmods),
        kernel_modules: text::copy_texts(&hw.kmods),
        extra_module_packages: text::copy_texts(&hw.module_packages),
        attrs,
        file_systems: mount.file_systems.clone(),
        swap_devices,
        no_filesystems,
    }
}

/// The boot loader that the configuration enables.
pub open spec fn boot_loader(hw: HwModel) -> BootLoader {
    if hw.has_efi {
        BootLoader::SystemdBoot
    } else if hw.has_extlinux {
        BootLoader::Extlinux
    } else if hw.virt == Virt::SystemdNspawn {
        BootLoader::Nspawn
    } else {
        BootLoader::Grub
    }
}

/// The boot loader that the configuration enables: by the firmware, else by
/// what is installed, else by the virtualization.
pub fn select_boot_loader(hw: &HwScan) -> (r: BootLoader)
    ensures
        r == boot_loader(hw.deep_view()),
{
    if hw.has_efi {
        BootLoader::SystemdBoot
    } else if hw.has_extlinux {
        BootLoader::Extlinux
    } else if hw.virt == Virt::SystemdNspawn {
        BootLoader::Nspawn
    } else {
        BootLoader::Grub
    }
}

/// The name of this host, or `nixos` if it has none.
pub open spec fn hostname(host: Host) -> Result<Text, Probe<Text>> {
    match host.host_name() {
        Err(p) => Err(p),
        Ok(Some(name)) => Ok(
            if name.len() > 0 {
                name
            } else {
                "nixos"@
            },
        ),
        Ok(None) => Ok("nixos"@),
    }
}

/// The name of this host, or `nixos` if it has none.
pub fn gethostname(facts: &Facts) -> (r: Result<String, Probe<String>>)
    ensures
        host::shown(r) == hostname(facts@),
{
    match facts.host_name()? {
        Some(name) => if name.as_str().is_empty() {
            Ok("nixos".to_owned())
        } else {
            Ok(name.clone())
        },
        None => Ok("nixos".to_owned()),
    }
}

/// A host has a usable name in any case.
pub proof fn hostname_is_not_empty(host: Host)
    ensures
        hostname(host) matches Ok(name) ==> name.len() > 0,
{
    reveal_strlit("nixos");
}

/// The release that the version of a running system names: its first two
/// components.
pub open spec fn release(version: Text) -> Option<Text> {
    let parts = text::split(text::trim(version), '.');
    if parts.len() >= 2 {
        Some(parts[0] + "."@ + parts[1])
    } else {
        None
    }
}

/// The release that the configuration is written for: that of the running
/// system, or a fixed one if it cannot be told.
pub open spec fn state_version(host: Host) -> Result<Text, Probe<Text>> {
    match host.file("/run/current-system/nixos-version"@) {
        Err(p) => Err(p),
        Ok(FileRead::Text(version)) => Ok(
            match release(version) {
                Some(r) => r,
                None => "25.05"@,
            },
        ),
        Ok(_) => Ok("25.05"@),
    }
}

/// The release that the configuration is written for.
pub fn detect_state_version(facts: &Facts) -> (r: Result<String, Probe<String>>)
    ensures
        host::shown(r) == state_version(facts@),
{
    match facts.file("/run/current-system/nixos-version")? {
        FileRead::Text(version) => {
            let parts = text::split_on(text::trim_of(version.as_str()).as_str(), '.');
            if parts.len() >= 2 {
                assert(parts.deep_view()[0] == parts@[0]@);
                assert(parts.deep_view()[1] == parts@[1]@);
                let mut r = parts[0].clone();
                r.append(".");
                r.append(parts[1].as_str());
                Ok(r)
            } else {
                Ok("25.05".to_owned())
            }
        },
        _ => Ok("25.05".to_owned()),
    }
}

/// The release is made of two components: there is exactly one dot in it.
pub proof fn release_has_two_components(host: Host)
    ensures
        state_version(host) matches Ok(v) ==> text::split(v, '.').len() == 2,
{
    if let Ok(v) = state_version(host) {
        match host.file("/run/current-system/nixos-version"@) {
            Ok(FileRead::Text(version)) if release(version) is Some => {
                let t = text::trim(version);
                let parts = text::split(t, '.');
                text::split_then_join(t, '.');
                let pair = seq![parts[0], parts[1]];
                text::join_then_split(pair, '.');
                reveal_strlit(".");
                assert("."@ =~= seq!['.']);
                assert(pair.drop_last() =~= seq![parts[0]]);
                assert(text::join(pair.drop_last(), seq!['.']) == parts[0]);
                assert(text::join(pair, seq!['.']) =~= v);
            },
            _ => {
                reveal_strlit("25.05");
                let pair = seq![seq!['2', '5'], seq!['0', '5']];
                text::join_then_split(pair, '.');
                assert(pair.drop_last() =~= seq![seq!['2', '5']]);
                assert(text::join(pair.drop_last(), seq!['.']) == seq!['2', '5']);
                assert(text::join(pair, seq!['.']) =~= v);
            },
        }
    }
}

/// A file of the configuration, with what it is rendered from. The report for
/// the hardware configuration is kept apart.
#[derive(Debug, PartialEq, Eq)]
pub enum Document<T> {
    Hardware,
    Flake(FlakeCtx<T>),
    Configuration(ConfigurationCtx<T>),
}

impl DeepView for Document<String> {
    type V = Document<Text>;

    open spec fn deep_view(&self) -> Document<Text> {
        match self {
            Document::Hardware => Document::Hardware,
            Document::Flake(ctx) => Document::Flake(ctx.deep_view()),
            Document::Configuration(ctx) => Document::Configuration(ctx.deep_view()),
        }
    }
}

/// A step of writing the configuration.
#[derive(Debug, PartialEq, Eq)]
pub enum Action<T> {
    /// Create the directory, with those above it.
    CreateDir(T),
    /// Say that the directory would be created.
    WouldCreateDir(T),
    /// Render the document and write it.
    Write { path: T, document: Document<T>, keep_backup: bool },
    /// Warn that the existing file is kept.
    NotOverwriting(T),
}

impl DeepView for Action<String> {
    type V = Action<Text>;

    open spec fn deep_view(&self) -> Action<Text> {
        match self {
            Action::CreateDir(dir) => Action::CreateDir(dir@),
            Action::WouldCreateDir(dir) => Action::WouldCreateDir(dir@),
            Action::Write { path, document, keep_backup } => Action::Write {
                path: path@,
                document: document.deep_view(),
                keep_backup: *keep_backup,
            },
            Action::NotOverwriting(path) => Action::NotOverwriting(path@),
        }
    }
}

/// The step that makes sure of the directory.
pub open spec fn dir_action(params: ParamsModel) -> Action<Text> {
    if params.dry {
        Action::WouldCreateDir(params.out_dir)
    } else {
        Action::CreateDir(params.out_dir)
    }
}

/// The step that writes the hardware configuration, which is always rewritten.
pub open spec fn hardware_action(params: ParamsModel) -> Action<Text> {
    Action::Write {
        path: path::joined(params.out_dir, "hardware-configuration.nix"@),
        document: Document::Hardware,
        keep_backup: true,
    }
}

/// Whether the file may be written: it is not there, or it is overwritten by
/// force.
pub open spec fn may_write(params: ParamsModel, file: Text, host: Host) -> Result<
    bool,
    Probe<Text>,
> {
    if params.force {
        Ok(true)
    } else {
        match host.is_there(file) {
            Err(p) => Err(p),
            Ok(there) => Ok(!there),
        }
    }
}

/// The step for `flake.nix`.
pub open spec fn flake_action(params: ParamsModel, host: Host) -> Result<
    Action<Text>,
    Probe<Text>,
> {
    let file = path::joined(params.out_dir, "flake.nix"@);
    match may_write(params, file, host) {
        Err(p) => Err(p),
        Ok(false) => Ok(Action::NotOverwriting(file)),
        Ok(true) => match hostname(host) {
            Err(p) => Err(p),
            Ok(hostname) => Ok(
                Action::Write {
                    path: file,
                    document: Document::Flake(FlakeCtx { hostname }),
                    keep_backup: params.force,
                },
            ),
        },
    }
}

/// The step for `configuration.nix`.
pub open spec fn configuration_action(params: ParamsModel, hw: HwModel, host: Host) -> Result<
    Action<Text>,
    Probe<Text>,
> {
    let file = path::joined(params.out_dir, "configuration.nix"@);
    match may_write(params, file, host) {
        Err(p) => Err(p),
        Ok(false) => Ok(Action::NotOverwriting(file)),
        Ok(true) => match state_version(host) {
            Err(p) => Err(p),
            Ok(state_version) => Ok(
                Action::Write {
                    path: file,
                    document: Document::Configuration(
                        ConfigurationCtx {
                            state_version,
                            boot_loader: boot_loader(hw),
                            kernel: params.kernel,
                            desktop_configuration: None,
                        },
                    ),
                    keep_backup: params.force,
                },
            ),
        },
    }
}

/// The steps of writing the configuration, in order.
pub open spec fn planned(params: ParamsModel, hw: HwModel, host: Host) -> Result<
    Seq<Action<Text>>,
    Probe<Text>,
> {
    let start = seq![dir_action(params), hardware_action(params)];
    if params.flake {
        match flake_action(params, host) {
            Err(p) => Err(p),
            Ok(flake) => match configuration_action(params, hw, host) {
                Err(p) => Err(p),
                Ok(configuration) => Ok(start.push(flake).push(configuration)),
            },
        }
    } else {
        match configuration_action(params, hw, host) {
            Err(p) => Err(p),
            Ok(configuration) => Ok(start.push(configuration)),
        }
    }
}

fn push_action(v: &mut Vec<Action<String>>, a: Action<String>)
    ensures
        final(v).deep_view() == old(v).deep_view().push(a.deep_view()),
{
    let ghost before = v.deep_view();
    v.push(a);
    assert(v.deep_view() =~= before.push(a.deep_view()));
}

fn may_write_to(params: &Params, file: &str, facts: &Facts) -> (r: Result<bool, Probe<String>>)
    ensures
        host::shown(r) == may_write(params.deep_view(), file@, facts@),
{
    if params.force {
        return Ok(true);
    }
    let there = facts.is_there(file)?;
    Ok(!there)
}

/// Plans the writing of the configuration. `hardware-configuration.nix` is
/// always rewritten; `configuration.nix`, and `flake.nix` if it is asked for,
/// are only overwritten by force.
pub fn write_outputs(params: &Params, hw: &HwScan, facts: &Facts) -> (r: Result<
    Vec<Action<String>>,
    Probe<String>,
>)
    ensures
        host::shown(r) == planned(params.deep_view(), hw.deep_view(), facts@),
{
    let dir = params.out_dir.as_str();
    let mut actions: Vec<Action<String>> = Vec::new();
    if params.dry {
        push_action(&mut actions, Action::WouldCreateDir(dir.to_owned()));
    } else {
        push_action(&mut actions, Action::CreateDir(dir.to_owned()));
    }
    push_action(
        &mut actions,
        Action::Write {
            path: path::join_path(dir, "hardware-configuration.nix"),
            document: Document::Hardware,
            keep_backup: true,
        },
    );
    assert(actions.deep_view() =~= seq![
        dir_action(params.deep_view()),
        hardware_action(params.deep_view()),
    ]);
    if params.flake {
        let file = path::join_path(dir, "flake.nix");
        if may_write_to(params, file.as_str(), facts)? {
            let hostname = gethostname(facts)?;
            push_action(
                &mut actions,
                Action::Write {
                    path: file,
                    document: Document::Flake(FlakeCtx { hostname }),
                    keep_backup: params.force,
                },
            );
        } else {
            push_action(&mut actions, Action::NotOverwriting(file));
        }
    }
    let file = path::join_path(dir, "configuration.nix");
    if may_write_to(params, file.as_str(), facts)? {
        let state_version = detect_state_version(facts)?;
        let ctx = ConfigurationCtx {
            state_version,
            boot_loader: select_boot_loader(hw),
            kernel: params.kernel,
            desktop_configuration: None,
        };
        push_action(
            &mut actions,
            Action::Write {
                path: file,
                document: Document::Configuration(ctx),
                keep_backup: params.force,
            },
        );
    } else {
        push_action(&mut actions, Action::NotOverwriting(file));
    }
    Ok(actions)
}

/// What is done with the report.
#[derive(Debug, PartialEq, Eq)]
pub enum Next<L> {
    /// Print the hardware configuration.
    Show,
    /// Start over with root privileges.
    Elevate,
    /// Write the configuration, step by step.
    Write(L),
}

impl DeepView for Next<Vec<Action<String>>> {
    type V = Next<Seq<Action<Text>>>;

    open spec fn deep_view(&self) -> Next<Seq<Action<Text>>> {
        match self {
            Next::Show => Next::Show,
            Next::Elevate => Next::Elevate,
            Next::Write(actions) => Next::Write(actions.deep_view()),
        }
    }
}

/// The report and what is done with it.
#[derive(Debug, PartialEq, Eq)]
pub struct Generated<R, L> {
    pub report: R,
    pub next: Next<L>,
}

impl DeepView for Generated<HardwareReport, Vec<Action<String>>> {
    type V = Generated<ReportModel, Seq<Action<Text>>>;

    open spec fn deep_view(&self) -> Generated<ReportModel, Seq<Action<Text>>> {
        Generated { report: self.report.deep_view(), next: self.next.deep_view() }
    }
}

/// The mounts and the swap devices; none if they are left out.
pub open spec fn storage(params: ParamsModel, host: Host) -> Result<
    (MountModel, Seq<Text>),
    Halt<Text>,
> {
    if params.no_filesystems {
        Ok((mount::no_mounts(), Seq::empty()))
    } else {
        match mountinfo::mounts_of(params.root_dir, host) {
            Err(h) => Err(h),
            Ok(mounts) => match mount::swaps_of(host) {
                Err(p) => Err(Halt::Need(p)),
                Ok(swaps) => Ok((mounts, swaps)),
            },
        }
    }
}

/// Whether the process must start over with root privileges: it has none, it is
/// not told to go on without, it has a way to get them, it has not been through
/// this already, and it cannot write to the directory.
pub open spec fn must_elevate(params: ParamsModel, can_elevate: bool, host: Host) -> Result<
    bool,
    Probe<Text>,
> {
    if host.process.is_root || params.bypass_root_check || !can_elevate || host.process.elevated {
        Ok(false)
    } else {
        match path::can_write(params.out_dir, host) {
            Err(p) => Err(p),
            Ok(writable) => Ok(!writable),
        }
    }
}

/// What is done with the report.
pub open spec fn next(params: ParamsModel, hw: HwModel, can_elevate: bool, host: Host) -> Result<
    Next<Seq<Action<Text>>>,
    Probe<Text>,
> {
    if params.show_hardware_config {
        Ok(Next::Show)
    } else {
        match must_elevate(params, can_elevate, host) {
            Err(p) => Err(p),
            Ok(true) => Ok(Next::Elevate),
            Ok(false) => match planned(params, hw, host) {
                Err(p) => Err(p),
                Ok(actions) => Ok(Next::Write(actions)),
            },
        }
    }
}

/// The report and what is done with it.
pub open spec fn generated(args: ArgsModel, can_elevate: bool, host: Host) -> Result<
    Generated<ReportModel, Seq<Action<Text>>>,
    Halt<Text>,
> {
    match config_file::loaded(config_file::DEFAULT_PATH@, host) {
        Err(h) => Err(h),
        Ok(file) => match merged(args, file, host) {
            Err(h) => Err(h),
            Ok(params) => match scan::scanned(host) {
                Err(h) => Err(h),
                Ok(hw) => match storage(params, host) {
                    Err(h) => Err(h),
                    Ok((mounts, swaps)) => match next(params, hw, can_elevate, host) {
                        Err(p) => Err(Halt::Need(p)),
                        Ok(next) => Ok(
                            Generated {
                                report: reported(hw, mounts, swaps, params.no_filesystems),
                                next,
                            },
                        ),
                    },
                },
            },
        },
    }
}

fn must_elevate_for(params: &Params, can_elevate: bool, facts: &Facts) -> (r: Result<
    bool,
    Probe<String>,
>)
    ensures
        host::shown(r) == must_elevate(params.deep_view(), can_elevate, facts@),
{
    if facts.process.is_root || params.bypass_root_check || !can_elevate || facts.process.elevated {
        return Ok(false);
    }
    let writable = path::can_write_to(params.out_dir.as_str(), facts)?;
    Ok(!writable)
}

impl OsGenerateConfigArgs {
    /// Scans the hardware and the mounts, and plans what is printed or written.
    /// `can_elevate` says whether there is a way to get root privileges.
    ///
    /// It is an error if the configuration file, `/proc/cpuinfo`,
    /// `/proc/self/mountinfo` or a directory of devices cannot be read, if the
    /// configuration file has a malformed line, or if the root directory or the
    /// kernel that is asked for makes no sense.
    pub fn generate_config(&self, can_elevate: bool, facts: &Facts) -> (r: Result<
        Generated<HardwareReport, Vec<Action<String>>>,
        Halt<String>,
    >)
        ensures
            error::outcome(r) == generated(self.deep_view(), can_elevate, facts@),
    {
        let file = ConfigFile::load_default(facts)?;
        let params = Params::from_args_and_file(self, &file, facts)?;
        let hw = scan::scan(facts)?;
        let mounts = if params.no_filesystems {
            MountScan::default()
        } else {
            mountinfo::scan_mounts(&params.root_dir, facts)?
        };
        let swaps = if params.no_filesystems {
            let none: Vec<String> = Vec::new();
            assert(none.deep_view() =~= Seq::<Text>::empty());
            none
        } else {
            error::need(mount::scan_swap(&params.root_dir, facts))?
        };
        let report = build_report(&hw, &mounts, swaps, params.no_filesystems);
        let next = if params.show_hardware_config {
            Next::Show
        } else if error::need(must_elevate_for(&params, can_elevate, facts))? {
            Next::Elevate
        } else {
            Next::Write(error::need(write_outputs(&params, &hw, facts))?)
        };
        Ok(Generated { report, next })
    }
}

/// What the file systems and swap devices warn of; nothing if they are left out.
/// Without `/proc/self/mountinfo` the swap devices are not reached.
pub open spec fn storage_warned(params: ParamsModel, host: Host) -> Result<
    Seq<Warning<Text>>,
    Probe<Text>,
> {
    if params.no_filesystems {
        Ok(Seq::empty())
    } else {
        match mountinfo::mount_scan_warned(params.root_dir, host) {
            Err(p) => Err(p),
            Ok(mounts) => match error::required_file("/proc/self/mountinfo"@, host) {
                Ok(_) => match mount::swap_scan_warned(host) {
                    Err(p) => Err(p),
                    Ok(swaps) => Ok(mounts + swaps),
                },
                Err(_) => Ok(mounts),
            },
        }
    }
}

/// What a run warns of, in order and as far as it gets: a run whose arguments
/// make no sense scans nothing, and one whose hardware scan fails does not look
/// at the file systems.
pub open spec fn warned(args: ArgsModel, host: Host) -> Result<Seq<Warning<Text>>, Probe<Text>> {
    match config_file::loaded(config_file::DEFAULT_PATH@, host) {
        Err(Halt::Need(p)) => Err(p),
        Err(Halt::Fail(_)) => Ok(Seq::empty()),
        Ok(file) => match merged(args, file, host) {
            Err(Halt::Need(p)) => Err(p),
            Err(Halt::Fail(_)) => Ok(Seq::empty()),
            Ok(params) => match scan::scan_warned(host) {
                Err(p) => Err(p),
                Ok(hardware) => match scan::scanned(host) {
                    Err(Halt::Need(p)) => Err(p),
                    Err(Halt::Fail(_)) => Ok(hardware),
                    Ok(_) => match storage_warned(params, host) {
                        Err(p) => Err(p),
                        Ok(storage) => Ok(hardware + storage),
                    },
                },
            },
        },
    }
}

fn storage_warnings(params: &Params, facts: &Facts) -> (r: Result<
    Vec<Warning<String>>,
    Probe<String>,
>)
    ensures
        host::shown(r) == storage_warned(params.deep_view(), facts@),
{
    if params.no_filesystems {
        return Ok(warning::no_warnings());
    }
    let mut list = mountinfo::mount_scan_warnings(&params.root_dir, facts)?;
    if let Ok(_) = error::require_file("/proc/self/mountinfo", facts) {
        let swaps = mount::swap_warnings(facts)?;
        warning::push_warnings(&mut list, swaps);
    }
    Ok(list)
}

impl OsGenerateConfigArgs {
    /// What a run with these arguments warns of, in order and as far as it gets.
    pub fn warnings(&self, facts: &Facts) -> (r: Result<Vec<Warning<String>>, Probe<String>>)
        ensures
            host::shown(r) == warned(self.deep_view(), facts@),
    {
        let file = match ConfigFile::load_default(facts) {
            Ok(file) => file,
            Err(Halt::Need(p)) => return Err(p),
            Err(Halt::Fail(_)) => return Ok(warning::no_warnings()),
        };
        let params = match Params::from_args_and_file(self, &file, facts) {
            Ok(params) => params,
            Err(Halt::Need(p)) => return Err(p),
            Err(Halt::Fail(_)) => return Ok(warning::no_warnings()),
        };
        let mut list = scan::scan_warnings(facts)?;
        match scan::scan(facts) {
            Ok(_) => {},
            Err(Halt::Need(p)) => return Err(p),
            Err(Halt::Fail(_)) => return Ok(list),
        }
        let storage = storage_warnings(&params, facts)?;
        warning::push_warnings(&mut list, storage);
        Ok(list)
    }
}

/// The arguments of the process that starts over: those of this one, without
/// its name, and the flag at the end.
pub fn reexec_args<A>(argv: Vec<A>, flag: A) -> (r: Vec<A>)
    ensures
        r@ == (if argv@.len() == 0 {
            argv@
        } else {
            argv@.drop_first()
        }).push(flag),
{
    let mut r = argv;
    if r.len() > 0 {
        let ghost before = r@;
        let _name = r.remove(0);
        assert(r@ =~= before.drop_first());
    }
    r.push(flag);
    r
}

/// An argument counts more than the configuration file: if all are given, the
/// file does not matter.
pub proof fn arguments_win(args: ArgsModel, a: ConfigModel, b: ConfigModel, host: Host)
    requires
        args.dir is Some,
        args.root is Some,
        args.kernel is Some,
        args.flake,
    ensures
        merged(args, a, host) == merged(args, b, host),
{
}

/// The configuration file counts where no argument is given.
pub proof fn file_fills_in(args: ArgsModel, file: ConfigModel, host: Host)
    ensures
        merged(args, file, host) == merged(
            (ArgsModel {
                dir: given(args.dir, file.directory),
                root: given(args.root, file.root_directory),
                kernel: given(args.kernel, file.kernel),
                flake: args.flake || file.flake == Some(true),
                ..args
            }),
            config_file::no_defaults(),
            host,
        ),
{
}

/// Without force no existing `flake.nix` or `configuration.nix` is written: a
/// file that is there is only written if it is the hardware configuration.
pub proof fn existing_files_are_kept(
    params: ParamsModel,
    hw: HwModel,
    host: Host,
    actions: Seq<Action<Text>>,
    i: int,
)
    requires
        !params.force,
        planned(params, hw, host) == Ok::<Seq<Action<Text>>, Probe<Text>>(actions),
        0 <= i < actions.len(),
    ensures
        actions[i] matches Action::Write { path: file, document, .. } ==> document
            is Hardware || host.is_there(file) == Ok::<bool, Probe<Text>>(false),
{
}

/// The hardware configuration is always rewritten, and what it held is kept.
pub proof fn hardware_configuration_is_rewritten(
    params: ParamsModel,
    hw: HwModel,
    host: Host,
    actions: Seq<Action<Text>>,
)
    requires
        planned(params, hw, host) == Ok::<Seq<Action<Text>>, Probe<Text>>(actions),
    ensures
        actions.contains(
            (Action::Write {
                path: path::joined(params.out_dir, "hardware-configuration.nix"@),
                document: Document::Hardware,
                keep_backup: true,
            }),
        ),
{
    assert(actions[1] == hardware_action(params));
}

/// What is overwritten is kept in a backup: a file is written without one only
/// where none is there.
pub proof fn overwritten_files_are_backed_up(
    params: ParamsModel,
    hw: HwModel,
    host: Host,
    actions: Seq<Action<Text>>,
    i: int,
)
    requires
        planned(params, hw, host) == Ok::<Seq<Action<Text>>, Probe<Text>>(actions),
        0 <= i < actions.len(),
    ensures
        actions[i] matches Action::Write { path: file, keep_backup, .. } ==> keep_backup
            || host.is_there(file) == Ok::<bool, Probe<Text>>(false),
{
}

/// Whether the file is an entry of the directory, with a name.
pub open spec fn is_entry(dir: Text, file: Text) -> bool {
    path::is_absolute(file) == path::is_absolute(dir) && path::components(file).len() > 0
        && path::components(file).drop_last() == path::components(dir) && path::is_name(
        path::components(file).last(),
    )
}

/// Every file that is written, or kept, is an entry of the directory.
pub proof fn files_lie_in_the_directory(
    params: ParamsModel,
    hw: HwModel,
    host: Host,
    actions: Seq<Action<Text>>,
    i: int,
)
    requires
        planned(params, hw, host) == Ok::<Seq<Action<Text>>, Probe<Text>>(actions),
        0 <= i < actions.len(),
    ensures
        actions[i] matches Action::Write { path: file, .. } ==> is_entry(params.out_dir, file),
        actions[i] matches Action::NotOverwriting(file) ==> is_entry(params.out_dir, file),
{
    reveal_strlit(".");
    reveal_strlit("..");
    reveal_strlit("hardware-configuration.nix");
    reveal_strlit("flake.nix");
    reveal_strlit("configuration.nix");
    path::components_of_joined(params.out_dir, "hardware-configuration.nix"@);
    path::components_of_joined(params.out_dir, "flake.nix"@);
    path::components_of_joined(params.out_dir, "configuration.nix"@);
    match actions[i] {
        Action::Write { path: file, .. } | Action::NotOverwriting(file) => {
            assert(path::components(file).drop_last() =~= path::components(params.out_dir));
        },
        _ => {},
    }
}

/// In a dry run no directory is created.
pub proof fn dry_run_creates_no_directory(
    params: ParamsModel,
    hw: HwModel,
    host: Host,
    actions: Seq<Action<Text>>,
    i: int,
)
    requires
        params.dry,
        planned(params, hw, host) == Ok::<Seq<Action<Text>>, Probe<Text>>(actions),
        0 <= i < actions.len(),
    ensures
        !(actions[i] is CreateDir),
{
}

/// An elevated process does not start over again, nor does one that is told to
/// go on without root privileges.
pub proof fn elevation_happens_once(
    params: ParamsModel,
    hw: HwModel,
    can_elevate: bool,
    host: Host,
)
    requires
        host.process.elevated || params.bypass_root_check || host.process.is_root || !can_elevate,
    ensures
        next(params, hw, can_elevate, host) != Ok::<Next<Seq<Action<Text>>>, Probe<Text>>(
            Next::Elevate,
        ),
{
}

/// The default directory lies in the root directory of the scanned system.
pub proof fn default_directory_lies_in_the_root(args: ArgsModel, file: ConfigModel, host: Host)
    requires
        given(args.dir, file.directory) matches Some(dir) ==> path::same_components(
            dir,
            DEFAULT_DIR@,
        ),
    ensures
        merged(args, file, host) matches Ok(params) ==> params.out_dir == params.root_dir
            + "/etc/nixos"@,
{
}

/// Another directory is taken as it is, whatever the root directory.
pub proof fn explicit_directory_ignores_the_root(
    args: ArgsModel,
    root: Option<Text>,
    file: ConfigModel,
    host: Host,
)
    requires
        given(args.dir, file.directory) matches Some(dir) && !path::same_components(
            dir,
            DEFAULT_DIR@,
        ),
    ensures
        (merged(args, file, host), merged((ArgsModel { root, ..args }), file, host)) matches (
            Ok(a),
            Ok(b),
        ) ==> a.out_dir == b.out_dir,
{
}

/// If file systems are to be left out the report has none, and no swap devices.
pub proof fn file_systems_are_left_out(args: ArgsModel, can_elevate: bool, host: Host)
    requires
        args.no_filesystems,
    ensures
        generated(args, can_elevate, host) matches Ok(g) ==> g.report.file_systems.len() == 0
            && g.report.swap_devices.len() == 0 && g.report.no_filesystems,
{
}

/// If the hardware configuration is to be shown nothing is written, and no
/// privileges are needed.
pub proof fn showing_writes_nothing(args: ArgsModel, can_elevate: bool, host: Host)
    requires
        args.show_hardware_config,
    ensures
        generated(args, can_elevate, host) matches Ok(g) ==> g.next
            == Next::<Seq<Action<Text>>>::Show,
{
}

}
