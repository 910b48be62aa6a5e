//! The arguments of the command.

use vstd::prelude::*;

use crate::text::Text;

verus! {

/// The arguments of `generate-config`.
#[derive(Debug)]
pub struct OsGenerateConfigArgs {
    /// Where the configuration is written.
    pub dir: Option<String>,
    /// The root directory of the system that is scanned.
    pub root: Option<String>,
    /// The kernel: `lts` or `latest`.
    pub kernel: Option<String>,
    /// Whether a `flake.nix` is written too.
    pub flake: bool,
    /// Whether existing files are overwritten.
    pub force: bool,
    /// Whether nothing is written.
    pub dry: bool,
    /// Whether file systems and swap devices are left out.
    pub no_filesystems: bool,
    /// Whether the hardware configuration is printed and nothing written.
    pub show_hardware_config: bool,
    /// Whether the process goes on without root privileges.
    pub bypass_root_check: bool,
}

/// The contents of [`OsGenerateConfigArgs`].
pub struct ArgsModel {
    pub dir: Option<Text>,
    pub root: Option<Text>,
    pub kernel: Option<Text>,
    pub flake: bool,
    pub force: bool,
    pub dry: bool,
    pub no_filesystems: bool,
    pub show_hardware_config: bool,
    pub bypass_root_check: bool,
}

impl DeepView for OsGenerateConfigArgs {
    type V = ArgsModel;

    open spec fn deep_view(&self) -> ArgsModel {
        ArgsModel {
            dir: self.dir.deep_view(),
            root: self.root.deep_view(),
            kernel: self.kernel.deep_view(),
            flake: self.flake,
            force: self.force,
            dry: self.dry,
            no_filesystems: self.no_filesystems,
            show_hardware_config: self.show_hardware_config,
            bypass_root_check: self.bypass_root_check,
        }
    }
}

/// The arguments of a bare call.
pub open spec fn no_args() -> ArgsModel {
    ArgsModel {
        dir: None,
        root: None,
        kernel: None,
        flake: false,
        force: false,
        dry: false,
        no_filesystems: false,
        show_hardware_config: false,
        bypass_root_check: false,
    }
}

impl Default for OsGenerateConfigArgs {
    fn default() -> (r: Self)
        ensures
            r.deep_view() == no_args(),
    {
        OsGenerateConfigArgs {
            dir: None,
            root: None,
            kernel: None,
            flake: false,
            force: false,
            dry: false,
            no_filesystems: false,
            show_hardware_config: false,
            bypass_root_check: false,
        }
    }
}

}
