//! The values from which the configuration files are rendered, and the quoting
//! of text for Nix.

use vstd::prelude::*;

use crate::text::Text;
use crate::text::chars_of;

verus! {

/// The kernel that the generated configuration selects.
#[derive(Debug, Clone, Copy, PartialEq, Eq, Structural)]
pub enum Kernel {
    Lts,
    Latest,
}

/// The boot loader that the generated configuration enables.
#[derive(Debug, Clone, Copy, PartialEq, Eq, Structural)]
pub enum BootLoader {
    SystemdBoot,
    Extlinux,
    Nspawn,
    Grub,
}

/// What the hardware configuration is rendered from.
#[derive(Debug, PartialEq, Eq)]
pub struct HardwareReport {
    pub imports: Vec<String>,
    pub initrd_available_kernel_mods: Vec<String>,
    pub initrd_kernel_modules: Vec<String>,
    pub kernel_modules: Vec<String>,
    pub extra_module_packages: Vec<String>,
    pub attrs: Vec<String>,
    pub file_systems: String,
    pub swap_devices: Vec<String>,
    pub no_filesystems: bool,
}

/// The contents of a [`HardwareReport`].
pub struct ReportModel {
    pub imports: Seq<Text>,
    pub initrd_available_kernel_mods: Seq<Text>,
    pub initrd_kernel_modules: Seq<Text>,
    pub kernel_modules: Seq<Text>,
    pub extra_module_packages: Seq<Text>,
    pub attrs: Seq<Text>,
    pub file_systems: Text,
    pub swap_devices: Seq<Text>,
    pub no_filesystems: bool,
}

impl DeepView for HardwareReport {
    type V = ReportModel;

    open spec fn deep_view(&self) -> ReportModel {
        ReportModel {
            imports: self.imports.deep_view(),
            initrd_available_kernel_mods: self.initrd_available_kernel_mods.deep_view(),
            initrd_kernel_modules: self.initrd_kernel_modules.deep_view(),
            kernel_modules: self.kernel_modules.deep_view(),
            extra_module_packages: self.extra_module_packages.deep_view(),
            attrs: self.attrs.deep_view(),
            file_systems: self.file_systems@,
            swap_devices: self.swap_devices.deep_view(),
            no_filesystems: self.no_filesystems,
        }
    }
}

/// What `flake.nix` is rendered from.
#[derive(Debug, PartialEq, Eq)]
pub struct FlakeCtx<T> {
    pub hostname: T,
}

/// What `configuration.nix` is rendered from.
#[derive(Debug, PartialEq, Eq)]
pub struct ConfigurationCtx<T> {
    pub state_version: T,
    pub boot_loader: BootLoader,
    pub kernel: Kernel,
    pub desktop_configuration: Option<T>,
}

impl DeepView for FlakeCtx<String> {
    type V = FlakeCtx<Text>;

    open spec fn deep_view(&self) -> FlakeCtx<Text> {
        FlakeCtx { hostname: self.hostname@ }
    }
}

impl DeepView for ConfigurationCtx<String> {
    type V = ConfigurationCtx<Text>;

    open spec fn deep_view(&self) -> ConfigurationCtx<Text> {
        ConfigurationCtx {
            state_version: self.state_version@,
            boot_loader: self.boot_loader,
            kernel: self.kernel,
            desktop_configuration: self.desktop_configuration.deep_view(),
        }
    }
}

/// What `s` looks like inside the double quotes of a Nix string: backslashes,
/// double quotes and the dollar signs that would start an interpolation get a
/// backslash in front.
pub open spec fn escaped(s: Text) -> Text
    decreases s.len(),
{
    if s.len() == 0 {
        Seq::empty()
    } else if needs_backslash(s) {
        seq!['\\', s[0]] + escaped(s.drop_first())
    } else {
        seq![s[0]] + escaped(s.drop_first())
    }
}

/// Whether the first character of `s` must not stand alone in a Nix string.
pub open spec fn needs_backslash(s: Text) -> bool {
    s[0] == '\\' || s[0] == '"' || (s[0] == '$' && s.len() > 1 && s[1] == '{')
}

/// The character that a backslash and `c` denote in a Nix string.
pub open spec fn denoted(c: char) -> char {
    if c == 'n' {
        '\n'
    } else if c == 'r' {
        '\r'
    } else if c == 't' {
        '\t'
    } else {
        c
    }
}

/// The text that a Nix string denotes, given what stands between its double
/// quotes. `None` if that holds an interpolation or a double quote that ends
/// the string early. Carriage returns are left out of account: Nix reads an
/// unescaped one as a line feed.
pub open spec fn nix_string(body: Text) -> Option<Text>
    decreases body.len(),
{
    if body.len() == 0 {
        Some(Seq::empty())
    } else if body[0] == '"' || body[0] == '\r' {
        None
    } else if body[0] == '\\' {
        if body.len() < 2 {
            None
        } else {
            prefixed(seq![denoted(body[1])], nix_string(body.skip(2)))
        }
    } else if body[0] == '$' && body.len() > 1 && body[1] == '{' {
        None
    } else if body[0] == '$' && body.len() > 1 && body[1] != '"' && body[1] != '\\' && body[1]
        != '\r' {
        prefixed(body.take(2), nix_string(body.skip(2)))
    } else {
        prefixed(body.take(1), nix_string(body.skip(1)))
    }
}

/// `front` before the text, if there is one.
pub open spec fn prefixed(front: Text, rest: Option<Text>) -> Option<Text> {
    match rest {
        Some(t) => Some(front + t),
        None => None,
    }
}

/// Nix reads an escaped text as the text itself: nothing in it ends the string
/// or is evaluated.
pub proof fn escaped_text_is_read_back(s: Text)
    requires
        !s.contains('\r'),
    ensures
        nix_string(escaped(s)) == Some(s),
    decreases s.len(),
{
    if s.len() > 0 {
        let body = escaped(s);
        let tail = s.drop_first();
        assert forall|i: int| 0 <= i < tail.len() implies tail[i] != '\r' by {
            assert(s.contains(s[i + 1]));
        }
        assert(s.contains(s[0]));
        escaped_text_is_read_back(tail);
        assert(s =~= seq![s[0]] + tail);
        if needs_backslash(s) {
            assert(body.skip(2) =~= escaped(tail));
        } else if s[0] == '$' && s.len() > 1 && !needs_backslash(tail) {
            let rest = s.skip(2);
            assert(tail.drop_first() =~= rest);
            assert(s.contains(s[1]));
            assert(!rest.contains('\r'));
            escaped_text_is_read_back(rest);
            assert(body =~= s.take(2) + escaped(rest));
            assert(body.take(2) =~= s.take(2));
            assert(body.skip(2) =~= escaped(rest));
            assert(s =~= s.take(2) + rest);
        } else {
            assert(body.skip(1) =~= escaped(tail));
            assert(body.take(1) =~= seq![s[0]]);
        }
    }
}

/// Only what would not stand for itself is escaped: a backslash, a double quote, and
/// a dollar sign before an opening brace. Every other character is left alone.
pub proof fn only_what_must_be_is_escaped(c: char, s: Text)
    ensures
        c == '\\' || c == '"' ==> escaped(seq![c] + s) == seq!['\\', c] + escaped(s),
        c == '$' && s.len() > 0 && s[0] == '{' ==> escaped(seq![c] + s) == seq!['\\', '$']
            + escaped(s),
        c == '$' && !(s.len() > 0 && s[0] == '{') ==> escaped(seq![c] + s) == seq!['$'] + escaped(s),
        c != '\\' && c != '"' && c != '$' ==> escaped(seq![c] + s) == seq![c] + escaped(s),
        escaped(Seq::empty()) == Seq::<char>::empty(),
{
    let t = seq![c] + s;
    assert(t.drop_first() =~= s);
    assert(t[0] == c);
    if s.len() > 0 {
        assert(t[1] == s[0]);
    }
}

/// Escapes `s` for use inside the double quotes of a Nix string.
pub fn nix_escape(s: &str) -> (r: String)
    ensures
        r@ == escaped(s@),
{
    let v = chars_of(s);
    let mut r = String::new();
    let mut i: usize = 0;
    assert(v@.skip(0) =~= v@);
    assert(r@ + escaped(v@.skip(0)) =~= escaped(s@));
    while i < v.len()
        invariant
            v@ == s@,
            i <= v@.len(),
            r@ + escaped(v@.skip(i as int)) == escaped(s@),
        decreases v@.len() - i,
    {
        let ghost rest = v@.skip(i as int);
        let ghost done = r@;
        let c = v[i];
        if c == '\\' || c == '"' || (c == '$' && i + 1 < v.len() && v[i + 1] == '{') {
            r.push('\\');
        }
        r.push(c);
        i += 1;
        assert(rest.drop_first() =~= v@.skip(i as int));
        assert(r@ + escaped(v@.skip(i as int)) =~= done + escaped(rest));
    }
    assert(r@ =~= escaped(s@));
    r
}

}
