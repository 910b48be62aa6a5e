//! The mounted file systems and the swap devices, and the `fileSystems` and
//! `swapDevices` entries that describe them.

use vstd::prelude::*;

pub use crate::device::find_stable_dev_path;
pub use crate::mountinfo::mount_warnings;
pub use crate::mountinfo::scan_mounts;

use crate::bytes;
use crate::device;
use crate::host;
use crate::host::Facts;
use crate::host::FileRead;
use crate::host::Host;
use crate::host::Probe;
use crate::template;
use crate::text;
use crate::text::Text;
use crate::warning;
use crate::warning::Warning;

verus! {

/// What a scan of the mounts yields.
#[derive(Debug)]
pub struct MountScan {
    /// The rendered `fileSystems` entries.
    pub file_systems: String,
    pub swap_devices: Vec<String>,
    /// Whether a file system lies on a software RAID.
    pub use_swraid: bool,
    /// Further attributes that were found while walking the file systems, such
    /// as the LUKS devices below them. They are merged into the hardware report.
    pub extra_attrs: Vec<String>,
}

/// The contents of a [`MountScan`].
pub struct MountModel {
    pub file_systems: Text,
    pub swap_devices: Seq<Text>,
    pub use_swraid: bool,
    pub extra_attrs: Seq<Text>,
}

impl DeepView for MountScan {
    type V = MountModel;

    open spec fn deep_view(&self) -> MountModel {
        MountModel {
            file_systems: self.file_systems@,
            swap_devices: self.swap_devices.deep_view(),
            use_swraid: self.use_swraid,
            extra_attrs: self.extra_attrs.deep_view(),
        }
    }
}

/// The scan that found nothing.
pub open spec fn no_mounts() -> MountModel {
    MountModel {
        file_systems: Seq::empty(),
        swap_devices: Seq::empty(),
        use_swraid: false,
        extra_attrs: Seq::empty(),
    }
}

impl Default for MountScan {
    fn default() -> (r: Self)
        ensures
            r.deep_view() == no_mounts(),
    {
        let r = MountScan {
            file_systems: String::new(),
            swap_devices: Vec::new(),
            use_swraid: false,
            extra_attrs: Vec::new(),
        };
        assert(r.swap_devices.deep_view() =~= Seq::<Text>::empty());
        assert(r.extra_attrs.deep_view() =~= Seq::<Text>::empty());
        r
    }
}

impl Clone for MountScan {
    fn clone(&self) -> (r: Self)
        ensures
            r.deep_view() == self.deep_view(),
    {
        MountScan {
            file_systems: self.file_systems.clone(),
            swap_devices: text::copy_texts(&self.swap_devices),
            use_swraid: self.use_swraid,
            extra_attrs: text::copy_texts(&self.extra_attrs),
        }
    }
}

/// The directory that is taken for the root of the scanned system. The empty
/// path stands for the root of this host; any other is absolute and carries no
/// trailing slash.
#[derive(Debug)]
pub struct RootDir(String);

impl View for RootDir {
    type V = Text;

    closed spec fn view(&self) -> Text {
        self.0@
    }
}

/// `s` without the slashes at its end.
pub open spec fn without_slashes(s: Text) -> Text
    decreases s.len(),
{
    if s.len() > 0 && s.last() == '/' {
        without_slashes(s.drop_last())
    } else {
        s
    }
}

/// What is left carries no trailing slash, and what carries none is left alone.
pub proof fn roots_carry_no_trailing_slash(s: Text)
    ensures
        is_bare(without_slashes(s)),
        is_bare(s) ==> without_slashes(s) == s,
    decreases s.len(),
{
    if s.len() > 0 && s.last() == '/' {
        roots_carry_no_trailing_slash(s.drop_last());
    }
}

/// Whether the path carries no trailing slash.
pub open spec fn is_bare(path: Text) -> bool {
    path.len() > 0 ==> path.last() != '/'
}

/// The path as seen from `/`: an absolute path and the empty one are left alone.
pub open spec fn rooted(s: Text) -> Text {
    if s.len() == 0 || s[0] == '/' {
        s
    } else {
        "/"@ + s
    }
}

/// Whether the path is that of a root directory: empty, or absolute and without
/// a trailing slash.
pub open spec fn is_root(path: Text) -> bool {
    is_bare(path) && (path.len() > 0 ==> path[0] == '/')
}

/// Every text gives the path of a root directory, and such a path is left alone.
pub proof fn roots_are_empty_or_absolute(s: Text)
    ensures
        is_root(rooted(without_slashes(s))),
        is_root(s) ==> rooted(without_slashes(s)) == s,
{
    reveal_strlit("/");
    roots_carry_no_trailing_slash(s);
}

/// Whether the mount point is the root directory or lies in it.
pub open spec fn lies_in(root: Text, mp: Text) -> bool {
    mp == root || (root + "/"@).is_prefix_of(mp)
}

/// The mount point as seen from the root directory.
pub open spec fn seen_from(root: Text, mp: Text) -> Text {
    if mp.len() == root.len() {
        "/"@
    } else {
        mp.skip(root.len() as int)
    }
}

/// What follows the first `n` bytes of `s`.
pub open spec fn after_bytes(s: Text, n: int) -> Text {
    vstd::utf8::decode_utf8(bytes::encoded(s).subrange(n, bytes::encoded(s).len() as int))
}

/// What follows the bytes of a prefix is what follows its characters.
pub proof fn after_prefix_bytes(root: Text, mp: Text)
    requires
        root.is_prefix_of(mp),
    ensures
        bytes::boundary(mp, bytes::encoded(root).len() as int),
        after_bytes(mp, bytes::encoded(root).len() as int) == mp.skip(root.len() as int),
{
    let rest = mp.skip(root.len() as int);
    assert(mp =~= root + rest);
    bytes::encoding_concatenates(root, rest);
    bytes::prefix_ends_at_boundary(root, rest);
    let n = bytes::encoded(root).len() as int;
    assert(bytes::encoded(mp).subrange(n, bytes::encoded(mp).len() as int) =~= bytes::encoded(
        rest,
    ));
    vstd::utf8::encode_utf8_decode_utf8(rest);
}

/// What lies in the root directory has its path as a prefix.
pub proof fn what_lies_in_starts_with_root(root: Text, mp: Text)
    requires
        lies_in(root, mp),
    ensures
        root.is_prefix_of(mp),
        mp.len() == root.len() ==> mp == root,
{
    reveal_strlit("/");
    if mp == root {
        assert(root =~= mp.subrange(0, root.len() as int));
    } else {
        let p = root + "/"@;
        assert(p =~= mp.subrange(0, p.len() as int));
        assert(root =~= mp.subrange(0, root.len() as int)) by {
            assert forall|i: int| 0 <= i < root.len() implies root[i] == mp[i] by {
                assert(p[i] == mp.subrange(0, p.len() as int)[i]);
            }
        }
    }
}

/// What lies in the root directory is seen from it as an absolute path, and the
/// root directory in front of that gives the mount point back. The root
/// directory itself is seen as `/`.
pub proof fn stripping_can_be_undone(root: Text, mp: Text)
    requires
        lies_in(root, mp),
    ensures
        seen_from(root, mp).len() > 0,
        seen_from(root, mp)[0] == '/',
        mp == root ==> seen_from(root, mp) == "/"@,
        mp != root ==> root + seen_from(root, mp) == mp,
{
    reveal_strlit("/");
    what_lies_in_starts_with_root(root, mp);
    if mp != root {
        let p = root + "/"@;
        assert(p =~= mp.subrange(0, p.len() as int));
        assert(p[root.len() as int] == '/');
        assert(mp.subrange(0, p.len() as int)[root.len() as int] == '/');
        assert(mp.subrange(0, root.len() as int) =~= root);
        assert(root + mp.skip(root.len() as int) =~= mp);
    }
}

/// A directory whose name starts like that of the root directory does not lie
/// in it.
pub proof fn siblings_lie_outside(root: Text, c: char, rest: Text)
    requires
        c != '/',
    ensures
        !lies_in(root, root + seq![c] + rest),
{
    reveal_strlit("/");
    let mp = root + seq![c] + rest;
    let p = root + "/"@;
    if p.is_prefix_of(mp) {
        assert(mp.subrange(0, p.len() as int)[root.len() as int] == c);
        assert(p[root.len() as int] == '/');
    }
    assert(mp.len() > root.len());
}

/// Every absolute path lies in the root of this host.
pub proof fn everything_lies_in_the_host_root(mp: Text)
    requires
        mp.len() > 0,
        mp[0] == '/',
    ensures
        lies_in(Seq::empty(), mp),
        seen_from(Seq::empty(), mp) == mp,
{
    reveal_strlit("/");
    assert(Seq::<char>::empty() + "/"@ =~= mp.subrange(0, 1));
    assert(mp.skip(0) =~= mp);
}

impl RootDir {
    #[verifier::type_invariant]
    spec fn is_empty_or_absolute(self) -> bool {
        is_root(self.0@)
    }
}

impl Clone for RootDir {
    fn clone(&self) -> (r: Self)
        ensures
            r@ == self@,
    {
        proof {
            use_type_invariant(self);
        }
        RootDir(self.0.clone())
    }
}

impl Default for RootDir {
    fn default() -> (r: Self)
        ensures
            r@ == Seq::<char>::empty(),
    {
        RootDir(String::new())
    }
}

/// The path that a `--root` argument stands for: resolved if it leads
/// somewhere, else made absolute, else as it is.
pub open spec fn absolute_root(raw: Text, host: Host) -> Result<Text, Probe<Text>> {
    match host.resolve(raw) {
        Err(p) => Err(p),
        Ok(Some(resolved)) => Ok(resolved.path),
        Ok(None) => match host.absolute(raw) {
            Err(p) => Err(p),
            Ok(Some(path)) => Ok(path),
            Ok(None) => Ok(raw),
        },
    }
}

/// The root directory that a `--root` argument selects.
pub open spec fn selected_root(raw: Option<Text>, host: Host) -> Result<Text, Probe<Text>> {
    match raw {
        None => Ok(Seq::empty()),
        Some(raw) => match absolute_root(raw, host) {
            Ok(path) => Ok(rooted(without_slashes(path))),
            Err(p) => Err(p),
        },
    }
}

/// The path `raw` resolved if it leads somewhere, else made absolute, else as
/// it is.
pub fn absolute_path(raw: &str, facts: &Facts) -> (r: Result<String, Probe<String>>)
    ensures
        host::shown(r) == absolute_root(raw@, facts@),
{
    match facts.resolve(raw)? {
        Some(resolved) => Ok(resolved.path.clone()),
        None => match facts.absolute(raw)? {
            Some(path) => Ok(path.clone()),
            None => Ok(raw.to_owned()),
        },
    }
}

impl RootDir {
    /// The root directory that a `--root` argument selects.
    pub fn new(raw: Option<&str>, facts: &Facts) -> (r: Result<Self, Probe<String>>)
        ensures
            match r {
                Ok(root) => selected_root(raw.deep_view(), facts@) == Ok::<Text, Probe<Text>>(
                    root@,
                ),
                Err(p) => selected_root(raw.deep_view(), facts@) == Err::<Text, Probe<Text>>(
                    p.deep_view(),
                ),
            },
    {
        match raw {
            None => Ok(RootDir(String::new())),
            Some(raw) => {
                let path = absolute_path(raw, facts)?;
                Ok(RootDir::normalize(path.as_str()))
            },
        }
    }

    /// The root directory with the path `raw`, taken from `/`.
    pub fn parse_str(raw: &str) -> (r: Self)
        ensures
            r@ == rooted(without_slashes(raw@)),
    {
        if raw.is_empty() {
            return RootDir(String::new());
        }
        RootDir::normalize(raw)
    }

    fn normalize(raw: &str) -> (r: Self)
        ensures
            r@ == rooted(without_slashes(raw@)),
    {
        let v = text::chars_of(raw);
        let mut n: usize = v.len();
        assert(v@.take(n as int) =~= raw@);
        while n > 0 && v[n - 1] == '/'
            invariant
                n <= v@.len(),
                without_slashes(raw@) == without_slashes(v@.take(n as int)),
            decreases n,
        {
            assert(v@.take(n as int).drop_last() =~= v@.take(n - 1));
            n -= 1;
        }
        let s = text::string_of(&v, 0, n);
        assert(s@ =~= v@.take(n as int));
        proof {
            roots_are_empty_or_absolute(raw@);
        }
        if n == 0 || v[0] == '/' {
            RootDir(s)
        } else {
            RootDir(text::cat("/", s.as_str()))
        }
    }

    /// The path: empty for the root of this host, else absolute and without a
    /// trailing slash.
    pub fn as_str(&self) -> (r: &str)
        ensures
            r@ == self@,
            is_bare(r@) && (r@.len() > 0 ==> r@[0] == '/'),
    {
        proof {
            use_type_invariant(self);
        }
        self.0.as_str()
    }

    /// Whether `mp` is the root directory or lies in it.
    pub fn contains(&self, mp: &str) -> (r: bool)
        ensures
            r == lies_in(self@, mp@),
    {
        text::same(mp, self.0.as_str()) || text::starts_with(
            mp,
            text::cat(self.0.as_str(), "/").as_str(),
        )
    }

    /// Takes the root directory off the front of the mount point `mp`. What is
    /// left of the root directory itself is `/`.
    pub fn strip(&self, mp: &str) -> (r: String)
        requires
            bytes::boundary(mp@, bytes::encoded(self@).len() as int),
        ensures
            r@ == (if after_bytes(mp@, bytes::encoded(self@).len() as int).len() == 0 {
                "/"@
            } else {
                after_bytes(mp@, bytes::encoded(self@).len() as int)
            }),
            self@.is_prefix_of(mp@) ==> r@ == seen_from(self@, mp@),
    {
        broadcast use vstd::utf8::encode_utf8_decode_utf8;

        let n = self.0.as_str().as_bytes().len();
        let (_, rest) = mp.split_at(n);
        proof {
            assert(bytes::encoded(rest@) =~= bytes::encoded(mp@).subrange(
                n as int,
                bytes::encoded(mp@).len() as int,
            ));
            if self@.is_prefix_of(mp@) {
                after_prefix_bytes(self@, mp@);
            }
        }
        if rest.is_empty() {
            "/".to_owned()
        } else {
            rest.to_owned()
        }
    }
}

/// The first occurrence of every element, in order.
pub open spec fn distinct(s: Seq<Text>) -> Seq<Text>
    decreases s.len(),
{
    if s.len() == 0 {
        s
    } else {
        text::with_text(distinct(s.drop_last()), s.last())
    }
}

/// Dropping repetitions drops no element, adds none and leaves no two alike.
pub proof fn distinct_keeps_each_element_once(s: Seq<Text>)
    ensures
        forall|x: Text| distinct(s).contains(x) <==> s.contains(x),
        distinct(s).no_duplicates(),
    decreases s.len(),
{
    if s.len() > 0 {
        let before = distinct(s.drop_last());
        distinct_keeps_each_element_once(s.drop_last());
        assert forall|x: Text| distinct(s).contains(x) <==> s.contains(x) by {
            if s.contains(x) {
                let i = s.index_of(x);
                if i < s.len() - 1 {
                    assert(s.drop_last()[i] == x);
                    assert(s.drop_last().contains(x));
                    assert(before.contains(x));
                    let j = before.index_of(x);
                    assert(distinct(s)[j] == x);
                } else if !before.contains(x) {
                    assert(distinct(s).last() == x);
                }
            }
            if distinct(s).contains(x) {
                let j = distinct(s).index_of(x);
                if j < before.len() {
                    assert(before[j] == x);
                    assert(s.drop_last().contains(x));
                    let i = s.drop_last().index_of(x);
                    assert(s[i] == x);
                } else {
                    assert(s[s.len() - 1] == x);
                }
            }
        }
    }
}

/// The first occurrence of every string, in order.
pub fn uniq(items: Vec<String>) -> (r: Vec<String>)
    ensures
        r.deep_view() == distinct(items.deep_view()),
{
    let ghost all = items.deep_view();
    let mut seen: Vec<String> = Vec::new();
    let mut i: usize = 0;
    assert(seen.deep_view() =~= distinct(all.take(0)));
    while i < items.len()
        invariant
            i <= items@.len(),
            all == items.deep_view(),
            seen.deep_view() == distinct(all.take(i as int)),
        decreases items@.len() - i,
    {
        assert(all[i as int] == items@[i as int]@);
        assert(all.take(i + 1).drop_last() =~= all.take(i as int));
        if !text::has_text(&seen, items[i].as_str()) {
            text::push_text(&mut seen, items[i].clone());
        }
        i += 1;
    }
    assert(all.take(all.len() as int) =~= all);
    seen
}

/// Whether the mount point belongs to the running kernel and not to a file
/// system that the configuration should mention.
pub open spec fn is_pseudo(mp: Text) -> bool {
    ||| lies_in("/proc"@, mp)
    ||| lies_in("/dev"@, mp)
    ||| lies_in("/sys"@, mp)
    ||| lies_in("/run"@, mp)
    ||| mp == "/var/lib/nfs/rpc_pipefs"@
}

fn in_tree(root: &str, mp: &str) -> (r: bool)
    ensures
        r == lies_in(root@, mp@),
{
    text::same(mp, root) || text::starts_with(mp, text::cat(root, "/").as_str())
}

/// Whether the mount point belongs to the running kernel: it is one of its
/// directories, or lies in one.
pub fn is_pseudo_mount(mp: &str) -> (r: bool)
    ensures
        r == is_pseudo(mp@),
{
    in_tree("/proc", mp) || in_tree("/dev", mp) || in_tree("/sys", mp) || in_tree("/run", mp)
        || text::same(mp, "/var/lib/nfs/rpc_pipefs")
}

/// A field of `/proc/self/mountinfo` with the octal escapes of space, tab, line
/// feed and backslash undone.
pub open spec fn unescaped(s: Text) -> Text {
    text::replace(
        text::replace(
            text::replace(text::replace(s, "\\040"@, " "@), "\\011"@, "\t"@),
            "\\012"@,
            "\n"@,
        ),
        "\\134"@,
        "\\"@,
    )
}

/// The octal escape of space, tab, line feed or backslash.
pub open spec fn octal(c: char) -> Text {
    if c == ' ' {
        "\\040"@
    } else if c == '\t' {
        "\\011"@
    } else if c == '\n' {
        "\\012"@
    } else {
        "\\134"@
    }
}

/// Whether `c` is one of the last `n` among space, tab, line feed and
/// backslash.
pub open spec fn is_among_last(c: char, n: int) -> bool {
    ||| c == ' ' && n >= 4
    ||| c == '\t' && n >= 3
    ||| c == '\n' && n >= 2
    ||| c == '\\' && n >= 1
}

/// `s` with octal escapes for the last `n` among space, tab, line feed and
/// backslash.
pub open spec fn escaped_among_last(s: Text, n: int) -> Text
    decreases s.len(),
{
    if s.len() == 0 {
        s
    } else {
        (if is_among_last(s[0], n) {
            octal(s[0])
        } else {
            seq![s[0]]
        }) + escaped_among_last(s.drop_first(), n)
    }
}

/// A path as a field of `/proc/self/mountinfo` shows it: with octal escapes for
/// space, tab, line feed and backslash.
pub open spec fn mountinfo_field(path: Text) -> Text {
    escaped_among_last(path, 4)
}

proof fn replace_passes_over(c: char, rest: Text, from: Text, to: Text)
    requires
        !from.is_prefix_of(seq![c] + rest),
    ensures
        text::replace(seq![c] + rest, from, to) == seq![c] + text::replace(rest, from, to),
{
    assert((seq![c] + rest).drop_first() =~= rest);
}

proof fn replace_passes_over_other(c: char, rest: Text, from: Text, to: Text)
    requires
        from.len() > 0,
        from[0] != c,
    ensures
        text::replace(seq![c] + rest, from, to) == seq![c] + text::replace(rest, from, to),
{
    if from.is_prefix_of(seq![c] + rest) {
        assert((seq![c] + rest).subrange(0, from.len() as int)[0] == c);
    }
    replace_passes_over(c, rest, from, to);
}

/// Replacing the escape of one of the characters by the character leaves the
/// escapes of those behind it.
proof fn one_escape_undone(s: Text, c: char, n: int)
    requires
        1 <= n <= 4,
        is_among_last(c, n),
        !is_among_last(c, n - 1),
    ensures
        text::replace(escaped_among_last(s, n), octal(c), seq![c]) == escaped_among_last(s, n - 1),
    decreases s.len(),
{
    reveal_strlit("\\040");
    reveal_strlit("\\011");
    reveal_strlit("\\012");
    reveal_strlit("\\134");
    if s.len() > 0 {
        let rest = escaped_among_last(s.drop_first(), n);
        let from = octal(c);
        let to = seq![c];
        one_escape_undone(s.drop_first(), c, n);
        if s[0] == c {
            let all = from + rest;
            assert(from =~= all.subrange(0, from.len() as int));
            assert(all.skip(from.len() as int) =~= rest);
        } else if is_among_last(s[0], n) {
            let o = octal(s[0]);
            let r3 = seq![o[3]] + rest;
            let r2 = seq![o[2]] + r3;
            let r1 = seq![o[1]] + r2;
            let all = seq![o[0]] + r1;
            assert(o + rest =~= all);
            if from.is_prefix_of(all) {
                assert(all.subrange(0, 4) =~= from);
                assert(all.subrange(0, 4)[1] == o[1]);
                assert(all.subrange(0, 4)[2] == o[2]);
                assert(all.subrange(0, 4)[3] == o[3]);
            }
            replace_passes_over(o[0], r1, from, to);
            replace_passes_over_other(o[1], r2, from, to);
            replace_passes_over_other(o[2], r3, from, to);
            replace_passes_over_other(o[3], rest, from, to);
            assert(text::replace(all, from, to) =~= o + text::replace(rest, from, to));
        } else {
            replace_passes_over_other(s[0], rest, from, to);
        }
    }
}

proof fn nothing_escaped(s: Text)
    ensures
        escaped_among_last(s, 0) == s,
    decreases s.len(),
{
    if s.len() > 0 {
        nothing_escaped(s.drop_first());
        assert(escaped_among_last(s, 0) =~= s);
    }
}

/// A path is read back from the field that shows it, whatever characters it
/// holds.
pub proof fn unescaping_undoes_escaping(path: Text)
    ensures
        unescaped(mountinfo_field(path)) == path,
{
    reveal_strlit(" ");
    reveal_strlit("\t");
    reveal_strlit("\n");
    reveal_strlit("\\");
    assert(" "@ =~= seq![' ']);
    assert("\t"@ =~= seq!['\t']);
    assert("\n"@ =~= seq!['\n']);
    assert("\\"@ =~= seq!['\\']);
    one_escape_undone(path, ' ', 4);
    one_escape_undone(path, '\t', 3);
    one_escape_undone(path, '\n', 2);
    one_escape_undone(path, '\\', 1);
    nothing_escaped(path);
}

/// Undoes the octal escapes in a field of `/proc/self/mountinfo`.
pub fn mountinfo_unescape(s: &str) -> (r: String)
    ensures
        r@ == unescaped(s@),
{
    proof {
        reveal_strlit("\\040");
        reveal_strlit("\\011");
        reveal_strlit("\\012");
        reveal_strlit("\\134");
    }
    let a = text::replace_in(s, "\\040", " ");
    let b = text::replace_in(a.as_str(), "\\011", "\t");
    let c = text::replace_in(b.as_str(), "\\012", "\n");
    text::replace_in(c.as_str(), "\\134", "\\")
}

/// The option in the double quotes of a Nix string.
pub open spec fn quoted(option: Text) -> Text {
    "\""@ + template::escaped(option) + "\""@
}

/// The line that lists the mount options; none if there are no options.
pub open spec fn options_line(options: Seq<Text>) -> Text {
    if options.len() == 0 {
        Seq::empty()
    } else {
        "    options = [ "@ + text::join(options.map_values(|o: Text| quoted(o)), " "@) + " ];\n"@
    }
}

/// The line that names the stratis pool; none if there is no pool.
pub open spec fn pool_line(uuid: Option<Text>) -> Text {
    match uuid {
        Some(u) => "    stratis.poolUuid = \""@ + template::escaped(u) + "\";\n"@,
        None => Seq::empty(),
    }
}

/// The `fileSystems` entry of a mount.
pub open spec fn fs_block(
    mount_point: Text,
    device: Text,
    fs_type: Text,
    options: Seq<Text>,
    pool_uuid: Option<Text>,
) -> Text {
    "  fileSystems.\""@ + template::escaped(mount_point) + "\" = {\n"@ + "    device = \""@
        + template::escaped(device) + "\";\n"@ + "    fsType = \""@ + template::escaped(fs_type)
        + "\";\n"@ + options_line(options) + pool_line(pool_uuid) + "  };\n\n"@
}

fn options_line_of(options: &[String]) -> (r: String)
    ensures
        r@ == options_line(options.deep_view()),
{
    if options.len() == 0 {
        return String::new();
    }
    let ghost all = options.deep_view();
    let ghost wanted = all.map_values(|o: Text| quoted(o));
    let mut list: Vec<String> = Vec::new();
    let mut i: usize = 0;
    assert(list.deep_view() =~= wanted.take(0));
    while i < options.len()
        invariant
            i <= options@.len(),
            all == options.deep_view(),
            wanted == all.map_values(|o: Text| quoted(o)),
            list.deep_view() == wanted.take(i as int),
        decreases options@.len() - i,
    {
        assert(all[i as int] == options@[i as int]@);
        let mut q = "\"".to_owned();
        q.append(template::nix_escape(options[i].as_str()).as_str());
        q.append("\"");
        text::push_text(&mut list, q);
        i += 1;
        assert(wanted.take(i as int) =~= wanted.take(i - 1).push(wanted[i - 1]));
    }
    assert(wanted.take(i as int) =~= wanted);
    let mut r = "    options = [ ".to_owned();
    r.append(text::join_of(&list, " ").as_str());
    r.append(" ];\n");
    r
}

/// Appends the `fileSystems` entry of a mount.
pub fn emit_filesystem(
    out: &mut String,
    mount_point: &str,
    device: &str,
    fs_type: &str,
    extra_options: &[String],
    stratis_uuid: Option<&str>,
)
    ensures
        final(out)@ == old(out)@ + fs_block(
            mount_point@,
            device@,
            fs_type@,
            extra_options.deep_view(),
            stratis_uuid.deep_view(),
        ),
{
    let mut s = "  fileSystems.\"".to_owned();
    s.append(template::nix_escape(mount_point).as_str());
    s.append("\" = {\n");
    s.append("    device = \"");
    s.append(template::nix_escape(device).as_str());
    s.append("\";\n");
    s.append("    fsType = \"");
    s.append(template::nix_escape(fs_type).as_str());
    s.append("\";\n");
    s.append(options_line_of(extra_options).as_str());
    match stratis_uuid {
        Some(uuid) => {
            let mut line = "    stratis.poolUuid = \"".to_owned();
            line.append(template::nix_escape(uuid).as_str());
            line.append("\";\n");
            s.append(line.as_str());
        },
        None => {
            s.append("");
            proof {
                reveal_strlit("");
                assert(""@ =~= Seq::<char>::empty());
            }
        },
    }
    s.append("  };\n\n");
    out.append(s.as_str());
}

/// The `swapDevices` entry of a device.
pub open spec fn swap_entry(device: Text) -> Text {
    "{ device = \""@ + template::escaped(device) + "\"; }"@
}

/// The `swapDevices` entries after a line of `/proc/swaps`. Only partitions
/// that are there get one: compressed memory is configured elsewhere, and swap
/// files are declared by hand.
pub open spec fn swap_line(entries: Seq<Text>, line: Text, host: Host) -> Result<
    Seq<Text>,
    Probe<Text>,
> {
    let w = text::words(line);
    if w.len() < 2 {
        Ok(entries)
    } else {
        match host.is_there(w[0]) {
            Err(p) => Err(p),
            Ok(there) => if there && w[1] == "partition"@ && !"/dev/zram"@.is_prefix_of(w[0]) {
                match device::stable_path(w[0], host) {
                    Err(p) => Err(p),
                    Ok(stable) => Ok(entries.push(swap_entry(stable))),
                }
            } else {
                Ok(entries)
            },
        }
    }
}

/// Only a partition that is there and that is no compressed memory gets an
/// entry, and only one.
pub proof fn only_partitions_are_swap_devices(entries: Seq<Text>, line: Text, host: Host)
    ensures
        swap_line(entries, line, host) matches Ok(more) ==> more == entries || (
        text::words(line).len() >= 2 && text::words(line)[1] == "partition"@ && host.is_there(
            text::words(line)[0],
        ) == Ok::<bool, Probe<Text>>(true) && !"/dev/zram"@.is_prefix_of(text::words(line)[0])
            && more.drop_last() == entries && more.len() == entries.len() + 1),
{
    if let Ok(more) = swap_line(entries, line, host) {
        if more != entries {
            assert(more.drop_last() =~= entries);
        }
    }
}

/// The `swapDevices` entries after the lines.
pub open spec fn swap_lines(entries: Seq<Text>, lines: Seq<Text>, host: Host) -> Result<
    Seq<Text>,
    Probe<Text>,
>
    decreases lines.len(),
{
    if lines.len() == 0 {
        Ok(entries)
    } else {
        match swap_line(entries, lines[0], host) {
            Err(p) => Err(p),
            Ok(more) => swap_lines(more, lines.drop_first(), host),
        }
    }
}

/// The `swapDevices` entries for the text of `/proc/swaps`, whose first line
/// holds the headings.
pub open spec fn swaps(body: Text, host: Host) -> Result<Seq<Text>, Probe<Text>> {
    let lines = text::lines(body);
    if lines.len() == 0 {
        Ok(Seq::empty())
    } else {
        swap_lines(Seq::empty(), lines.drop_first(), host)
    }
}

/// The `swapDevices` entries for the text of `/proc/swaps`.
pub fn parse_swaps(body: &str, _root_dir: &RootDir, facts: &Facts) -> (r: Result<
    Vec<String>,
    Probe<String>,
>)
    ensures
        host::shown(r) == swaps(body@, facts@),
{
    let lines = text::lines_of(body);
    let ghost all = lines.deep_view();
    let mut devices: Vec<String> = Vec::new();
    assert(devices.deep_view() =~= Seq::<Text>::empty());
    if lines.len() == 0 {
        return Ok(devices);
    }
    let mut i: usize = 1;
    assert(all.skip(1) =~= all.drop_first());
    while i < lines.len()
        invariant
            1 <= i <= lines@.len(),
            all == lines.deep_view(),
            swaps(body@, facts@) == swap_lines(devices.deep_view(), all.skip(i as int), facts@),
        decreases lines@.len() - i,
    {
        assert(all.skip(i as int)[0] == lines@[i as int]@);
        assert(all.skip(i as int).drop_first() =~= all.skip(i + 1));
        let words = text::words_of(lines[i].as_str());
        if words.len() >= 2 {
            assert(words.deep_view()[0] == words@[0]@);
            assert(words.deep_view()[1] == words@[1]@);
            let filename = words[0].as_str();
            if facts.is_there(filename)? {
                if text::same(words[1].as_str(), "partition") && !text::starts_with(
                    filename,
                    "/dev/zram",
                ) {
                    let stable = device::find_stable_dev_path(filename, facts)?;
                    let mut entry = "{ device = \"".to_owned();
                    entry.append(template::nix_escape(stable.as_str()).as_str());
                    entry.append("\"; }");
                    text::push_text(&mut devices, entry);
                }
            }
        }
        i += 1;
    }
    Ok(devices)
}

/// The `swapDevices` entries of this host. If `/proc/swaps` cannot be read there
/// are none.
pub open spec fn swaps_of(host: Host) -> Result<Seq<Text>, Probe<Text>> {
    match host.file("/proc/swaps"@) {
        Err(p) => Err(p),
        Ok(FileRead::Text(body)) => swaps(body, host),
        Ok(_) => Ok(Seq::empty()),
    }
}

/// Reads `/proc/swaps` and gives the `swapDevices` entries. An unreadable file
/// is no error: it gives none.
pub fn scan_swap(root_dir: &RootDir, facts: &Facts) -> (r: Result<Vec<String>, Probe<String>>)
    ensures
        host::shown(r) == swaps_of(facts@),
{
    match facts.file("/proc/swaps")? {
        FileRead::Text(body) => parse_swaps(body.as_str(), root_dir, facts),
        _ => {
            let none: Vec<String> = Vec::new();
            assert(none.deep_view() =~= Seq::<Text>::empty());
            Ok(none)
        },
    }
}

/// What a line of `/proc/swaps` warns of: swap space that is there and is neither
/// a partition nor a file.
pub open spec fn swap_warning(line: Text, host: Host) -> Result<
    Option<Warning<Text>>,
    Probe<Text>,
> {
    let w = text::words(line);
    if w.len() < 2 {
        Ok(None)
    } else {
        match host.is_there(w[0]) {
            Err(p) => Err(p),
            Ok(there) => if there && w[1] != "partition"@ && w[1] != "file"@ {
                Ok(Some(Warning::UnsupportedSwap { swap_type: w[1], file: w[0] }))
            } else {
                Ok(None)
            },
        }
    }
}

/// The warnings after the lines.
pub open spec fn swap_lines_warned(
    found: Seq<Warning<Text>>,
    lines: Seq<Text>,
    host: Host,
) -> Result<Seq<Warning<Text>>, Probe<Text>>
    decreases lines.len(),
{
    if lines.len() == 0 {
        Ok(found)
    } else {
        match swap_warning(lines[0], host) {
            Err(p) => Err(p),
            Ok(w) => swap_lines_warned(
                warning::with_warning(found, w),
                lines.drop_first(),
                host,
            ),
        }
    }
}

/// The lines of the text of `/proc/swaps` behind the headings.
pub open spec fn swap_rows(body: Text) -> Seq<Text> {
    if text::lines(body).len() == 0 {
        Seq::empty()
    } else {
        text::lines(body).drop_first()
    }
}

/// What the text of `/proc/swaps` warns of.
pub open spec fn swaps_warned(body: Text, host: Host) -> Result<Seq<Warning<Text>>, Probe<Text>> {
    swap_lines_warned(Seq::empty(), swap_rows(body), host)
}

proof fn swap_lines_warn_of(
    found: Seq<Warning<Text>>,
    lines: Seq<Text>,
    host: Host,
    w: Warning<Text>,
)
    ensures
        swap_lines_warned(found, lines, host) matches Ok(list) ==> (list.contains(w)
            <==> found.contains(w) || exists|i: int|
            0 <= i < lines.len() && swap_warning(#[trigger] lines[i], host) == Ok::<
                Option<Warning<Text>>,
                Probe<Text>,
            >(Some(w))),
    decreases lines.len(),
{
    let raised = Ok::<Option<Warning<Text>>, Probe<Text>>(Some(w));
    if lines.len() > 0 {
        if let Ok(first) = swap_warning(lines[0], host) {
            let rest = lines.drop_first();
            swap_lines_warn_of(warning::with_warning(found, first), rest, host, w);
            warning::in_list_with_warning(found, first, w);
            if exists|i: int|
                0 <= i < rest.len() && swap_warning(#[trigger] rest[i], host) == raised {
                let i = choose|i: int|
                    0 <= i < rest.len() && swap_warning(#[trigger] rest[i], host) == raised;
                assert(lines[i + 1] == rest[i]);
            }
            if exists|i: int|
                0 <= i < lines.len() && swap_warning(#[trigger] lines[i], host) == raised {
                let i = choose|i: int|
                    0 <= i < lines.len() && swap_warning(#[trigger] lines[i], host) == raised;
                if i > 0 {
                    assert(rest[i - 1] == lines[i]);
                }
            }
        }
    }
}

/// Whether the list holds a warning exactly if one of the rows raises it.
pub open spec fn warns_of_swaps(list: Seq<Warning<Text>>, rows: Seq<Text>, host: Host) -> bool {
    forall|w: Warning<Text>| #[trigger]
        list.contains(w) <==> exists|i: int|
            0 <= i < rows.len() && swap_warning(#[trigger] rows[i], host) == Ok::<
                Option<Warning<Text>>,
                Probe<Text>,
            >(Some(w))
}

/// A warning is given exactly if one of the rows raises it.
pub proof fn swaps_warn_of_rows(body: Text, host: Host)
    ensures
        swaps_warned(body, host) matches Ok(list) ==> warns_of_swaps(list, swap_rows(body), host),
{
    if let Ok(list) = swaps_warned(body, host) {
        let rows = swap_rows(body);
        assert forall|w: Warning<Text>| true implies (#[trigger] list.contains(w) <==> exists|
            i: int,
        |
            0 <= i < rows.len() && swap_warning(#[trigger] rows[i], host) == Ok::<
                Option<Warning<Text>>,
                Probe<Text>,
            >(Some(w))) by {
            swap_lines_warn_of(Seq::empty(), rows, host, w);
        }
    }
}

/// What the text of `/proc/swaps` warns of: swap space of an unsupported type.
pub fn parse_swap_warnings(body: &str, facts: &Facts) -> (r: Result<
    Vec<Warning<String>>,
    Probe<String>,
>)
    ensures
        host::shown(r) == swaps_warned(body@, facts@),
        r matches Ok(list) ==> warns_of_swaps(list.deep_view(), swap_rows(body@), facts@),
{
    let lines = text::lines_of(body);
    let ghost all = lines.deep_view();
    let ghost rows = swap_rows(body@);
    let mut list = warning::no_warnings();
    proof {
        swaps_warn_of_rows(body@, facts@);
    }
    if lines.len() == 0 {
        return Ok(list);
    }
    let mut i: usize = 1;
    assert(all.skip(1) =~= rows);
    while i < lines.len()
        invariant
            1 <= i <= lines@.len(),
            all == lines.deep_view(),
            swaps_warned(body@, facts@) == swap_lines_warned(
                list.deep_view(),
                all.skip(i as int),
                facts@,
            ),
        decreases lines@.len() - i,
    {
        assert(all.skip(i as int)[0] == lines@[i as int]@);
        assert(all.skip(i as int).drop_first() =~= all.skip(i + 1));
        let words = text::words_of(lines[i].as_str());
        if words.len() >= 2 {
            assert(words.deep_view()[0] == words@[0]@);
            assert(words.deep_view()[1] == words@[1]@);
            if facts.is_there(words[0].as_str())? && !text::same(words[1].as_str(), "partition")
                && !text::same(words[1].as_str(), "file") {
                warning::push_warning(
                    &mut list,
                    Warning::UnsupportedSwap {
                        swap_type: words[1].clone(),
                        file: words[0].clone(),
                    },
                );
            }
        }
        i += 1;
    }
    Ok(list)
}

/// What the scan of the swap devices warns of.
pub open spec fn swap_scan_warned(host: Host) -> Result<Seq<Warning<Text>>, Probe<Text>> {
    match host.file("/proc/swaps"@) {
        Err(p) => Err(p),
        Ok(FileRead::Text(body)) => swaps_warned(body, host),
        Ok(FileRead::Missing) => Ok(seq![Warning::SwapsUnreadable(None)]),
        Ok(FileRead::Failed(reason)) => Ok(seq![Warning::SwapsUnreadable(Some(reason))]),
    }
}

/// What the scan of the swap devices warns of: `/proc/swaps` cannot be read, or
/// it lists swap space of an unsupported type.
pub fn swap_warnings(facts: &Facts) -> (r: Result<Vec<Warning<String>>, Probe<String>>)
    ensures
        host::shown(r) == swap_scan_warned(facts@),
        r matches Ok(list) ==> (facts@.file("/proc/swaps"@) matches Ok(FileRead::Text(body))
            ==> warns_of_swaps(list.deep_view(), swap_rows(body), facts@)),
{
    let mut list = warning::no_warnings();
    match facts.file("/proc/swaps")? {
        FileRead::Text(body) => {
            return parse_swap_warnings(body.as_str(), facts);
        },
        FileRead::Missing => {
            warning::push_warning(&mut list, Warning::SwapsUnreadable(None));
        },
        FileRead::Failed(reason) => {
            warning::push_warning(&mut list, Warning::SwapsUnreadable(Some(reason.clone())));
        },
    }
    Ok(list)
}

}
