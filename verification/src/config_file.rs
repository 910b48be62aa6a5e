//! The defaults in `/etc/nixos-generate-config.conf`.
//!
//! The file is made of sections. Of the section `[Defaults]` the keys
//! `Directory`, `RootDirectory`, `Kernel` and `Flake` count; other sections and
//! keys are skipped. Values are trimmed, comments (`;` or `#`) and blank lines
//! are ignored.

use vstd::prelude::*;

use crate::error;
use crate::error::Error;
use crate::error::Halt;
use crate::host::Facts;
use crate::host::FileRead;
use crate::host::Host;
use crate::text;
use crate::text::Text;

verus! {

/// Where the defaults are kept.
pub const DEFAULT_PATH: &'static str = "/etc/nixos-generate-config.conf";

/// The defaults that a configuration file sets.
#[derive(Debug, PartialEq, Eq)]
pub struct ConfigFile {
    pub directory: Option<String>,
    pub root_directory: Option<String>,
    pub kernel: Option<String>,
    pub flake: Option<bool>,
}

/// The contents of a [`ConfigFile`].
pub struct ConfigModel {
    pub directory: Option<Text>,
    pub root_directory: Option<Text>,
    pub kernel: Option<Text>,
    pub flake: Option<bool>,
}

impl DeepView for ConfigFile {
    type V = ConfigModel;

    open spec fn deep_view(&self) -> ConfigModel {
        ConfigModel {
            directory: self.directory.deep_view(),
            root_directory: self.root_directory.deep_view(),
            kernel: self.kernel.deep_view(),
            flake: self.flake.deep_view(),
        }
    }
}

/// The configuration that sets nothing.
pub open spec fn no_defaults() -> ConfigModel {
    ConfigModel { directory: None, root_directory: None, kernel: None, flake: None }
}

impl Default for ConfigFile {
    fn default() -> (r: Self)
        ensures
            r.deep_view() == no_defaults(),
    {
        ConfigFile { directory: None, root_directory: None, kernel: None, flake: None }
    }
}

fn copy_option(o: &Option<String>) -> (r: Option<String>)
    ensures
        r.deep_view() == o.deep_view(),
{
    match o {
        Some(s) => Some(s.clone()),
        None => None,
    }
}

impl Clone for ConfigFile {
    fn clone(&self) -> (r: Self)
        ensures
            r.deep_view() == self.deep_view(),
    {
        ConfigFile {
            directory: copy_option(&self.directory),
            root_directory: copy_option(&self.root_directory),
            kernel: copy_option(&self.kernel),
            flake: self.flake,
        }
    }
}

/// A line that is not of the form `key = value`.
#[derive(Debug, PartialEq, Eq)]
pub struct SyntaxError {
    /// The number of the line, counted from one.
    pub line: usize,
    /// The line as it stands in the file.
    pub text: String,
}

/// The number of double quotes in `s`.
pub open spec fn quotes(s: Text) -> nat
    decreases s.len(),
{
    if s.len() == 0 {
        0
    } else {
        quotes(s.drop_last()) + if s.last() == '"' {
            1nat
        } else {
            0
        }
    }
}

/// Whether a comment starts at position `i`: there is a comment character that
/// stands between no pair of double quotes.
pub open spec fn comment_at(line: Text, i: int) -> bool {
    (line[i] == ';' || line[i] == '#') && quotes(line.take(i)) % 2 == 0
}

/// The first position from `i` on where a comment starts, or the length of the
/// line.
pub open spec fn comment_from(line: Text, i: int) -> int
    decreases line.len() - i,
{
    if i >= line.len() {
        line.len() as int
    } else if comment_at(line, i) {
        i
    } else {
        comment_from(line, i + 1)
    }
}

/// The line without its comment.
pub open spec fn uncommented(line: Text) -> Text {
    line.take(comment_from(line, 0))
}

/// The line without its comment. A comment starts at the first `;` or `#`
/// outside of double quotes.
pub fn strip_comment(line: &str) -> (r: &str)
    ensures
        r@ == uncommented(line@),
{
    let v = text::chars_of(line);
    let mut in_quotes = false;
    let mut i: usize = 0;
    assert(quotes(v@.take(0)) == 0);
    while i < v.len()
        invariant
            v@ == line@,
            i <= v@.len(),
            in_quotes == (quotes(v@.take(i as int)) % 2 != 0),
            comment_from(line@, 0) == comment_from(line@, i as int),
        decreases v@.len() - i,
    {
        let c = v[i];
        assert(v@.take(i + 1).drop_last() =~= v@.take(i as int));
        if c == '"' {
            in_quotes = !in_quotes;
        } else if (c == ';' || c == '#') && !in_quotes {
            return line.substring_char(0, i);
        }
        i += 1;
    }
    assert(line@.take(line@.len() as int) =~= line@);
    line
}

/// What the value of the key `Flake` says: `1`, `true`, `yes` and `on`, in
/// upper or lower case, say yes; everything else says no.
pub open spec fn truthy(v: Text) -> bool {
    let w = text::lowercase(text::trim(v));
    w == "1"@ || w == "true"@ || w == "yes"@ || w == "on"@
}

/// Whether the value of the key `Flake` says yes.
pub fn parse_bool(v: &str) -> (r: bool)
    ensures
        r == truthy(v@),
{
    let w = text::lowercase_of(text::trim_of(v).as_str());
    let w = w.as_str();
    text::same(w, "1") || text::same(w, "true") || text::same(w, "yes") || text::same(w, "on")
}

/// The name of the section that the line opens.
pub open spec fn section(line: Text) -> Option<Text> {
    if line.len() >= 2 && line[0] == '[' && line.last() == ']' {
        Some(text::trim(line.subrange(1, line.len() - 1)))
    } else {
        None
    }
}

fn section_of(line: &str) -> (r: Option<String>)
    ensures
        r.deep_view() == section(line@),
{
    let v = text::chars_of(line);
    let n = v.len();
    if n >= 2 && v[0] == '[' && v[n - 1] == ']' {
        Some(text::trim_of(text::string_of(&v, 1, n - 1).as_str()))
    } else {
        None
    }
}

/// The configuration with the key set to the value, if the key counts.
pub open spec fn with_key(cfg: ConfigModel, key: Text, value: Text) -> ConfigModel {
    if key == "Directory"@ {
        ConfigModel { directory: Some(value), ..cfg }
    } else if key == "RootDirectory"@ {
        ConfigModel { root_directory: Some(value), ..cfg }
    } else if key == "Kernel"@ {
        ConfigModel { kernel: Some(value), ..cfg }
    } else if key == "Flake"@ {
        ConfigModel { flake: Some(truthy(value)), ..cfg }
    } else {
        cfg
    }
}

fn set_key(cfg: &mut ConfigFile, key: &str, value: String)
    ensures
        final(cfg).deep_view() == with_key(old(cfg).deep_view(), key@, value@),
{
    if text::same(key, "Directory") {
        cfg.directory = Some(value);
    } else if text::same(key, "RootDirectory") {
        cfg.root_directory = Some(value);
    } else if text::same(key, "Kernel") {
        cfg.kernel = Some(value);
    } else if text::same(key, "Flake") {
        cfg.flake = Some(parse_bool(value.as_str()));
    }
}

/// What is known after the lines read so far.
pub struct ParseState {
    pub cfg: ConfigModel,
    /// Whether the last section opened is `[Defaults]`.
    pub in_defaults: bool,
}

/// The state after a line; `None` if the line is malformed.
pub open spec fn parse_line(st: ParseState, raw: Text) -> Option<ParseState> {
    let line = text::trim(uncommented(raw));
    if line.len() == 0 {
        Some(st)
    } else {
        match section(line) {
            Some(name) => Some(
                ParseState { in_defaults: text::lowercase(name) == "defaults"@, ..st },
            ),
            None => if !st.in_defaults {
                Some(st)
            } else {
                match text::split_once(line, '=') {
                    None => None,
                    Some((key, value)) => Some(
                        ParseState {
                            cfg: with_key(
                                st.cfg,
                                text::trim(key),
                                text::unquoted(text::trim(value)),
                            ),
                            ..st
                        },
                    ),
                }
            },
        }
    }
}

proof fn comment_from_is_first(line: Text, i: int)
    requires
        0 <= i <= line.len(),
    ensures
        i <= comment_from(line, i) <= line.len(),
        forall|j: int| i <= j < comment_from(line, i) ==> !#[trigger] comment_at(line, j),
    decreases line.len() - i,
{
    if i < line.len() && !comment_at(line, i) {
        comment_from_is_first(line, i + 1);
    }
}

proof fn no_comment_before(line: Text, k: int, i: int)
    requires
        0 <= i <= k <= line.len(),
        forall|j: int| 0 <= j < k ==> !#[trigger] comment_at(line, j),
    ensures
        comment_from(line.take(k), i) == k,
    decreases k - i,
{
    if i < k {
        assert(line.take(k).take(i) =~= line.take(i));
        assert(!comment_at(line, i));
        no_comment_before(line, k, i + 1);
    }
}

/// A comment does not count: the line means the same without it.
pub proof fn comments_do_not_count(st: ParseState, line: Text)
    ensures
        uncommented(uncommented(line)) == uncommented(line),
        parse_line(st, uncommented(line)) == parse_line(st, line),
{
    let k = comment_from(line, 0);
    comment_from_is_first(line, 0);
    no_comment_before(line, k, 0);
    assert(line.take(k).take(k) =~= line.take(k));
}

/// A line with nothing but white space or a comment changes nothing.
pub proof fn blank_lines_are_ignored(st: ParseState, line: Text)
    requires
        text::trim(uncommented(line)).len() == 0,
    ensures
        parse_line(st, line) == Some(st),
{
}

/// Outside of the section `[Defaults]` no line sets a key and none is
/// malformed.
pub proof fn other_sections_are_skipped(st: ParseState, line: Text)
    requires
        !st.in_defaults,
    ensures
        parse_line(st, line) matches Some(next) && next.cfg == st.cfg,
{
}

/// Keys without a meaning are skipped.
pub proof fn other_keys_are_skipped(cfg: ConfigModel, key: Text, value: Text)
    requires
        key != "Directory"@,
        key != "RootDirectory"@,
        key != "Kernel"@,
        key != "Flake"@,
    ensures
        with_key(cfg, key, value) == cfg,
{
}

/// Of two settings of one key the later counts.
pub proof fn later_settings_count(cfg: ConfigModel, key: Text, earlier: Text, later: Text)
    ensures
        with_key(with_key(cfg, key, earlier), key, later) == with_key(cfg, key, later),
{
}

/// Whether the text holds none of the characters that a line gives a meaning:
/// double quotes and comment characters.
pub open spec fn is_plain(s: Text) -> bool {
    !s.contains('"') && !s.contains(';') && !s.contains('#')
}

/// Whether the text is there and has no white space around it.
pub open spec fn is_trim(s: Text) -> bool {
    s.len() > 0 && !text::is_space(s[0]) && !text::is_space(s.last())
}

proof fn trimming_keeps(s: Text)
    requires
        is_trim(s),
    ensures
        text::trim(s) == s,
        text::trim(s.push(' ')) == s,
        text::trim(seq![' '] + s) == s,
{
    let behind = s.push(' ');
    assert(text::trim_front(behind, text::Trimmed::Space) == behind);
    assert(behind.drop_last() =~= s);
    let before = seq![' '] + s;
    assert(before.drop_first() =~= s);
    assert(text::trim_front(s, text::Trimmed::Space) == s);
    assert(text::trim_front(before, text::Trimmed::Space) == s);
}

proof fn quotes_add_up(a: Text, b: Text)
    ensures
        quotes(a + b) == quotes(a) + quotes(b),
    decreases b.len(),
{
    if b.len() == 0 {
        assert(a + b =~= a);
    } else {
        assert((a + b).drop_last() =~= a + b.drop_last());
        quotes_add_up(a, b.drop_last());
    }
}

proof fn no_quotes(s: Text)
    requires
        !s.contains('"'),
    ensures
        quotes(s) == 0,
    decreases s.len(),
{
    if s.len() > 0 {
        assert(s.contains(s[s.len() - 1]));
        assert forall|i: int| 0 <= i < s.drop_last().len() implies s.drop_last()[i] != '"' by {
            assert(s.contains(s[i]));
        }
        no_quotes(s.drop_last());
    }
}

proof fn position_behind(a: Text, c: char, b: Text)
    requires
        !a.contains(c),
    ensures
        text::position(a + seq![c] + b, c) == a.len(),
    decreases a.len(),
{
    let all = a + seq![c] + b;
    if a.len() > 0 {
        assert(a.contains(a[0]));
        let rest = a.drop_first();
        assert forall|i: int| 0 <= i < rest.len() implies rest[i] != c by {
            assert(a.contains(a[i + 1]));
        }
        position_behind(rest, c, b);
        assert(all.drop_first() =~= rest + seq![c] + b);
    }
}

/// A line in which no comment starts sets the key to the value without its
/// quotes.
proof fn setting_is_read(st: ParseState, key: Text, value: Text)
    requires
        st.in_defaults,
        is_trim(key),
        !key.contains('='),
        key[0] != '[',
        is_trim(value),
        uncommented(key + " = "@ + value) == key + " = "@ + value,
    ensures
        parse_line(st, key + " = "@ + value) == Some(
            ParseState { cfg: with_key(st.cfg, key, text::unquoted(value)), ..st },
        ),
{
    reveal_strlit(" = ");
    let line = key + " = "@ + value;
    let before = key.push(' ');
    assert(line =~= before + seq!['='] + (seq![' '] + value));
    assert(!before.contains('=')) by {
        if before.contains('=') {
            let i = before.index_of('=');
            assert(key[i] == '=');
        }
    }
    position_behind(before, '=', seq![' '] + value);
    assert(line.take(before.len() as int) =~= before);
    assert(line.skip(before.len() as int + 1) =~= seq![' '] + value);
    assert(line[0] == key[0]);
    assert(line.last() == value.last());
    trimming_keeps(line);
    trimming_keeps(key);
    trimming_keeps(value);
}

/// A key is set to the text behind the equal sign.
pub proof fn plain_setting_is_read(st: ParseState, key: Text, value: Text)
    requires
        st.in_defaults,
        is_trim(key),
        is_plain(key),
        !key.contains('='),
        key[0] != '[',
        is_trim(value),
        is_plain(value),
    ensures
        parse_line(st, key + " = "@ + value) == Some(
            ParseState { cfg: with_key(st.cfg, key, value), ..st },
        ),
{
    reveal_strlit(" = ");
    let line = key + " = "@ + value;
    assert forall|j: int| 0 <= j < line.len() implies !#[trigger] comment_at(line, j) by {
        if j < key.len() {
            assert(key.contains(key[j]));
        } else if j >= key.len() + 3 {
            assert(value.contains(value[j - key.len() - 3]));
        }
    }
    no_comment_before(line, line.len() as int, 0);
    assert(line.take(line.len() as int) =~= line);
    setting_is_read(st, key, value);
    assert(value.contains(value[0]));
    assert(value.contains(value[value.len() - 1]));
}

/// A key is set to the text between double quotes as it is, with white space
/// and comment characters.
pub proof fn quoted_setting_is_read(st: ParseState, key: Text, value: Text)
    requires
        st.in_defaults,
        is_trim(key),
        is_plain(key),
        !key.contains('='),
        key[0] != '[',
        !value.contains('"'),
    ensures
        parse_line(st, key + " = "@ + (seq!['"'] + value + seq!['"'])) == Some(
            ParseState { cfg: with_key(st.cfg, key, value), ..st },
        ),
{
    reveal_strlit(" = ");
    let quoted = seq!['"'] + value + seq!['"'];
    let line = key + " = "@ + quoted;
    no_quotes(key);
    assert forall|j: int| 0 <= j < line.len() implies !#[trigger] comment_at(line, j) by {
        if j < key.len() {
            assert(key.contains(key[j]));
        } else if key.len() + 3 < j < line.len() - 1 {
            let k = j - key.len() - 4;
            let part = value.take(k);
            assert forall|i: int| 0 <= i < part.len() implies part[i] != '"' by {
                assert(value.contains(value[i]));
            }
            no_quotes(part);
            no_quotes(key + " = "@);
            assert(line.take(j) =~= (key + " = "@) + seq!['"'] + part);
            quotes_add_up((key + " = "@) + seq!['"'], part);
            assert(((key + " = "@) + seq!['"']).drop_last() =~= key + " = "@);
        }
    }
    no_comment_before(line, line.len() as int, 0);
    assert(line.take(line.len() as int) =~= line);
    setting_is_read(st, key, quoted);
    let inner = value + seq!['"'];
    assert(quoted.drop_first() =~= inner);
    if value.len() == 0 {
        assert(inner.drop_first() =~= Seq::<char>::empty());
        assert(text::trim_front(inner.drop_first(), text::Trimmed::Quote) =~= Seq::<char>::empty());
        assert(text::trim_front(inner, text::Trimmed::Quote) =~= Seq::<char>::empty());
        assert(text::unquoted(quoted) =~= value);
    } else {
        assert(value.contains(value[0]));
        assert(value.contains(value[value.len() - 1]));
        assert(text::trim_front(inner, text::Trimmed::Quote) == inner);
        assert(inner.drop_last() =~= value);
        assert(text::trim_back(value, text::Trimmed::Quote) == value);
        assert(text::unquoted(quoted) =~= value);
    }
}

/// The configuration after the lines, of which the first is line `n`; or the
/// number of the first malformed line and its text.
pub open spec fn parse_lines(st: ParseState, lines: Seq<Text>, n: nat) -> Result<
    ConfigModel,
    (nat, Text),
>
    decreases lines.len(),
{
    if lines.len() == 0 {
        Ok(st.cfg)
    } else {
        match parse_line(st, lines[0]) {
            None => Err((n, lines[0])),
            Some(next) => parse_lines(next, lines.drop_first(), n + 1),
        }
    }
}

/// The configuration that a text describes, or its first malformed line.
pub open spec fn parsed(body: Text) -> Result<ConfigModel, (nat, Text)> {
    parse_lines(ParseState { cfg: no_defaults(), in_defaults: false }, text::lines(body), 1)
}

/// Parses the text of a configuration file.
pub fn parse(body: &str) -> (r: Result<ConfigFile, SyntaxError>)
    ensures
        match r {
            Ok(cfg) => parsed(body@) == Ok::<ConfigModel, (nat, Text)>(cfg.deep_view()),
            Err(e) => parsed(body@) == Err::<ConfigModel, (nat, Text)>((e.line as nat, e.text@)),
        },
{
    let lines = text::lines_of(body);
    let ghost all = lines.deep_view();
    let mut cfg = ConfigFile::default();
    let mut in_defaults = false;
    let mut i: usize = 0;
    assert(all.skip(0) =~= all);
    while i < lines.len()
        invariant
            i <= lines@.len(),
            all == lines.deep_view(),
            parsed(body@) == parse_lines(
                ParseState { cfg: cfg.deep_view(), in_defaults },
                all.skip(i as int),
                (i + 1) as nat,
            ),
        decreases lines@.len() - i,
    {
        assert(all.skip(i as int)[0] == lines@[i as int]@);
        assert(all.skip(i as int).drop_first() =~= all.skip(i + 1));
        let raw = lines[i].as_str();
        let line = text::trim_of(strip_comment(raw));
        if !line.as_str().is_empty() {
            match section_of(line.as_str()) {
                Some(name) => {
                    in_defaults = text::same(text::lowercase_of(name.as_str()).as_str(), "defaults");
                },
                None => {
                    if in_defaults {
                        match text::split_once_on(line.as_str(), '=') {
                            None => {
                                return Err(SyntaxError { line: i + 1, text: raw.to_owned() });
                            },
                            Some((key, value)) => {
                                let key = text::trim_of(key.as_str());
                                let value = text::unquoted_of(
                                    text::trim_of(value.as_str()).as_str(),
                                );
                                set_key(&mut cfg, key.as_str(), value);
                            },
                        }
                    }
                },
            }
        }
        i += 1;
    }
    Ok(cfg)
}

/// The configuration in the file; a missing file sets nothing.
pub open spec fn loaded(path: Text, host: Host) -> Result<ConfigModel, Halt<Text>> {
    match host.file(path) {
        Err(p) => Err(Halt::Need(p)),
        Ok(FileRead::Missing) => Ok(no_defaults()),
        Ok(FileRead::Failed(reason)) => Err(
            Halt::Fail(Error::UnreadableFile { path, reason: Some(reason) }),
        ),
        Ok(FileRead::Text(body)) => match parsed(body) {
            Ok(cfg) => Ok(cfg),
            Err((line, text)) => Err(
                Halt::Fail(Error::Syntax { path, line: line as usize, text }),
            ),
        },
    }
}

impl ConfigFile {
    /// Loads the configuration at the default path. A missing file sets
    /// nothing.
    pub fn load_default(facts: &Facts) -> (r: Result<Self, Halt<String>>)
        ensures
            error::outcome(r) == loaded(DEFAULT_PATH@, facts@),
    {
        ConfigFile::load(DEFAULT_PATH, facts)
    }

    /// Loads the configuration at `path`. A missing file sets nothing; a file
    /// that cannot be read or that has a malformed line is an error.
    pub fn load(path: &str, facts: &Facts) -> (r: Result<Self, Halt<String>>)
        ensures
            error::outcome(r) == loaded(path@, facts@),
    {
        match error::need(facts.file(path))? {
            FileRead::Missing => Ok(ConfigFile::default()),
            FileRead::Failed(reason) => Err(
                Halt::Fail(
                    Error::UnreadableFile { path: path.to_owned(), reason: Some(reason.clone()) },
                ),
            ),
            FileRead::Text(body) => match parse(body.as_str()) {
                Ok(cfg) => Ok(cfg),
                Err(e) => Err(
                    Halt::Fail(
                        Error::Syntax { path: path.to_owned(), line: e.line, text: e.text },
                    ),
                ),
            },
        }
    }
}

}
