//! What the configuration file promises, line by line and as a whole.

use vstd::prelude::*;

use crate::config_file;
use crate::config_file::ConfigModel;
use crate::config_file::ParseState;
use crate::error::Error;
use crate::error::Halt;
use crate::host::FileRead;
use crate::host::Host;
use crate::host::Probe;
use crate::text;
use crate::text::Text;

verus! {

/// Whether the text can be a key on the left of an equal sign.
spec fn is_key(key: Text) -> bool {
    &&& config_file::is_trim(key)
    &&& config_file::is_plain(key)
    &&& !key.contains('=')
    &&& key[0] != '['
}

proof fn keys_are_keys()
    ensures
        is_key("Directory"@),
        is_key("RootDirectory"@),
        is_key("Kernel"@),
        is_key("Flake"@),
        "Directory"@ != "RootDirectory"@,
        "Directory"@ != "Kernel"@,
        "Directory"@ != "Flake"@,
        "RootDirectory"@ != "Kernel"@,
        "RootDirectory"@ != "Flake"@,
        "Kernel"@ != "Flake"@,
{
    reveal_strlit("Directory");
    reveal_strlit("RootDirectory");
    reveal_strlit("Kernel");
    reveal_strlit("Flake");
    assert("Directory"@[0] == 'D' && "RootDirectory"@[0] == 'R' && "Kernel"@[0] == 'K' && "Flake"@[0]
        == 'F');
}

/// Each key sets its own field to the value behind the equal sign, and no other.
/// The value of `Flake` counts as a yes if it is `1`, `true`, `yes` or `on`, in
/// whatever case, and as a no otherwise.
pub proof fn keys_set_their_fields(st: ParseState, value: Text)
    requires
        st.in_defaults,
        config_file::is_trim(value),
        config_file::is_plain(value),
    ensures
        config_file::parse_line(st, "Directory"@ + " = "@ + value) == Some(
            ParseState { cfg: ConfigModel { directory: Some(value), ..st.cfg }, in_defaults: true },
        ),
        config_file::parse_line(st, "RootDirectory"@ + " = "@ + value) == Some(
            ParseState {
                cfg: ConfigModel { root_directory: Some(value), ..st.cfg },
                in_defaults: true,
            },
        ),
        config_file::parse_line(st, "Kernel"@ + " = "@ + value) == Some(
            ParseState { cfg: ConfigModel { kernel: Some(value), ..st.cfg }, in_defaults: true },
        ),
        config_file::parse_line(st, "Flake"@ + " = "@ + value) == Some(
            ParseState {
                cfg: ConfigModel {
                    flake: Some(
                        same_but_for_case(value, "1"@) || same_but_for_case(value, "true"@)
                            || same_but_for_case(value, "yes"@) || same_but_for_case(
                            value,
                            "on"@,
                        ),
                    ),
                    ..st.cfg
                },
                in_defaults: true,
            },
        ),
{
    keys_are_keys();
    config_file::plain_setting_is_read(st, "Directory"@, value);
    config_file::plain_setting_is_read(st, "RootDirectory"@, value);
    config_file::plain_setting_is_read(st, "Kernel"@, value);
    config_file::plain_setting_is_read(st, "Flake"@, value);
    trimming_keeps(value);
    lower_case_words(value);
}

/// Whether the first text, with its capital letters made small, is the second.
pub open spec fn same_but_for_case(a: Text, small: Text) -> bool {
    a.len() == small.len() && forall|i: int|
        0 <= i < a.len() ==> #[trigger] small[i] == (if 'A' <= a[i] <= 'Z' {
            (a[i] as int - 'A' as int + 'a' as int) as char
        } else {
            a[i]
        })
}

proof fn lowered(a: Text, small: Text)
    ensures
        same_but_for_case(a, small) <==> text::lowercase(a) == small,
{
    let low = text::lowercase(a);
    assert forall|i: int| 0 <= i < a.len() implies low[i] == (if 'A' <= a[i] <= 'Z' {
        (a[i] as int - 'A' as int + 'a' as int) as char
    } else {
        a[i]
    }) by {
        assert(low[i] == text::lower(a[i]));
    }
    if same_but_for_case(a, small) {
        assert(low =~= small);
    }
}

proof fn lower_case_words(value: Text)
    ensures
        (text::lowercase(value) == "1"@ || text::lowercase(value) == "true"@ || text::lowercase(value)
            == "yes"@ || text::lowercase(value) == "on"@) <==> (same_but_for_case(value, "1"@)
            || same_but_for_case(value, "true"@) || same_but_for_case(value, "yes"@)
            || same_but_for_case(value, "on"@)),
{
    lowered(value, "1"@);
    lowered(value, "true"@);
    lowered(value, "yes"@);
    lowered(value, "on"@);
}

proof fn trimming_keeps(s: Text)
    requires
        config_file::is_trim(s),
    ensures
        text::trim(s) == s,
{
    assert(text::trim_front(s, text::Trimmed::Space) == s);
    assert(text::trim_back(s, text::Trimmed::Space) == s);
}

proof fn no_quotes(s: Text)
    requires
        !s.contains('"'),
    ensures
        config_file::quotes(s) == 0,
    decreases s.len(),
{
    if s.len() > 0 {
        assert(s.contains(s[s.len() - 1]));
        let less = s.drop_last();
        assert(!less.contains('"')) by {
            if less.contains('"') {
                let i = choose|i: int| 0 <= i < less.len() && less[i] == '"';
                assert(s[i] == '"');
            }
        }
        no_quotes(less);
    }
}

proof fn comment_is_found(line: Text, k: int, i: int)
    requires
        0 <= i <= k <= line.len(),
        config_file::is_plain(line.take(k)),
        k < line.len() ==> line[k] == ';' || line[k] == '#',
    ensures
        config_file::comment_from(line, i) == k,
    decreases k - i,
{
    let front = line.take(k);
    if i < k {
        assert(front[i] == line[i]);
        assert(front.contains(front[i]));
        comment_is_found(line, k, i + 1);
    } else if k < line.len() {
        no_quotes(front);
    }
}

/// Whatever stands behind a semicolon or a hash does not count, unless double
/// quotes stand before it.
pub proof fn comment_starts_at_its_character(front: Text, c: char, rest: Text)
    requires
        config_file::is_plain(front),
        c == ';' || c == '#',
    ensures
        config_file::uncommented(front + seq![c] + rest) == front,
        config_file::uncommented(front) == front,
{
    let line = front + seq![c] + rest;
    assert(line.take(front.len() as int) =~= front);
    assert(front.take(front.len() as int) =~= front);
    comment_is_found(line, front.len() as int, 0);
    comment_is_found(front, front.len() as int, 0);
}

/// A value says yes exactly if it is `1`, `true`, `yes` or `on`, in whatever case and
/// with whatever white space around it.
pub proof fn four_words_say_yes(value: Text)
    ensures
        config_file::truthy(value) <==> {
            let word = text::trim(value);
            ||| same_but_for_case(word, "1"@)
            ||| same_but_for_case(word, "true"@)
            ||| same_but_for_case(word, "yes"@)
            ||| same_but_for_case(word, "on"@)
        },
{
    lower_case_words(text::trim(value));
}

/// Whether a comment starts at the position: there is a semicolon or a hash, and the
/// double quotes before it are even in number.
pub open spec fn starts_comment(line: Text, i: int) -> bool {
    (line[i] == ';' || line[i] == '#') && line.take(i).filter(|c: char| c == '"').len() % 2 == 0
}

proof fn quotes_are_counted(s: Text)
    ensures
        config_file::quotes(s) == s.filter(|c: char| c == '"').len(),
    decreases s.len(),
{
    reveal(Seq::filter);
    if s.len() > 0 {
        quotes_are_counted(s.drop_last());
    }
}

/// What is left of a line ends where the first comment starts, or with the line.
pub proof fn line_ends_at_its_first_comment(line: Text, k: int)
    requires
        0 <= k <= line.len(),
        k < line.len() ==> starts_comment(line, k),
        forall|i: int| 0 <= i < k ==> !#[trigger] starts_comment(line, i),
    ensures
        config_file::uncommented(line) == line.take(k),
{
    comment_is_reached(line, k, 0);
}

proof fn comment_is_reached(line: Text, k: int, i: int)
    requires
        0 <= i <= k <= line.len(),
        k < line.len() ==> starts_comment(line, k),
        forall|j: int| 0 <= j < k ==> !#[trigger] starts_comment(line, j),
    ensures
        config_file::comment_from(line, i) == k,
    decreases k - i,
{
    quotes_are_counted(line.take(i));
    if i < k {
        assert(!starts_comment(line, i));
        comment_is_reached(line, k, i + 1);
    }
}

/// A name in square brackets opens a section: that of the defaults if it is
/// `defaults`, in whatever case and with whatever white space around it, else
/// another. Nothing is set.
pub proof fn sections_are_opened(st: ParseState, name: Text)
    requires
        config_file::is_plain(name),
    ensures
        config_file::parse_line(st, "["@ + name + "]"@) == Some(
            ParseState {
                cfg: st.cfg,
                in_defaults: same_but_for_case(text::trim(name), "defaults"@),
            },
        ),
{
    reveal_strlit("[");
    reveal_strlit("]");
    let line = "["@ + name + "]"@;
    assert(config_file::is_plain(line)) by {
        assert forall|c: char| c == '"' || c == ';' || c == '#' implies !line.contains(c) by {
            if line.contains(c) {
                let i = choose|i: int| 0 <= i < line.len() && line[i] == c;
                assert(0 < i < line.len() - 1);
                assert(name[i - 1] == c);
            }
        }
    }
    comment_starts_at_its_character(line, ';', Seq::empty());
    trimming_keeps(line);
    assert(line.subrange(1, line.len() - 1) =~= name);
    lowered(text::trim(name), "defaults"@);
}

/// Among the defaults, a line that neither opens a section nor holds an equal sign
/// is malformed.
pub proof fn lines_without_equal_sign_are_malformed(st: ParseState, line: Text)
    requires
        st.in_defaults,
        config_file::is_trim(line),
        config_file::is_plain(line),
        !line.contains('='),
        !(line.len() >= 2 && line[0] == '[' && line.last() == ']'),
    ensures
        config_file::parse_line(st, line) is None,
{
    comment_starts_at_its_character(line, ';', Seq::empty());
    trimming_keeps(line);
    nowhere(line, '=');
}

proof fn nowhere(s: Text, c: char)
    requires
        !s.contains(c),
    ensures
        text::position(s, c) == s.len(),
    decreases s.len(),
{
    if s.len() > 0 {
        assert(s.contains(s[0]));
        let rest = s.drop_first();
        assert(!rest.contains(c)) by {
            if rest.contains(c) {
                let i = choose|i: int| 0 <= i < rest.len() && rest[i] == c;
                assert(s[i + 1] == c);
            }
        }
        nowhere(rest, c);
    }
}

/// Whether these are the states after each of the lines, from the first on: in the
/// first nothing is set and no section is open.
pub open spec fn are_states(states: Seq<ParseState>, lines: Seq<Text>) -> bool {
    &&& states.len() == lines.len() + 1
    &&& states[0].cfg == (ConfigModel {
        directory: None,
        root_directory: None,
        kernel: None,
        flake: None,
    })
    &&& !states[0].in_defaults
    &&& forall|i: int|
        0 <= i < lines.len() ==> config_file::parse_line(states[i], #[trigger] lines[i]) == Some(
            states[i + 1],
        )
}

spec fn leads(states: Seq<ParseState>, st: ParseState, lines: Seq<Text>) -> bool {
    &&& states.len() == lines.len() + 1
    &&& states[0] == st
    &&& forall|i: int|
        0 <= i < lines.len() ==> config_file::parse_line(states[i], #[trigger] lines[i]) == Some(
            states[i + 1],
        )
}

proof fn prepended(st: ParseState, lines: Seq<Text>, more: Seq<ParseState>, k: int) -> (states: Seq<
    ParseState,
>)
    requires
        0 < k <= lines.len(),
        config_file::parse_line(st, lines[0]) == Some(more[0]),
        leads(more, more[0], lines.drop_first().take(k - 1)),
    ensures
        leads(states, st, lines.take(k)),
        states.last() == more.last(),
{
    let rest = lines.drop_first().take(k - 1);
    let states = seq![st] + more;
    let taken = lines.take(k);
    assert forall|i: int| 0 <= i < taken.len() implies config_file::parse_line(
        states[i],
        #[trigger] taken[i],
    ) == Some(states[i + 1]) by {
        if i > 0 {
            assert(states[i] == more[i - 1]);
            assert(rest[i - 1] == taken[i]);
            assert(states[i + 1] == more[i]);
        }
    }
    states
}

proof fn lines_lead_on(st: ParseState, lines: Seq<Text>, n: nat) -> (states: Seq<ParseState>)
    ensures
        match config_file::parse_lines(st, lines, n) {
            Ok(cfg) => leads(states, st, lines) && states.last().cfg == cfg,
            Err((m, bad)) => n <= m < n + lines.len() && leads(states, st, lines.take(m - n))
                && lines[m - n] == bad && config_file::parse_line(states.last(), bad) is None,
        },
    decreases lines.len(),
{
    if lines.len() == 0 {
        seq![st]
    } else {
        match config_file::parse_line(st, lines[0]) {
            None => {
                assert(lines.take(0) =~= Seq::<Text>::empty());
                seq![st]
            },
            Some(next) => {
                let rest = lines.drop_first();
                let more = lines_lead_on(next, rest, n + 1);
                match config_file::parse_lines(st, lines, n) {
                    Ok(_) => {
                        assert(rest.take(lines.len() - 1) =~= rest);
                        assert(lines.take(lines.len() as int) =~= lines);
                        prepended(st, lines, more, lines.len() as int)
                    },
                    Err((m, bad)) => {
                        assert(rest[m - n - 1] == lines[m - n]);
                        prepended(st, lines, more, m - n)
                    },
                }
            },
        }
    }
}

/// A file that is read gives what its last line leaves set, all lines having been
/// read in order.
pub proof fn file_is_read_line_by_line(path: Text, host: Host, body: Text, cfg: ConfigModel)
    requires
        host.file(path) == Ok::<FileRead<Text>, Probe<Text>>(FileRead::Text(body)),
        config_file::loaded(path, host) == Ok::<ConfigModel, Halt<Text>>(cfg),
    ensures
        exists|states: Seq<ParseState>| #[trigger]
            are_states(states, text::lines(body)) && states.last().cfg == cfg,
{
    let st = ParseState { cfg: config_file::no_defaults(), in_defaults: false };
    let states = lines_lead_on(st, text::lines(body), 1);
    assert(are_states(states, text::lines(body)));
}

/// The first malformed line is reported with its number, counted from one, and as
/// it stands in the file.
pub proof fn first_malformed_line_is_reported(body: Text, n: nat, bad: Text)
    requires
        config_file::parsed(body) == Err::<ConfigModel, (nat, Text)>((n, bad)),
    ensures
        1 <= n <= text::lines(body).len(),
        bad == text::lines(body)[n - 1],
        exists|states: Seq<ParseState>| #[trigger]
            are_states(states, text::lines(body).take(n - 1)) && config_file::parse_line(
                states.last(),
                bad,
            ) is None,
{
    let st = ParseState { cfg: config_file::no_defaults(), in_defaults: false };
    let states = lines_lead_on(st, text::lines(body), 1);
    assert(are_states(states, text::lines(body).take(n - 1)));
}

/// A missing file sets nothing. One that cannot be read, or that holds a malformed
/// line, is reported with its path.
pub proof fn missing_file_sets_nothing(path: Text, host: Host)
    ensures
        host.file(path) matches Ok(FileRead::Missing) ==> config_file::loaded(path, host) == Ok::<
            ConfigModel,
            Halt<Text>,
        >(ConfigModel { directory: None, root_directory: None, kernel: None, flake: None }),
        host.file(path) matches Ok(FileRead::Failed(why)) ==> config_file::loaded(path, host)
            == Err::<ConfigModel, Halt<Text>>(
            Halt::Fail(Error::UnreadableFile { path, reason: Some(why) }),
        ),
        host.file(path) matches Ok(FileRead::Text(body)) ==> (config_file::parsed(body) matches Err(
            (n, bad),
        ) ==> config_file::loaded(path, host) == Err::<ConfigModel, Halt<Text>>(
            Halt::Fail(Error::Syntax { path, line: n as usize, text: bad }),
        )),
{
}

}
