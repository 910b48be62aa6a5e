//! Writing a file so that an interruption loses nothing.

use vstd::prelude::*;

use crate::bytes;
use crate::host;
use crate::host::Facts;
use crate::host::Host;
use crate::host::Probe;
use crate::path;
use crate::text;
use crate::text::Text;

verus! {

/// A step of writing a file.
#[derive(Debug, PartialEq, Eq)]
pub enum WriteStep<T> {
    /// Say that so many bytes would be written to the file.
    Report { target: T, bytes: usize },
    /// Write the text to the file, over what it held, and wait until it is on
    /// the disk.
    Create { file: T, content: T },
    /// Give the file another name, in place of what had that name.
    Rename { from: T, to: T },
}

impl DeepView for WriteStep<String> {
    type V = WriteStep<Text>;

    open spec fn deep_view(&self) -> WriteStep<Text> {
        match self {
            WriteStep::Report { target, bytes } => WriteStep::Report {
                target: target@,
                bytes: *bytes,
            },
            WriteStep::Create { file, content } => WriteStep::Create {
                file: file@,
                content: content@,
            },
            WriteStep::Rename { from, to } => WriteStep::Rename { from: from@, to: to@ },
        }
    }
}

/// The file that the text is written to first.
pub open spec fn temporary(target: Text) -> Text {
    path::beside(target, ".tmp"@)
}

/// The file that keeps what the target held.
pub open spec fn backup(target: Text) -> Text {
    path::beside(target, ".bak"@)
}

/// The steps that replace the contents of the target, given whether what it
/// holds is moved aside.
pub open spec fn replacing(target: Text, content: Text, aside: bool) -> Seq<WriteStep<Text>> {
    let create = WriteStep::Create { file: temporary(target), content };
    let replace = WriteStep::Rename { from: temporary(target), to: target };
    if aside {
        seq![create, WriteStep::Rename { from: target, to: backup(target) }, replace]
    } else {
        seq![create, replace]
    }
}

/// The steps that replace the contents of the target. What it holds is moved
/// aside if it is to be kept and there is anything.
pub open spec fn written(target: Text, content: Text, keep_backup: bool, host: Host) -> Result<
    Seq<WriteStep<Text>>,
    Probe<Text>,
> {
    if keep_backup {
        match host.is_there(target) {
            Err(p) => Err(p),
            Ok(there) => Ok(replacing(target, content, there)),
        }
    } else {
        Ok(replacing(target, content, false))
    }
}

/// The steps of writing the target, or of saying what would be written.
pub open spec fn written_or_said(
    target: Text,
    content: Text,
    keep_backup: bool,
    dry: bool,
    host: Host,
) -> Result<Seq<WriteStep<Text>>, Probe<Text>> {
    if dry {
        Ok(seq![WriteStep::Report { target, bytes: bytes::encoded(content).len() as usize }])
    } else {
        written(target, content, keep_backup, host)
    }
}

fn push_step(v: &mut Vec<WriteStep<String>>, s: WriteStep<String>)
    ensures
        final(v).deep_view() == old(v).deep_view().push(s.deep_view()),
{
    let ghost before = v.deep_view();
    v.push(s);
    assert(v.deep_view() =~= before.push(s.deep_view()));
}

/// Plans the replacement of the contents of `target`. The text goes to a
/// temporary file beside it first, so that the target is untouched until all of
/// it is on the disk.
pub fn write_atomic(target: &str, content: &str, keep_backup: bool, facts: &Facts) -> (r: Result<
    Vec<WriteStep<String>>,
    Probe<String>,
>)
    ensures
        host::shown(r) == written(target@, content@, keep_backup, facts@),
{
    let tmp = path::sibling(target, ".tmp");
    let mut steps: Vec<WriteStep<String>> = Vec::new();
    push_step(
        &mut steps,
        WriteStep::Create { file: tmp.clone(), content: content.to_owned() },
    );
    if keep_backup && facts.is_there(target)? {
        let bak = path::sibling(target, ".bak");
        push_step(&mut steps, WriteStep::Rename { from: target.to_owned(), to: bak });
    }
    push_step(&mut steps, WriteStep::Rename { from: tmp, to: target.to_owned() });
    assert(host::shown(Ok::<Vec<WriteStep<String>>, Probe<String>>(steps)) == written(
        target@,
        content@,
        keep_backup,
        facts@,
    )) by {
        assert(steps.deep_view() =~= written(target@, content@, keep_backup, facts@)->Ok_0);
    }
    Ok(steps)
}

/// Plans the writing of `target`; in a dry run only says what would be written.
pub fn write_or_dry(
    target: &str,
    content: &str,
    keep_backup: bool,
    dry: bool,
    facts: &Facts,
) -> (r: Result<Vec<WriteStep<String>>, Probe<String>>)
    ensures
        host::shown(r) == written_or_said(target@, content@, keep_backup, dry, facts@),
{
    if dry {
        let mut steps: Vec<WriteStep<String>> = Vec::new();
        push_step(
            &mut steps,
            WriteStep::Report { target: target.to_owned(), bytes: content.as_bytes().len() },
        );
        assert(steps.deep_view() =~= seq![
            WriteStep::Report { target: target@, bytes: bytes::encoded(content@).len() as usize },
        ]);
        return Ok(steps);
    }
    write_atomic(target, content, keep_backup, facts)
}

/// A path by its components, so that all ways to write it are one.
pub open spec fn place(file: Text) -> (bool, Seq<Text>) {
    (path::is_absolute(file), path::components(file))
}

/// The files, by their places, after a step.
pub open spec fn after_step(files: Map<(bool, Seq<Text>), Text>, step: WriteStep<Text>) -> Map<
    (bool, Seq<Text>),
    Text,
> {
    match step {
        WriteStep::Report { .. } => files,
        WriteStep::Create { file, content } => files.insert(place(file), content),
        WriteStep::Rename { from, to } => if files.contains_key(place(from)) {
            files.remove(place(from)).insert(place(to), files[place(from)])
        } else {
            files
        },
    }
}

/// The files after the steps.
pub open spec fn after_steps(
    files: Map<(bool, Seq<Text>), Text>,
    steps: Seq<WriteStep<Text>>,
) -> Map<(bool, Seq<Text>), Text>
    decreases steps.len(),
{
    if steps.len() == 0 {
        files
    } else {
        after_step(after_steps(files, steps.drop_last()), steps.last())
    }
}

/// Whether the path names a file: it ends in a name.
pub open spec fn names_file(target: Text) -> bool {
    path::components(target).len() > 0 && path::is_name(path::components(target).last())
}

/// A file and the one beside it whose name is longer stand in different places
/// of one directory.
pub proof fn beside_is_elsewhere(target: Text, suffix: Text)
    requires
        names_file(target),
        suffix.len() > 1,
        !suffix.contains('/'),
    ensures
        place(path::beside(target, suffix)) == (
            path::is_absolute(target),
            path::components(target).drop_last().push(path::components(target).last() + suffix),
        ),
{
    let parts = path::components(target);
    let absolute = path::is_absolute(target);
    let longer = path::suffixed(parts, suffix);
    path::components_are_well_formed(target);
    reveal_strlit(".");
    assert(path::well_formed(absolute, longer)) by {
        assert forall|i: int| 0 <= i < longer.len() implies !(#[trigger] longer[i]).contains('/')
            && path::counts(longer[i], i == 0 && !absolute) by {
            assert(!parts[i].contains('/') && path::counts(parts[i], i == 0 && !absolute));
            if i == longer.len() - 1 {
                assert(longer[i] == parts[i] + suffix);
                if longer[i].contains('/') {
                    let k = longer[i].index_of('/');
                    if k < parts[i].len() {
                        assert(parts[i][k] == '/');
                    } else {
                        assert(suffix[k - parts[i].len()] == '/');
                    }
                }
            } else {
                assert(longer[i] == parts[i]);
            }
        }
    }
    path::components_of_rendered(absolute, longer);
}

/// The target, the temporary file and the backup stand in three places.
proof fn three_places(target: Text)
    requires
        names_file(target),
    ensures
        place(temporary(target)) != place(target),
        place(backup(target)) != place(target),
        place(temporary(target)) != place(backup(target)),
{
    reveal_strlit(".tmp");
    reveal_strlit(".bak");
    beside_is_elsewhere(target, ".tmp"@);
    beside_is_elsewhere(target, ".bak"@);
    let name = path::components(target).last();
    let tmp = path::components(temporary(target)).last();
    let bak = path::components(backup(target)).last();
    assert(tmp == name + ".tmp"@);
    assert(bak == name + ".bak"@);
    assert(tmp[name.len() as int + 1] == 't');
    assert(bak[name.len() as int + 1] == 'b');
    assert(tmp.len() == name.len() + 4);
    assert(bak.len() == name.len() + 4);
}

/// Once all steps are done the target holds the text, what it held is in the
/// backup if it was moved aside, the temporary file is gone, and no other file
/// has changed.
pub proof fn writing_replaces_the_target(
    files: Map<(bool, Seq<Text>), Text>,
    target: Text,
    content: Text,
    aside: bool,
)
    requires
        names_file(target),
        aside ==> files.contains_key(place(target)),
    ensures
        ({
            let end = after_steps(files, replacing(target, content, aside));
            &&& end.contains_key(place(target))
            &&& end[place(target)] == content
            &&& !end.contains_key(place(temporary(target)))
            &&& aside ==> end.contains_key(place(backup(target))) && end[place(backup(target))]
                == files[place(target)]
            &&& forall|p: (bool, Seq<Text>)|
                p != place(target) && p != place(temporary(target)) && !(aside && p == place(
                    backup(target),
                )) ==> (#[trigger] end.contains_key(p) <==> files.contains_key(p)) && end[p]
                    == files[p]
        }),
{
    three_places(target);
    prefixes(files, target, content, aside);
}

/// The files after every number of steps, spelled out.
proof fn prefixes(
    files: Map<(bool, Seq<Text>), Text>,
    target: Text,
    content: Text,
    aside: bool,
)
    ensures
        ({
            let steps = replacing(target, content, aside);
            let one = after_step(files, steps[0]);
            let two = after_step(one, steps[1]);
            &&& after_steps(files, steps.take(0)) == files
            &&& after_steps(files, steps.take(1)) == one
            &&& after_steps(files, steps.take(2)) == two
            &&& aside ==> after_steps(files, steps.take(3)) == after_step(two, steps[2])
            &&& steps.take(steps.len() as int) == steps
        }),
{
    let steps = replacing(target, content, aside);
    let one = after_step(files, steps[0]);
    let two = after_step(one, steps[1]);
    assert(after_steps(files, steps.take(0)) == files);
    assert(steps.take(1).drop_last() =~= steps.take(0));
    assert(after_steps(files, steps.take(1)) == one);
    assert(steps.take(2).drop_last() =~= steps.take(1));
    assert(after_steps(files, steps.take(2)) == two);
    assert(aside ==> steps.take(3).drop_last() =~= steps.take(2));
    assert(steps.take(steps.len() as int) =~= steps);
}

/// Wherever the writing is interrupted, the target holds what it held or the
/// whole text; or else the backup holds what the target held, and the temporary
/// file the whole text.
pub proof fn interruption_loses_nothing(
    files: Map<(bool, Seq<Text>), Text>,
    target: Text,
    content: Text,
    aside: bool,
    done: int,
)
    requires
        names_file(target),
        aside ==> files.contains_key(place(target)),
        0 <= done <= replacing(target, content, aside).len(),
    ensures
        ({
            let now = after_steps(files, replacing(target, content, aside).take(done));
            ||| now.contains_key(place(target)) == files.contains_key(place(target)) && now[place(
                target,
            )] == files[place(target)]
            ||| now.contains_key(place(target)) && now[place(target)] == content
            ||| aside && now.contains_key(place(backup(target))) && now[place(backup(target))]
                == files[place(target)] && now.contains_key(place(temporary(target)))
                && now[place(temporary(target))] == content
        }),
{
    three_places(target);
    prefixes(files, target, content, aside);
}

/// Until the whole text is on the disk the target is as it was.
pub proof fn target_is_untouched_at_first(
    files: Map<(bool, Seq<Text>), Text>,
    target: Text,
    content: Text,
    aside: bool,
)
    requires
        names_file(target),
    ensures
        replacing(target, content, aside)[0] == (WriteStep::Create {
            file: temporary(target),
            content,
        }),
        after_steps(files, replacing(target, content, aside).take(1)).contains_key(place(target))
            == files.contains_key(place(target)),
        after_steps(files, replacing(target, content, aside).take(1))[place(target)]
            == files[place(target)],
{
    three_places(target);
    prefixes(files, target, content, aside);
}

/// In a dry run no file changes.
pub proof fn dry_run_changes_nothing(
    files: Map<(bool, Seq<Text>), Text>,
    target: Text,
    content: Text,
    keep_backup: bool,
    host: Host,
)
    ensures
        written_or_said(target, content, keep_backup, true, host) matches Ok(steps)
            && after_steps(files, steps) == files,
{
    let steps = written_or_said(target, content, keep_backup, true, host)->Ok_0;
    assert(steps.drop_last() =~= Seq::<WriteStep<Text>>::empty());
    assert(after_steps(files, steps.drop_last()) == files);
}

}
