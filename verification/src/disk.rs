//! What carrying out a plan does to the disk.

use vstd::prelude::*;

use crate::args::ArgsModel;
use crate::atomic;
use crate::config_file;
use crate::error::Halt;
use crate::generate;
use crate::generate::Action;
use crate::generate::Document;
use crate::generate::Generated;
use crate::generate::Next;
use crate::generate::ParamsModel;
use crate::host::Host;
use crate::host::Probe;
use crate::path;
use crate::scan;
use crate::scan::HwModel;
use crate::template::ReportModel;
use crate::text::Text;

verus! {

/// The directories and the files, by their places.
pub struct Disk {
    pub dirs: Set<(bool, Seq<Text>)>,
    pub files: Map<(bool, Seq<Text>), Text>,
}

/// The places of the directory and of those above it.
pub open spec fn down_to(dir: Text) -> Set<(bool, Seq<Text>)> {
    Set::new(
        |p: (bool, Seq<Text>)|
            p.0 == path::is_absolute(dir) && p.1.is_prefix_of(path::components(dir)),
    )
}

/// The disk after an action. `render` gives the text of a document, `dry` says
/// whether this is a dry run.
pub open spec fn after_action(
    disk: Disk,
    action: Action<Text>,
    dry: bool,
    render: spec_fn(Document<Text>) -> Text,
    host: Host,
) -> Result<Disk, Probe<Text>> {
    match action {
        Action::CreateDir(dir) => Ok(Disk { dirs: disk.dirs.union(down_to(dir)), ..disk }),
        Action::WouldCreateDir(_) => Ok(disk),
        Action::NotOverwriting(_) => Ok(disk),
        Action::Write { path: file, document, keep_backup } => match atomic::written_or_said(
            file,
            render(document),
            keep_backup,
            dry,
            host,
        ) {
            Err(p) => Err(p),
            Ok(steps) => Ok(Disk { files: atomic::after_steps(disk.files, steps), ..disk }),
        },
    }
}

/// The disk after the actions of a plan.
pub open spec fn after_actions(
    disk: Disk,
    actions: Seq<Action<Text>>,
    dry: bool,
    render: spec_fn(Document<Text>) -> Text,
    host: Host,
) -> Result<Disk, Probe<Text>>
    decreases actions.len(),
{
    if actions.len() == 0 {
        Ok(disk)
    } else {
        match after_actions(disk, actions.drop_last(), dry, render, host) {
            Err(p) => Err(p),
            Ok(before) => after_action(before, actions.last(), dry, render, host),
        }
    }
}

proof fn dry_actions_change_nothing(
    disk: Disk,
    actions: Seq<Action<Text>>,
    render: spec_fn(Document<Text>) -> Text,
    host: Host,
)
    requires
        forall|i: int| 0 <= i < actions.len() ==> !(#[trigger] actions[i] is CreateDir),
    ensures
        after_actions(disk, actions, true, render, host) == Ok::<Disk, Probe<Text>>(disk),
    decreases actions.len(),
{
    if actions.len() > 0 {
        let front = actions.drop_last();
        assert forall|i: int| 0 <= i < front.len() implies !(#[trigger] front[i] is CreateDir) by {
            assert(front[i] == actions[i]);
        }
        dry_actions_change_nothing(disk, front, render, host);
        assert(!(actions[actions.len() - 1] is CreateDir));
        if let Action::Write { path: file, document, keep_backup } = actions.last() {
            atomic::dry_run_changes_nothing(disk.files, file, render(document), keep_backup, host);
        }
    }
}

/// A plan for a dry run changes nothing on the disk when it is carried out: no
/// directory and no file, whatever the documents hold and whatever more is known
/// of the machine by then.
pub proof fn dry_plan_leaves_the_disk_alone(
    params: ParamsModel,
    hw: HwModel,
    now: Host,
    actions: Seq<Action<Text>>,
    disk: Disk,
    render: spec_fn(Document<Text>) -> Text,
    later: Host,
)
    requires
        params.dry,
        generate::planned(params, hw, now) == Ok::<Seq<Action<Text>>, Probe<Text>>(actions),
    ensures
        after_actions(disk, actions, params.dry, render, later) == Ok::<Disk, Probe<Text>>(disk),
{
    assert forall|i: int| 0 <= i < actions.len() implies !(#[trigger] actions[i] is CreateDir) by {
        generate::dry_run_creates_no_directory(params, hw, now, actions, i);
    }
    dry_actions_change_nothing(disk, actions, render, later);
}

/// A whole run with `dry` set leaves the disk alone.
pub proof fn dry_run_leaves_the_disk_alone(
    args: ArgsModel,
    can_elevate: bool,
    now: Host,
    report: ReportModel,
    actions: Seq<Action<Text>>,
    disk: Disk,
    render: spec_fn(Document<Text>) -> Text,
    later: Host,
)
    requires
        args.dry,
        generate::generated(args, can_elevate, now) == Ok::<
            Generated<ReportModel, Seq<Action<Text>>>,
            Halt<Text>,
        >(Generated { report, next: Next::Write(actions) }),
    ensures
        after_actions(disk, actions, args.dry, render, later) == Ok::<Disk, Probe<Text>>(disk),
{
    let file = config_file::loaded(config_file::DEFAULT_PATH@, now)->Ok_0;
    let params = generate::merged(args, file, now)->Ok_0;
    let hw = scan::scanned(now)->Ok_0;
    dry_plan_leaves_the_disk_alone(params, hw, now, actions, disk, render, later);
}

/// Whether the two disks hold the same at the place.
pub open spec fn same_at(
    a: Map<(bool, Seq<Text>), Text>,
    b: Map<(bool, Seq<Text>), Text>,
    p: (bool, Seq<Text>),
) -> bool {
    a.contains_key(p) == b.contains_key(p) && a[p] == b[p]
}

/// Whether writing the target may change what is at the place: it is that of the
/// target, of its temporary file or of its backup.
pub open spec fn concerns(target: Text, p: (bool, Seq<Text>)) -> bool {
    p == atomic::place(target) || p == atomic::place(atomic::temporary(target)) || p
        == atomic::place(atomic::backup(target))
}

/// The file that the action writes or keeps.
pub open spec fn target(action: Action<Text>) -> Option<Text> {
    match action {
        Action::Write { path: file, .. } => Some(file),
        Action::NotOverwriting(file) => Some(file),
        _ => None,
    }
}

/// Whether no two of the actions get in each other's way.
pub open spec fn apart(actions: Seq<Action<Text>>) -> bool {
    forall|i: int, j: int|
        0 <= i < actions.len() && 0 <= j < actions.len() && i != j && target(
            #[trigger] actions[i],
        ) is Some && target(#[trigger] actions[j]) is Some ==> !concerns(
            target(actions[i])->0,
            atomic::place(target(actions[j])->0),
        )
}

/// Whether every target names a file.
pub open spec fn all_named(actions: Seq<Action<Text>>) -> bool {
    forall|i: int|
        0 <= i < actions.len() && target(#[trigger] actions[i]) is Some ==> atomic::names_file(
            target(actions[i])->0,
        )
}

/// Whether what is known of the presence of the targets is true of the files.
pub open spec fn agrees(
    actions: Seq<Action<Text>>,
    files: Map<(bool, Seq<Text>), Text>,
    host: Host,
) -> bool {
    forall|i: int|
        0 <= i < actions.len() && target(#[trigger] actions[i]) is Some ==> (host.is_there(
            target(actions[i])->0,
        ) matches Ok(there) ==> there == files.contains_key(
            atomic::place(target(actions[i])->0),
        ))
}

/// Whether none of the actions writes what is at the place.
pub open spec fn untouched(actions: Seq<Action<Text>>, p: (bool, Seq<Text>)) -> bool {
    forall|i: int|
        0 <= i < actions.len() ==> (#[trigger] actions[i] matches Action::Write {
            path: file,
            ..
        } ==> !concerns(file, p))
}

proof fn write_is_done(
    files: Map<(bool, Seq<Text>), Text>,
    file: Text,
    content: Text,
    keep_backup: bool,
    host: Host,
)
    requires
        atomic::names_file(file),
        host.is_there(file) matches Ok(there) ==> there == files.contains_key(atomic::place(file)),
    ensures
        atomic::written_or_said(file, content, keep_backup, false, host) matches Ok(steps) ==> ({
            let end = atomic::after_steps(files, steps);
            &&& end.contains_key(atomic::place(file))
            &&& end[atomic::place(file)] == content
            &&& forall|p: (bool, Seq<Text>)| !concerns(file, p) ==> #[trigger] same_at(files, end, p)
        }),
{
    if let Ok(steps) = atomic::written_or_said(file, content, keep_backup, false, host) {
        let aside = keep_backup && host.is_there(file)->Ok_0;
        let end = atomic::after_steps(files, steps);
        atomic::writing_replaces_the_target(files, file, content, aside);
        assert(steps == atomic::replacing(file, content, aside));
        assert forall|p: (bool, Seq<Text>)| !concerns(file, p) implies #[trigger] same_at(
            files,
            end,
            p,
        ) by {
            assert(end.contains_key(p) <==> files.contains_key(p));
        }
    }
}

proof fn actions_are_done(
    disk: Disk,
    actions: Seq<Action<Text>>,
    render: spec_fn(Document<Text>) -> Text,
    host: Host,
)
    requires
        apart(actions),
        all_named(actions),
        agrees(actions, disk.files, host),
    ensures
        after_actions(disk, actions, false, render, host) matches Ok(end) ==> {
            &&& forall|i: int|
                0 <= i < actions.len() ==> (#[trigger] actions[i] matches Action::Write {
                    path: file,
                    document,
                    ..
                } ==> end.files.contains_key(atomic::place(file)) && end.files[atomic::place(file)]
                    == render(document))
            &&& forall|p: (bool, Seq<Text>)|
                untouched(actions, p) ==> #[trigger] same_at(disk.files, end.files, p)
        },
    decreases actions.len(),
{
    if actions.len() > 0 {
        let front = actions.drop_last();
        let last = actions.last();
        let n = actions.len() - 1;
        assert(actions[n] == last);
        assert forall|i: int| 0 <= i < front.len() implies front[i] == #[trigger] actions[i] by {}
        assert(apart(front)) by {
            assert forall|i: int, j: int|
                0 <= i < front.len() && 0 <= j < front.len() && i != j && target(
                    #[trigger] front[i],
                ) is Some && target(#[trigger] front[j]) is Some implies !concerns(
                target(front[i])->0,
                atomic::place(target(front[j])->0),
            ) by {
                assert(front[i] == actions[i] && front[j] == actions[j]);
            }
        }
        assert(agrees(front, disk.files, host)) by {
            assert forall|i: int|
                0 <= i < front.len() && target(
                    #[trigger] front[i],
                ) is Some implies (host.is_there(target(front[i])->0) matches Ok(there) ==> there
                == disk.files.contains_key(atomic::place(target(front[i])->0))) by {
                assert(front[i] == actions[i]);
            }
        }
        assert(all_named(front)) by {
            assert forall|i: int|
                0 <= i < front.len() && target(
                    #[trigger] front[i],
                ) is Some implies atomic::names_file(target(front[i])->0) by {
                assert(front[i] == actions[i]);
            }
        }
        actions_are_done(disk, front, render, host);
        if let (Ok(before), Ok(end)) = (
            after_actions(disk, front, false, render, host),
            after_actions(disk, actions, false, render, host),
        ) {
            if let Action::Write { path: file, document, keep_backup } = last {
                let here = atomic::place(file);
                assert(untouched(front, here)) by {
                    assert forall|i: int| 0 <= i < front.len() implies (
                    #[trigger] front[i] matches Action::Write { path: other, .. } ==> !concerns(
                        other,
                        here,
                    )) by {
                        assert(front[i] == actions[i]);
                        assert(target(actions[n]) is Some);
                    }
                }
                assert(same_at(disk.files, before.files, here));
                assert(target(actions[n]) == Some(file));
                write_is_done(before.files, file, render(document), keep_backup, host);
                assert forall|i: int| 0 <= i < actions.len() implies (
                #[trigger] actions[i] matches Action::Write { path: other, document: d, .. }
                    ==> end.files.contains_key(atomic::place(other))
                    && end.files[atomic::place(other)] == render(d)) by {
                    if i < n {
                        assert(front[i] == actions[i]);
                        if let Action::Write { path: other, .. } = actions[i] {
                            assert(target(actions[i]) is Some && target(actions[n]) is Some);
                            assert(!concerns(file, atomic::place(other)));
                            assert(same_at(before.files, end.files, atomic::place(other)));
                        }
                    }
                }
            } else {
                assert(end.files == before.files);
                assert forall|i: int| 0 <= i < actions.len() implies (
                #[trigger] actions[i] matches Action::Write { path: other, document: d, .. }
                    ==> end.files.contains_key(atomic::place(other))
                    && end.files[atomic::place(other)] == render(d)) by {
                    if i < n {
                        assert(front[i] == actions[i]);
                    }
                }
            }
            assert forall|p: (bool, Seq<Text>)| untouched(actions, p) implies #[trigger] same_at(
                disk.files,
                end.files,
                p,
            ) by {
                assert(untouched(front, p)) by {
                    assert forall|i: int| 0 <= i < front.len() implies (
                    #[trigger] front[i] matches Action::Write { path: other, .. } ==> !concerns(
                        other,
                        p,
                    )) by {
                        assert(front[i] == actions[i]);
                    }
                }
                assert(same_at(disk.files, before.files, p));
                if let Action::Write { path: file, .. } = last {
                    assert(!concerns(file, p));
                    assert(same_at(before.files, end.files, p));
                }
            }
        }
    }
}

/// Whether the text is the name of a file of the configuration.
pub open spec fn is_nix_name(name: Text) -> bool {
    name.len() > 4 && name.last() == 'x' && !name.contains('/')
}

proof fn entries_are_apart(dir: Text, a: Text, b: Text)
    requires
        is_nix_name(a),
        is_nix_name(b),
        a != b,
    ensures
        atomic::names_file(path::joined(dir, a)),
        !concerns(path::joined(dir, a), atomic::place(path::joined(dir, b))),
{
    reveal_strlit(".");
    reveal_strlit("..");
    reveal_strlit(".tmp");
    reveal_strlit(".bak");
    path::components_of_joined(dir, a);
    path::components_of_joined(dir, b);
    let file = path::joined(dir, a);
    let parts = path::components(dir);
    assert(path::components(file).last() == a);
    assert(path::components(file).drop_last() =~= parts);
    atomic::beside_is_elsewhere(file, ".tmp"@);
    atomic::beside_is_elsewhere(file, ".bak"@);
    assert(path::components(atomic::temporary(file)).last() == a + ".tmp"@);
    assert(path::components(atomic::backup(file)).last() == a + ".bak"@);
    assert(path::components(path::joined(dir, b)).last() == b);
    assert((a + ".tmp"@).last() == 'p');
    assert((a + ".bak"@).last() == 'k');
}

proof fn plan_is_apart(
    params: ParamsModel,
    hw: HwModel,
    now: Host,
    actions: Seq<Action<Text>>,
)
    requires
        generate::planned(params, hw, now) == Ok::<Seq<Action<Text>>, Probe<Text>>(actions),
    ensures
        apart(actions),
        all_named(actions),
{
    let h = "hardware-configuration.nix"@;
    let f = "flake.nix"@;
    let c = "configuration.nix"@;
    reveal_strlit("hardware-configuration.nix");
    reveal_strlit("flake.nix");
    reveal_strlit("configuration.nix");
    assert(is_nix_name(h) && is_nix_name(f) && is_nix_name(c));
    assert(h.len() == 26 && f.len() == 9 && c.len() == 17);
    let dir = params.out_dir;
    entries_are_apart(dir, h, f);
    entries_are_apart(dir, h, c);
    entries_are_apart(dir, f, h);
    entries_are_apart(dir, f, c);
    entries_are_apart(dir, c, h);
    entries_are_apart(dir, c, f);
    assert(target(actions[0]) is None);
    assert(target(actions[1]) == Some(path::joined(dir, h)));
    if params.flake {
        assert(actions.len() == 4);
        assert(target(actions[2]) == Some(path::joined(dir, f)));
        assert(target(actions[3]) == Some(path::joined(dir, c)));
    } else {
        assert(actions.len() == 3);
        assert(target(actions[2]) == Some(path::joined(dir, c)));
    }
}

/// A plan does what it says when it is carried out: every document that is to be
/// written is in its file, a file that is to be kept is as it was, and the
/// directory is there. What is known of the presence of the files must be true.
pub proof fn plan_is_carried_out(
    params: ParamsModel,
    hw: HwModel,
    now: Host,
    actions: Seq<Action<Text>>,
    disk: Disk,
    render: spec_fn(Document<Text>) -> Text,
    later: Host,
    end: Disk,
    i: int,
)
    requires
        !params.dry,
        generate::planned(params, hw, now) == Ok::<Seq<Action<Text>>, Probe<Text>>(actions),
        agrees(actions, disk.files, later),
        after_actions(disk, actions, params.dry, render, later) == Ok::<Disk, Probe<Text>>(end),
        0 <= i < actions.len(),
    ensures
        match actions[i] {
            Action::CreateDir(dir) => down_to(dir).subset_of(end.dirs),
            Action::WouldCreateDir(_) => false,
            Action::Write { path: file, document, .. } => end.files.contains_key(
                atomic::place(file),
            ) && end.files[atomic::place(file)] == render(document),
            Action::NotOverwriting(file) => same_at(disk.files, end.files, atomic::place(file)),
        },
{
    plan_is_apart(params, hw, now, actions);
    actions_are_done(disk, actions, render, later);
    match actions[i] {
        Action::NotOverwriting(file) => {
            let p = atomic::place(file);
            assert(target(actions[i]) == Some(file));
            assert(untouched(actions, p)) by {
                assert forall|j: int| 0 <= j < actions.len() implies (
                #[trigger] actions[j] matches Action::Write { path: other, .. } ==> !concerns(
                    other,
                    p,
                )) by {
                    if actions[j] is Write {
                        assert(target(actions[j]) is Some);
                    }
                }
            }
            assert(same_at(disk.files, end.files, p));
        },
        Action::CreateDir(_) => {
            assert(i == 0);
            directories_stay(disk, actions, render, later);
        },
        _ => {},
    }
}

proof fn directories_stay(
    disk: Disk,
    actions: Seq<Action<Text>>,
    render: spec_fn(Document<Text>) -> Text,
    host: Host,
)
    requires
        actions.len() > 0,
    ensures
        after_actions(disk, actions, false, render, host) matches Ok(end) ==> (
        actions[0] matches Action::CreateDir(dir) ==> down_to(dir).subset_of(end.dirs)),
    decreases actions.len(),
{
    if actions.len() > 1 {
        directories_stay(disk, actions.drop_last(), render, host);
    } else {
        assert(actions.drop_last() =~= Seq::<Action<Text>>::empty());
    }
}

}
