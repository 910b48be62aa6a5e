//! Paths, taken apart into their components.

use vstd::prelude::*;

use crate::host;
use crate::host::Facts;
use crate::host::Host;
use crate::host::Probe;
use crate::text;
use crate::text::Text;

verus! {

/// Whether the path starts at the root directory.
pub open spec fn is_absolute(path: Text) -> bool {
    path.len() > 0 && path[0] == '/'
}

/// The pieces of a path that count. Empty pieces stand for repeated or trailing
/// slashes; a dot counts only at the very start.
pub open spec fn kept(pieces: Seq<Text>) -> Seq<Text>
    decreases pieces.len(),
{
    if pieces.len() == 0 {
        pieces
    } else {
        let before = kept(pieces.drop_last());
        if counts(pieces.last(), pieces.len() == 1) {
            before.push(pieces.last())
        } else {
            before
        }
    }
}

/// Whether a piece counts, given whether it is the first.
pub open spec fn counts(piece: Text, first: bool) -> bool {
    piece.len() > 0 && (piece != "."@ || first)
}

/// The components of the path, without the root directory.
pub open spec fn components(path: Text) -> Seq<Text> {
    kept(text::split(path, '/'))
}

/// Whether the two paths are the same component by component.
pub open spec fn same_components(a: Text, b: Text) -> bool {
    is_absolute(a) == is_absolute(b) && components(a) == components(b)
}

/// The path with the given components.
pub open spec fn rendered(absolute: bool, parts: Seq<Text>) -> Text {
    (if absolute {
        "/"@
    } else {
        Seq::empty()
    }) + text::join(parts, "/"@)
}

/// Whether the component is the name of an entry and not a dot or two.
pub open spec fn is_name(part: Text) -> bool {
    part != "."@ && part != ".."@
}

/// The components with `suffix` added to the last name; if they do not end in a
/// name, the suffix becomes one.
pub open spec fn suffixed(parts: Seq<Text>, suffix: Text) -> Seq<Text> {
    if parts.len() > 0 && is_name(parts.last()) {
        parts.drop_last().push(parts.last() + suffix)
    } else {
        parts.push(suffix)
    }
}

/// The path of the entry beside `path` whose name is longer by `suffix`.
pub open spec fn beside(path: Text, suffix: Text) -> Text {
    rendered(is_absolute(path), suffixed(components(path), suffix))
}

/// The path of the entry `name` of the directory `dir`.
pub open spec fn joined(dir: Text, name: Text) -> Text {
    if dir.len() == 0 || dir.last() == '/' {
        dir + name
    } else {
        dir + "/"@ + name
    }
}

/// Whether the list can be the components of a path.
pub open spec fn well_formed(absolute: bool, parts: Seq<Text>) -> bool {
    forall|i: int|
        0 <= i < parts.len() ==> !(#[trigger] parts[i]).contains('/') && counts(
            parts[i],
            i == 0 && !absolute,
        )
}

/// Well-formed components all count.
proof fn kept_of_well_formed(parts: Seq<Text>)
    requires
        well_formed(false, parts),
    ensures
        kept(parts) == parts,
    decreases parts.len(),
{
    if parts.len() > 0 {
        assert forall|i: int| 0 <= i < parts.drop_last().len() implies !(
        #[trigger] parts.drop_last()[i]).contains('/') && counts(
            parts.drop_last()[i],
            i == 0 && !false,
        ) by {
            assert(!parts[i].contains('/') && counts(parts[i], i == 0 && !false));
        }
        kept_of_well_formed(parts.drop_last());
        assert(counts(parts[parts.len() - 1], parts.len() == 1));
        assert(kept(parts) =~= parts);
    }
}

/// Well-formed components behind the empty piece of an absolute path all count.
proof fn kept_behind_root(parts: Seq<Text>)
    requires
        well_formed(true, parts),
    ensures
        kept(seq![Seq::<char>::empty()] + parts) == parts,
    decreases parts.len(),
{
    let all = seq![Seq::<char>::empty()] + parts;
    if parts.len() == 0 {
        assert(all.drop_last() =~= Seq::<Text>::empty());
        assert(kept(all.drop_last()) =~= Seq::<Text>::empty());
        assert(kept(all) =~= parts);
    } else {
        assert forall|i: int| 0 <= i < parts.drop_last().len() implies !(
        #[trigger] parts.drop_last()[i]).contains('/') && counts(
            parts.drop_last()[i],
            i == 0 && !true,
        ) by {
            assert(!parts[i].contains('/') && counts(parts[i], i == 0 && !true));
        }
        kept_behind_root(parts.drop_last());
        assert(all.drop_last() =~= seq![Seq::<char>::empty()] + parts.drop_last());
        assert(all.last() == parts[parts.len() - 1]);
        assert(counts(parts[parts.len() - 1], false));
        assert(kept(all) =~= parts);
    }
}

/// A path made from components has these components.
pub proof fn components_of_rendered(absolute: bool, parts: Seq<Text>)
    requires
        well_formed(absolute, parts),
    ensures
        components(rendered(absolute, parts)) == parts,
        is_absolute(rendered(absolute, parts)) == absolute,
{
    reveal_strlit("/");
    assert("/"@ =~= seq!['/']);
    let body = text::join(parts, "/"@);
    if parts.len() == 0 {
        assert(body =~= Seq::<char>::empty());
        if absolute {
            assert(rendered(absolute, parts) =~= seq!['/']);
            assert(seq!['/'].drop_last() =~= Seq::<char>::empty());
            assert(text::split(Seq::<char>::empty(), '/') =~= seq![Seq::<char>::empty()]);
            assert(text::split(seq!['/'], '/') =~= seq![Seq::<char>::empty(), Seq::<char>::empty()]);
            let pieces = seq![Seq::<char>::empty(), Seq::<char>::empty()];
            assert(pieces.drop_last() =~= seq![Seq::<char>::empty()]);
            assert(pieces.drop_last().drop_last() =~= Seq::<Text>::empty());
            assert(kept(pieces.drop_last().drop_last()) =~= Seq::<Text>::empty());
            assert(kept(pieces.drop_last()) =~= Seq::<Text>::empty());
            assert(components(rendered(absolute, parts)) =~= parts);
        } else {
            assert(rendered(absolute, parts) =~= Seq::<char>::empty());
            let pieces = seq![Seq::<char>::empty()];
            assert(text::split(Seq::<char>::empty(), '/') =~= pieces);
            assert(pieces.drop_last() =~= Seq::<Text>::empty());
            assert(kept(pieces.drop_last()) =~= Seq::<Text>::empty());
            assert(components(rendered(absolute, parts)) =~= parts);
        }
    } else if absolute {
        let all = seq![Seq::<char>::empty()] + parts;
        assert forall|i: int| 0 <= i < all.len() implies !(#[trigger] all[i]).contains('/') by {
            if i > 0 {
                assert(!parts[i - 1].contains('/'));
            }
        }
        text::join_then_split(all, '/');
        join_behind_root(parts);
        kept_behind_root(parts);
    } else {
        assert forall|i: int| 0 <= i < parts.len() implies !(#[trigger] parts[i]).contains(
            '/',
        ) by {}
        text::join_then_split(parts, '/');
        kept_of_well_formed(parts);
        assert(rendered(absolute, parts) =~= body);
        first_of_joined(parts);
    }
}

/// An absolute path is what is joined behind an empty piece.
proof fn join_behind_root(parts: Seq<Text>)
    requires
        parts.len() > 0,
    ensures
        text::join(seq![Seq::<char>::empty()] + parts, seq!['/']) == seq!['/'] + text::join(
            parts,
            seq!['/'],
        ),
    decreases parts.len(),
{
    let all = seq![Seq::<char>::empty()] + parts;
    assert(all.drop_last() =~= seq![Seq::<char>::empty()] + parts.drop_last());
    assert(all.last() == parts.last());
    if parts.len() == 1 {
        assert(all.drop_last() =~= seq![Seq::<char>::empty()]);
        assert(text::join(all.drop_last(), seq!['/']) =~= Seq::<char>::empty());
        assert(text::join(all, seq!['/']) =~= seq!['/'] + text::join(parts, seq!['/']));
    } else {
        join_behind_root(parts.drop_last());
        assert(text::join(all, seq!['/']) =~= seq!['/'] + text::join(parts, seq!['/']));
    }
}

/// A relative path starts with the first character of its first component.
proof fn first_of_joined(parts: Seq<Text>)
    requires
        parts.len() > 0,
        well_formed(false, parts),
    ensures
        text::join(parts, "/"@).len() > 0,
        text::join(parts, "/"@)[0] != '/',
    decreases parts.len(),
{
    if parts.len() == 1 {
        assert(!parts[0].contains('/') && counts(parts[0], true));
        assert(parts[0].contains(parts[0][0]));
    } else {
        assert forall|i: int| 0 <= i < parts.drop_last().len() implies !(
        #[trigger] parts.drop_last()[i]).contains('/') && counts(
            parts.drop_last()[i],
            i == 0 && !false,
        ) by {
            assert(!parts[i].contains('/') && counts(parts[i], i == 0 && !false));
        }
        first_of_joined(parts.drop_last());
    }
}

/// The components of a path are well-formed.
pub proof fn components_are_well_formed(path: Text)
    ensures
        well_formed(is_absolute(path), components(path)),
{
    let pieces = text::split(path, '/');
    text::split_then_join(path, '/');
    text::split_is_not_empty(path, '/');
    if is_absolute(path) {
        first_piece(path);
    }
    kept_are_well_formed(pieces, is_absolute(path));
}

/// The first piece of a text that starts with the separator is empty.
proof fn first_piece(path: Text)
    requires
        is_absolute(path),
    ensures
        text::split(path, '/').len() > 1,
        text::split(path, '/')[0].len() == 0,
    decreases path.len(),
{
    text::split_is_not_empty(path.drop_last(), '/');
    if path.len() == 1 {
        assert(path.drop_last() =~= Seq::<char>::empty());
        assert(text::split(path.drop_last(), '/') =~= seq![Seq::<char>::empty()]);
    } else {
        first_piece(path.drop_last());
    }
}

/// What is kept of pieces without a slash is well-formed.
proof fn kept_are_well_formed(pieces: Seq<Text>, absolute: bool)
    requires
        forall|i: int| 0 <= i < pieces.len() ==> !(#[trigger] pieces[i]).contains('/'),
        absolute && pieces.len() > 0 ==> pieces[0].len() == 0,
    ensures
        well_formed(absolute, kept(pieces)),
        kept(pieces).len() <= pieces.len(),
    decreases pieces.len(),
{
    if pieces.len() > 0 {
        let front = pieces.drop_last();
        assert forall|i: int| 0 <= i < front.len() implies !(#[trigger] front[i]).contains(
            '/',
        ) by {
            assert(!pieces[i].contains('/'));
        }
        kept_are_well_formed(front, absolute);
        let before = kept(front);
        let all = kept(pieces);
        assert(!pieces[pieces.len() - 1].contains('/'));
        assert forall|i: int| 0 <= i < all.len() implies !(#[trigger] all[i]).contains('/')
            && counts(all[i], i == 0 && !absolute) by {
            if i < before.len() {
                assert(all[i] == before[i]);
            }
        }
    }
}

/// A slash behind a path, and a slash with a dot, do not count.
pub proof fn slashes_and_dots_do_not_count(path: Text)
    ensures
        components(path.push('/')) == components(path),
        components(path.push('/').push('.')) == components(path),
{
    reveal_strlit(".");
    let pieces = text::split(path, '/');
    text::split_is_not_empty(path, '/');
    let slash = path.push('/');
    assert(slash.drop_last() =~= path);
    let more = text::split(slash, '/');
    assert(more == pieces.push(Seq::empty()));
    assert(more.drop_last() =~= pieces);
    assert(!counts(more.last(), more.len() == 1));
    let dot = slash.push('.');
    assert(dot.drop_last() =~= slash);
    let last = text::split(dot, '/');
    assert(last == more.drop_last().push(more.last().push('.')));
    assert(last.drop_last() =~= pieces);
    assert(last.last() =~= "."@);
    assert(!counts(last.last(), last.len() == 1));
}

/// A path that ends in no name, but in a dot or two or in nothing, has the suffix as
/// a name of its own beside it.
pub proof fn nameless_paths_get_a_name(path: Text, suffix: Text)
    requires
        components(path).len() > 0 ==> components(path).last() == "."@ || components(path).last()
            == ".."@,
    ensures
        beside(path, suffix) == rendered(is_absolute(path), components(path).push(suffix)),
{
}

/// The path of an entry of a directory has the components of the directory and
/// the name of the entry.
pub proof fn components_of_joined(dir: Text, name: Text)
    requires
        !name.contains('/'),
        counts(name, false),
    ensures
        components(joined(dir, name)) == components(dir).push(name),
        is_absolute(joined(dir, name)) == is_absolute(dir),
{
    reveal_strlit("/");
    assert("/"@ =~= seq!['/']);
    assert(name.contains(name[0]));
    text::split_is_not_empty(dir, '/');
    let pieces = text::split(dir, '/');
    text::split_of_longer(dir, name, '/');
    if dir.len() == 0 {
        assert(pieces =~= seq![Seq::<char>::empty()]);
        assert(pieces.drop_last() =~= Seq::<Text>::empty());
        assert(kept(pieces.drop_last()) =~= Seq::<Text>::empty());
        assert(pieces.last() + name =~= name);
        let all = text::split(joined(dir, name), '/');
        assert(all =~= seq![name]);
        assert(all.drop_last() =~= Seq::<Text>::empty());
        assert(kept(all) =~= seq![name]);
        assert(components(dir).push(name) =~= seq![name]);
    } else if dir.last() == '/' {
        text::split_is_not_empty(dir.drop_last(), '/');
        assert(pieces.last() =~= Seq::<char>::empty());
        assert(pieces.last() + name =~= name);
        let all = pieces.drop_last().push(name);
        assert(all.drop_last() =~= pieces.drop_last());
        assert(text::split(joined(dir, name), '/') =~= all);
        assert(kept(all) =~= kept(pieces).push(name));
    } else {
        let slashed = dir + "/"@;
        assert(slashed.drop_last() =~= dir);
        let more = pieces.push(Seq::<char>::empty());
        assert(text::split(slashed, '/') =~= more);
        text::split_of_longer(slashed, name, '/');
        assert(more.last() + name =~= name);
        let all = pieces.push(name);
        assert(more.drop_last() =~= pieces);
        assert(all.drop_last() =~= pieces);
        assert(text::split(joined(dir, name), '/') =~= all);
        assert(kept(all) =~= kept(pieces).push(name));
    }
}

/// The components of the path, without the root directory.
fn components_of(path: &str) -> (r: Vec<String>)
    ensures
        r.deep_view() == components(path@),
{
    let pieces = text::split_on(path, '/');
    let ghost all = pieces.deep_view();
    let mut r: Vec<String> = Vec::new();
    let mut i: usize = 0;
    assert(r.deep_view() =~= kept(all.take(0)));
    while i < pieces.len()
        invariant
            i <= pieces@.len(),
            all == pieces.deep_view(),
            r.deep_view() == kept(all.take(i as int)),
        decreases pieces@.len() - i,
    {
        assert(all[i as int] == pieces@[i as int]@);
        assert(all.take(i + 1).drop_last() =~= all.take(i as int));
        let piece = pieces[i].as_str();
        if !piece.is_empty() && (i == 0 || !text::same(piece, ".")) {
            text::push_text(&mut r, pieces[i].clone());
        }
        i += 1;
    }
    assert(all.take(all.len() as int) =~= all);
    r
}

/// Whether the path starts at the root directory.
fn is_absolute_path(path: &str) -> (r: bool)
    ensures
        r == is_absolute(path@),
{
    let v = text::chars_of(path);
    v.len() > 0 && v[0] == '/'
}

/// The path with the given components.
fn path_of(absolute: bool, parts: &Vec<String>) -> (r: String)
    ensures
        r@ == rendered(absolute, parts.deep_view()),
{
    let body = text::join_of(parts, "/");
    if absolute {
        text::cat("/", body.as_str())
    } else {
        assert(body@ =~= rendered(absolute, parts.deep_view()));
        body
    }
}

fn same_parts(a: &Vec<String>, b: &Vec<String>) -> (r: bool)
    ensures
        r == (a.deep_view() == b.deep_view()),
{
    if a.len() != b.len() {
        assert(a.deep_view().len() != b.deep_view().len());
        return false;
    }
    let mut i: usize = 0;
    while i < a.len()
        invariant
            i <= a@.len(),
            a@.len() == b@.len(),
            forall|j: int| 0 <= j < i ==> a.deep_view()[j] == b.deep_view()[j],
        decreases a@.len() - i,
    {
        assert(a.deep_view()[i as int] == a@[i as int]@);
        assert(b.deep_view()[i as int] == b@[i as int]@);
        if !text::same(a[i].as_str(), b[i].as_str()) {
            return false;
        }
        i += 1;
    }
    assert(a.deep_view() =~= b.deep_view());
    true
}

/// Whether the two paths are the same component by component.
pub fn same_path(a: &str, b: &str) -> (r: bool)
    ensures
        r == same_components(a@, b@),
{
    is_absolute_path(a) == is_absolute_path(b) && same_parts(&components_of(a), &components_of(b))
}

/// The path of the entry beside `path` whose name is longer by `suffix`.
pub fn sibling(path: &str, suffix: &str) -> (r: String)
    ensures
        r@ == beside(path@, suffix@),
{
    let mut parts = components_of(path);
    let n = parts.len();
    let ghost before = parts.deep_view();
    if n > 0 && !text::same(parts[n - 1].as_str(), ".") && !text::same(parts[n - 1].as_str(), "..") {
        assert(before.last() == parts@[n - 1]@);
        let name = text::cat(parts[n - 1].as_str(), suffix);
        parts.truncate(n - 1);
        assert(parts.deep_view() =~= before.drop_last());
        text::push_text(&mut parts, name);
    } else {
        assert(n > 0 ==> before.last() == parts@[n - 1]@);
        text::push_text(&mut parts, suffix.to_owned());
    }
    path_of(is_absolute_path(path), &parts)
}

/// The path of the entry `name` of the directory `dir`.
pub fn join_path(dir: &str, name: &str) -> (r: String)
    ensures
        r@ == joined(dir@, name@),
{
    let v = text::chars_of(dir);
    let n = v.len();
    if n == 0 || v[n - 1] == '/' {
        text::cat(dir, name)
    } else {
        text::cat(text::cat(dir, "/").as_str(), name)
    }
}

/// Whether something can be written at the nearest directory above that is
/// there.
pub open spec fn writable_above(absolute: bool, parts: Seq<Text>, host: Host) -> Result<
    bool,
    Probe<Text>,
>
    decreases parts.len(),
{
    if parts.len() == 0 || (parts.len() == 1 && !absolute) {
        Ok(false)
    } else {
        let up = parts.drop_last();
        match host.is_there(rendered(absolute, up)) {
            Err(p) => Err(p),
            Ok(true) => host.writable(rendered(absolute, up)),
            Ok(false) => writable_above(absolute, up, host),
        }
    }
}

/// Whether the path can be written, or created, by the current user: whether
/// it, or the nearest directory above that is there, can be written and
/// searched.
pub open spec fn can_write(path: Text, host: Host) -> Result<bool, Probe<Text>> {
    match host.is_there(path) {
        Err(p) => Err(p),
        Ok(true) => host.writable(path),
        Ok(false) => writable_above(is_absolute(path), components(path), host),
    }
}

/// Whether the path can be written, or created, by the current user. If nothing
/// above it is there, it cannot.
pub fn can_write_to(path: &str, facts: &Facts) -> (r: Result<bool, Probe<String>>)
    ensures
        host::shown(r) == can_write(path@, facts@),
{
    if facts.is_there(path)? {
        return facts.writable(path);
    }
    let absolute = is_absolute_path(path);
    let mut parts = components_of(path);
    while parts.len() > 1 || (parts.len() == 1 && absolute)
        invariant
            can_write(path@, facts@) == writable_above(absolute, parts.deep_view(), facts@),
        decreases parts@.len(),
    {
        let ghost before = parts.deep_view();
        let n = parts.len();
        parts.truncate(n - 1);
        assert(parts.deep_view() =~= before.drop_last());
        let cur = path_of(absolute, &parts);
        if facts.is_there(cur.as_str())? {
            return facts.writable(cur.as_str());
        }
    }
    Ok(false)
}

}
