//! What the user is warned of.

use vstd::prelude::*;

use crate::text::Text;

verus! {

/// Something that the configuration does not take into account, or only in
/// part.
#[derive(Debug, PartialEq, Eq)]
pub enum Warning<T> {
    /// The FUSE file system at this mount point gets no entry.
    FuseMount(T),
    /// The `btrfs` program is missing, so that the subvolume at this mount point
    /// cannot be told.
    BtrfsMissing(T),
    /// The UUID of the bcachefs at this mount point cannot be told.
    BcachefsUuidUnknown(T),
    /// Swap space of this type gets no entry.
    UnsupportedSwap { swap_type: T, file: T },
    /// `/proc/swaps` cannot be read, for the reason given; it is missing if none
    /// is.
    SwapsUnreadable(Option<T>),
    /// This directory of devices is missing.
    DirMissing(T),
    /// An entry of the directory of devices cannot be read, for the cause given.
    EntryUnreadable { dir: T, cause: T },
}

impl DeepView for Warning<String> {
    type V = Warning<Text>;

    open spec fn deep_view(&self) -> Warning<Text> {
        match self {
            Warning::FuseMount(mp) => Warning::FuseMount(mp@),
            Warning::BtrfsMissing(mp) => Warning::BtrfsMissing(mp@),
            Warning::BcachefsUuidUnknown(mp) => Warning::BcachefsUuidUnknown(mp@),
            Warning::UnsupportedSwap { swap_type, file } => Warning::UnsupportedSwap {
                swap_type: swap_type@,
                file: file@,
            },
            Warning::SwapsUnreadable(reason) => Warning::SwapsUnreadable(reason.deep_view()),
            Warning::DirMissing(dir) => Warning::DirMissing(dir@),
            Warning::EntryUnreadable { dir, cause } => Warning::EntryUnreadable {
                dir: dir@,
                cause: cause@,
            },
        }
    }
}

/// The warnings with one more, if there is one.
pub open spec fn with_warning(list: Seq<Warning<Text>>, w: Option<Warning<Text>>) -> Seq<
    Warning<Text>,
> {
    match w {
        Some(w) => list.push(w),
        None => list,
    }
}

/// What is in a list with one more warning.
pub proof fn in_list_with_warning(
    list: Seq<Warning<Text>>,
    more: Option<Warning<Text>>,
    w: Warning<Text>,
)
    ensures
        with_warning(list, more).contains(w) <==> list.contains(w) || more == Some(w),
{
    if let Some(m) = more {
        let all = list.push(m);
        assert(all[list.len() as int] == m);
        if list.contains(w) {
            assert(all[list.index_of(w)] == w);
        }
        if all.contains(w) && m != w {
            assert(list[all.index_of(w)] == w);
        }
    }
}

/// What is in two lists put together.
pub proof fn in_joined_lists(a: Seq<Warning<Text>>, b: Seq<Warning<Text>>, w: Warning<Text>)
    ensures
        (a + b).contains(w) <==> a.contains(w) || b.contains(w),
{
    let all = a + b;
    if a.contains(w) {
        assert(all[a.index_of(w)] == w);
    }
    if b.contains(w) {
        assert(all[a.len() + b.index_of(w)] == w);
    }
    if all.contains(w) && !a.contains(w) {
        let i = all.index_of(w);
        assert(i >= a.len()) by {
            if i < a.len() {
                assert(a[i] == w);
            }
        }
        assert(b[i - a.len()] == w);
    }
}

/// The empty list.
pub fn no_warnings() -> (r: Vec<Warning<String>>)
    ensures
        r.deep_view() == Seq::<Warning<Text>>::empty(),
{
    let r: Vec<Warning<String>> = Vec::new();
    assert(r.deep_view() =~= Seq::<Warning<Text>>::empty());
    r
}

/// Adds a warning to the list.
pub fn push_warning(list: &mut Vec<Warning<String>>, w: Warning<String>)
    ensures
        final(list).deep_view() == old(list).deep_view().push(w.deep_view()),
{
    let ghost before = list.deep_view();
    list.push(w);
    assert(list.deep_view() =~= before.push(w.deep_view()));
}

/// Adds the warnings of another list.
pub fn push_warnings(list: &mut Vec<Warning<String>>, more: Vec<Warning<String>>)
    ensures
        final(list).deep_view() == old(list).deep_view() + more.deep_view(),
{
    let ghost before = list.deep_view();
    let ghost added = more.deep_view();
    let mut more = more;
    list.append(&mut more);
    assert(list.deep_view() =~= before + added);
}

}
