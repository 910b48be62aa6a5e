//! The order in which directory entries are visited.

use vstd::prelude::*;

use crate::text::Text;
use crate::text::chars_of;

verus! {

/// Lexicographic order by code point, which is the byte order of the UTF-8
/// encodings.
pub open spec fn at_most(a: Text, b: Text) -> bool
    decreases a.len(),
{
    if a.len() == 0 {
        true
    } else if b.len() == 0 {
        false
    } else if a[0] == b[0] {
        at_most(a.drop_first(), b.drop_first())
    } else {
        a[0] < b[0]
    }
}

/// The sorted list `s` with `x` added behind the elements that are at most `x`.
pub open spec fn inserted(s: Seq<Text>, x: Text) -> Seq<Text>
    decreases s.len(),
{
    if s.len() == 0 || at_most(s.last(), x) {
        s.push(x)
    } else {
        inserted(s.drop_last(), x).push(s.last())
    }
}

/// The elements of `s` in ascending order.
pub open spec fn sorted(s: Seq<Text>) -> Seq<Text>
    decreases s.len(),
{
    if s.len() == 0 {
        s
    } else {
        inserted(sorted(s.drop_last()), s.last())
    }
}

/// Whether every element is at most those behind it.
pub open spec fn ascending(s: Seq<Text>) -> bool {
    forall|i: int, j: int| 0 <= i < j < s.len() ==> at_most(#[trigger] s[i], #[trigger] s[j])
}

proof fn at_most_total(a: Text, b: Text)
    ensures
        at_most(a, b) || at_most(b, a),
    decreases a.len(),
{
    if a.len() > 0 && b.len() > 0 && a[0] == b[0] {
        at_most_total(a.drop_first(), b.drop_first());
    }
}

proof fn at_most_transitive(a: Text, b: Text, c: Text)
    requires
        at_most(a, b),
        at_most(b, c),
    ensures
        at_most(a, c),
    decreases a.len(),
{
    if a.len() > 0 && b.len() > 0 && c.len() > 0 && a[0] == b[0] && b[0] == c[0] {
        at_most_transitive(a.drop_first(), b.drop_first(), c.drop_first());
    }
}

proof fn inserted_keeps(s: Seq<Text>, x: Text)
    requires
        ascending(s),
    ensures
        ascending(inserted(s, x)),
        inserted(s, x).to_multiset() == s.to_multiset().insert(x),
    decreases s.len(),
{
    broadcast use vstd::seq_lib::group_to_multiset_ensures;

    if s.len() == 0 || at_most(s.last(), x) {
        assert forall|i: int, j: int| 0 <= i < j < s.push(x).len() implies at_most(
            #[trigger] s.push(x)[i],
            #[trigger] s.push(x)[j],
        ) by {
            if j == s.len() && i < s.len() - 1 {
                at_most_transitive(s[i], s.last(), x);
            }
        }
    } else {
        let rest = inserted(s.drop_last(), x);
        inserted_keeps(s.drop_last(), x);
        at_most_total(s.last(), x);
        assert(s =~= s.drop_last().push(s.last()));
        assert forall|i: int, j: int| 0 <= i < j < rest.push(s.last()).len() implies at_most(
            #[trigger] rest.push(s.last())[i],
            #[trigger] rest.push(s.last())[j],
        ) by {
            if j == rest.len() {
                assert(rest.to_multiset().count(rest[i]) > 0) by {
                    assert(rest.contains(rest[i]));
                }
                assert(rest[i] == x || s.drop_last().contains(rest[i]));
                if rest[i] != x {
                    let k = choose|k: int|
                        0 <= k < s.drop_last().len() && s.drop_last()[k] == rest[i];
                    assert(at_most(s[k], s[s.len() - 1]));
                }
            }
        }
        assert(inserted(s, x).to_multiset() =~= s.to_multiset().insert(x));
    }
}

/// Sorting puts the elements in ascending order and neither adds nor drops
/// one.
pub proof fn sorting_orders_and_keeps(s: Seq<Text>)
    ensures
        ascending(sorted(s)),
        sorted(s).to_multiset() == s.to_multiset(),
    decreases s.len(),
{
    broadcast use vstd::seq_lib::group_to_multiset_ensures;

    if s.len() > 0 {
        sorting_orders_and_keeps(s.drop_last());
        inserted_keeps(sorted(s.drop_last()), s.last());
        assert(s =~= s.drop_last().push(s.last()));
    }
}

proof fn at_most_antisymmetric(a: Text, b: Text)
    requires
        at_most(a, b),
        at_most(b, a),
    ensures
        a == b,
    decreases a.len(),
{
    if a.len() > 0 && b.len() > 0 {
        at_most_antisymmetric(a.drop_first(), b.drop_first());
        assert(a =~= seq![a[0]] + a.drop_first());
        assert(b =~= seq![b[0]] + b.drop_first());
    } else {
        assert(a =~= b);
    }
}

/// In which order the elements come does not matter to the sorted list.
pub proof fn sorting_ignores_order(a: Seq<Text>, b: Seq<Text>)
    requires
        a.to_multiset() == b.to_multiset(),
    ensures
        sorted(a) == sorted(b),
{
    let leq = |x: Text, y: Text| at_most(x, y);
    sorting_orders_and_keeps(a);
    sorting_orders_and_keeps(b);
    assert forall|x: Text| #[trigger] at_most(x, x) by {
        at_most_total(x, x);
    }
    assert forall|x: Text, y: Text| #[trigger] leq(x, y) && #[trigger] leq(y, x) implies x == y by {
        at_most_antisymmetric(x, y);
    }
    assert forall|x: Text, y: Text, z: Text| #[trigger] leq(x, y) && #[trigger] leq(
        y,
        z,
    ) implies leq(x, z) by {
        at_most_transitive(x, y, z);
    }
    assert forall|x: Text, y: Text| #[trigger] leq(x, y) || leq(y, x) by {
        at_most_total(x, y);
    }
    assert(vstd::relations::sorted_by(sorted(a), leq));
    assert(vstd::relations::sorted_by(sorted(b), leq));
    assert(vstd::relations::total_ordering(leq));
    vstd::seq_lib::lemma_sorted_unique(sorted(a), sorted(b), leq);
}

fn le(a: &str, b: &str) -> (r: bool)
    ensures
        r == at_most(a@, b@),
{
    let x = chars_of(a);
    let y = chars_of(b);
    let mut i: usize = 0;
    assert(x@.skip(0) =~= x@);
    assert(y@.skip(0) =~= y@);
    loop
        invariant
            i <= x@.len(),
            i <= y@.len(),
            at_most(x@, y@) == at_most(x@.skip(i as int), y@.skip(i as int)),
            x@ == a@,
            y@ == b@,
        decreases x@.len() - i,
    {
        if i == x.len() {
            return true;
        }
        if i == y.len() {
            return false;
        }
        if x[i] != y[i] {
            return x[i] < y[i];
        }
        assert(x@.skip(i as int).drop_first() =~= x@.skip(i + 1));
        assert(y@.skip(i as int).drop_first() =~= y@.skip(i + 1));
        i += 1;
    }
}

proof fn inserted_at(s: Seq<Text>, x: Text, k: int)
    requires
        0 <= k <= s.len(),
        k == 0 || at_most(s[k - 1], x),
        forall|j: int| k <= j < s.len() ==> !at_most(#[trigger] s[j], x),
    ensures
        inserted(s, x) == s.insert(k, x),
    decreases s.len(),
{
    if k == s.len() {
        assert(inserted(s, x) =~= s.insert(k, x));
    } else {
        inserted_at(s.drop_last(), x, k);
        assert(!at_most(s[s.len() - 1], x));
        assert(inserted(s, x) =~= s.insert(k, x));
    }
}

/// The strings in ascending order.
pub fn sorted_of(list: Vec<String>) -> (r: Vec<String>)
    ensures
        r.deep_view() == sorted(list.deep_view()),
{
    let ghost all = list.deep_view();
    let mut r: Vec<String> = Vec::new();
    let mut i: usize = 0;
    assert(r.deep_view() =~= sorted(all.take(0)));
    while i < list.len()
        invariant
            i <= list@.len(),
            all == list.deep_view(),
            r.deep_view() == sorted(all.take(i as int)),
        decreases list@.len() - i,
    {
        let x = list[i].clone();
        let ghost before = r.deep_view();
        assert(all[i as int] == x@);
        let mut k: usize = r.len();
        while k > 0 && !le(r[k - 1].as_str(), x.as_str())
            invariant
                k <= r@.len(),
                before == r.deep_view(),
                forall|j: int| k <= j < before.len() ==> !at_most(#[trigger] before[j], x@),
            decreases k,
        {
            assert(before[k - 1] == r@[k - 1]@);
            k -= 1;
        }
        assert(k > 0 ==> before[k - 1] == r@[k - 1]@);
        proof {
            inserted_at(before, x@, k as int);
        }
        r.insert(k, x);
        assert(r.deep_view() =~= before.insert(k as int, x@));
        assert(all.take(i + 1).drop_last() =~= all.take(i as int));
        i += 1;
    }
    assert(all.take(all.len() as int) =~= all);
    r
}

}
