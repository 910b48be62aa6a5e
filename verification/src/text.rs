//! Text primitives on which the scanners are built. Every function is stated
//! over the characters of its argument (`s@`, a `Seq<char>`).

use vstd::prelude::*;

verus! {

/// The characters of a string.
pub type Text = Seq<char>;

/// `String::push` appends one character at the end of the string.
pub assume_specification[ String::push ](s: &mut String, c: char)
    ensures
        final(s)@ == old(s)@.push(c),
;

/// The characters with the Unicode property `White_Space`.
pub open spec fn is_space(c: char) -> bool {
    ||| '\u{9}' <= c <= '\u{d}'
    ||| c == '\u{20}'
    ||| c == '\u{85}'
    ||| c == '\u{a0}'
    ||| c == '\u{1680}'
    ||| '\u{2000}' <= c <= '\u{200a}'
    ||| c == '\u{2028}'
    ||| c == '\u{2029}'
    ||| c == '\u{202f}'
    ||| c == '\u{205f}'
    ||| c == '\u{3000}'
}

/// The ASCII white space characters: space, tab, line feed, form feed and
/// carriage return.
pub open spec fn is_ascii_space(c: char) -> bool {
    c == ' ' || c == '\t' || c == '\n' || c == '\u{c}' || c == '\r'
}

fn space(c: char) -> (r: bool)
    ensures
        r == is_space(c),
{
    ('\u{9}' <= c && c <= '\u{d}') || c == '\u{20}' || c == '\u{85}' || c == '\u{a0}' || c
        == '\u{1680}' || ('\u{2000}' <= c && c <= '\u{200a}') || c == '\u{2028}' || c == '\u{2029}'
        || c == '\u{202f}' || c == '\u{205f}' || c == '\u{3000}'
}

fn ascii_space(c: char) -> (r: bool)
    ensures
        r == is_ascii_space(c),
{
    c == ' ' || c == '\t' || c == '\n' || c == '\u{c}' || c == '\r'
}

/// The characters of `s` as a vector.
pub fn chars_of(s: &str) -> (v: Vec<char>)
    ensures
        v@ == s@,
{
    let mut v: Vec<char> = Vec::new();
    for c in it: s.chars()
        invariant
            it.seq() == s@,
            v@ == s@.take(it.index() as int),
    {
        v.push(c);
        assert(s@.take(it.index() as int + 1) =~= s@.take(it.index() as int).push(c));
    }
    assert(s@.take(s@.len() as int) =~= s@);
    v
}

/// The string made of the characters `v[from..to]`.
pub fn string_of(v: &Vec<char>, from: usize, to: usize) -> (s: String)
    requires
        from <= to <= v@.len(),
    ensures
        s@ == v@.subrange(from as int, to as int),
{
    let mut s = String::new();
    let mut i: usize = from;
    while i < to
        invariant
            from <= i <= to <= v@.len(),
            s@ == v@.subrange(from as int, i as int),
        decreases to - i,
    {
        s.push(v[i]);
        i += 1;
        assert(v@.subrange(from as int, i as int) =~= v@.subrange(from as int, i - 1).push(
            v@[i - 1],
        ));
    }
    s
}

/// Whether two strings hold the same characters.
pub fn same(a: &str, b: &str) -> (r: bool)
    ensures
        r == (a@ == b@),
{
    a.to_owned() == b.to_owned()
}

/// The characters of `a` followed by those of `b`.
pub fn cat(a: &str, b: &str) -> (r: String)
    ensures
        r@ == a@ + b@,
{
    let mut s = a.to_owned();
    s.append(b);
    s
}

/// Appends one string to a list of strings.
pub fn push_text(v: &mut Vec<String>, s: String)
    ensures
        final(v)@ == old(v)@.push(s),
        final(v).deep_view() == old(v).deep_view().push(s@),
{
    let ghost before = v.deep_view();
    v.push(s);
    assert(v.deep_view() =~= before.push(s@));
}

/// The pieces of `s` between occurrences of `sep`. There is always at least
/// one piece; every separator starts a new one.
pub open spec fn split(s: Text, sep: char) -> Seq<Text>
    decreases s.len(),
{
    if s.len() == 0 {
        seq![Seq::empty()]
    } else {
        let before = split(s.drop_last(), sep);
        if s.last() == sep {
            before.push(Seq::empty())
        } else {
            before.drop_last().push(before.last().push(s.last()))
        }
    }
}

/// The pieces `parts` with `sep` between neighbours.
pub open spec fn join(parts: Seq<Text>, sep: Text) -> Text
    decreases parts.len(),
{
    if parts.len() == 0 {
        Seq::empty()
    } else if parts.len() == 1 {
        parts[0]
    } else {
        join(parts.drop_last(), sep) + sep + parts.last()
    }
}

/// Splitting yields at least one piece.
pub proof fn split_is_not_empty(s: Text, sep: char)
    ensures
        split(s, sep).len() > 0,
    decreases s.len(),
{
    if s.len() > 0 {
        split_is_not_empty(s.drop_last(), sep);
    }
}

/// Splitting loses nothing: joining the pieces with the separator gives the
/// text back, and no piece holds the separator.
pub proof fn split_then_join(s: Text, sep: char)
    ensures
        join(split(s, sep), seq![sep]) == s,
        forall|i: int| 0 <= i < split(s, sep).len() ==> !(#[trigger] split(s, sep)[i]).contains(sep),
    decreases s.len(),
{
    if s.len() == 0 {
        assert(join(split(s, sep), seq![sep]) =~= s);
    } else {
        let before = split(s.drop_last(), sep);
        split_then_join(s.drop_last(), sep);
        split_is_not_empty(s.drop_last(), sep);
        let after = split(s, sep);
        if s.last() == sep {
            assert(after.drop_last() =~= before);
            assert(join(after, seq![sep]) =~= s);
        } else {
            let grown = before.last().push(s.last());
            assert(after.last() == grown);
            assert(after.drop_last() =~= before.drop_last());
            if before.len() == 1 {
                assert(join(after, seq![sep]) =~= s);
            } else {
                assert(join(after, seq![sep]) =~= join(before, seq![sep]).push(s.last()));
                assert(join(after, seq![sep]) =~= s);
            }
            assert forall|i: int| 0 <= i < after.len() implies !(#[trigger] after[i]).contains(
                sep,
            ) by {
                if i == after.len() - 1 {
                    assert(!before[i].contains(sep));
                    if after[i].contains(sep) {
                        let k = after[i].index_of(sep);
                        assert(before[i][k] == sep);
                    }
                } else {
                    assert(after[i] == before[i]);
                }
            }
        }
    }
}

/// Splitting a text that was joined from pieces without the separator gives the
/// pieces back.
pub proof fn join_then_split(parts: Seq<Text>, sep: char)
    requires
        parts.len() > 0,
        forall|i: int| 0 <= i < parts.len() ==> !(#[trigger] parts[i]).contains(sep),
    ensures
        split(join(parts, seq![sep]), sep) == parts,
    decreases parts.len(),
{
    if parts.len() == 1 {
        split_of_longer(Seq::empty(), parts[0], sep);
        assert(join(parts, seq![sep]) =~= Seq::<char>::empty() + parts[0]);
        assert(split(Seq::empty(), sep) =~= seq![Seq::<char>::empty()]);
        assert(split(join(parts, seq![sep]), sep) =~= parts);
    } else {
        let front = parts.drop_last();
        assert forall|i: int| 0 <= i < front.len() implies !(#[trigger] front[i]).contains(
            sep,
        ) by {
            assert(!parts[i].contains(sep));
        }
        join_then_split(front, sep);
        let base = join(front, seq![sep]) + seq![sep];
        assert(base.drop_last() =~= join(front, seq![sep]));
        assert(split(base, sep) =~= front.push(Seq::empty()));
        split_of_longer(base, parts.last(), sep);
        assert(join(parts, seq![sep]) =~= base + parts.last());
        assert(split(join(parts, seq![sep]), sep) =~= parts);
    }
}

/// A text without the separator extends the last piece.
pub proof fn split_of_longer(base: Text, piece: Text, sep: char)
    requires
        !piece.contains(sep),
    ensures
        split(base + piece, sep) == split(base, sep).drop_last().push(
            split(base, sep).last() + piece,
        ),
    decreases piece.len(),
{
    split_is_not_empty(base, sep);
    if piece.len() == 0 {
        assert(base + piece =~= base);
        assert(split(base, sep) =~= split(base, sep).drop_last().push(
            split(base, sep).last() + piece,
        ));
    } else {
        let front = piece.drop_last();
        assert(!front.contains(sep)) by {
            if front.contains(sep) {
                let k = front.index_of(sep);
                assert(piece[k] == sep);
            }
        }
        split_of_longer(base, front, sep);
        assert((base + piece).drop_last() =~= base + front);
        assert(piece.last() != sep) by {
            assert(piece[piece.len() - 1] == piece.last());
        }
        assert(split(base, sep).last() + piece =~= (split(base, sep).last()
            + front).push(piece.last()));
        assert(split(base + piece, sep) =~= split(base, sep).drop_last().push(
            split(base, sep).last() + piece,
        ));
    }
}

/// `str::split` for a single character.
pub fn split_on(s: &str, sep: char) -> (r: Vec<String>)
    ensures
        r.deep_view() == split(s@, sep),
        r@.len() > 0,
{
    let mut done: Vec<String> = Vec::new();
    let mut piece = String::new();
    assert(done.deep_view().push(piece@) =~= split(s@.take(0), sep));
    for c in it: s.chars()
        invariant
            it.seq() == s@,
            done.deep_view().push(piece@) == split(s@.take(it.index() as int), sep),
    {
        let ghost n = it.index() as int;
        let ghost before = done.deep_view().push(piece@);
        assert(s@.take(n + 1).drop_last() =~= s@.take(n));
        assert(before.drop_last() =~= done.deep_view());
        if c == sep {
            push_text(&mut done, piece);
            piece = String::new();
        } else {
            piece.push(c);
        }
    }
    assert(s@.take(s@.len() as int) =~= s@);
    push_text(&mut done, piece);
    done
}

/// A line without the carriage return that ends it, if there is one.
pub open spec fn without_cr(line: Text) -> Text {
    if line.len() > 0 && line.last() == '\r' {
        line.drop_last()
    } else {
        line
    }
}

/// The lines of `s`, as `str::lines` gives them: a line ends at a line feed or
/// at a carriage return followed by one, and a final line feed starts no line.
pub open spec fn lines(s: Text) -> Seq<Text> {
    let pieces = split(s, '\n');
    let ended = pieces.drop_last().map_values(|p: Text| without_cr(p));
    if pieces.last().len() == 0 {
        ended
    } else {
        ended.push(pieces.last())
    }
}

fn drop_cr(line: &String) -> (r: String)
    ensures
        r@ == without_cr(line@),
{
    let v = chars_of(line.as_str());
    let n = v.len();
    if n > 0 && v[n - 1] == '\r' {
        let r = string_of(&v, 0, n - 1);
        assert(r@ =~= line@.drop_last());
        r
    } else {
        line.clone()
    }
}

/// `str::lines`.
pub fn lines_of(s: &str) -> (r: Vec<String>)
    ensures
        r.deep_view() == lines(s@),
{
    let pieces = split_on(s, '\n');
    let ghost all = pieces.deep_view();
    let mut r: Vec<String> = Vec::new();
    let last = pieces.len() - 1;
    let mut i: usize = 0;
    let ghost ended = all.drop_last().map_values(|p: Text| without_cr(p));
    while i < last
        invariant
            i <= last,
            last + 1 == pieces@.len(),
            all == pieces.deep_view(),
            ended == all.drop_last().map_values(|p: Text| without_cr(p)),
            r.deep_view() == ended.take(i as int),
        decreases last - i,
    {
        assert(all[i as int] == pieces@[i as int]@);
        push_text(&mut r, drop_cr(&pieces[i]));
        i += 1;
        assert(ended.take(i as int) =~= ended.take(i - 1).push(ended[i - 1]));
    }
    assert(ended.take(last as int) =~= ended);
    if pieces[last].as_str().is_empty() {
        r
    } else {
        push_text(&mut r, pieces[last].clone());
        r
    }
}

/// The maximal runs of characters that are not ASCII white space.
pub open spec fn words(s: Text) -> Seq<Text>
    decreases s.len(),
{
    if s.len() == 0 {
        Seq::empty()
    } else {
        let before = words(s.drop_last());
        if is_ascii_space(s.last()) {
            before
        } else if s.len() == 1 || is_ascii_space(s[s.len() - 2]) {
            before.push(seq![s.last()])
        } else {
            before.drop_last().push(before.last().push(s.last()))
        }
    }
}

/// `str::split_ascii_whitespace`.
pub fn words_of(s: &str) -> (r: Vec<String>)
    ensures
        r.deep_view() == words(s@),
{
    let mut done: Vec<String> = Vec::new();
    let mut word = String::new();
    let mut inside = false;
    assert(done.deep_view() =~= words(s@.take(0)));
    for c in it: s.chars()
        invariant
            it.seq() == s@,
            inside == (it.index() > 0 && !is_ascii_space(s@[it.index() as int - 1])),
            inside ==> done.deep_view().push(word@) == words(s@.take(it.index() as int)),
            !inside ==> done.deep_view() == words(s@.take(it.index() as int)),
            !inside ==> word@.len() == 0,
    {
        let ghost n = it.index() as int;
        let ghost t = s@.take(n + 1);
        assert(t.drop_last() =~= s@.take(n));
        assert(n > 0 ==> t[t.len() - 2] == s@[n - 1]);
        let ghost before = done.deep_view().push(word@);
        assert(before.drop_last() =~= done.deep_view());
        if ascii_space(c) {
            if inside {
                push_text(&mut done, word);
                word = String::new();
            }
            inside = false;
        } else {
            word.push(c);
            assert(!inside ==> word@ =~= seq![c]);
            inside = true;
        }
    }
    assert(s@.take(s@.len() as int) =~= s@);
    if inside {
        push_text(&mut done, word);
    }
    done
}

/// A set of characters that can be trimmed off a text.
#[derive(Clone, Copy)]
pub enum Trimmed {
    /// Unicode white space.
    Space,
    /// The double quote.
    Quote,
}

/// Whether trimming `what` removes `c`.
pub open spec fn is_trimmed(what: Trimmed, c: char) -> bool {
    match what {
        Trimmed::Space => is_space(c),
        Trimmed::Quote => c == '"',
    }
}

fn trimmed(what: Trimmed, c: char) -> (r: bool)
    ensures
        r == is_trimmed(what, c),
{
    match what {
        Trimmed::Space => space(c),
        Trimmed::Quote => c == '"',
    }
}

/// `s` without the characters of `what` at its start.
pub open spec fn trim_front(s: Text, what: Trimmed) -> Text
    decreases s.len(),
{
    if s.len() > 0 && is_trimmed(what, s[0]) {
        trim_front(s.drop_first(), what)
    } else {
        s
    }
}

/// `s` without the characters of `what` at its end.
pub open spec fn trim_back(s: Text, what: Trimmed) -> Text
    decreases s.len(),
{
    if s.len() > 0 && is_trimmed(what, s.last()) {
        trim_back(s.drop_last(), what)
    } else {
        s
    }
}

/// `s` without the white space around it.
pub open spec fn trim(s: Text) -> Text {
    trim_back(trim_front(s, Trimmed::Space), Trimmed::Space)
}

/// `s` without the white space before it.
pub open spec fn trim_start(s: Text) -> Text {
    trim_front(s, Trimmed::Space)
}

/// `s` without the double quotes around it.
pub open spec fn unquoted(s: Text) -> Text {
    trim_back(trim_front(s, Trimmed::Quote), Trimmed::Quote)
}

/// The first position of `v` that trimming `what` at the front keeps.
fn front(v: &Vec<char>, what: Trimmed) -> (a: usize)
    ensures
        a <= v@.len(),
        trim_front(v@, what) == v@.skip(a as int),
{
    let mut a: usize = 0;
    assert(v@.skip(0) =~= v@);
    while a < v.len() && trimmed(what, v[a])
        invariant
            a <= v@.len(),
            trim_front(v@, what) == trim_front(v@.skip(a as int), what),
        decreases v@.len() - a,
    {
        assert(v@.skip(a as int).drop_first() =~= v@.skip(a + 1));
        a += 1;
    }
    a
}

/// `s` with the characters of `what` trimmed off both its ends.
fn trim_both(s: &str, what: Trimmed) -> (r: String)
    ensures
        r@ == trim_back(trim_front(s@, what), what),
{
    let v = chars_of(s);
    let a = front(&v, what);
    let mut b: usize = v.len();
    assert(v@.subrange(a as int, b as int) =~= v@.skip(a as int));
    while b > a && trimmed(what, v[b - 1])
        invariant
            a <= b <= v@.len(),
            v@ == s@,
            trim_back(trim_front(s@, what), what) == trim_back(
                v@.subrange(a as int, b as int),
                what,
            ),
        decreases b,
    {
        assert(v@.subrange(a as int, b as int).drop_last() =~= v@.subrange(a as int, b - 1));
        b -= 1;
    }
    string_of(&v, a, b)
}

/// `str::trim`.
pub fn trim_of(s: &str) -> (r: String)
    ensures
        r@ == trim(s@),
{
    trim_both(s, Trimmed::Space)
}

/// `str::trim_start`.
pub fn trim_start_of(s: &str) -> (r: String)
    ensures
        r@ == trim_start(s@),
{
    let v = chars_of(s);
    let a = front(&v, Trimmed::Space);
    let r = string_of(&v, a, v.len());
    assert(r@ =~= v@.skip(a as int));
    r
}

/// `str::trim_matches` for the double quote.
pub fn unquoted_of(s: &str) -> (r: String)
    ensures
        r@ == unquoted(s@),
{
    trim_both(s, Trimmed::Quote)
}

/// Whether `v` holds the characters of `p` from position `i` on.
pub fn occurs_at(v: &Vec<char>, i: usize, p: &Vec<char>) -> (r: bool)
    requires
        i <= v@.len(),
    ensures
        r == p@.is_prefix_of(v@.skip(i as int)),
{
    if v.len() - i < p.len() {
        return false;
    }
    let mut k: usize = 0;
    while k < p.len()
        invariant
            k <= p@.len(),
            i + p@.len() <= v@.len() <= usize::MAX,
            forall|j: int| 0 <= j < k ==> v@[i + j] == p@[j],
        decreases p@.len() - k,
    {
        if v[i + k] != p[k] {
            assert(v@.skip(i as int)[k as int] != p@[k as int]);
            return false;
        }
        k += 1;
    }
    assert(p@ =~= v@.skip(i as int).subrange(0, p@.len() as int));
    true
}

/// `str::starts_with`.
pub fn starts_with(s: &str, p: &str) -> (r: bool)
    ensures
        r == p@.is_prefix_of(s@),
{
    let v = chars_of(s);
    let q = chars_of(p);
    assert(v@.skip(0) =~= v@);
    occurs_at(&v, 0, &q)
}

/// What follows the prefix `p` of `s`.
pub open spec fn after_prefix(s: Text, p: Text) -> Option<Text> {
    if p.is_prefix_of(s) {
        Some(s.skip(p.len() as int))
    } else {
        None
    }
}

/// `str::strip_prefix`.
pub fn strip_prefix(s: &str, p: &str) -> (r: Option<String>)
    ensures
        r.deep_view() == after_prefix(s@, p@),
{
    let v = chars_of(s);
    let q = chars_of(p);
    assert(v@.skip(0) =~= v@);
    if occurs_at(&v, 0, &q) {
        let r = string_of(&v, q.len(), v.len());
        assert(r@ =~= s@.skip(p@.len() as int));
        Some(r)
    } else {
        None
    }
}

/// Whether `p` occurs somewhere in `s`.
pub open spec fn occurs(s: Text, p: Text) -> bool {
    exists|i: int| 0 <= i <= s.len() && p.is_prefix_of(#[trigger] s.skip(i))
}

/// `str::contains`.
pub fn contains(s: &str, p: &str) -> (r: bool)
    ensures
        r == occurs(s@, p@),
{
    let v = chars_of(s);
    let q = chars_of(p);
    let mut i: usize = 0;
    loop
        invariant
            v@ == s@,
            q@ == p@,
            i <= v@.len(),
            forall|j: int| 0 <= j < i ==> !p@.is_prefix_of(#[trigger] s@.skip(j)),
        decreases v@.len() - i,
    {
        if occurs_at(&v, i, &q) {
            return true;
        }
        if i == v.len() {
            return false;
        }
        i += 1;
    }
}

/// `s` with every occurrence of `from` replaced by `to`. Occurrences are taken
/// from the left and do not overlap.
pub open spec fn replace(s: Text, from: Text, to: Text) -> Text
    recommends
        from.len() > 0,
    decreases s.len(),
{
    if s.len() == 0 {
        Seq::empty()
    } else if from.len() > 0 && from.is_prefix_of(s) {
        to + replace(s.skip(from.len() as int), from, to)
    } else {
        seq![s[0]] + replace(s.drop_first(), from, to)
    }
}

/// `str::replace`.
pub fn replace_in(s: &str, from: &str, to: &str) -> (r: String)
    requires
        from@.len() > 0,
    ensures
        r@ == replace(s@, from@, to@),
{
    let v = chars_of(s);
    let f = chars_of(from);
    let mut r = String::new();
    let mut i: usize = 0;
    assert(v@.skip(0) =~= v@);
    assert(r@ + replace(v@.skip(0), from@, to@) =~= replace(s@, from@, to@));
    while i < v.len()
        invariant
            v@ == s@,
            f@ == from@,
            from@.len() > 0,
            i <= v@.len(),
            r@ + replace(v@.skip(i as int), from@, to@) == replace(s@, from@, to@),
        decreases v@.len() - i,
    {
        let ghost rest = v@.skip(i as int);
        let ghost done = r@;
        if occurs_at(&v, i, &f) {
            r.append(to);
            i += f.len();
            assert(rest.skip(from@.len() as int) =~= v@.skip(i as int));
            assert(r@ + replace(v@.skip(i as int), from@, to@) =~= done + replace(
                rest,
                from@,
                to@,
            ));
        } else {
            r.push(v[i]);
            i += 1;
            assert(rest.drop_first() =~= v@.skip(i as int));
            assert(r@ + replace(v@.skip(i as int), from@, to@) =~= done + replace(
                rest,
                from@,
                to@,
            ));
        }
    }
    assert(r@ =~= replace(s@, from@, to@));
    r
}

/// The first position of `c` in `s`, or the length of `s` if there is none.
pub open spec fn position(s: Text, c: char) -> int
    decreases s.len(),
{
    if s.len() == 0 || s[0] == c {
        0
    } else {
        1 + position(s.drop_first(), c)
    }
}

/// The text before the first `c` and the text after it.
pub open spec fn split_once(s: Text, c: char) -> Option<(Text, Text)> {
    let i = position(s, c);
    if i < s.len() {
        Some((s.take(i), s.skip(i + 1)))
    } else {
        None
    }
}

fn position_of(v: &Vec<char>, c: char) -> (i: usize)
    ensures
        i == position(v@, c),
        i <= v@.len(),
{
    let mut i: usize = 0;
    assert(v@.skip(0) =~= v@);
    while i < v.len() && v[i] != c
        invariant
            i <= v@.len(),
            position(v@, c) == i + position(v@.skip(i as int), c),
        decreases v@.len() - i,
    {
        assert(v@.skip(i as int).drop_first() =~= v@.skip(i + 1));
        i += 1;
    }
    i
}

/// `str::split_once` for a single character.
pub fn split_once_on(s: &str, c: char) -> (r: Option<(String, String)>)
    ensures
        r.deep_view() == split_once(s@, c),
{
    let v = chars_of(s);
    let i = position_of(&v, c);
    if i < v.len() {
        let a = string_of(&v, 0, i);
        let b = string_of(&v, i + 1, v.len());
        assert(a@ =~= s@.take(i as int));
        assert(b@ =~= s@.skip(i + 1));
        Some((a, b))
    } else {
        None
    }
}

/// The ASCII lower case of a character.
pub open spec fn lower(c: char) -> char {
    if 'A' <= c <= 'Z' {
        (c as u32 + 32) as char
    } else {
        c
    }
}

/// `s` in ASCII lower case.
pub open spec fn lowercase(s: Text) -> Text {
    s.map_values(|c: char| lower(c))
}

/// `str::to_ascii_lowercase`.
pub fn lowercase_of(s: &str) -> (r: String)
    ensures
        r@ == lowercase(s@),
{
    let mut r = String::new();
    for c in it: s.chars()
        invariant
            it.seq() == s@,
            r@ == lowercase(s@.take(it.index() as int)),
    {
        if 'A' <= c && c <= 'Z' {
            r.push((c as u8 + 32) as char);
        } else {
            r.push(c);
        }
        assert(r@ =~= lowercase(s@.take(it.index() as int + 1)));
    }
    assert(s@.take(s@.len() as int) =~= s@);
    r
}

/// `[String]::join`: the strings with `sep` between neighbours.
pub fn join_of(parts: &Vec<String>, sep: &str) -> (r: String)
    ensures
        r@ == join(parts.deep_view(), sep@),
{
    let ghost all = parts.deep_view();
    let mut r = String::new();
    let mut i: usize = 0;
    assert(r@ =~= join(all.take(0), sep@));
    while i < parts.len()
        invariant
            i <= parts@.len(),
            all == parts.deep_view(),
            r@ == join(all.take(i as int), sep@),
        decreases parts@.len() - i,
    {
        if i > 0 {
            r.append(sep);
        }
        r.append(parts[i].as_str());
        assert(all[i as int] == parts@[i as int]@);
        assert(all.take(i + 1).drop_last() =~= all.take(i as int));
        if i == 0 {
            assert(r@ =~= all[0]);
            assert(all.take(1)[0] == all[0]);
        }
        i += 1;
    }
    assert(all.take(all.len() as int) =~= all);
    r
}

/// Whether one of the strings holds the characters of `s`.
pub fn has_text(list: &Vec<String>, s: &str) -> (r: bool)
    ensures
        r == list.deep_view().contains(s@),
{
    let ghost all = list.deep_view();
    let mut i: usize = 0;
    while i < list.len()
        invariant
            i <= list@.len(),
            all == list.deep_view(),
            forall|j: int| 0 <= j < i ==> all[j] != s@,
        decreases list@.len() - i,
    {
        assert(all[i as int] == list@[i as int]@);
        if same(list[i].as_str(), s) {
            return true;
        }
        i += 1;
    }
    false
}

/// The list with `x` added at its end, unless it holds `x` already.
pub open spec fn with_text(list: Seq<Text>, x: Text) -> Seq<Text> {
    if list.contains(x) {
        list
    } else {
        list.push(x)
    }
}

/// A copy of a list of strings.
pub fn copy_texts(list: &Vec<String>) -> (r: Vec<String>)
    ensures
        r.deep_view() == list.deep_view(),
{
    let mut r: Vec<String> = Vec::new();
    let mut i: usize = 0;
    assert(r.deep_view() =~= list.deep_view().take(0));
    while i < list.len()
        invariant
            i <= list@.len(),
            r.deep_view() == list.deep_view().take(i as int),
        decreases list@.len() - i,
    {
        push_text(&mut r, list[i].clone());
        i += 1;
        assert(list.deep_view().take(i as int) =~= list.deep_view().take(i - 1).push(
            list.deep_view()[i - 1],
        ));
    }
    assert(list.deep_view().take(i as int) =~= list.deep_view());
    r
}

/// The decimal digit for `d`, which is below ten.
pub open spec fn digit(d: nat) -> char {
    (48 + d) as char
}

/// Decimal notation, without leading zeros.
pub open spec fn decimal(n: nat) -> Text
    decreases n,
{
    if n < 10 {
        seq![digit(n)]
    } else {
        decimal(n / 10).push(digit(n % 10))
    }
}

/// The decimal notation of `n`.
pub fn decimal_of(n: u32) -> (r: String)
    ensures
        r@ == decimal(n as nat),
    decreases n,
{
    let mut r = if n < 10 {
        String::new()
    } else {
        decimal_of(n / 10)
    };
    r.push((48u8 + (n % 10) as u8) as char);
    assert(r@ =~= decimal(n as nat));
    r
}

/// Whether `c` is an ASCII decimal digit.
pub open spec fn is_digit(c: char) -> bool {
    '0' <= c <= '9'
}

/// The number that a sequence of decimal digits denotes.
pub open spec fn value(digits: Text) -> nat
    decreases digits.len(),
{
    if digits.len() == 0 {
        0
    } else {
        value(digits.drop_last()) * 10 + (digits.last() as nat - 48) as nat
    }
}

/// `s` without the plus sign that it may start with.
pub open spec fn after_plus(s: Text) -> Text {
    if s.len() > 0 && s[0] == '+' {
        s.drop_first()
    } else {
        s
    }
}

/// What `str::parse::<u32>` gives: an optional plus sign and one or more
/// decimal digits denote a number, if it fits in 32 bits.
pub open spec fn parsed_u32(s: Text) -> Option<u32> {
    let digits = after_plus(s);
    if digits.len() > 0 && (forall|i: int| 0 <= i < digits.len() ==> is_digit(#[trigger] digits[i]))
        && value(digits) <= u32::MAX {
        Some(value(digits) as u32)
    } else {
        None
    }
}

/// `str::parse::<u32>`, with any error reported as `None`.
pub fn parse_u32(s: &str) -> (r: Option<u32>)
    ensures
        r == parsed_u32(s@),
{
    let v = chars_of(s);
    let start: usize = if v.len() > 0 && v[0] == '+' {
        1
    } else {
        0
    };
    let ghost digits = v@.skip(start as int);
    assert(start == 0 ==> digits =~= s@);
    assert(start == 1 ==> digits =~= s@.drop_first());
    if start == v.len() {
        return None;
    }
    let mut i: usize = start;
    let mut n: u64 = 0;
    let mut over = false;
    assert(digits.take(0).len() == 0);
    while i < v.len()
        invariant
            start <= i <= v@.len(),
            digits == v@.skip(start as int),
            digits == after_plus(s@),
            forall|j: int| 0 <= j < i - start ==> is_digit(#[trigger] digits[j]),
            !over ==> n == value(digits.take(i - start)) && n <= u32::MAX,
            over ==> value(digits.take(i - start)) > u32::MAX,
        decreases v@.len() - i,
    {
        let c = v[i];
        assert(digits[i - start] == c);
        if c < '0' || '9' < c {
            assert(!is_digit(digits[i - start]));
            return None;
        }
        let ghost t = digits.take(i - start + 1);
        assert(t.drop_last() =~= digits.take(i - start));
        assert(t.last() == c);
        assert(value(t) == value(digits.take(i - start)) * 10 + (c as nat - 48));
        if !over {
            n = n * 10 + (c as u64 - 48);
            if n > u32::MAX as u64 {
                over = true;
            }
        }
        i += 1;
    }
    assert(digits.take(digits.len() as int) =~= digits);
    if over {
        None
    } else {
        Some(n as u32)
    }
}

}
