//! What the operations on text promise.

use vstd::prelude::*;

use crate::bytes;
use crate::text;
use crate::text::Text;
use crate::text::Trimmed;

verus! {

/// Whether all characters of the text are of the kind that is trimmed.
pub open spec fn is_all(s: Text, what: Trimmed) -> bool {
    forall|i: int| 0 <= i < s.len() ==> text::is_trimmed(what, #[trigger] s[i])
}

proof fn front_is_cut(s: Text, what: Trimmed)
    ensures
        text::trim_front(s, what).len() <= s.len(),
        text::trim_front(s, what) == s.skip(s.len() - text::trim_front(s, what).len()),
        is_all(s.take(s.len() - text::trim_front(s, what).len()), what),
        text::trim_front(s, what).len() > 0 ==> !text::is_trimmed(
            what,
            text::trim_front(s, what)[0],
        ),
    decreases s.len(),
{
    let r = text::trim_front(s, what);
    if s.len() > 0 && text::is_trimmed(what, s[0]) {
        let rest = s.drop_first();
        front_is_cut(rest, what);
        let n = s.len() - r.len();
        assert(s.skip(n) =~= rest.skip(n - 1));
        assert forall|i: int| 0 <= i < n implies text::is_trimmed(what, #[trigger] s.take(n)[i]) by {
            if i > 0 {
                assert(rest.take(n - 1)[i - 1] == s[i]);
            }
        }
    } else {
        assert(s.skip(0) =~= s);
    }
}

proof fn back_is_cut(s: Text, what: Trimmed)
    ensures
        text::trim_back(s, what).len() <= s.len(),
        text::trim_back(s, what) == s.take(text::trim_back(s, what).len() as int),
        is_all(s.skip(text::trim_back(s, what).len() as int), what),
        text::trim_back(s, what).len() > 0 ==> !text::is_trimmed(
            what,
            text::trim_back(s, what).last(),
        ),
    decreases s.len(),
{
    let r = text::trim_back(s, what);
    let n = r.len() as int;
    if s.len() > 0 && text::is_trimmed(what, s.last()) {
        let less = s.drop_last();
        back_is_cut(less, what);
        assert(s.take(n) =~= less.take(n));
        assert forall|i: int| 0 <= i < s.len() - n implies text::is_trimmed(
            what,
            #[trigger] s.skip(n)[i],
        ) by {
            if i < less.len() - n {
                assert(less.skip(n)[i] == s.skip(n)[i]);
            }
        }
    } else {
        assert(s.take(s.len() as int) =~= s);
    }
}

/// Whether the second text is the first without the characters of the kind around
/// it: those alone are cut off at both ends, and none is left there.
pub open spec fn is_cut_out(s: Text, middle: Text, what: Trimmed) -> bool {
    &&& exists|front: Text, back: Text|
        s == #[trigger] (front + middle + back) && is_all(front, what) && is_all(back, what)
    &&& middle.len() > 0 ==> !text::is_trimmed(what, middle[0]) && !text::is_trimmed(
        what,
        middle.last(),
    )
}

proof fn both_ends_are_cut(s: Text, what: Trimmed)
    ensures
        is_cut_out(s, text::trim_back(text::trim_front(s, what), what), what),
{
    let a = text::trim_front(s, what);
    let b = text::trim_back(a, what);
    front_is_cut(s, what);
    back_is_cut(a, what);
    let front = s.take(s.len() - a.len());
    let back = a.skip(b.len() as int);
    assert(s =~= front + b + back);
    if b.len() > 0 {
        assert(b[0] == a[0]);
    }
}

/// Trimming cuts off white space at both ends, and nothing else; taking quotes off
/// does so with double quotes.
pub proof fn trimming_cuts_both_ends(s: Text)
    ensures
        is_cut_out(s, text::trim(s), Trimmed::Space),
        is_cut_out(s, text::unquoted(s), Trimmed::Quote),
        exists|front: Text| s == #[trigger] (front + text::trim_start(s)) && is_all(
            front,
            Trimmed::Space,
        ),
        text::trim_start(s).len() > 0 ==> !text::is_space(text::trim_start(s)[0]),
{
    both_ends_are_cut(s, Trimmed::Space);
    both_ends_are_cut(s, Trimmed::Quote);
    front_is_cut(s, Trimmed::Space);
    let r = text::trim_start(s);
    let front = s.take(s.len() - r.len());
    assert(s =~= front + r);
}

/// Whether no character of the text is ASCII white space.
pub open spec fn is_word(s: Text) -> bool {
    s.len() > 0 && forall|i: int| 0 <= i < s.len() ==> !text::is_ascii_space(#[trigger] s[i])
}

/// The words of a text are not empty, hold no white space, and together are the
/// text without its white space.
pub proof fn words_are_what_is_left(s: Text)
    ensures
        forall|i: int| 0 <= i < text::words(s).len() ==> is_word(#[trigger] text::words(s)[i]),
        text::join(text::words(s), Seq::empty()) == s.filter(
            |c: char| !text::is_ascii_space(c),
        ),
        s.len() > 0 && !text::is_ascii_space(s.last()) ==> text::words(s).len() > 0,
    decreases s.len(),
{
    reveal(Seq::filter);
    let none = Seq::<char>::empty();
    let keep = |c: char| !text::is_ascii_space(c);
    let words = text::words(s);
    if s.len() > 0 {
        let less = s.drop_last();
        words_are_what_is_left(less);
        let before = text::words(less);
        if text::is_ascii_space(s.last()) {
        } else if s.len() == 1 || text::is_ascii_space(s[s.len() - 2]) {
            assert(words == before.push(seq![s.last()]));
            assert(words.drop_last() =~= before);
            assert(text::join(words, none) =~= text::join(before, none).push(s.last()));
        } else {
            assert(less.last() == s[s.len() - 2]);
            let last = before.last();
            assert(words == before.drop_last().push(last.push(s.last())));
            assert(words.drop_last() =~= before.drop_last());
            assert(is_word(before[before.len() - 1]));
            assert(text::join(words, none) =~= text::join(before, none).push(s.last()));
        }
        assert forall|i: int| 0 <= i < words.len() implies is_word(#[trigger] words[i]) by {
            if i < words.len() - 1 {
                if text::is_ascii_space(s.last()) {
                } else {
                    assert(words[i] == before[i]);
                }
            }
        }
    }
}

/// White space parts words: those in front of it come first, then those behind it.
pub proof fn space_parts_words(a: Text, c: char, b: Text)
    requires
        text::is_ascii_space(c),
    ensures
        text::words(a + seq![c] + b) == text::words(a) + text::words(b),
    decreases b.len(),
{
    let all = a + seq![c] + b;
    if b.len() == 0 {
        assert(all.drop_last() =~= a);
        assert(text::words(b) =~= Seq::<Text>::empty());
        assert(text::words(a) + text::words(b) =~= text::words(a));
    } else {
        let less = b.drop_last();
        space_parts_words(a, c, less);
        assert(all.drop_last() =~= a + seq![c] + less);
        assert(all.last() == b.last());
        words_are_what_is_left(less);
        if text::is_ascii_space(b.last()) {
        } else if b.len() == 1 {
            assert(all[all.len() - 2] == c);
            assert(text::words(less) =~= Seq::<Text>::empty());
            assert(text::words(all) =~= text::words(a) + text::words(b));
        } else {
            assert(all[all.len() - 2] == b[b.len() - 2]);
            assert(less.last() == b[b.len() - 2]);
            assert(text::words(all) =~= text::words(a) + text::words(b));
        }
    }
}

/// The lines of a text without carriage returns give the text back: joined by line
/// feeds, with one more at the end if the text ends in one. None of them holds one.
pub proof fn lines_give_the_text_back(s: Text)
    requires
        !s.contains('\r'),
    ensures
        s.len() == 0 ==> text::lines(s).len() == 0,
        s.len() > 0 && s.last() != '\n' ==> text::join(text::lines(s), seq!['\n']) == s,
        s.len() > 0 && s.last() == '\n' ==> text::join(text::lines(s), seq!['\n']).push('\n') == s,
        forall|i: int|
            0 <= i < text::lines(s).len() ==> !(#[trigger] text::lines(s)[i]).contains('\n'),
{
    let pieces = text::split(s, '\n');
    text::split_is_not_empty(s, '\n');
    text::split_then_join(s, '\n');
    pieces_lack(s, '\n', '\r');
    let lines = text::lines(s);
    let ended = pieces.drop_last().map_values(|p: Text| text::without_cr(p));
    assert(ended =~= pieces.drop_last()) by {
        assert forall|i: int| 0 <= i < ended.len() implies ended[i] == pieces[i] by {
            assert(!pieces[i].contains('\r'));
            if pieces[i].len() > 0 {
                assert(pieces[i].contains(pieces[i].last()));
            }
        }
    }
    let feed = seq!['\n'];
    if s.len() > 0 {
        if s.last() == '\n' {
            assert(pieces.last().len() == 0);
            assert(lines =~= pieces.drop_last());
            text::split_is_not_empty(s.drop_last(), '\n');
            assert(pieces.last() =~= Seq::<char>::empty());
            assert(text::join(pieces, feed) =~= text::join(lines, feed).push('\n'));
        } else {
            assert(pieces.last().len() > 0);
            assert(lines =~= pieces);
        }
    } else {
        assert(pieces.drop_last() =~= Seq::<Text>::empty());
        assert(lines =~= Seq::<Text>::empty());
    }
    assert forall|i: int| 0 <= i < lines.len() implies !(#[trigger] lines[i]).contains('\n') by {
        assert(lines[i] == pieces[i]);
    }
}

proof fn pieces_lack(s: Text, sep: char, c: char)
    requires
        !s.contains(c),
    ensures
        forall|i: int|
            0 <= i < text::split(s, sep).len() ==> !(#[trigger] text::split(s, sep)[i]).contains(c),
    decreases s.len(),
{
    let pieces = text::split(s, sep);
    if s.len() == 0 {
        assert forall|i: int| 0 <= i < pieces.len() implies !(#[trigger] pieces[i]).contains(c) by {
            assert(pieces[i] =~= Seq::<char>::empty());
        }
    } else {
        let less = s.drop_last();
        assert(!less.contains(c)) by {
            if less.contains(c) {
                let i = choose|i: int| 0 <= i < less.len() && less[i] == c;
                assert(s[i] == c);
            }
        }
        assert(s.contains(s[s.len() - 1]));
        pieces_lack(less, sep, c);
        text::split_is_not_empty(less, sep);
        let before = text::split(less, sep);
        assert forall|i: int| 0 <= i < pieces.len() implies !(#[trigger] pieces[i]).contains(c) by {
            if i < pieces.len() - 1 {
                assert(pieces[i] == before[i]);
            } else if s.last() == sep {
                assert(pieces[i] =~= Seq::<char>::empty());
            } else {
                let last = before.last();
                assert(!before[before.len() - 1].contains(c));
                assert(pieces[i] == last.push(s.last()));
                if pieces[i].contains(c) {
                    let k = choose|k: int| 0 <= k < pieces[i].len() && pieces[i][k] == c;
                    if k < last.len() {
                        assert(last[k] == c);
                    }
                }
            }
        }
    }
}

/// A carriage return before a line feed belongs to the end of the line.
pub proof fn carriage_returns_end_lines_too(line: Text)
    requires
        !line.contains('\n'),
    ensures
        text::lines(line + seq!['\r', '\n']) == seq![line],
        text::lines(line + seq!['\n']) == seq![
            if line.len() > 0 && line.last() == '\r' {
                line.drop_last()
            } else {
                line
            },
        ],
{
    one_line(line);
    let longer = line.push('\r');
    assert(!longer.contains('\n')) by {
        if longer.contains('\n') {
            let i = choose|i: int| 0 <= i < longer.len() && longer[i] == '\n';
            assert(line[i] == '\n');
        }
    }
    one_line(longer);
    assert(line + seq!['\r', '\n'] =~= longer + seq!['\n']);
    assert(longer.drop_last() =~= line);
}

proof fn one_line(line: Text)
    requires
        !line.contains('\n'),
    ensures
        text::lines(line + seq!['\n']) == seq![text::without_cr(line)],
{
    let parts = seq![line, Seq::<char>::empty()];
    text::join_then_split(parts, '\n');
    assert(parts.drop_last() =~= seq![line]);
    assert(text::join(parts.drop_last(), seq!['\n']) == line);
    assert(text::join(parts, seq!['\n']) =~= line + seq!['\n']);
    assert(text::lines(line + seq!['\n']) =~= seq![text::without_cr(line)]);
}

/// A text is split at the first of the characters: none stands in front of it. It
/// is split exactly if there is one.
pub proof fn text_is_split_at_the_first(s: Text, c: char)
    ensures
        text::split_once(s, c) is Some <==> s.contains(c),
        text::split_once(s, c) matches Some((a, b)) ==> s == a + seq![c] + b && !a.contains(c),
{
    first_position(s, c);
    let i = text::position(s, c);
    if i < s.len() {
        assert(s[i] == c);
        assert(s =~= s.take(i) + seq![c] + s.skip(i + 1));
        assert(!s.take(i).contains(c)) by {
            if s.take(i).contains(c) {
                let k = choose|k: int| 0 <= k < i && s.take(i)[k] == c;
                assert(s[k] == c);
            }
        }
    } else if s.contains(c) {
        let k = choose|k: int| 0 <= k < s.len() && s[k] == c;
        assert(s[k] != c);
    }
}

proof fn first_position(s: Text, c: char)
    ensures
        0 <= text::position(s, c) <= s.len(),
        text::position(s, c) < s.len() ==> s[text::position(s, c)] == c,
        forall|i: int| 0 <= i < text::position(s, c) ==> s[i] != c,
    decreases s.len(),
{
    if s.len() > 0 && s[0] != c {
        first_position(s.drop_first(), c);
        assert forall|i: int| 0 <= i < text::position(s, c) implies s[i] != c by {
            if i > 0 {
                assert(s.drop_first()[i - 1] == s[i]);
            }
        }
    }
}

/// A prefix is taken off exactly if it is there, and nothing else is.
pub proof fn prefix_is_taken_off(s: Text, p: Text, rest: Text)
    ensures
        text::after_prefix(s, p) == Some(rest) <==> s == p + rest,
{
    if p.is_prefix_of(s) {
        assert(s =~= p + s.skip(p.len() as int));
    }
    if s == p + rest {
        assert(p =~= s.subrange(0, p.len() as int));
        assert(s.skip(p.len() as int) =~= rest);
    }
}

/// A number is read back from its decimal notation, with or without a plus sign.
pub proof fn numbers_are_read_back(n: u32)
    ensures
        text::parsed_u32(text::decimal(n as nat)) == Some(n),
        text::parsed_u32(seq!['+'] + text::decimal(n as nat)) == Some(n),
{
    let d = text::decimal(n as nat);
    digits_denote(n as nat);
    assert(text::after_plus(d) == d) by {
        assert(text::is_digit(d[0]));
    }
    assert((seq!['+'] + d).drop_first() =~= d);
}

proof fn digits_denote(n: nat)
    ensures
        text::decimal(n).len() > 0,
        forall|i: int|
            0 <= i < text::decimal(n).len() ==> text::is_digit(#[trigger] text::decimal(n)[i]),
        text::value(text::decimal(n)) == n,
    decreases n,
{
    let d = text::decimal(n);
    if n < 10 {
        assert(d =~= seq![text::digit(n)]);
        assert(d.drop_last() =~= Seq::<char>::empty());
        assert(text::value(d.drop_last()) == 0);
        assert(d.last() as nat == 48 + n);
    } else {
        digits_denote(n / 10);
        let less = text::decimal(n / 10);
        assert(d.drop_last() =~= less);
        assert(d.last() as nat == 48 + n % 10);
        assert forall|i: int| 0 <= i < d.len() implies text::is_digit(#[trigger] d[i]) by {
            if i < less.len() {
                assert(d[i] == less[i]);
            }
        }
    }
}

/// Where nothing is found, nothing is replaced; what is found first is replaced,
/// and the search goes on behind it.
pub proof fn first_find_is_replaced(a: Text, from: Text, b: Text, to: Text)
    requires
        from.len() > 0,
        forall|i: int| 0 <= i < a.len() ==> !from.is_prefix_of(#[trigger] (a + from + b).skip(i)),
    ensures
        text::replace(a + from + b, from, to) == a + to + text::replace(b, from, to),
    decreases a.len(),
{
    let s = a + from + b;
    if a.len() == 0 {
        assert(from =~= s.subrange(0, from.len() as int));
        assert(s.skip(from.len() as int) =~= b);
        assert(a + to + text::replace(b, from, to) =~= to + text::replace(b, from, to));
    } else {
        let rest = a.drop_first();
        assert(s.drop_first() =~= rest + from + b);
        assert(s.skip(0) =~= s);
        assert(!from.is_prefix_of(s.skip(0)));
        assert forall|i: int| 0 <= i < rest.len() implies !from.is_prefix_of(
            #[trigger] (rest + from + b).skip(i),
        ) by {
            assert((rest + from + b).skip(i) =~= s.skip(i + 1));
        }
        first_find_is_replaced(rest, from, b, to);
        assert(seq![s[0]] + (rest + to + text::replace(b, from, to)) =~= a + to + text::replace(
            b,
            from,
            to,
        ));
    }
}

/// A text without the word is left alone.
pub proof fn nothing_is_replaced_without_a_find(s: Text, from: Text, to: Text)
    requires
        from.len() > 0,
        !text::occurs(s, from),
    ensures
        text::replace(s, from, to) == s,
    decreases s.len(),
{
    if s.len() > 0 {
        assert(s.skip(0) =~= s);
        assert(!from.is_prefix_of(s.skip(0)));
        let rest = s.drop_first();
        assert(!text::occurs(rest, from)) by {
            if text::occurs(rest, from) {
                let i = choose|i: int|
                    0 <= i <= rest.len() && from.is_prefix_of(#[trigger] rest.skip(i));
                assert(rest.skip(i) =~= s.skip(i + 1));
                assert(from.is_prefix_of(s.skip(i + 1)));
            }
        }
        nothing_is_replaced_without_a_find(rest, from, to);
        assert(seq![s[0]] + rest =~= s);
    }
}

/// A word is found at the byte where its first occurrence starts.
pub proof fn first_occurrence_is_found(a: Text, p: Text, b: Text)
    requires
        forall|i: int| 0 <= i < a.len() ==> !p.is_prefix_of(#[trigger] (a + p + b).skip(i)),
    ensures
        bytes::found(a + p + b, p) == Some(bytes::encoded(a).len()),
{
    let s = a + p + b;
    found_behind(a, p, b);
    assert(s.take(a.len() as int) =~= a);
}

proof fn found_behind(a: Text, p: Text, b: Text)
    requires
        forall|i: int| 0 <= i < a.len() ==> !p.is_prefix_of(#[trigger] (a + p + b).skip(i)),
    ensures
        bytes::first_at(a + p + b, p) == Some(a.len() as int),
    decreases a.len(),
{
    let s = a + p + b;
    if a.len() == 0 {
        assert(p =~= s.subrange(0, p.len() as int));
    } else {
        let rest = a.drop_first();
        assert(s.drop_first() =~= rest + p + b);
        assert(s.skip(0) =~= s);
        assert(!p.is_prefix_of(s.skip(0)));
        assert forall|i: int| 0 <= i < rest.len() implies !p.is_prefix_of(
            #[trigger] (rest + p + b).skip(i),
        ) by {
            assert((rest + p + b).skip(i) =~= s.skip(i + 1));
        }
        found_behind(rest, p, b);
    }
}

/// The bytes of a part of a text are the part: a slice from where it starts to
/// where it ends gives it.
pub proof fn slice_gives_the_part(a: Text, part: Text, b: Text)
    ensures
        bytes::sliced(
            a + part + b,
            bytes::encoded(a).len() as int,
            bytes::encoded(a).len() + bytes::encoded(part).len() as int,
        ) == Some(part),
{
    let s = a + part + b;
    let from = bytes::encoded(a).len() as int;
    let to = from + bytes::encoded(part).len();
    bytes::encoding_concatenates(a, part);
    bytes::encoding_concatenates(a + part, b);
    assert(a + (part + b) =~= s);
    bytes::prefix_ends_at_boundary(a, part + b);
    bytes::prefix_ends_at_boundary(a + part, b);
    assert(bytes::encoded(s).subrange(from, to) =~= bytes::encoded(part));
    vstd::utf8::encode_utf8_decode_utf8(part);
}

}
