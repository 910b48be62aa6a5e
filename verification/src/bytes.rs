//! Byte positions in strings.

use vstd::prelude::*;

use crate::text;
use crate::text::Text;

verus! {

/// The UTF-8 encoding of `s`.
pub open spec fn encoded(s: Text) -> Seq<u8> {
    vstd::utf8::encode_utf8(s)
}

/// Whether a character of `s` starts or ends at byte `i`.
pub open spec fn boundary(s: Text, i: int) -> bool {
    vstd::utf8::is_char_boundary(encoded(s), i)
}

/// The encoding of a concatenation is the concatenation of the encodings.
pub proof fn encoding_concatenates(a: Text, b: Text)
    ensures
        encoded(a + b) == encoded(a) + encoded(b),
    decreases a.len(),
{
    if a.len() == 0 {
        assert(a + b =~= b);
        assert(encoded(a) + encoded(b) =~= encoded(b));
    } else {
        assert((a + b).drop_first() =~= a.drop_first() + b);
        encoding_concatenates(a.drop_first(), b);
        assert(encoded(a + b) =~= encoded(a) + encoded(b));
    }
}

/// The end of a prefix is a character boundary.
pub proof fn prefix_ends_at_boundary(a: Text, b: Text)
    ensures
        boundary(a + b, encoded(a).len() as int),
    decreases a.len(),
{
    broadcast use vstd::utf8::encode_utf8_valid_utf8;

    if a.len() > 0 {
        let all = a + b;
        let bytes = encoded(all);
        encoding_concatenates(a, b);
        vstd::utf8::encode_utf8_first_scalar(all);
        assert(all.drop_first() =~= a.drop_first() + b);
        assert(vstd::utf8::pop_first_scalar(bytes) =~= encoded(all.drop_first()));
        prefix_ends_at_boundary(a.drop_first(), b);
    }
}

/// The characters that the bytes `from..to` of `s` encode, if both ends are
/// character boundaries of `s`.
pub open spec fn sliced(s: Text, from: int, to: int) -> Option<Text> {
    if from <= to && boundary(s, from) && boundary(s, to) {
        Some(vstd::utf8::decode_utf8(encoded(s).subrange(from, to)))
    } else {
        None
    }
}

/// A boundary lies within the bytes.
proof fn boundary_is_inside(bytes: Seq<u8>, i: int)
    requires
        vstd::utf8::valid_utf8(bytes),
        vstd::utf8::is_char_boundary(bytes, i),
    ensures
        0 <= i <= bytes.len(),
{
}

/// A boundary of the whole text behind `from` is a boundary of what starts at
/// `from`, counted from there.
proof fn boundary_in_rest(bytes: Seq<u8>, from: int, to: int)
    requires
        vstd::utf8::valid_utf8(bytes),
        vstd::utf8::is_char_boundary(bytes, from),
        vstd::utf8::is_char_boundary(bytes, to),
        from <= to,
    ensures
        vstd::utf8::is_char_boundary(bytes.subrange(from, bytes.len() as int), to - from),
    decreases bytes.len(),
{
    if from == 0 {
        assert(bytes.subrange(0, bytes.len() as int) =~= bytes);
    } else {
        let n = vstd::utf8::length_of_first_scalar(bytes);
        let rest = vstd::utf8::pop_first_scalar(bytes);
        assert(vstd::utf8::is_char_boundary(rest, from - n));
        boundary_is_inside(rest, from - n);
        boundary_in_rest(rest, from - n, to - n);
        assert(rest.subrange(from - n, rest.len() as int) =~= bytes.subrange(
            from,
            bytes.len() as int,
        ));
    }
}

/// `str::get` for a range of bytes.
pub fn slice_of(s: &str, from: usize, to: usize) -> (r: Option<String>)
    ensures
        r.deep_view() == sliced(s@, from as int, to as int),
{
    broadcast use vstd::utf8::encode_utf8_valid_utf8;
    broadcast use vstd::utf8::encode_utf8_decode_utf8;

    if from > to || !s.is_char_boundary(from) || !s.is_char_boundary(to) {
        return None;
    }
    let ghost bytes = encoded(s@);
    proof {
        boundary_is_inside(bytes, from as int);
        boundary_is_inside(bytes, to as int);
        boundary_in_rest(bytes, from as int, to as int);
    }
    let (_, rest) = s.split_at(from);
    let (mid, _) = rest.split_at(to - from);
    assert(encoded(mid@) =~= bytes.subrange(from as int, to as int));
    Some(mid.to_owned())
}

/// The first position of `p` in `s`, counted in characters.
pub open spec fn first_at(s: Text, p: Text) -> Option<int>
    decreases s.len(),
{
    if p.is_prefix_of(s) {
        Some(0)
    } else if s.len() == 0 {
        None
    } else {
        match first_at(s.drop_first(), p) {
            Some(i) => Some(i + 1),
            None => None,
        }
    }
}

/// The first position of `p` in `s`, counted in bytes.
pub open spec fn found(s: Text, p: Text) -> Option<nat> {
    match first_at(s, p) {
        Some(i) => Some(encoded(s.take(i)).len()),
        None => None,
    }
}

/// `str::find` for a string.
pub fn find(s: &str, p: &str) -> (r: Option<usize>)
    ensures
        match r {
            Some(i) => found(s@, p@) == Some(i as nat),
            None => found(s@, p@) is None,
        },
{
    let v = text::chars_of(s);
    let q = text::chars_of(p);
    let mut i: usize = 0;
    assert(v@.skip(0) =~= v@);
    loop
        invariant
            v@ == s@,
            q@ == p@,
            i <= v@.len(),
            first_at(s@, p@) == (match first_at(s@.skip(i as int), p@) {
                Some(k) => Some(i + k),
                None => None,
            }),
        decreases v@.len() - i,
    {
        if text::occurs_at(&v, i, &q) {
            let before = s.substring_char(0, i);
            assert(s@.take(i as int) =~= before@);
            return Some(before.as_bytes().len());
        }
        if i == v.len() {
            return None;
        }
        assert(s@.skip(i as int).drop_first() =~= s@.skip(i + 1));
        i += 1;
    }
}

}
