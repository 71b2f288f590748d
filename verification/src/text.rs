//! Small helpers over strings and source bytes.

use vstd::prelude::*;
use vstd::string::*;
use vstd::utf8::{decode_utf8, encode_utf8_decode_utf8, is_char_boundary};

verus! {

/// Whether two string slices hold the same characters.
pub fn str_equals(a: &str, b: &str) -> (same: bool)
    ensures
        same == (a@ == b@),
{
    let left = a.to_owned();
    let right = b.to_owned();
    left == right
}

/// `first` and `second`, one after the other.
pub fn join(first: &str, second: &str) -> (joined: String)
    ensures
        joined@ == first@ + second@,
{
    let mut joined = first.to_owned();
    joined.append(second);
    joined
}

/// The line feed.
pub const LINE_FEED: u8 = 0x0A;

/// The slash that, doubled, opens a line comment.
pub const SLASH: u8 = 0x2F;

/// Where the line that holds the offset `from` ends: the offset of the first
/// line feed at or after `from`, or the length of the text.
pub open spec fn spec_line_end(source: Seq<u8>, from: int) -> int
    decreases source.len() - from,
{
    if from < 0 || from >= source.len() {
        source.len() as int
    } else if source[from] == LINE_FEED {
        from
    } else {
        spec_line_end(source, from + 1)
    }
}

/// Where the line that holds the offset `from` ends.
pub fn line_end(source: &[u8], from: usize) -> (end: usize)
    requires
        from <= source@.len(),
    ensures
        end == spec_line_end(source@, from as int),
        from <= end <= source@.len(),
{
    let mut i = from;
    while i < source.len()
        invariant
            from <= i <= source@.len(),
            spec_line_end(source@, from as int) == spec_line_end(source@, i as int),
        decreases source@.len() - i,
    {
        if source[i] == LINE_FEED {
            return i;
        }
        i += 1;
    }
    i
}

/// Where the first `//` begins that lies wholly within `from..to`.
pub open spec fn spec_find_line_comment(source: Seq<u8>, from: int, to: int) -> Option<int>
    decreases to - from,
{
    if from < 0 || from + 1 >= to || to > source.len() {
        None
    } else if source[from] == SLASH && source[from + 1] == SLASH {
        Some(from)
    } else {
        spec_find_line_comment(source, from + 1, to)
    }
}

/// Where the first `//` begins that lies wholly within `from..to`.
pub fn find_line_comment(source: &[u8], from: usize, to: usize) -> (found: Option<usize>)
    requires
        from <= to <= source@.len(),
    ensures
        match found {
            Some(at) => spec_find_line_comment(source@, from as int, to as int) == Some(at as int)
                && from <= at && at + 1 < to,
            None => spec_find_line_comment(source@, from as int, to as int) is None,
        },
{
    let mut i = from;
    while i < to && to - i > 1
        invariant
            from <= i <= to <= source@.len(),
            spec_find_line_comment(source@, from as int, to as int) == spec_find_line_comment(
                source@,
                i as int,
                to as int,
            ),
        decreases to - i,
    {
        if source[i] == SLASH && source[i + 1] == SLASH {
            return Some(i);
        }
        i += 1;
    }
    None
}

/// The number of bytes that the white-space character at `at` takes in
/// UTF-8, where one begins there and ends before `to`; 0 where none does.
/// White space is what Unicode gives the property `White_Space`: the ASCII
/// controls from tab to carriage return and the space, U+0085, U+00A0,
/// U+1680, U+2000 to U+200A, U+2028, U+2029, U+202F, U+205F and U+3000.
pub open spec fn spec_white_space_at(source: Seq<u8>, at: int, to: int) -> nat {
    if at < 0 || at >= to || to > source.len() {
        0
    } else if (0x09 <= source[at] <= 0x0D) || source[at] == 0x20 {
        1
    } else if at + 1 < to && source[at] == 0xC2 && (source[at + 1] == 0x85 || source[at + 1]
        == 0xA0) {
        2
    } else if at + 2 < to && source[at] == 0xE1 && source[at + 1] == 0x9A && source[at + 2]
        == 0x80 {
        3
    } else if at + 2 < to && source[at] == 0xE2 && source[at + 1] == 0x80 && ((0x80 <= source[at
        + 2] <= 0x8A) || source[at + 2] == 0xA8 || source[at + 2] == 0xA9 || source[at + 2]
        == 0xAF) {
        3
    } else if at + 2 < to && source[at] == 0xE2 && source[at + 1] == 0x81 && source[at + 2]
        == 0x9F {
        3
    } else if at + 2 < to && source[at] == 0xE3 && source[at + 1] == 0x80 && source[at + 2]
        == 0x80 {
        3
    } else {
        0
    }
}

/// The number of bytes of the white-space character at `at`, 0 for none.
pub fn white_space_at(source: &[u8], at: usize, to: usize) -> (length: usize)
    requires
        at <= to <= source@.len(),
    ensures
        length == spec_white_space_at(source@, at as int, to as int),
        at + length <= to,
{
    if at >= to {
        return 0;
    }
    let first = source[at];
    if (0x09 <= first && first <= 0x0D) || first == 0x20 {
        return 1;
    }
    if to - at >= 2 && first == 0xC2 && (source[at + 1] == 0x85 || source[at + 1] == 0xA0) {
        return 2;
    }
    if to - at >= 3 {
        let second = source[at + 1];
        let third = source[at + 2];
        if first == 0xE1 && second == 0x9A && third == 0x80 {
            return 3;
        }
        if first == 0xE2 && second == 0x80 && ((0x80 <= third && third <= 0x8A) || third == 0xA8
            || third == 0xA9 || third == 0xAF) {
            return 3;
        }
        if first == 0xE2 && second == 0x81 && third == 0x9F {
            return 3;
        }
        if first == 0xE3 && second == 0x80 && third == 0x80 {
            return 3;
        }
    }
    0
}

/// The bytes of `from..to` are white-space characters, one after another.
pub open spec fn spec_is_white_space(source: Seq<u8>, from: int, to: int) -> bool
    decreases to - from,
{
    if from >= to {
        from == to
    } else {
        spec_white_space_at(source, from, to) > 0 && spec_is_white_space(
            source,
            from + spec_white_space_at(source, from, to),
            to,
        )
    }
}

/// Whether the bytes of `from..to` are white space throughout.
pub fn is_white_space(source: &[u8], from: usize, to: usize) -> (blank: bool)
    requires
        from <= to <= source@.len(),
    ensures
        blank == spec_is_white_space(source@, from as int, to as int),
{
    let mut i = from;
    while i < to
        invariant
            from <= i <= to <= source@.len(),
            spec_is_white_space(source@, from as int, to as int) == spec_is_white_space(
                source@,
                i as int,
                to as int,
            ),
        decreases to - i,
    {
        let length = white_space_at(source, i, to);
        if length == 0 {
            return false;
        }
        i += length;
    }
    true
}

/// `needle` stands in `source` at the offset `at`.
pub open spec fn spec_stands_at(source: Seq<u8>, at: int, needle: Seq<u8>) -> bool {
    0 <= at && at + needle.len() <= source.len() && source.subrange(at, at + needle.len())
        == needle
}

/// Whether `needle` stands in `source` at the offset `at`.
pub fn stands_at(source: &[u8], at: usize, needle: &[u8]) -> (found: bool)
    ensures
        found == spec_stands_at(source@, at as int, needle@),
{
    if at > source.len() || needle.len() > source.len() - at {
        return false;
    }
    let mut i: usize = 0;
    while i < needle.len()
        invariant
            i <= needle@.len(),
            at + needle@.len() <= source@.len() <= usize::MAX,
            forall|k: int| 0 <= k < i ==> source@[at + k] == needle@[k],
        decreases needle.len() - i,
    {
        if source[at + i] != needle[i] {
            assert(source@.subrange(at as int, at + needle@.len())[i as int] != needle@[i as int]);
            return false;
        }
        i += 1;
    }
    assert(source@.subrange(at as int, at + needle@.len()) =~= needle@);
    true
}

/// Where `needle` first stands wholly within `from..to`.
pub open spec fn spec_find(source: Seq<u8>, from: int, to: int, needle: Seq<u8>) -> Option<int>
    decreases to - from,
{
    if from < 0 || from + needle.len() > to || to > source.len() {
        None
    } else if spec_stands_at(source, from, needle) {
        Some(from)
    } else if from >= to {
        None
    } else {
        spec_find(source, from + 1, to, needle)
    }
}

/// Where `needle` first stands wholly within `from..to`.
pub fn find(source: &[u8], from: usize, to: usize, needle: &[u8]) -> (found: Option<usize>)
    ensures
        match found {
            Some(at) => spec_find(source@, from as int, to as int, needle@) == Some(at as int)
                && from <= at && at + needle@.len() <= to,
            None => spec_find(source@, from as int, to as int, needle@) is None,
        },
{
    if to > source.len() || from > to {
        return None;
    }
    let mut i = from;
    while i < to
        invariant
            from <= i <= to <= source@.len(),
            spec_find(source@, from as int, to as int, needle@) == spec_find(
                source@,
                i as int,
                to as int,
                needle@,
            ),
        decreases to - i,
    {
        if needle.len() > to - i {
            return None;
        }
        if stands_at(source, i, needle) {
            return Some(i);
        }
        i += 1;
    }
    if needle.len() == 0 && stands_at(source, i, needle) {
        return Some(i);
    }
    None
}

/// The bytes `start..end` of a text can be cut out as a text of their own:
/// the range lies in the text and splits no character.
pub open spec fn spec_is_sliceable(bytes: Seq<u8>, start: int, end: int) -> bool {
    &&& 0 <= start <= end <= bytes.len()
    &&& is_char_boundary(bytes, end)
    &&& is_char_boundary(bytes.subrange(0, end), start)
}

/// The text that the bytes `start..end` of a text spell.
pub open spec fn spec_slice(bytes: Seq<u8>, start: int, end: int) -> Seq<char> {
    decode_utf8(bytes.subrange(start, end))
}

/// The part of `source` that its bytes `start..end` spell, or `None` where
/// the range reaches outside the text or splits a character.
pub fn slice(source: &str, start: usize, end: usize) -> (part: Option<&str>)
    ensures
        match part {
            Some(text) => spec_is_sliceable(source.spec_bytes(), start as int, end as int)
                && text@ == spec_slice(source.spec_bytes(), start as int, end as int),
            None => !spec_is_sliceable(source.spec_bytes(), start as int, end as int),
        },
{
    if start > end || end > source.as_bytes().len() {
        return None;
    }
    if !source.is_char_boundary(end) {
        return None;
    }
    let (head, _) = source.split_at(end);
    if !head.is_char_boundary(start) {
        return None;
    }
    let (_, text) = head.split_at(start);
    proof {
        assert(head.spec_bytes().subrange(start as int, head.spec_bytes().len() as int)
            =~= source.spec_bytes().subrange(start as int, end as int));
        encode_utf8_decode_utf8(text@);
    }
    Some(text)
}

} // verus!
