//! Paths: how an address and an address pattern fall into their parts.
//!
//! Both are written as one or more parts, each led by a `/`. A part is never
//! empty, and some characters may not stand in it: fewer for a pattern than
//! for an address, whose parts must be free of everything that the pattern
//! grammar gives a meaning to.

use crate::text::{find_any, first_of, join, lemma_first_of, text_of, texts};
use vstd::prelude::*;

verus! {

/// The characters that end a part of a pattern: white space and `/`.
pub const PATTERN_STOPS: [char; 5] = [' ', '\n', '\t', '\r', '/'];

/// The characters that end a part of an address: white space, `/`, and
/// the characters that are reserved for patterns.
pub const ADDRESS_STOPS: [char; 13] = [
    ' ',
    '\t',
    '\r',
    '\n',
    '#',
    '*',
    ',',
    '/',
    '?',
    '[',
    ']',
    '{',
    '}',
];

/// Where the part that the `/` at `start` leads ends, if there is such a
/// part: `start` must hold a `/`, and at least one character that is none
/// of `stops` must follow it.
pub open spec fn part_end(s: Seq<char>, start: int, stops: Seq<char>) -> Option<int> {
    if 0 <= start < s.len() && s[start] == '/' && first_of(s, start + 1, stops) > start + 1 {
        Some(first_of(s, start + 1, stops))
    } else {
        None
    }
}

/// The parts of `s` from `start` on, if `s` is made of nothing but parts
/// from there to its end.
pub open spec fn parts_from(s: Seq<char>, start: int, stops: Seq<char>) -> Option<Seq<Seq<char>>>
    decreases s.len() - start,
{
    match part_end(s, start, stops) {
        None => None,
        Some(end) => {
            let part = s.subrange(start + 1, end);
            if end >= s.len() {
                Some(seq![part])
            } else {
                match parts_from(s, end, stops) {
                    None => None,
                    Some(rest) => Some(seq![part] + rest),
                }
            }
        },
    }
}

/// The parts of a path, or `None` where `s` is not a path: where it is
/// empty, does not begin with `/`, has an empty part, or holds one of
/// `stops` other than a `/` that leads a part.
pub open spec fn parts(s: Seq<char>, stops: Seq<char>) -> Option<Seq<Seq<char>>> {
    parts_from(s, 0, stops)
}

/// Whether `s` from `start` on is written as a path: a `/` stands at
/// `start`, every `/` is followed by a character that is no `/`, and of
/// `stops` nothing but `/` occurs.
pub open spec fn is_path_from(s: Seq<char>, start: int, stops: Seq<char>) -> bool {
    &&& 0 <= start < s.len()
    &&& s[start] == '/'
    &&& forall|i: int|
        start <= i < s.len() && #[trigger] s[i] == '/' ==> i + 1 < s.len() && s[i + 1] != '/'
    &&& forall|i: int| start <= i < s.len() && stops.contains(#[trigger] s[i]) ==> s[i] == '/'
}

/// Whether `s` is written as a path.
pub open spec fn is_path(s: Seq<char>, stops: Seq<char>) -> bool {
    is_path_from(s, 0, stops)
}

/// A text has parts exactly where it is written as a path.
pub proof fn lemma_parts_iff_path(s: Seq<char>, start: int, stops: Seq<char>)
    requires
        stops.contains('/'),
        0 <= start <= s.len(),
    ensures
        parts_from(s, start, stops) is Some <==> is_path_from(s, start, stops),
    decreases s.len() - start,
{
    if start < s.len() && s[start] == '/' {
        let end = first_of(s, start + 1, stops);
        lemma_first_of(s, start + 1, stops);
        if end == start + 1 {
            assert(part_end(s, start, stops) is None);
            if end < s.len() {
                assert(stops.contains(s[end]));
            }
            assert(!is_path_from(s, start, stops));
        } else if end >= s.len() {
            assert forall|i: int| start <= i < s.len() && #[trigger] s[i] == '/' implies i + 1
                < s.len() && s[i + 1] != '/' by {
                if i > start {
                    assert(!stops.contains(s[i]));
                }
                assert(!stops.contains(s[start + 1]));
            }
            assert(is_path_from(s, start, stops));
        } else {
            lemma_parts_iff_path(s, end, stops);
            assert(stops.contains(s[end]));
            assert(!stops.contains(s[start + 1]));
            if is_path_from(s, end, stops) {
                assert forall|i: int| start <= i < s.len() && #[trigger] s[i] == '/' implies i
                    + 1 < s.len() && s[i + 1] != '/' by {
                    if start < i < end {
                        assert(!stops.contains(s[i]));
                    }
                }
                assert forall|i: int|
                    start <= i < s.len() && stops.contains(#[trigger] s[i]) implies s[i]
                    == '/' by {
                    if start < i < end {
                        assert(!stops.contains(s[i]));
                    }
                }
            }
            if is_path_from(s, start, stops) {
                assert(s[end] == '/');
            }
        }
    }
}

/// The parts of a path are what stands between its `/`: none is empty,
/// none holds one of `stops`, and the path is its parts with a `/` before
/// each.
pub proof fn lemma_parts_rebuild(s: Seq<char>, start: int, stops: Seq<char>)
    requires
        0 <= start <= s.len(),
        parts_from(s, start, stops) is Some,
    ensures
        ({
            let found = parts_from(s, start, stops)->0;
            &&& found.len() >= 1
            &&& forall|i: int| 0 <= i < found.len() ==> (#[trigger] found[i]).len() > 0
            &&& forall|i: int, k: int|
                0 <= i < found.len() && 0 <= k < found[i].len() ==> !stops.contains(
                    #[trigger] found[i][k],
                )
            &&& s.subrange(start, s.len() as int) == seq!['/'] + join(found, '/')
        }),
    decreases s.len() - start,
{
    let end = first_of(s, start + 1, stops);
    lemma_first_of(s, start + 1, stops);
    let part = s.subrange(start + 1, end);
    let found = parts_from(s, start, stops)->0;
    assert forall|k: int| 0 <= k < part.len() implies !stops.contains(#[trigger] part[k]) by {
        assert(part[k] == s[start + 1 + k]);
    }
    if end >= s.len() {
        assert(found == seq![part]);
        assert(s.subrange(start, s.len() as int) == seq!['/'] + part);
    } else {
        lemma_parts_rebuild(s, end, stops);
        let rest = parts_from(s, end, stops)->0;
        assert(found == seq![part] + rest);
        assert(found.drop_first() == rest);
        assert(join(found, '/') == part + seq!['/'] + join(rest, '/'));
        assert(s.subrange(start, s.len() as int) == seq!['/'] + part + s.subrange(
            end,
            s.len() as int,
        ));
        assert forall|i: int, k: int|
            0 <= i < found.len() && 0 <= k < found[i].len() implies !stops.contains(
            #[trigger] found[i][k],
        ) by {
            if i > 0 {
                assert(found[i] == rest[i - 1]);
            }
        }
        assert forall|i: int| 0 <= i < found.len() implies (#[trigger] found[i]).len() > 0 by {
            if i > 0 {
                assert(found[i] == rest[i - 1]);
            }
        }
    }
}

/// The parts of an address pattern, as text.
pub open spec fn pattern_parts(pattern: Seq<char>) -> Option<Seq<Seq<char>>> {
    parts(pattern, PATTERN_STOPS@)
}

/// The parts of an address.
pub open spec fn address_parts(address: Seq<char>) -> Option<Seq<Seq<char>>> {
    parts(address, ADDRESS_STOPS@)
}

/// Reads the part that the `/` at `start` leads and returns where it ends.
pub fn parse_part(chars: &[char], start: usize, stops: &[char]) -> (end: Option<usize>)
    ensures
        end matches Some(e) ==> part_end(chars@, start as int, stops@) == Some(e as int) && start
            + 1 < e <= chars.len(),
        end is None ==> part_end(chars@, start as int, stops@) is None,
{
    if start >= chars.len() || chars[start] != '/' {
        return None;
    }
    let end = find_any(chars, start + 1, stops);
    if end > start + 1 {
        Some(end)
    } else {
        None
    }
}

/// Reads one part of an address.
pub fn parse_address_part(chars: &[char], start: usize) -> (end: Option<usize>)
    ensures
        end matches Some(e) ==> part_end(chars@, start as int, ADDRESS_STOPS@) == Some(e as int)
            && start + 1 < e <= chars.len(),
        end is None ==> part_end(chars@, start as int, ADDRESS_STOPS@) is None,
{
    parse_part(chars, start, &ADDRESS_STOPS)
}

/// Reads one part of an address pattern, without looking into it.
pub fn parse_address_pattern_part(chars: &[char], start: usize) -> (end: Option<usize>)
    ensures
        end matches Some(e) ==> part_end(chars@, start as int, PATTERN_STOPS@) == Some(e as int)
            && start + 1 < e <= chars.len(),
        end is None ==> part_end(chars@, start as int, PATTERN_STOPS@) is None,
{
    parse_part(chars, start, &PATTERN_STOPS)
}

/// Splits a path into its parts.
pub fn split_path(chars: &[char], stops: &[char]) -> (found: Option<Vec<String>>)
    ensures
        found matches Some(v) ==> parts(chars@, stops@) == Some(texts(v@)),
        found is None ==> parts(chars@, stops@) is None,
{
    let mut found: Vec<String> = Vec::new();
    let mut pos: usize = 0;
    loop
        invariant
            pos <= chars.len(),
            parts_from(chars@, pos as int, stops@) is None ==> parts(chars@, stops@) is None,
            parts_from(chars@, pos as int, stops@) matches Some(rest) ==> parts(chars@, stops@)
                == Some(texts(found@) + rest),
        decreases chars.len() - pos,
    {
        match parse_part(chars, pos, stops) {
            None => {
                return None;
            },
            Some(end) => {
                let part = text_of(chars, pos + 1, end);
                proof {
                    assert(texts(found@.push(part)) == texts(found@).push(part@));
                    assert(texts(found@) + (seq![part@] + parts_from(
                        chars@,
                        end as int,
                        stops@,
                    )->0) == texts(found@).push(part@) + parts_from(chars@, end as int, stops@)->0);
                    assert(texts(found@) + seq![part@] == texts(found@).push(part@));
                }
                found.push(part);
                if end == chars.len() {
                    return Some(found);
                }
                pos = end;
            },
        }
    }
}

} // verus!
