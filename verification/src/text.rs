//! Characters and strings: the scanning and building that the grammar and
//! the writing of expressions share.

use vstd::prelude::*;

verus! {

/// `String::push` appends the character to the end of the string.
pub assume_specification[ String::push ](s: &mut String, ch: char)
    ensures
        final(s)@ == old(s)@.push(ch),
;

/// The first position at or after `from` that holds one of `stops`, or the
/// length of `s` where there is none.
pub open spec fn first_of(s: Seq<char>, from: int, stops: Seq<char>) -> int
    decreases s.len() - from,
{
    if from < 0 || from >= s.len() {
        s.len() as int
    } else if stops.contains(s[from]) {
        from
    } else {
        first_of(s, from + 1, stops)
    }
}

/// `first_of` finds a stop, and passes over none on its way.
pub proof fn lemma_first_of(s: Seq<char>, from: int, stops: Seq<char>)
    requires
        0 <= from <= s.len(),
    ensures
        from <= first_of(s, from, stops) <= s.len(),
        first_of(s, from, stops) < s.len() ==> stops.contains(s[first_of(s, from, stops)]),
        forall|k: int| from <= k < first_of(s, from, stops) ==> !stops.contains(#[trigger] s[k]),
    decreases s.len() - from,
{
    if from < s.len() && !stops.contains(s[from]) {
        lemma_first_of(s, from + 1, stops);
    }
}

/// The characters of a string, one element each.
pub fn chars_of(s: &str) -> (chars: Vec<char>)
    ensures
        chars@ == s@,
{
    let mut chars: Vec<char> = Vec::new();
    for c in it: s.chars()
        invariant
            it.seq() == s@,
            chars@ == it.seq().take(it.index()),
    {
        chars.push(c);
    }
    assert(chars@ == s@);
    chars
}

/// The characters from `from` up to `to`, as a string.
pub fn text_of(chars: &[char], from: usize, to: usize) -> (text: String)
    requires
        from <= to <= chars.len(),
    ensures
        text@ == chars@.subrange(from as int, to as int),
{
    let mut text = String::new();
    let mut i: usize = from;
    while i < to
        invariant
            from <= i <= to <= chars.len(),
            text@ == chars@.subrange(from as int, i as int),
        decreases to - i,
    {
        text.push(chars[i]);
        i += 1;
    }
    text
}

/// Whether `c` is one of `stops`.
pub fn is_any_of(c: char, stops: &[char]) -> (found: bool)
    ensures
        found == stops@.contains(c),
{
    let mut i: usize = 0;
    while i < stops.len()
        invariant
            i <= stops.len(),
            forall|k: int| 0 <= k < i ==> stops@[k] != c,
        decreases stops.len() - i,
    {
        if stops[i] == c {
            return true;
        }
        i += 1;
    }
    false
}

/// Scans from `from` to the first of `stops`, or to the end.
pub fn find_any(chars: &[char], from: usize, stops: &[char]) -> (end: usize)
    requires
        from <= chars.len(),
    ensures
        end == first_of(chars@, from as int, stops@),
        from <= end <= chars.len(),
{
    let mut i: usize = from;
    while i < chars.len() && !is_any_of(chars[i], stops)
        invariant
            from <= i <= chars.len(),
            first_of(chars@, from as int, stops@) == first_of(chars@, i as int, stops@),
        decreases chars.len() - i,
    {
        i += 1;
    }
    i
}

/// The strings of a vector, each as its sequence of characters.
pub open spec fn texts(strings: Seq<String>) -> Seq<Seq<char>> {
    strings.map_values(|s: String| s@)
}

/// The pieces of `s` that lie between occurrences of `sep`. There is one
/// piece more than there are separators; a piece may be empty.
pub open spec fn split(s: Seq<char>, sep: char) -> Seq<Seq<char>>
    decreases s.len(),
{
    let k = first_of(s, 0, seq![sep]);
    if k < s.len() {
        proof {
            lemma_first_of(s, 0, seq![sep]);
        }
        seq![s.take(k)] + split(s.skip(k + 1), sep)
    } else {
        seq![s]
    }
}

/// The pieces written one after the other, with `sep` between neighbours.
pub open spec fn join(pieces: Seq<Seq<char>>, sep: char) -> Seq<char>
    decreases pieces.len(),
{
    if pieces.len() == 0 {
        Seq::empty()
    } else if pieces.len() == 1 {
        pieces[0]
    } else {
        pieces[0] + seq![sep] + join(pieces.drop_first(), sep)
    }
}

/// Splitting always yields at least one piece.
pub proof fn lemma_split_nonempty(s: Seq<char>, sep: char)
    ensures
        split(s, sep).len() >= 1,
    decreases s.len(),
{
    let k = first_of(s, 0, seq![sep]);
    lemma_first_of(s, 0, seq![sep]);
    if k < s.len() {
        lemma_split_nonempty(s.skip(k + 1), sep);
    }
}

/// Joining the pieces of a text gives the text back.
pub proof fn lemma_join_split(s: Seq<char>, sep: char)
    ensures
        join(split(s, sep), sep) == s,
    decreases s.len(),
{
    let k = first_of(s, 0, seq![sep]);
    lemma_first_of(s, 0, seq![sep]);
    if k < s.len() {
        let rest = split(s.skip(k + 1), sep);
        let all = split(s, sep);
        lemma_join_split(s.skip(k + 1), sep);
        lemma_split_nonempty(s.skip(k + 1), sep);
        assert(all == seq![s.take(k)] + rest);
        assert(all.drop_first() == rest);
        assert(seq![sep].contains(s[k]));
        assert(s[k] == sep);
        assert(s == s.take(k) + seq![sep] + s.skip(k + 1));
    }
}

/// `s` with every `from` turned into `to`.
pub open spec fn replaced(s: Seq<char>, from: char, to: char) -> Seq<char> {
    s.map_values(|c: char| if c == from { to } else { c })
}

/// Copies `s`, writing `to` wherever `s` has `from`.
pub fn replace_char(s: &str, from: char, to: char) -> (out: String)
    ensures
        out@ == replaced(s@, from, to),
{
    let mut out = String::new();
    for c in it: s.chars()
        invariant
            it.seq() == s@,
            out@ == replaced(it.seq().take(it.index()), from, to),
    {
        let ghost before = it.seq().take(it.index());
        assert(it.seq().take(it.index() + 1) == before.push(c));
        assert(replaced(before.push(c), from, to) == replaced(before, from, to).push(
            if c == from { to } else { c },
        ));
        if c == from {
            out.push(to);
        } else {
            out.push(c);
        }
    }
    assert(s@.take(s@.len() as int) == s@);
    out
}

} // verus!
