//! From rules to the source text of a regular expression.
//!
//! Each rule becomes a fragment; the fragments of a part, one after the
//! other and anchored at both ends, are the expression that a part of an
//! address has to match as a whole.

use crate::engine::{escaped, escaped_char};
use crate::rule::{models, Rule, RuleModel};
use crate::text::{
    first_of, join, lemma_first_of, lemma_split_nonempty, replace_char, replaced, split,
};
use vstd::prelude::*;
use vstd::string::StringExecFns;

verus! {

/// Each of the pieces, escaped.
pub open spec fn escaped_all(pieces: Seq<Seq<char>>) -> Seq<Seq<char>> {
    pieces.map_values(|piece: Seq<char>| escaped(piece))
}

/// The fragment that stands for one rule.
///
/// Literal text and alternatives are escaped, so that the engine takes them
/// as they stand. A word character is a letter of `A` to `Z` or `a` to `z`,
/// a digit, or `_`. The text of a character class goes between brackets as
/// it is.
pub open spec fn fragment(rule: RuleModel) -> Seq<char> {
    match rule {
        RuleModel::Literal(text) => escaped(text),
        RuleModel::Wildcard => "[A-Za-z0-9_]*"@,
        RuleModel::SingleAny => "[A-Za-z0-9_]"@,
        RuleModel::CharClass { spec, negated } => if negated {
            "[^"@ + spec + "]"@
        } else {
            "["@ + spec + "]"@
        },
        RuleModel::Alternative(options) => "("@ + join(escaped_all(options), '|') + ")"@,
    }
}

/// The fragments of the rules, one after the other.
pub open spec fn fragments(rules: Seq<RuleModel>) -> Seq<char>
    decreases rules.len(),
{
    if rules.len() == 0 {
        Seq::empty()
    } else {
        fragments(rules.drop_last()) + fragment(rules.last())
    }
}

/// The source text of the expression for one part: its fragments, tied to
/// the start and to the end of what is matched.
pub open spec fn part_source(rules: Seq<RuleModel>) -> Seq<char> {
    "^(?:"@ + fragments(rules) + ")$"@
}

/// Escaping goes character by character, so it can be done piecewise.
pub proof fn lemma_escaped_concat(a: Seq<char>, b: Seq<char>)
    ensures
        escaped(a + b) == escaped(a) + escaped(b),
    decreases b.len(),
{
    if b.len() == 0 {
        assert(a + b == a);
    } else {
        assert((a + b).drop_last() == a + b.drop_last());
        lemma_escaped_concat(a, b.drop_last());
    }
}

/// A text without `sep` has no `sep` after escaping either, unless `sep` is
/// the backslash that escaping adds; replacing `sep` then changes nothing.
pub proof fn lemma_escaped_keeps_free(text: Seq<char>, sep: char, to: char)
    requires
        sep != '\\',
        forall|k: int| 0 <= k < text.len() ==> text[k] != sep,
    ensures
        replaced(escaped(text), sep, to) == escaped(text),
    decreases text.len(),
{
    if text.len() > 0 {
        lemma_escaped_keeps_free(text.drop_last(), sep, to);
        let head = escaped(text.drop_last());
        let tail = escaped_char(text.last());
        assert(replaced(tail, sep, to) == tail);
        assert(replaced(head + tail, sep, to) == replaced(head, sep, to) + replaced(tail, sep, to));
    }
}

/// To escape a list as a whole and then turn its commas into bars is to
/// escape each alternative by itself and put a bar between neighbours.
pub proof fn lemma_alternatives(list: Seq<char>)
    ensures
        replaced(escaped(list), ',', '|') == join(escaped_all(split(list, ',')), '|'),
    decreases list.len(),
{
    let k = first_of(list, 0, seq![',']);
    lemma_first_of(list, 0, seq![',']);
    if k < list.len() {
        let head = list.take(k);
        let tail = list.skip(k + 1);
        let comma = seq![','];
        assert(list == head + comma + tail);
        assert forall|j: int| 0 <= j < head.len() implies head[j] != ',' by {
            assert(head[j] == list[j]);
            assert(!seq![','].contains(list[j]));
            assert(seq![','][0] == ',');
        }
        lemma_escaped_concat(head + comma, tail);
        lemma_escaped_concat(head, comma);
        assert(escaped(comma) == comma) by {
            assert(comma.drop_last() == Seq::<char>::empty());
            assert(escaped(comma.drop_last()) == Seq::<char>::empty());
            assert(escaped_char(',') == comma);
            assert(escaped(comma) == Seq::<char>::empty() + comma);
        }
        lemma_escaped_keeps_free(head, ',', '|');
        lemma_alternatives(tail);
        lemma_split_nonempty(tail, ',');
        let rest = escaped_all(split(tail, ','));
        let all = escaped_all(split(list, ','));
        assert(all == seq![escaped(head)] + rest);
        assert(all.drop_first() == rest);
        assert(join(all, '|') == escaped(head) + seq!['|'] + join(rest, '|'));
        assert(replaced(comma, ',', '|') == seq!['|']);
        assert(replaced(escaped(head) + comma + escaped(tail), ',', '|') == replaced(
            escaped(head),
            ',',
            '|',
        ) + replaced(comma, ',', '|') + replaced(escaped(tail), ',', '|'));
    } else {
        assert forall|j: int| 0 <= j < list.len() implies list[j] != ',' by {
            assert(!seq![','].contains(list[j]));
            assert(seq![','][0] == ',');
        }
        lemma_escaped_keeps_free(list, ',', '|');
        assert(escaped_all(split(list, ',')) == seq![escaped(list)]);
    }
}

/// Puts `pre` before `s` and `post` after it.
pub fn wrap_with(s: &str, pre: &str, post: &str) -> (out: String)
    ensures
        out@ == pre@ + s@ + post@,
{
    let mut out = String::from_str(pre);
    out.append(s);
    out.append(post);
    out
}

/// The fragment for a list of alternatives, given as the text between the
/// braces.
pub fn map_alternative(s: &str) -> (out: String)
    ensures
        out@ == fragment(RuleModel::Alternative(split(s@, ','))),
{
    let quoted = regex::escape(s);
    let bars = replace_char(quoted.as_str(), ',', '|');
    proof {
        lemma_alternatives(s@);
    }
    wrap_with(bars.as_str(), "(", ")")
}

/// The fragment for `*`. The token that was read is not looked at: there
/// is one way only to write this rule.
pub fn map_wildcard(_token: &str) -> (out: String)
    ensures
        out@ == fragment(RuleModel::Wildcard),
{
    String::from_str("[A-Za-z0-9_]*")
}

/// The fragment for `?`. The token that was read is not looked at.
pub fn map_question_mark(_token: &str) -> (out: String)
    ensures
        out@ == fragment(RuleModel::SingleAny),
{
    String::from_str("[A-Za-z0-9_]")
}

/// The fragment for one rule.
pub fn rule_expression(rule: &Rule) -> (out: String)
    ensures
        out@ == fragment(rule@),
{
    match rule {
        Rule::Literal(text) => regex::escape(text.as_str()),
        Rule::Wildcard => map_wildcard("*"),
        Rule::SingleAny => map_question_mark("?"),
        Rule::CharClass { spec, negated } => {
            if *negated {
                wrap_with(spec.as_str(), "[^", "]")
            } else {
                wrap_with(spec.as_str(), "[", "]")
            }
        },
        Rule::Alternative(list) => map_alternative(list.as_str()),
    }
}

/// The source text of the expression for one part.
pub fn part_expression(rules: &Vec<Rule>) -> (out: String)
    ensures
        out@ == part_source(models(rules@)),
{
    let mut out = String::from_str("^(?:");
    let mut i: usize = 0;
    while i < rules.len()
        invariant
            i <= rules.len(),
            out@ == "^(?:"@ + fragments(models(rules@).take(i as int)),
        decreases rules.len() - i,
    {
        let piece = rule_expression(&rules[i]);
        proof {
            let before = models(rules@).take(i as int);
            let after = models(rules@).take(i + 1);
            assert(after.drop_last() == before);
            assert(after.last() == rules@[i as int]@);
        }
        out.append(piece.as_str());
        i += 1;
    }
    assert(models(rules@).take(rules.len() as int) == models(rules@));
    out.append(")$");
    out
}

} // verus!
