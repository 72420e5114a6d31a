//! The grammar of one part of an address pattern.
//!
//! A part is read from left to right as a sequence of rules. At each
//! position the first of these that fits is taken:
//!
//! * `{` ... `}`: alternatives, separated by `,`;
//! * `[!` ... `]`: a negated character class;
//! * `[` ... `]`: a character class;
//! * `*`: any run of word characters;
//! * `?`: one word character;
//! * anything else: literal text, up to the next `{`, `[`, `*` or `?`.
//!
//! What stands between brackets or braces must not be empty, and a bracket
//! or brace that is never closed makes the whole part invalid.

use crate::text::{
    chars_of, find_any, first_of, join, lemma_first_of, lemma_join_split, split, text_of,
};
use vstd::prelude::*;

verus! {

/// The characters at which literal text ends, because a rule of another
/// kind starts there.
pub const RULE_STARTS: [char; 4] = ['{', '[', '*', '?'];

/// The character that closes a list of alternatives.
pub const BRACE_CLOSE: [char; 1] = ['}'];

/// The character that closes a character class.
pub const BRACKET_CLOSE: [char; 1] = [']'];

/// One rule of a pattern part.
#[derive(Debug, Clone, PartialEq, Eq)]
pub enum Rule {
    /// Text that must occur as it stands.
    Literal(String),
    /// `*`: any number of word characters, none included.
    Wildcard,
    /// `?`: exactly one word character.
    SingleAny,
    /// `[...]` or `[!...]`: one character that is in the class, or, where
    /// `negated`, one that is not. `spec` is the text between the brackets,
    /// without the `!`.
    CharClass { spec: String, negated: bool },
    /// `{...}`: one of several texts. Holds the text between the braces;
    /// the alternatives are its pieces between commas.
    Alternative(String),
}

/// A rule as a mathematical value.
pub enum RuleModel {
    Literal(Seq<char>),
    Wildcard,
    SingleAny,
    CharClass { spec: Seq<char>, negated: bool },
    Alternative(Seq<Seq<char>>),
}

impl View for Rule {
    type V = RuleModel;

    open spec fn view(&self) -> RuleModel {
        match self {
            Rule::Literal(text) => RuleModel::Literal(text@),
            Rule::Wildcard => RuleModel::Wildcard,
            Rule::SingleAny => RuleModel::SingleAny,
            Rule::CharClass { spec, negated } => RuleModel::CharClass {
                spec: spec@,
                negated: *negated,
            },
            Rule::Alternative(list) => RuleModel::Alternative(split(list@, ',')),
        }
    }
}

/// The rules of a vector, each as its model.
pub open spec fn models(rules: Seq<Rule>) -> Seq<RuleModel> {
    rules.map_values(|r: Rule| r@)
}

/// The rule that starts at position `i` of the part `s`, and the position
/// after it; `None` where no rule fits.
pub open spec fn rule_at(s: Seq<char>, i: int) -> Option<(RuleModel, int)> {
    if s[i] == '{' {
        let close = first_of(s, i + 1, BRACE_CLOSE@);
        if i + 1 < close < s.len() {
            Some((RuleModel::Alternative(split(s.subrange(i + 1, close), ',')), close + 1))
        } else {
            None
        }
    } else if s[i] == '[' {
        let close = first_of(s, i + 1, BRACKET_CLOSE@);
        if close >= s.len() {
            None
        } else if s[i + 1] == '!' && i + 2 < close {
            Some((RuleModel::CharClass { spec: s.subrange(i + 2, close), negated: true }, close + 1))
        } else if i + 1 < close {
            Some(
                (RuleModel::CharClass { spec: s.subrange(i + 1, close), negated: false }, close + 1),
            )
        } else {
            None
        }
    } else if s[i] == '*' {
        Some((RuleModel::Wildcard, i + 1))
    } else if s[i] == '?' {
        Some((RuleModel::SingleAny, i + 1))
    } else {
        let end = first_of(s, i + 1, RULE_STARTS@);
        Some((RuleModel::Literal(s.subrange(i, end)), end))
    }
}

/// The rules of the part `s` from position `i` to its end; `None` where
/// some position is reached at which no rule fits.
pub open spec fn rules_from(s: Seq<char>, i: int) -> Option<Seq<RuleModel>>
    decreases s.len() - i,
{
    if i < 0 || i >= s.len() {
        Some(Seq::empty())
    } else {
        match rule_at(s, i) {
            None => None,
            Some((rule, next)) => {
                proof {
                    lemma_rule_at_advances(s, i);
                }
                match rules_from(s, next) {
                    None => None,
                    Some(rest) => Some(seq![rule] + rest),
                }
            },
        }
    }
}

/// The rules of a pattern part. A part is never empty, so an empty text has
/// none.
pub open spec fn part_rules(s: Seq<char>) -> Option<Seq<RuleModel>> {
    if s.len() == 0 {
        None
    } else {
        rules_from(s, 0)
    }
}

/// A rule always ends after the position at which it starts, and within
/// the part.
pub proof fn lemma_rule_at_advances(s: Seq<char>, i: int)
    requires
        0 <= i < s.len(),
    ensures
        rule_at(s, i) matches Some((_, next)) ==> i < next <= s.len(),
{
    lemma_first_of(s, i + 1, BRACE_CLOSE@);
    lemma_first_of(s, i + 1, BRACKET_CLOSE@);
    lemma_first_of(s, i + 1, RULE_STARTS@);
}

/// How a rule is written in a pattern.
pub open spec fn written(rule: RuleModel) -> Seq<char> {
    match rule {
        RuleModel::Literal(text) => text,
        RuleModel::Wildcard => seq!['*'],
        RuleModel::SingleAny => seq!['?'],
        RuleModel::CharClass { spec, negated } => if negated {
            seq!['[', '!'] + spec + seq![']']
        } else {
            seq!['['] + spec + seq![']']
        },
        RuleModel::Alternative(options) => seq!['{'] + join(options, ',') + seq!['}'],
    }
}

/// The rules as they are written, one after the other.
pub open spec fn written_all(rules: Seq<RuleModel>) -> Seq<char>
    decreases rules.len(),
{
    if rules.len() == 0 {
        Seq::empty()
    } else {
        written(rules[0]) + written_all(rules.drop_first())
    }
}

/// The rule read at a position is written exactly as the part is from
/// there to where the rule ends.
pub proof fn lemma_rule_at_written(s: Seq<char>, i: int)
    requires
        0 <= i < s.len(),
        rule_at(s, i) is Some,
    ensures
        ({
            let (rule, next) = rule_at(s, i)->0;
            written(rule) == s.subrange(i, next)
        }),
{
    lemma_rule_at_advances(s, i);
    let (rule, next) = rule_at(s, i)->0;
    if s[i] == '{' {
        let close = first_of(s, i + 1, BRACE_CLOSE@);
        lemma_first_of(s, i + 1, BRACE_CLOSE@);
        lemma_join_split(s.subrange(i + 1, close), ',');
        assert(BRACE_CLOSE@.contains(s[close]));
        assert(BRACE_CLOSE@[0] == '}');
        assert(s.subrange(i, next) == seq!['{'] + s.subrange(i + 1, close) + seq!['}']);
    } else if s[i] == '[' {
        let close = first_of(s, i + 1, BRACKET_CLOSE@);
        lemma_first_of(s, i + 1, BRACKET_CLOSE@);
        assert(BRACKET_CLOSE@.contains(s[close]));
        assert(BRACKET_CLOSE@[0] == ']');
        if s[i + 1] == '!' && i + 2 < close {
            assert(s.subrange(i, next) == seq!['[', '!'] + s.subrange(i + 2, close) + seq![']']);
        } else {
            assert(s.subrange(i, next) == seq!['['] + s.subrange(i + 1, close) + seq![']']);
        }
    } else if s[i] == '*' {
        assert(s.subrange(i, next) == seq!['*']);
    } else if s[i] == '?' {
        assert(s.subrange(i, next) == seq!['?']);
    }
}

/// Reading a part leaves nothing of it out: the rules, written one after
/// the other, are the part.
pub proof fn lemma_rules_cover(s: Seq<char>, i: int)
    requires
        0 <= i <= s.len(),
        rules_from(s, i) is Some,
    ensures
        written_all(rules_from(s, i)->0) == s.subrange(i, s.len() as int),
    decreases s.len() - i,
{
    if i < s.len() {
        let (rule, next) = rule_at(s, i)->0;
        lemma_rule_at_advances(s, i);
        lemma_rule_at_written(s, i);
        lemma_rules_cover(s, next);
        let rest = rules_from(s, next)->0;
        let all = rules_from(s, i)->0;
        assert(all == seq![rule] + rest);
        assert(all.drop_first() == rest);
        assert(s.subrange(i, s.len() as int) == s.subrange(i, next) + s.subrange(
            next,
            s.len() as int,
        ));
    } else {
        assert(s.subrange(i, s.len() as int) == Seq::<char>::empty());
    }
}

/// Reads the rule that starts at position `i`.
pub fn parse_rule(chars: &[char], i: usize) -> (found: Option<(Rule, usize)>)
    requires
        i < chars.len(),
    ensures
        found matches Some((rule, next)) ==> rule_at(chars@, i as int) == Some((rule@, next as int))
            && i < next <= chars.len(),
        found is None ==> rule_at(chars@, i as int) is None,
{
    let c = chars[i];
    if c == '{' {
        let close = find_any(chars, i + 1, &BRACE_CLOSE);
        if i + 1 < close && close < chars.len() {
            Some((Rule::Alternative(text_of(chars, i + 1, close)), close + 1))
        } else {
            None
        }
    } else if c == '[' {
        let close = find_any(chars, i + 1, &BRACKET_CLOSE);
        if close >= chars.len() {
            None
        } else if chars[i + 1] == '!' && i + 2 < close {
            Some((Rule::CharClass { spec: text_of(chars, i + 2, close), negated: true }, close + 1))
        } else if i + 1 < close {
            Some(
                (Rule::CharClass { spec: text_of(chars, i + 1, close), negated: false }, close + 1),
            )
        } else {
            None
        }
    } else if c == '*' {
        Some((Rule::Wildcard, i + 1))
    } else if c == '?' {
        Some((Rule::SingleAny, i + 1))
    } else {
        let end = find_any(chars, i + 1, &RULE_STARTS);
        Some((Rule::Literal(text_of(chars, i, end)), end))
    }
}

/// Reads a pattern part as its sequence of rules.
pub fn parse_pattern_part(input: &str) -> (found: Option<Vec<Rule>>)
    ensures
        found matches Some(rules) ==> part_rules(input@) == Some(models(rules@)),
        found is None ==> part_rules(input@) is None,
{
    let chars = chars_of(input);
    if chars.len() == 0 {
        return None;
    }
    let mut rules: Vec<Rule> = Vec::new();
    let mut pos: usize = 0;
    while pos < chars.len()
        invariant
            pos <= chars.len(),
            chars@ == input@,
            chars.len() > 0,
            rules_from(chars@, pos as int) is None ==> part_rules(chars@) is None,
            rules_from(chars@, pos as int) matches Some(rest) ==> part_rules(chars@) == Some(
                models(rules@) + rest,
            ),
        decreases chars.len() - pos,
    {
        match parse_rule(chars.as_slice(), pos) {
            None => {
                return None;
            },
            Some((rule, next)) => {
                proof {
                    assert(models(rules@.push(rule)) == models(rules@).push(rule@));
                    let rest = rules_from(chars@, next as int);
                    if rest is Some {
                        assert(models(rules@) + (seq![rule@] + rest->0) == models(rules@).push(
                            rule@,
                        ) + rest->0);
                    }
                }
                rules.push(rule);
                pos = next;
            },
        }
    }
    assert(models(rules@) + Seq::<RuleModel>::empty() == models(rules@));
    Some(rules)
}

} // verus!
