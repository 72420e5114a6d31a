//! Compiled address patterns, and the matching of addresses against them.

use crate::engine::{error_text, regex_error_text, regex_is_match, regex_new};
use crate::errors::{bad_address, bad_pattern, OscError, OscErrorView};
use crate::message::OscMessage;
use crate::path::{address_parts, pattern_parts, split_path, ADDRESS_STOPS, PATTERN_STOPS};
use crate::rule::{models, parse_pattern_part, part_rules, Rule, RuleModel};
use crate::text::{chars_of, texts};
use crate::expression::{part_source, part_expression};
use regex::Regex;
use vstd::prelude::*;
use vstd::string::StringExecFns;

verus! {

/// Whether the engine refuses the expression for these rules.
pub open spec fn refused(rules: Seq<RuleModel>) -> bool {
    regex_new(part_source(rules)) is Err
}

/// Whether a part of an address matches the rules of a pattern part: the
/// engine accepts the expression for the rules, and the expression matches
/// the part.
pub open spec fn part_accepts(rules: Seq<RuleModel>, part: Seq<char>) -> bool {
    regex_new(part_source(rules)) matches Ok(re) && regex_is_match(re, part)
}

/// Whether the parts of an address match a pattern, given as the rules of
/// each of its parts: there are as many parts as the pattern has, and each
/// matches the rules at its place.
pub open spec fn accepts(pattern: Seq<Seq<RuleModel>>, parts: Seq<Seq<char>>) -> bool {
    &&& parts.len() == pattern.len()
    &&& forall|i: int| 0 <= i < pattern.len() ==> part_accepts(#[trigger] pattern[i], parts[i])
}

/// Whether an address is well formed and matches a pattern.
pub open spec fn matches_address(pattern: Seq<Seq<RuleModel>>, address: Seq<char>) -> bool {
    address_parts(address) matches Some(parts) && accepts(pattern, parts)
}

/// The rules of each part of a pattern; `None` where the pattern does not
/// follow the grammar, as a path or in one of its parts.
pub open spec fn pattern_rules(pattern: Seq<char>) -> Option<Seq<Seq<RuleModel>>> {
    match pattern_parts(pattern) {
        None => None,
        Some(parts) => if forall|i: int|
            0 <= i < parts.len() ==> (#[trigger] part_rules(parts[i])) is Some {
            Some(parts.map_values(|part: Seq<char>| part_rules(part)->0))
        } else {
            None
        },
    }
}

/// The first place at or after `from` whose rules the engine refuses, or
/// the number of places where it refuses none.
pub open spec fn first_refused(pattern: Seq<Seq<RuleModel>>, from: int) -> int
    decreases pattern.len() - from,
{
    if from < 0 || from >= pattern.len() {
        pattern.len() as int
    } else if refused(pattern[from]) {
        from
    } else {
        first_refused(pattern, from + 1)
    }
}

/// What compiling a pattern ends in.
///
/// A pattern that does not follow the grammar is a bad address pattern. One
/// that does, but has a part that the engine refuses, ends in the engine's
/// reason for the first such part. Every other pattern compiles to the
/// rules of its parts.
pub open spec fn compile_outcome(pattern: Seq<char>) -> Result<Seq<Seq<RuleModel>>, OscErrorView> {
    match pattern_rules(pattern) {
        None => Err(bad_pattern()),
        Some(rules) => {
            let k = first_refused(rules, 0);
            if 0 <= k < rules.len() {
                Err(
                    OscErrorView::RegexError(
                        regex_error_text(regex_new(part_source(rules[k]))->Err_0),
                    ),
                )
            } else {
                Ok(rules)
            }
        },
    }
}

/// The library's error for an expression that the engine refused.
pub fn refusal(err: &regex::Error) -> (e: OscError)
    ensures
        e@ == OscErrorView::RegexError(regex_error_text(*err)),
{
    OscError::RegexError(error_text(err))
}

/// One part of a compiled pattern: its rules, and the expression that
/// stands for them.
#[derive(Debug)]
pub struct SegmentMatcher {
    rules: Vec<Rule>,
    re: Regex,
}

impl View for SegmentMatcher {
    type V = Seq<RuleModel>;

    closed spec fn view(&self) -> Seq<RuleModel> {
        models(self.rules@)
    }
}

impl SegmentMatcher {
    #[verifier::type_invariant]
    spec fn compiled_from_rules(self) -> bool {
        regex_new(part_source(models(self.rules@))) == Ok::<Regex, regex::Error>(self.re)
    }

    /// Compiles the rules of one pattern part.
    pub fn new(rules: Vec<Rule>) -> (made: Result<SegmentMatcher, OscError>)
        ensures
            match made {
                Ok(segment) => segment@ == models(rules@) && !refused(models(rules@)),
                Err(e) => regex_new(part_source(models(rules@))) matches Err(err) && e@
                    == OscErrorView::RegexError(regex_error_text(err)),
            },
    {
        let source = part_expression(&rules);
        match Regex::new(source.as_str()) {
            Ok(re) => Ok(SegmentMatcher { rules, re }),
            Err(err) => Err(refusal(&err)),
        }
    }

    /// The rules of this part.
    pub fn rules(&self) -> (rules: &Vec<Rule>)
        ensures
            models(rules@) == self@,
    {
        &self.rules
    }

    /// Whether a part of an address matches this part of the pattern.
    pub fn is_match(&self, part: &str) -> (matched: bool)
        ensures
            matched == part_accepts(self@, part@),
    {
        proof {
            use_type_invariant(self);
        }
        self.re.is_match(part)
    }
}

/// The compiled parts, each as its rules.
pub open spec fn views(segments: Seq<SegmentMatcher>) -> Seq<Seq<RuleModel>> {
    segments.map_values(|segment: SegmentMatcher| segment@)
}

/// Reads every part of a pattern as its rules.
pub fn parse_pattern_rules(input: &str) -> (found: Option<Vec<Vec<Rule>>>)
    ensures
        found matches Some(all) ==> pattern_rules(input@) == Some(
            all@.map_values(|rules: Vec<Rule>| models(rules@)),
        ),
        found is None ==> pattern_rules(input@) is None,
{
    let chars = chars_of(input);
    let parts = match split_path(chars.as_slice(), &PATTERN_STOPS) {
        Some(parts) => parts,
        None => {
            return None;
        },
    };
    let mut all: Vec<Vec<Rule>> = Vec::new();
    let mut i: usize = 0;
    while i < parts.len()
        invariant
            i <= parts.len(),
            pattern_parts(input@) == Some(texts(parts@)),
            all.len() == i,
            forall|j: int|
                0 <= j < i ==> part_rules(#[trigger] texts(parts@)[j]) == Some(models(all@[j]@)),
        decreases parts.len() - i,
    {
        match parse_pattern_part(parts[i].as_str()) {
            Some(rules) => {
                all.push(rules);
            },
            None => {
                assert(part_rules(texts(parts@)[i as int]) is None);
                return None;
            },
        }
        i += 1;
    }
    assert(texts(parts@).map_values(|part: Seq<char>| part_rules(part)->0) == all@.map_values(
        |rules: Vec<Rule>| models(rules@),
    ));
    Some(all)
}

/// Compiles an address pattern into the matchers of its parts.
pub fn parse_address_pattern(input: &str) -> (made: Result<Vec<SegmentMatcher>, OscError>)
    ensures
        match made {
            Ok(segments) => compile_outcome(input@) == Ok::<_, OscErrorView>(views(segments@)),
            Err(e) => compile_outcome(input@) == Err::<Seq<Seq<RuleModel>>, _>(e@),
        },
{
    let all = match parse_pattern_rules(input) {
        Some(all) => all,
        None => {
            return Err(OscError::BadAddressPattern(String::from_str("bad address pattern")));
        },
    };
    let ghost pattern = pattern_rules(input@)->0;
    let mut segments: Vec<SegmentMatcher> = Vec::new();
    for rules in it: all.into_iter()
        invariant
            it.seq() == all@,
            pattern_rules(input@) == Some(pattern),
            pattern == all@.map_values(|rules: Vec<Rule>| models(rules@)),
            views(segments@) == pattern.take(it.index()),
            first_refused(pattern, 0) == first_refused(pattern, it.index()),
    {
        let ghost i = it.index();
        assert(pattern[i] == models(rules@));
        match SegmentMatcher::new(rules) {
            Ok(segment) => {
                proof {
                    assert(views(segments@.push(segment)) == views(segments@).push(segment@));
                    assert(pattern.take(i + 1) == pattern.take(i).push(pattern[i]));
                }
                segments.push(segment);
            },
            Err(e) => {
                assert(first_refused(pattern, i) == i);
                return Err(e);
            },
        }
    }
    assert(pattern.take(pattern.len() as int) == pattern);
    Ok(segments)
}

/// An address pattern, compiled once and ready to be matched against any
/// number of addresses.
#[derive(Debug)]
pub struct Matcher {
    res: Vec<SegmentMatcher>,
}

impl View for Matcher {
    type V = Seq<Seq<RuleModel>>;

    closed spec fn view(&self) -> Seq<Seq<RuleModel>> {
        views(self.res@)
    }
}

/// Whether `made` is what compiling `pattern` ends in.
pub open spec fn compiled(pattern: Seq<char>, made: Result<Matcher, OscError>) -> bool {
    match made {
        Ok(matcher) => compile_outcome(pattern) == Ok::<_, OscErrorView>(matcher@),
        Err(e) => compile_outcome(pattern) == Err::<Seq<Seq<RuleModel>>, _>(e@),
    }
}

impl Matcher {
    /// Compiles an address pattern.
    ///
    /// A pattern begins with `/` and is made of one or more parts, each led
    /// by a `/`, none of them empty, none with white space in it. Within a
    /// part
    ///
    /// - `?` stands for one word character,
    /// - `*` for any number of word characters,
    /// - `[a-z]` for one character of the class, `[!a-z]` for one that is
    ///   not of it,
    /// - `{foo,bar}` for either `foo` or `bar`,
    /// - and everything else for itself.
    ///
    /// Compiling reads the whole pattern and builds an expression for each
    /// part, so a matcher is best made once and kept.
    pub fn new(pattern: &str) -> (made: Result<Matcher, OscError>)
        ensures
            compiled(pattern@, made),
    {
        match parse_address_pattern(pattern) {
            Ok(res) => Ok(Matcher { res }),
            Err(e) => Err(e),
        }
    }

    /// The parts of the compiled pattern, in the order of the pattern.
    pub fn segments(&self) -> (segments: &Vec<SegmentMatcher>)
        ensures
            views(segments@) == self@,
    {
        &self.res
    }

    /// Whether the parts of an address match the pattern, part by part.
    pub fn match_parts(&self, parts: &Vec<String>) -> (matched: bool)
        ensures
            matched == accepts(self@, texts(parts@)),
    {
        if parts.len() != self.res.len() {
            return false;
        }
        let mut i: usize = 0;
        while i < self.res.len()
            invariant
                i <= self.res.len(),
                parts.len() == self.res.len(),
                forall|j: int| 0 <= j < i ==> part_accepts(#[trigger] self@[j], texts(parts@)[j]),
            decreases self.res.len() - i,
        {
            if !self.res[i].is_match(parts[i].as_str()) {
                assert(!part_accepts(self@[i as int], texts(parts@)[i as int]));
                return false;
            }
            i += 1;
        }
        true
    }

    /// Whether the address of a message matches the pattern.
    ///
    /// The address must be well formed: one or more parts, each led by a
    /// `/`, none empty, none with white space or one of `#*,/?[]{}` in it.
    pub fn match_message(&self, message: &OscMessage) -> (matched: bool)
        requires
            address_parts(message.addr@) is Some,
        ensures
            matched == matches_address(self@, message.addr@),
    {
        let chars = chars_of(message.addr.as_str());
        match split_path(chars.as_slice(), &ADDRESS_STOPS) {
            Some(parts) => self.match_parts(&parts),
            None => false,
        }
    }

    /// Whether an address matches the pattern; an error where the address
    /// is not well formed.
    pub fn match_address(&self, address: &str) -> (outcome: Result<bool, OscError>)
        ensures
            match outcome {
                Ok(matched) => address_parts(address@) is Some && matched == matches_address(
                    self@,
                    address@,
                ),
                Err(e) => address_parts(address@) is None && e@ == bad_address(),
            },
    {
        let chars = chars_of(address);
        match split_path(chars.as_slice(), &ADDRESS_STOPS) {
            Some(parts) => Ok(self.match_parts(&parts)),
            None => Err(OscError::BadAddress(String::from_str("bad address"))),
        }
    }
}

/// A compiled pattern has as many parts as the pattern is written with.
pub proof fn lemma_compiled_depth(pattern: Seq<char>)
    requires
        compile_outcome(pattern) is Ok,
    ensures
        pattern_parts(pattern) is Some,
        compile_outcome(pattern)->Ok_0.len() == pattern_parts(pattern)->0.len(),
{
}

/// An address never matches a pattern that has another number of parts
/// than the address has, whatever the parts hold.
pub proof fn lemma_depth_mismatch_rejects(pattern: Seq<char>, address: Seq<char>)
    requires
        compile_outcome(pattern) is Ok,
        address_parts(address) matches Some(parts) ==> parts.len() != pattern_parts(
            pattern,
        )->0.len(),
    ensures
        !matches_address(compile_outcome(pattern)->Ok_0, address),
{
    lemma_compiled_depth(pattern);
}

/// Compiling is a function of the pattern: two compilations of one pattern
/// both succeed or both fail, with the same error where they fail, and
/// where they succeed the two matchers decide alike on every address.
pub proof fn lemma_compile_deterministic(
    pattern: Seq<char>,
    first: Result<Matcher, OscError>,
    second: Result<Matcher, OscError>,
)
    requires
        compiled(pattern, first),
        compiled(pattern, second),
    ensures
        first is Ok <==> second is Ok,
        first is Err && second is Err ==> first->Err_0@ == second->Err_0@,
        first is Ok && second is Ok ==> first->Ok_0@ == second->Ok_0@,
        first is Ok && second is Ok ==> forall|address: Seq<char>|
            matches_address(first->Ok_0@, address) == matches_address(second->Ok_0@, address),
{
}

} // verus!
