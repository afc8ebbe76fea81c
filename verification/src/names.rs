//! Tests on names: prefixes, and sets of regular expressions.
//!
//! The regular expressions are those of the `regex` crate. What a set of them
//! matches is not defined here: it is named, and the rest of the crate is
//! proved for whatever the set matches.
use vstd::prelude::*;
use regex::RegexSet;

verus! {

/// `regex::RegexSet`, a set of compiled regular expressions. Nothing of what
/// is inside it is known here.
#[verifier::external_type_specification]
#[verifier::external_body]
pub struct ExRegexSet(regex::RegexSet);

/// The texts that a set of regular expressions matches: those in which at
/// least one of its expressions finds a match.
pub uninterp spec fn regex_set_language(set: RegexSet) -> Set<Seq<char>>;

/// The texts that the expressions written in `patterns` match as a set:
/// those in which at least one of them, read as a regular expression, finds
/// a match.
pub uninterp spec fn pattern_language(patterns: Seq<Seq<char>>) -> Set<Seq<char>>;

/// Whether `regex` makes a set of the expressions written in `patterns`:
/// whether each of them is a regular expression and the set they compile
/// to stays within the size that `regex` allows a set by default.
pub uninterp spec fn patterns_compile(patterns: Seq<Seq<char>>) -> bool;

/// The texts of a sequence of strings.
pub open spec fn strings_view(s: Seq<String>) -> Seq<Seq<char>> {
    Seq::new(s.len(), |i: int| s[i]@)
}

/// `str::starts_with` for a string pattern: whether `text` begins with
/// `prefix`.
#[verifier::external_body]
pub(crate) fn starts_with(text: &str, prefix: &str) -> (b: bool)
    ensures
        b == prefix@.is_prefix_of(text@),
{
    text.starts_with(prefix)
}

/// `RegexSet::matches` followed by `SetMatches::matched_any`: whether at least
/// one expression of the set matches somewhere in `name`. The contract only
/// names the texts for which this holds.
#[verifier::external_body]
pub(crate) fn matched_any(re: &RegexSet, name: &str) -> (b: bool)
    ensures
        b == regex_set_language(*re).contains(name@),
{
    re.matches(name).matched_any()
}

/// `RegexSet::new`: compiles the expressions into one set; there is none
/// where one of them is not a regular expression or the set grows too large.
/// The contract says that whether there is a set depends on the patterns
/// alone, and so does what the set matches; it names both.
#[verifier::external_body]
fn compile(patterns: &Vec<String>) -> (r: Option<RegexSet>)
    ensures
        r is Some <==> patterns_compile(strings_view(patterns@)),
        r matches Some(set) ==> regex_set_language(set) == pattern_language(
            strings_view(patterns@),
        ),
{
    RegexSet::new(patterns).ok()
}

/// The patterns that select names where the caller gives none: the one
/// pattern `.*`, which matches every name.
pub open spec fn default_patterns() -> Seq<Seq<char>> {
    seq![".*"@]
}

/// The patterns that a filter is made of: those given, or the default ones.
pub open spec fn chosen_patterns(patterns: Option<Vec<String>>) -> Seq<Seq<char>> {
    match patterns {
        Some(p) => strings_view(p@),
        None => default_patterns(),
    }
}

/// Makes the set of expressions that selects names: of the patterns given,
/// or of `.*` alone where none are given. There is a set exactly where
/// `regex` compiles these patterns; there is none where one of them is not a
/// regular expression.
pub fn name_filter(patterns: Option<Vec<String>>) -> (r: Option<RegexSet>)
    ensures
        r is Some <==> patterns_compile(chosen_patterns(patterns)),
        r matches Some(set) ==> regex_set_language(set) == pattern_language(
            chosen_patterns(patterns),
        ),
{
    let chosen = match patterns {
        Some(p) => p,
        None => {
            let mut v: Vec<String> = Vec::new();
            v.push(".*".to_owned());
            assert(strings_view(v@) =~= default_patterns());
            v
        },
    };
    compile(&chosen)
}

} // verus!
