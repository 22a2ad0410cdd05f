//! Regular expressions that are equal if they are written alike.
use std::str::FromStr;
use vstd::prelude::*;

use crate::text;

verus! {

#[verifier::external_type_specification]
#[verifier::external_body]
pub struct ExRegex(regex::Regex);

#[verifier::external_type_specification]
#[verifier::external_body]
pub struct ExRegexError(regex::Error);

/// The string form of a regular expression.
pub uninterp spec fn regex_text(expression: regex::Regex) -> Seq<char>;

/// The regular expression that a pattern writes, or why it writes none.
pub uninterp spec fn regex_of(pattern: Seq<char>) -> Result<regex::Regex, regex::Error>;

/// Calls `Regex::as_str`. Trusted: the result is a function of the regular expression.
#[verifier::external_body]
fn text_of(expression: &regex::Regex) -> (res: &str)
    ensures
        res@ == regex_text(*expression),
{
    expression.as_str()
}

/// Calls `<regex::Regex as FromStr>::from_str`. Trusted: the outcome is a function of the pattern,
/// and the pattern is the string form of what it is compiled to.
#[verifier::external_body]
fn compile(pattern: &str) -> (res: Result<regex::Regex, regex::Error>)
    ensures
        res == regex_of(pattern@),
        match res {
            Ok(expression) => regex_text(expression) == pattern@,
            Err(_) => true,
        },
{
    regex::Regex::from_str(pattern)
}

/// The clone of a `regex::Regex`. Trusted: it is the same regular expression.
pub assume_specification[ <regex::Regex as Clone>::clone ](expression: &regex::Regex) -> (res:
    regex::Regex)
    ensures
        res == *expression,
;

/// A `Regex` that implements `PartialEq` by its string form.
#[derive(Debug)]
pub struct RegexEq(pub regex::Regex);

impl View for RegexEq {
    type V = Seq<char>;

    open spec fn view(&self) -> Seq<char> {
        regex_text(self.0)
    }
}

/// A compiled pattern, or why it could not be compiled.
pub open spec fn compiled(res: Result<RegexEq, regex::Error>) -> Result<
    regex::Regex,
    regex::Error,
> {
    match res {
        Ok(regex) => Ok(regex.0),
        Err(e) => Err(e),
    }
}

impl RegexEq {
    /// Compiles a pattern.
    pub fn from_str(s: &str) -> (res: Result<Self, regex::Error>)
        ensures
            compiled(res) == regex_of(s@),
            res matches Ok(regex) ==> regex@ == s@,
    {
        match compile(s) {
            Ok(expression) => Ok(RegexEq(expression)),
            Err(e) => Err(e),
        }
    }
}

impl Clone for RegexEq {
    fn clone(&self) -> (res: Self)
        ensures
            res == *self,
    {
        RegexEq(self.0.clone())
    }
}

impl FromStr for RegexEq {
    type Err = regex::Error;

    fn from_str(s: &str) -> (res: Result<Self, regex::Error>)
        ensures
            compiled(res) == regex_of(s@),
            res matches Ok(regex) ==> regex@ == s@,
    {
        RegexEq::from_str(s)
    }
}

impl PartialEq for RegexEq {
    fn eq(&self, other: &Self) -> (res: bool) {
        text::same_text(text_of(&self.0), text_of(&other.0))
    }
}

impl vstd::std_specs::cmp::PartialEqSpecImpl for RegexEq {
    open spec fn obeys_eq_spec() -> bool {
        true
    }

    open spec fn eq_spec(&self, other: &Self) -> bool {
        self@ == other@
    }
}

impl Eq for RegexEq {

}

/// Equality of regular expressions is an equivalence.
pub proof fn equality_is_an_equivalence(a: RegexEq, b: RegexEq, c: RegexEq)
    ensures
        vstd::std_specs::cmp::PartialEqSpec::eq_spec(&a, &a),
        vstd::std_specs::cmp::PartialEqSpec::eq_spec(&a, &b)
            == vstd::std_specs::cmp::PartialEqSpec::eq_spec(&b, &a),
        vstd::std_specs::cmp::PartialEqSpec::eq_spec(&a, &b)
            && vstd::std_specs::cmp::PartialEqSpec::eq_spec(&b, &c)
            ==> vstd::std_specs::cmp::PartialEqSpec::eq_spec(&a, &c),
{
}

/// Regular expressions are equal if and only if their string forms are, character for character,
/// and what a pattern was compiled to is seen as it is.
pub proof fn equality_is_that_of_string_forms(a: RegexEq, b: RegexEq, error: regex::Error)
    ensures
        vstd::std_specs::cmp::PartialEqSpec::eq_spec(&a, &b) <==> regex_text(a.0) == regex_text(
            b.0,
        ),
        a@ == regex_text(a.0),
        compiled(Ok(a)) == Ok::<regex::Regex, regex::Error>(a.0),
        compiled(Err(error)) == Err::<regex::Regex, regex::Error>(error),
{
}

} // verus!
