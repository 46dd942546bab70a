//! Checks on text: its length in characters, and whether it matches a
//! regular expression.

use vstd::prelude::*;
use crate::validation::params::{MaxLengthErrorParams, MinLengthErrorParams, PatternErrorParams};

verus! {

/// `regex::Regex`: a compiled regular expression. Nothing inside it is
/// seen here; it is only handed to the functions of its crate.
#[verifier::external_type_specification]
#[verifier::external_body]
pub struct ExRegex(regex::Regex);

/// The pattern that a regular expression was compiled from.
pub uninterp spec fn regex_pattern(regex: regex::Regex) -> Seq<char>;

/// Whether a regular expression matches somewhere in a text.
pub uninterp spec fn regex_is_match(regex: regex::Regex, text: Seq<char>) -> bool;

/// The regular expression that a pattern compiles to, if it compiles.
pub uninterp spec fn regex_of(pattern: Seq<char>) -> Option<regex::Regex>;

/// `Regex::as_str`: the string that the regular expression was compiled from.
#[verifier::external_body]
pub(crate) fn regex_as_str(regex: &regex::Regex) -> (pattern: String)
    ensures
        pattern@ == regex_pattern(*regex),
{
    regex.as_str().to_string()
}

/// `Regex::is_match`: whether the regular expression matches somewhere in `text`.
#[verifier::external_body]
pub(crate) fn regex_matches(regex: &regex::Regex, text: &str) -> (found: bool)
    ensures
        found == regex_is_match(*regex, text@),
{
    regex.is_match(text)
}

/// `Regex::new`: the regular expression that `pattern` compiles to, or
/// nothing for a pattern that is invalid or too big. The regular expression
/// keeps the string it was compiled from.
#[verifier::external_body]
pub(crate) fn regex_new(pattern: &str) -> (regex: Option<regex::Regex>)
    ensures
        regex == regex_of(pattern@),
        regex matches Some(compiled) ==> regex_pattern(compiled) == pattern@,
{
    match regex::Regex::new(pattern) {
        Ok(compiled) => Some(compiled),
        Err(_) => None,
    }
}

/// Pattern validation of a text.
pub trait ValidatePattern {
    /// Succeeds where `pattern` matches; fails with the pattern otherwise.
    fn validate_pattern(&self, pattern: &regex::Regex) -> Result<(), PatternErrorParams>;
}

impl ValidatePattern for str {
    fn validate_pattern(&self, pattern: &regex::Regex) -> (result: Result<(), PatternErrorParams>)
        ensures
            result is Ok <==> regex_is_match(*pattern, self@),
            result matches Err(params) ==> params.pattern@ == regex_pattern(*pattern),
    {
        if regex_matches(pattern, self) {
            Ok(())
        } else {
            Err(PatternErrorParams::new(pattern))
        }
    }
}

impl ValidatePattern for String {
    fn validate_pattern(&self, pattern: &regex::Regex) -> (result: Result<(), PatternErrorParams>)
        ensures
            result is Ok <==> regex_is_match(*pattern, self@),
            result matches Err(params) ==> params.pattern@ == regex_pattern(*pattern),
    {
        if regex_matches(pattern, self.as_str()) {
            Ok(())
        } else {
            Err(PatternErrorParams::new(pattern))
        }
    }
}

/// The length of a text: the number of its characters as a reader sees
/// them, which Unicode calls extended grapheme clusters.
pub uninterp spec fn grapheme_count(text: Seq<char>) -> nat;

/// `UnicodeSegmentation::graphemes(text, true).count()`: the number of
/// extended grapheme clusters of `text`.
#[verifier::external_body]
pub(crate) fn count_graphemes(text: &str) -> (count: usize)
    ensures
        count == grapheme_count(text@),
{
    unicode_segmentation::UnicodeSegmentation::graphemes(text, true).count()
}

/// Min length validation of a text.
pub trait ValidateMinLength {
    /// Succeeds where the text has at least `min_length` characters; fails with the bound otherwise.
    fn validate_min_length(&self, min_length: usize) -> Result<(), MinLengthErrorParams>;
}

/// Max length validation of a text.
pub trait ValidateMaxLength {
    /// Succeeds where the text has at most `max_length` characters; fails with the bound otherwise.
    fn validate_max_length(&self, max_length: usize) -> Result<(), MaxLengthErrorParams>;
}

impl ValidateMinLength for str {
    fn validate_min_length(&self, min_length: usize) -> (result: Result<(), MinLengthErrorParams>)
        ensures
            result is Ok <==> grapheme_count(self@) >= min_length,
            result matches Err(params) ==> params.min_length == min_length,
    {
        if min_length <= count_graphemes(self) {
            Ok(())
        } else {
            Err(MinLengthErrorParams::new(min_length))
        }
    }
}

impl ValidateMinLength for String {
    fn validate_min_length(&self, min_length: usize) -> (result: Result<(), MinLengthErrorParams>)
        ensures
            result is Ok <==> grapheme_count(self@) >= min_length,
            result matches Err(params) ==> params.min_length == min_length,
    {
        if min_length <= count_graphemes(self.as_str()) {
            Ok(())
        } else {
            Err(MinLengthErrorParams::new(min_length))
        }
    }
}

impl ValidateMaxLength for str {
    fn validate_max_length(&self, max_length: usize) -> (result: Result<(), MaxLengthErrorParams>)
        ensures
            result is Ok <==> grapheme_count(self@) <= max_length,
            result matches Err(params) ==> params.max_length == max_length,
    {
        if max_length >= count_graphemes(self) {
            Ok(())
        } else {
            Err(MaxLengthErrorParams::new(max_length))
        }
    }
}

impl ValidateMaxLength for String {
    fn validate_max_length(&self, max_length: usize) -> (result: Result<(), MaxLengthErrorParams>)
        ensures
            result is Ok <==> grapheme_count(self@) <= max_length,
            result matches Err(params) ==> params.max_length == max_length,
    {
        if max_length >= count_graphemes(self.as_str()) {
            Ok(())
        } else {
            Err(MaxLengthErrorParams::new(max_length))
        }
    }
}

} // verus!
