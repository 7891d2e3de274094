//! Regular expressions: what the engine takes from the `regex` crate.
//!
//! Which texts a pattern matches, and what a substitution makes of a text,
//! is the `regex` crate's business. The engine names these results and
//! leaves them uninterpreted: its contracts say what is done with them.

use vstd::prelude::*;
use regex::Regex;
use crate::error::{raised, CustomError, ErrorKind};

verus! {

/// Whether `Regex::new` accepts `pattern`.
pub uninterp spec fn pattern_compiles(pattern: Seq<char>) -> bool;

/// Whether `pattern`, compiled by `Regex::new`, has a match anywhere in
/// `text`.
pub uninterp spec fn pattern_matches(pattern: Seq<char>, text: Seq<char>) -> bool;

/// `text` with every non-overlapping match of `pattern` replaced by
/// `replacement`, as `Regex::replace_all` does it.
pub uninterp spec fn pattern_replace_all(
    pattern: Seq<char>,
    text: Seq<char>,
    replacement: Seq<char>,
) -> Seq<char>;

/// Compiles `pattern` with `regex::Regex::new` and asks `Regex::is_match`
/// for `text`. Nothing is proved of this function: it is taken on trust
/// that the answer is `None` exactly for a pattern that does not compile,
/// and that it otherwise depends on the pattern and the text alone.
#[verifier::external_body]
fn search(pattern: &str, text: &str) -> (found: Option<bool>)
    ensures
        found is Some <==> pattern_compiles(pattern@),
        found matches Some(b) ==> b == pattern_matches(pattern@, text@),
{
    match Regex::new(pattern) {
        Ok(re) => Some(re.is_match(text)),
        Err(_) => None,
    }
}

/// Compiles `pattern` with `regex::Regex::new` and lets
/// `Regex::replace_all` replace its matches in `text`. Nothing is proved of
/// this function: it is taken on trust that the answer is `None` exactly
/// for a pattern that does not compile, and that it otherwise depends on
/// the three texts alone.
#[verifier::external_body]
fn substitute(pattern: &str, text: &str, replacement: &str) -> (replaced: Option<String>)
    ensures
        replaced is Some <==> pattern_compiles(pattern@),
        replaced matches Some(s) ==> s@ == pattern_replace_all(pattern@, text@, replacement@),
{
    match Regex::new(pattern) {
        Ok(re) => Some(re.replace_all(text, replacement).into_owned()),
        Err(_) => None,
    }
}

/// What substituting `replacement` for `pattern` makes of `text`: an error
/// for a pattern that does not compile or does not occur, the text with
/// every occurrence replaced otherwise.
pub open spec fn rewrite_of(text: Seq<char>, pattern: Seq<char>, replacement: Seq<char>) -> Result<
    Seq<char>,
    ErrorKind,
> {
    if !pattern_compiles(pattern) {
        Err(ErrorKind::Underlying)
    } else if !pattern_matches(pattern, text) {
        Err(ErrorKind::NoMatch)
    } else {
        Ok(pattern_replace_all(pattern, text, replacement))
    }
}

/// Judges the answer of a search: `None` stands for a pattern that is no
/// regular expression, `Some(false)` for one without a match.
pub fn verdict(found: Option<bool>) -> (r: Result<(), CustomError>)
    ensures
        match found {
            None => r matches Err(e) && e@ == raised(ErrorKind::Underlying),
            Some(false) => r matches Err(e) && e@ == raised(ErrorKind::NoMatch),
            Some(true) => r is Ok,
        },
{
    match found {
        None => Err(CustomError::of_kind(ErrorKind::Underlying)),
        Some(false) => Err(CustomError::of_kind(ErrorKind::NoMatch)),
        Some(true) => Ok(()),
    }
}

/// Replaces every match of `pattern` in `text` by `replacement`. A text
/// without a match is an error, not a text left as it is.
pub fn rewrite(text: &str, pattern: &str, replacement: &str) -> (r: Result<String, CustomError>)
    ensures
        match rewrite_of(text@, pattern@, replacement@) {
            Ok(t) => r matches Ok(s) && s@ == t,
            Err(kind) => r matches Err(e) && e@ == raised(kind),
        },
{
    let found = search(pattern, text);
    match verdict(found) {
        Err(e) => Err(e),
        Ok(()) => match substitute(pattern, text, replacement) {
            Some(s) => Ok(s),
            None => Err(CustomError::of_kind(ErrorKind::Underlying)),
        },
    }
}

} // verus!
