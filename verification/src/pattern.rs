//! The regular expressions of custom module sources, compiled and matched
//! by `regex_lite`.
use vstd::prelude::*;

verus! {

/// The message of the error that `regex_lite::Regex::new` reports for
/// `pattern`, or `None` when the pattern compiles.
pub uninterp spec fn regex_compile_error(pattern: Seq<char>) -> Option<Seq<char>>;

/// The text of the first capture group of the leftmost match of `pattern` in
/// `input`, or `None` when the pattern does not compile, does not match, or
/// its first group takes no part in the match.
pub uninterp spec fn regex_first_capture(pattern: Seq<char>, input: Seq<char>) -> Option<Seq<char>>;

/// Compiles `pattern` with `regex_lite::Regex::new` and returns the error's
/// message (its `Display` text) when compilation fails.
///
/// The result is named by [`regex_compile_error`]: it depends on the pattern
/// alone, and nothing more is said of it here.
#[verifier::external_body]
pub(crate) fn regex_error(pattern: &str) -> (r: Option<String>)
    ensures
        match r {
            Some(m) => regex_compile_error(pattern@) == Some(m@),
            None => regex_compile_error(pattern@) is None,
        },
{
    regex_lite::Regex::new(pattern).err().map(|e| e.to_string())
}

/// Compiles `pattern` with `regex_lite::Regex::new`, searches `input` with
/// `Regex::captures`, and returns the text of capture group 1
/// (`Captures::get(1)`, `Match::as_str`).
///
/// The result is named by [`regex_first_capture`]: it depends on the pattern
/// and the input alone.
#[verifier::external_body]
pub(crate) fn first_capture(pattern: &str, input: &str) -> (r: Option<String>)
    ensures
        match r {
            Some(m) => regex_first_capture(pattern@, input@) == Some(m@),
            None => regex_first_capture(pattern@, input@) is None,
        },
{
    let re = regex_lite::Regex::new(pattern).ok()?;
    let caps = re.captures(input)?;
    caps.get(1).map(|m| m.as_str().to_owned())
}

} // verus!
