//! The regular-expression and text-decoding calls that the line filter and
//! the option checks make. Each item here is trusted: its contract restates
//! what the called crate documents, and the results are named rather than
//! written out.

use vstd::prelude::*;

verus! {

/// What `regex::Regex::new(pattern)` reports: `None` when the pattern
/// compiles, otherwise the `Display` text of the `regex::Error` it returns.
pub uninterp spec fn regex_compile_error(pattern: Seq<char>) -> Option<Seq<char>>;

/// Whether the regex compiled from `pattern` matches somewhere in `text`
/// (`regex::Regex::is_match`).
pub uninterp spec fn regex_finds_match(pattern: Seq<char>, text: Seq<char>) -> bool;

/// The text `String::from_utf8_lossy` decodes from `bytes` (invalid
/// sequences become U+FFFD).
pub uninterp spec fn utf8_lossy(bytes: Seq<u8>) -> Seq<char>;

/// Calls `regex::Regex::new(pattern)` and keeps only whether it succeeded and,
/// if not, the error's `Display` text. Trusted: the contract claims nothing
/// beyond naming that outcome.
#[verifier::external_body]
pub(crate) fn pattern_error(pattern: &str) -> (r: Option<String>)
    ensures
        match r {
            Some(e) => regex_compile_error(pattern@) == Some(e@),
            None => regex_compile_error(pattern@) is None,
        },
{
    match regex::Regex::new(pattern) {
        Ok(_) => None,
        Err(e) => Some(format!("{e}")),
    }
}

/// Compiles `pattern` with `regex::Regex::new` and asks `Regex::is_match`
/// whether it matches in `text`. Trusted: the contract only names the answer.
#[verifier::external_body]
pub(crate) fn pattern_matches(pattern: &str, text: &str) -> (b: bool)
    requires
        regex_compile_error(pattern@) is None,
    ensures
        b == regex_finds_match(pattern@, text@),
{
    match regex::Regex::new(pattern) {
        Ok(re) => re.is_match(text),
        Err(_) => false,
    }
}

/// `String::from_utf8_lossy(bytes)`, as an owned string. Trusted: the
/// contract only names the decoded text.
#[verifier::external_body]
pub(crate) fn lossy_text(bytes: &[u8]) -> (s: String)
    ensures
        s@ == utf8_lossy(bytes@),
{
    String::from_utf8_lossy(bytes).into_owned()
}

} // verus!
