//! A relay that forwards chat lines and rewrites every payment address in
//! them to a fixed one.

use vstd::prelude::*;

verus! {

/// What `Regex::new(pattern)` followed by `replace_all(text, replacement)`
/// gives: `None` when the pattern does not compile.
pub uninterp spec fn regex_replace_all(pattern: Seq<char>, text: Seq<char>, replacement: Seq<char>) -> Option<Seq<char>>;

/// Relies on `regex::Regex::new` and `Regex::replace_all`: every
/// leftmost-first, non-overlapping match in `text` replaced by `replacement`
/// (with `$` group references expanded), or `None` when the pattern is not a
/// valid regular expression.
#[verifier::external_body]
fn replace_all_matches(pattern: &str, text: &str, replacement: &str) -> (r: Option<String>)
    ensures
        (match r {
            Some(s) => Some(s@),
            None => None,
        }) == regex_replace_all(pattern@, text@, replacement@),
{
    match regex::Regex::new(pattern) {
        Ok(re) => Some(re.replace_all(text, replacement).into_owned()),
        Err(_) => None,
    }
}

/// A payment address: a word of 26 to 35 letters and digits starting with `7`.
pub open spec fn address_pattern() -> Seq<char> {
    "\\b7[a-zA-Z0-9]{25,34}\\b"@
}

/// The address that every payment address is rewritten to.
pub open spec fn replacement_address() -> Seq<char> {
    "${1}7YWHMfk9JZe0LM0g1ZauHuiSxhI${3}"@
}

/// The message with every payment address replaced by the fixed one.
pub open spec fn rewritten(message: Seq<char>) -> Seq<char> {
    match regex_replace_all(address_pattern(), message, replacement_address()) {
        Some(s) => s,
        None => message,
    }
}

/// Rewrites each payment address in `message` to the fixed address.
pub fn replace_boguscoin_address(message: &str) -> (r: String)
    ensures
        r@ == rewritten(message@),
{
    match replace_all_matches("\\b7[a-zA-Z0-9]{25,34}\\b", message, "${1}7YWHMfk9JZe0LM0g1ZauHuiSxhI${3}") {
        Some(s) => s,
        None => String::from_str(message),
    }
}

} // verus!
