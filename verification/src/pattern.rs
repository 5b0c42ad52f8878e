//! The two patterns that messages are matched against.

use regex::Regex;
use vstd::prelude::*;

verus! {

/// The pattern of a link.
pub open spec fn link_pattern() -> Seq<char> {
    "^(https|http|\\^\\^).*"@
}

/// The pattern of an announcement.
pub open spec fn enroll_pattern() -> Seq<char> {
    "^Enrolling new student:"@
}

/// Whether a text is a link: it begins with `https`, with `http`, or with
/// two carets.
pub open spec fn is_link(text: Seq<char>) -> bool {
    "https"@.is_prefix_of(text) || "http"@.is_prefix_of(text) || "^^"@.is_prefix_of(text)
}

/// Whether a text is an announcement: it begins with the header of the
/// confirmation message.
pub open spec fn is_announcement(text: Seq<char>) -> bool {
    "Enrolling new student:"@.is_prefix_of(text)
}

/// Compiles `pattern` with `regex::Regex::new` and searches `haystack` with
/// `Regex::is_match`; a pattern that does not compile gives `None`.
///
/// Nothing is proved of either call. The contract speaks of the two
/// patterns above only, and claims what the syntax of regular expressions
/// says of them: both compile; a leading `^` stands for the start of the
/// text; `https|http|\^\^` matches one of these three texts, an escaped
/// caret being a caret; `.*` also matches nothing; every character of the
/// header stands for itself. So the first matches the texts that begin with
/// one of the three, and the second those that begin with the header. Of
/// any other pattern the contract says nothing.
#[verifier::external_body]
pub(crate) fn is_match(pattern: &str, haystack: &str) -> (out: Option<bool>)
    ensures
        pattern@ == link_pattern() ==> out == Some(is_link(haystack@)),
        pattern@ == enroll_pattern() ==> out == Some(is_announcement(haystack@)),
{
    match Regex::new(pattern) {
        Ok(re) => Some(re.is_match(haystack)),
        Err(_) => None,
    }
}

} // verus!
