//! Name filters: regular expressions that must match a whole name.
use vstd::prelude::*;
use vstd::string::StringExecFns;

verus! {

/// Whether `regex::Regex::new` accepts the pattern.
pub uninterp spec fn regex_valid(pattern: Seq<char>) -> bool;

/// Whether the compiled pattern matches somewhere in the haystack.
pub uninterp spec fn regex_finds(pattern: Seq<char>, haystack: Seq<char>) -> bool;

/// Relies on `regex::Regex::new`, which compiles a pattern or fails, and on
/// `regex::Regex::is_match`, which reports whether the compiled pattern
/// matches anywhere in the haystack. Both depend on their arguments alone.
#[verifier::external_body]
fn regex_search(pattern: &str, haystack: &str) -> (r: Option<bool>)
    ensures
        r is Some <==> regex_valid(pattern@),
        r matches Some(b) ==> b == regex_finds(pattern@, haystack@),
{
    match regex::Regex::new(pattern) {
        Ok(re) => Some(re.is_match(haystack)),
        Err(_) => None,
    }
}

/// The pattern wrapped so that it must match the whole text.
pub open spec fn anchored(pattern: Seq<char>) -> Seq<char> {
    "^(?:"@ + pattern + ")$"@
}

/// The anchored form of a pattern compiles.
pub open spec fn pattern_valid(pattern: Seq<char>) -> bool {
    regex_valid(anchored(pattern))
}

/// `text` as a whole matches `pattern`.
pub open spec fn full_match(pattern: Seq<char>, text: Seq<char>) -> bool {
    regex_finds(anchored(pattern), text)
}

/// Builds the anchored form of a pattern.
pub fn anchor(pattern: &str) -> (r: String)
    ensures
        r@ == anchored(pattern@),
{
    let mut r = String::from_str("^(?:");
    r.append(pattern);
    r.append(")$");
    r
}

/// Matches `text` as a whole against `pattern`; `None` where the pattern
/// does not compile.
pub fn matches_whole(pattern: &str, text: &str) -> (r: Option<bool>)
    ensures
        r is Some <==> pattern_valid(pattern@),
        r matches Some(b) ==> b == full_match(pattern@, text@),
{
    let a = anchor(pattern);
    regex_search(a.as_str(), text)
}

} // verus!
