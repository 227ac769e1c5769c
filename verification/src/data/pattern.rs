use vstd::prelude::*;

verus! {

/// The error with which the `regex` crate refuses a pattern.
#[verifier::external_type_specification]
#[verifier::external_body]
pub struct ExRegexError(regex::Error);

/// What the `regex` crate finds when it looks for `pattern` in `text`:
/// `None` where the pattern matches nowhere, else the groups of the first
/// match. Group 0 is the whole match and group `i` is what the `i`-th pair of
/// brackets of the pattern took; a group that took no part is `None`.
pub uninterp spec fn pattern_groups(pattern: Seq<char>, text: Seq<char>) -> Option<
    Seq<Option<Seq<char>>>,
>;

/// Whether the `regex` crate takes `pattern` for a regular expression: it
/// refuses one that it cannot parse, and one whose compiled form would be
/// larger than the size limit that the crate sets by default. How large a
/// compiled form is depends on the target, so for a pattern close to that
/// limit this is a statement about one target; the patterns of this library
/// are a few characters long.
pub uninterp spec fn pattern_accepted(pattern: Seq<char>) -> bool;

/// Compiles `pattern` with `regex::Regex::new` and searches `text` with
/// `Regex::captures`. Believed, not proved: the call succeeds exactly when
/// the crate accepts the pattern, whatever the text, and what then comes back
/// is `pattern_groups` of the two texts, each group copied out of `text` as it
/// stands.
#[verifier::external_body]
pub(crate) fn match_groups(pattern: &str, text: &str) -> (r: Result<
    Option<Vec<Option<String>>>,
    regex::Error,
>)
    ensures
        r is Ok <==> pattern_accepted(pattern@),
        r matches Ok(found) ==> found.deep_view() == pattern_groups(pattern@, text@),
{
    let re = regex::Regex::new(pattern)?;
    Ok(
        re.captures(text).map(
            |caps| (0..caps.len()).map(|i| caps.get(i).map(|m| m.as_str().to_string())).collect(),
        ),
    )
}

} // verus!
