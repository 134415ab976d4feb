//! The forms of names, regions and zones, and the search that decides on
//! them.

use vstd::prelude::*;

verus! {

/// Whether `c` is a lowercase ASCII letter.
pub open spec fn lower(c: char) -> bool {
    'a' <= c && c <= 'z'
}

/// Whether `c` is an ASCII digit.
pub open spec fn digit(c: char) -> bool {
    '0' <= c && c <= '9'
}

/// Whether `text` is made of lowercase ASCII letters alone.
pub open spec fn all_lower(text: Seq<char>) -> bool {
    forall|i: int| 0 <= i < text.len() ==> lower(#[trigger] text[i])
}

/// Whether `name` may name a profile: a lowercase ASCII letter, followed by
/// any number of lowercase ASCII letters, digits and hyphens. These are the
/// texts that `^[a-z][-a-z0-9]*$` describes.
pub open spec fn valid_name(name: Seq<char>) -> bool {
    &&& name.len() >= 1
    &&& lower(name[0])
    &&& forall|i: int|
        1 <= i < name.len() ==> lower(#[trigger] name[i]) || digit(name[i]) || name[i] == '-'
}

/// Whether `text` has the form of a region, as `europe-west1` has: one or
/// more lowercase ASCII letters, a hyphen, one or more lowercase ASCII
/// letters, and one digit at the end. These are the texts that
/// `^[a-z]+-[a-z]+[0-9]$` describes.
pub open spec fn valid_region(text: Seq<char>) -> bool {
    exists|hyphen: int|
        {
            &&& 1 <= hyphen
            &&& hyphen + 3 <= text.len()
            &&& all_lower(#[trigger] text.subrange(0, hyphen))
            &&& text[hyphen] == '-'
            &&& all_lower(text.subrange(hyphen + 1, text.len() - 1))
            &&& digit(text[text.len() - 1])
        }
}

/// Whether `text` has the form of a zone, as `europe-west1-d` has: a
/// region, a hyphen, and one lowercase ASCII letter at the end. These are
/// the texts that `^[a-z]+-[a-z]+[0-9]-[a-z]$` describes.
pub open spec fn valid_zone(text: Seq<char>) -> bool {
    &&& text.len() >= 2
    &&& valid_region(text.subrange(0, text.len() - 2))
    &&& text[text.len() - 2] == '-'
    &&& lower(text[text.len() - 1])
}

/// Builds `pattern` with `regex::Regex::new` and asks `regex::Regex::is_match`
/// whether `haystack` holds a match; a pattern that the crate refuses gives
/// `None`. The contract speaks of the three patterns of this library only.
/// Each begins with `^` and ends with `$`, which stand for the start and
/// the end of the haystack, so that a match is the whole haystack; a class
/// in brackets stands for one character out of it, `*` for any number of
/// what comes before it and `+` for one or more. Each of the three can be
/// built, and the contract says of each which haystacks it describes.
#[verifier::external_body]
pub(crate) fn is_match(pattern: &str, haystack: &str) -> (found: Option<bool>)
    ensures
        pattern@ == "^[a-z][-a-z0-9]*$"@ ==> found == Some(valid_name(haystack@)),
        pattern@ == "^[a-z]+-[a-z]+[0-9]$"@ ==> found == Some(valid_region(haystack@)),
        pattern@ == "^[a-z]+-[a-z]+[0-9]-[a-z]$"@ ==> found == Some(valid_zone(haystack@)),
{
    match regex::Regex::new(pattern) {
        Ok(re) => Some(re.is_match(haystack)),
        Err(_) => None,
    }
}

/// Whether a search that returned `found` found a match.
pub open spec fn accepted(found: Option<bool>) -> bool {
    found == Some(true)
}

/// Whether a search found a match, from what it returned: a pattern that
/// could not be built matches nothing.
pub fn accepts(found: Option<bool>) -> (hit: bool)
    ensures
        hit == accepted(found),
{
    match found {
        Some(hit) => hit,
        None => false,
    }
}

} // verus!
