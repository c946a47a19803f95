//! The date pattern that marks a link as a post, matched by the `regex` crate.

use vstd::prelude::*;

verus! {

/// The pattern of a publish date: four digits, two digits and two digits,
/// separated by hyphens.
pub const DATE_PATTERN: &'static str = "(\\d\\d\\d\\d-\\d\\d-\\d\\d)";

/// The leftmost match of the regular expression `pattern` in `haystack`:
/// the byte offset at which it starts and the text that matched.  `None`
/// where nothing matches or `pattern` is no regular expression.
pub uninterp spec fn regex_first_match(pattern: Seq<char>, haystack: Seq<char>) -> Option<
    (int, Seq<char>),
>;

/// The first date in `text`, wherever it stands.
pub open spec fn first_date(text: Seq<char>) -> Option<Seq<char>> {
    match regex_first_match(DATE_PATTERN@, text) {
        Some((_, date)) => Some(date),
        None => None,
    }
}

/// Whether `text` opens with a date.
pub open spec fn opens_with_date(text: Seq<char>) -> bool {
    match regex_first_match(DATE_PATTERN@, text) {
        Some((start, _)) => start == 0,
        None => false,
    }
}

/// Calls `regex::Regex::new` on `pattern` and `Regex::find` on `haystack`.
/// Trusted: the result is the one that `regex_first_match` names, a
/// function of the two texts alone.
#[verifier::external_body]
pub(crate) fn find_match(pattern: &str, haystack: &str) -> (found: Option<(usize, String)>)
    ensures
        match found {
            Some((start, text)) => regex_first_match(pattern@, haystack@) == Some(
                (start as int, text@),
            ),
            None => regex_first_match(pattern@, haystack@) is None,
        },
{
    let regex = regex::Regex::new(pattern).ok()?;
    let found = regex.find(haystack)?;
    Some((found.start(), found.as_str().to_owned()))
}

/// The first date in `text`, wherever it stands.
pub fn find_date(text: &str) -> (date: Option<String>)
    ensures
        match date {
            Some(d) => first_date(text@) == Some(d@),
            None => first_date(text@) is None,
        },
{
    match find_match(DATE_PATTERN, text) {
        Some((_, date)) => Some(date),
        None => None,
    }
}

/// Whether `text` opens with a date.
pub fn starts_with_date(text: &str) -> (r: bool)
    ensures
        r == opens_with_date(text@),
{
    match find_match(DATE_PATTERN, text) {
        Some((start, _)) => start == 0,
        None => false,
    }
}

} // verus!
