//! Addresses of feeds and posts.  An address is held as text; the `url`
//! crate decides what is an absolute URL and how a reference resolves.

use vstd::prelude::*;

verus! {

/// The normal form of `text` as an absolute URL, `None` where `text` is none.
pub uninterp spec fn absolute_url(text: Seq<char>) -> Option<Seq<char>>;

/// The URL that `reference` denotes when it is met in the document at
/// `base`, `None` where `base` is no absolute URL or nothing is denoted.
pub uninterp spec fn joined_url(base: Seq<char>, reference: Seq<char>) -> Option<Seq<char>>;

/// The last segment of the path of the absolute URL `text`, `None` where
/// `text` is no absolute URL or its path has no segments.
pub uninterp spec fn last_path_segment(text: Seq<char>) -> Option<Seq<char>>;

/// The absolute URL `text` with `query` for its query, `None` where `text`
/// is no absolute URL.
pub uninterp spec fn url_with_query(text: Seq<char>, query: Seq<char>) -> Option<Seq<char>>;

/// Calls `url::Url::parse` and hands out the URL as text.  Trusted: the
/// result is the one that `absolute_url` names, a function of the text alone.
#[verifier::external_body]
pub(crate) fn parse_absolute(text: &str) -> (url: Option<String>)
    ensures
        match url {
            Some(u) => absolute_url(text@) == Some(u@),
            None => absolute_url(text@) is None,
        },
{
    let url = url::Url::parse(text).ok()?;
    Some(String::from(url))
}

/// Calls `url::Url::join` on the URL read from `base`, and hands out the
/// result as text.  Trusted: the result is the one that `joined_url` names,
/// a function of the two texts alone.
#[verifier::external_body]
pub(crate) fn join(base: &str, reference: &str) -> (url: Option<String>)
    ensures
        match url {
            Some(u) => joined_url(base@, reference@) == Some(u@),
            None => joined_url(base@, reference@) is None,
        },
{
    let url = url::Url::parse(base).ok()?.join(reference).ok()?;
    Some(String::from(url))
}

/// Calls `url::Url::path_segments` on the URL read from `text`, and hands
/// out the last of the segments.  Trusted: the result is the one that
/// `last_path_segment` names, a function of the text alone.
#[verifier::external_body]
pub(crate) fn final_segment(text: &str) -> (segment: Option<String>)
    ensures
        match segment {
            Some(s) => last_path_segment(text@) == Some(s@),
            None => last_path_segment(text@) is None,
        },
{
    let url = url::Url::parse(text).ok()?;
    let segment = url.path_segments()?.last()?;
    Some(segment.to_owned())
}

/// Calls `url::Url::set_query` on the URL read from `text`, and hands out
/// the result as text.  Trusted: the result is the one that
/// `url_with_query` names, a function of the two texts alone.
#[verifier::external_body]
pub(crate) fn with_query(text: &str, query: &str) -> (url: Option<String>)
    ensures
        match url {
            Some(u) => url_with_query(text@, query@) == Some(u@),
            None => url_with_query(text@, query@) is None,
        },
{
    let mut url = url::Url::parse(text).ok()?;
    url.set_query(Some(query));
    Some(String::from(url))
}

} // verus!
