//! The ways in which loading a feed or publishing its posts can fail.

use vstd::prelude::*;
use vstd::string::StringExecFns;

verus! {

/// A failure of feed ingestion or of publication.
#[derive(Debug, Clone, PartialEq, Eq)]
pub enum FeedError {
    /// The response's type indicator names neither feed format; the
    /// indicator is kept for diagnostics.
    UnrecognizedFeedType(String),
    /// The feed has no title or its structure cannot be read.
    InvalidFeed,
    /// The candidate carries no publish date.
    NoPublishDate,
    /// The candidate's publish date does not follow the expected format.
    DateParseFailure,
    /// The candidate carries no link to a post.
    NoPostLink,
    /// A link is not an absolute URL, or cannot be resolved to one.
    InvalidUrl,
    /// The link names no file from which a slug could be taken.
    SlugNotComputable,
    /// The body of the post was asked for before any fetch was recorded.
    BodyNotLoaded,
    /// The fetch of the post's body failed, with the cause.
    BodyFetchFailure(String),
    /// The remote service could not list its posts, with the cause.
    RemoteListFailure(String),
    /// The remote service refused a post, with the cause.
    RemotePublishFailure(String),
}

/// The mathematical value of a `FeedError`.
pub enum FeedErrorView {
    UnrecognizedFeedType(Seq<char>),
    InvalidFeed,
    NoPublishDate,
    DateParseFailure,
    NoPostLink,
    InvalidUrl,
    SlugNotComputable,
    BodyNotLoaded,
    BodyFetchFailure(Seq<char>),
    RemoteListFailure(Seq<char>),
    RemotePublishFailure(Seq<char>),
}

impl View for FeedError {
    type V = FeedErrorView;

    open spec fn view(&self) -> FeedErrorView {
        match self {
            FeedError::UnrecognizedFeedType(m) => FeedErrorView::UnrecognizedFeedType(m@),
            FeedError::InvalidFeed => FeedErrorView::InvalidFeed,
            FeedError::NoPublishDate => FeedErrorView::NoPublishDate,
            FeedError::DateParseFailure => FeedErrorView::DateParseFailure,
            FeedError::NoPostLink => FeedErrorView::NoPostLink,
            FeedError::InvalidUrl => FeedErrorView::InvalidUrl,
            FeedError::SlugNotComputable => FeedErrorView::SlugNotComputable,
            FeedError::BodyNotLoaded => FeedErrorView::BodyNotLoaded,
            FeedError::BodyFetchFailure(c) => FeedErrorView::BodyFetchFailure(c@),
            FeedError::RemoteListFailure(c) => FeedErrorView::RemoteListFailure(c@),
            FeedError::RemotePublishFailure(c) => FeedErrorView::RemotePublishFailure(c@),
        }
    }
}

/// The mathematical value of a result: that of what it holds.
pub open spec fn result_view<T: View, E: View>(r: Result<T, E>) -> Result<T::V, E::V> {
    match r {
        Ok(value) => Ok(value@),
        Err(error) => Err(error@),
    }
}

/// The words in which an error is reported.
pub open spec fn message_of(error: FeedErrorView) -> Seq<char> {
    match error {
        FeedErrorView::UnrecognizedFeedType(meta) => "Unrecognized Gemfeed mime type [meta="@
            + meta + "]"@,
        FeedErrorView::InvalidFeed => "Not a valid Gemfeed"@,
        FeedErrorView::NoPublishDate => "No publish date found"@,
        FeedErrorView::DateParseFailure => "Publish date could not be read"@,
        FeedErrorView::NoPostLink => "No post link present"@,
        FeedErrorView::InvalidUrl => "Not an absolute URL"@,
        FeedErrorView::SlugNotComputable => "Slug could not be calculated"@,
        FeedErrorView::BodyNotLoaded => "Body not loaded"@,
        FeedErrorView::BodyFetchFailure(cause) => "Body could not be fetched: "@ + cause,
        FeedErrorView::RemoteListFailure(cause) => "Posts could not be listed: "@ + cause,
        FeedErrorView::RemotePublishFailure(cause) => "Post could not be created: "@ + cause,
    }
}

impl FeedError {
    /// The words in which the error is reported.
    pub fn message(&self) -> (r: String)
        ensures
            r@ == message_of(self@),
    {
        match self {
            FeedError::UnrecognizedFeedType(meta) => String::from_str(
                "Unrecognized Gemfeed mime type [meta=",
            ).concat(meta.as_str()).concat("]"),
            FeedError::InvalidFeed => String::from_str("Not a valid Gemfeed"),
            FeedError::NoPublishDate => String::from_str("No publish date found"),
            FeedError::DateParseFailure => String::from_str("Publish date could not be read"),
            FeedError::NoPostLink => String::from_str("No post link present"),
            FeedError::InvalidUrl => String::from_str("Not an absolute URL"),
            FeedError::SlugNotComputable => String::from_str("Slug could not be calculated"),
            FeedError::BodyNotLoaded => String::from_str("Body not loaded"),
            FeedError::BodyFetchFailure(cause) => String::from_str(
                "Body could not be fetched: ",
            ).concat(cause.as_str()),
            FeedError::RemoteListFailure(cause) => String::from_str(
                "Posts could not be listed: ",
            ).concat(cause.as_str()),
            FeedError::RemotePublishFailure(cause) => String::from_str(
                "Post could not be created: ",
            ).concat(cause.as_str()),
        }
    }

    /// A copy of the error.
    pub fn duplicate(&self) -> (r: FeedError)
        ensures
            r@ == self@,
    {
        match self {
            FeedError::UnrecognizedFeedType(m) => FeedError::UnrecognizedFeedType(m.clone()),
            FeedError::InvalidFeed => FeedError::InvalidFeed,
            FeedError::NoPublishDate => FeedError::NoPublishDate,
            FeedError::DateParseFailure => FeedError::DateParseFailure,
            FeedError::NoPostLink => FeedError::NoPostLink,
            FeedError::InvalidUrl => FeedError::InvalidUrl,
            FeedError::SlugNotComputable => FeedError::SlugNotComputable,
            FeedError::BodyNotLoaded => FeedError::BodyNotLoaded,
            FeedError::BodyFetchFailure(c) => FeedError::BodyFetchFailure(c.clone()),
            FeedError::RemoteListFailure(c) => FeedError::RemoteListFailure(c.clone()),
            FeedError::RemotePublishFailure(c) => FeedError::RemotePublishFailure(c.clone()),
        }
    }
}

} // verus!
