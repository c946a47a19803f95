//! What the blogging service is sent and what it is known by.

use vstd::prelude::*;
use crate::dates::Timestamp;
use crate::entry::{body_of, GemfeedEntry, GemfeedEntryView};
use crate::error::{result_view, FeedError, FeedErrorView};
use crate::gemtext::gemtext_markdown;

verus! {

/// How a client proves who it is to the blogging service.
#[derive(Debug, Clone, Copy, PartialEq, Eq)]
pub enum WriteFreelyCredentials<'a> {
    /// A user name and a password, given in exchange for an access token.
    UsernameAndPassword(&'a str, &'a str),
    /// An access token from an earlier exchange.
    AccessToken(&'a str),
}

/// A request to create a post.
#[derive(Debug, Clone, PartialEq, Eq)]
pub struct PostRequest {
    pub slug: String,
    pub title: String,
    /// The text of the post, in Markdown.
    pub body: String,
    /// When the post was first published, where that is known.
    pub created: Option<Timestamp>,
}

/// The mathematical value of a `PostRequest`.
pub struct PostRequestView {
    pub slug: Seq<char>,
    pub title: Seq<char>,
    pub body: Seq<char>,
    pub created: Option<Timestamp>,
}

impl View for PostRequest {
    type V = PostRequestView;

    open spec fn view(&self) -> PostRequestView {
        PostRequestView {
            slug: self.slug@,
            title: self.title@,
            body: self.body@,
            created: self.created,
        }
    }
}

/// The request that publishes an entry: its slug, title and publish time,
/// and its recorded text converted to Markdown.
pub open spec fn request_of(entry: GemfeedEntryView) -> Result<PostRequestView, FeedErrorView> {
    match body_of(entry.body) {
        Ok(text) => Ok(
            PostRequestView {
                slug: entry.slug,
                title: entry.title,
                body: gemtext_markdown(text),
                created: entry.published,
            },
        ),
        Err(error) => Err(error),
    }
}

impl PostRequest {
    /// A copy of the request.
    pub fn duplicate(&self) -> (r: PostRequest)
        ensures
            r@ == self@,
    {
        PostRequest {
            slug: self.slug.clone(),
            title: self.title.clone(),
            body: self.body.clone(),
            created: self.created,
        }
    }

    /// The request that publishes `entry`.  Fails where no text is recorded
    /// for the entry.
    pub fn from_entry(entry: &GemfeedEntry) -> (r: Result<PostRequest, FeedError>)
        ensures
            result_view(r) == request_of(entry@),
    {
        let body = match entry.body_as_markdown() {
            Ok(body) => body,
            Err(error) => return Err(error),
        };
        Ok(
            PostRequest {
                slug: entry.slug().to_owned(),
                title: entry.title().to_owned(),
                body,
                created: entry.published(),
            },
        )
    }
}

} // verus!
