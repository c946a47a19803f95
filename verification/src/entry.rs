//! One post of a feed: what the feed says of it, and the text of the post
//! itself once it has been fetched.

use vstd::prelude::*;
use crate::atom::{AtomEntry, AtomEntryView};
use crate::dates::{
    date_day_number, datetime_instant, noon_of_day, noon_utc, parse_day_number, parse_instant,
    Timestamp, LINK_DATE_FORMAT,
};
use crate::error::{result_view, FeedError, FeedErrorView};
use crate::gemtext::{
    gemtext_markdown, gemtext_nodes, nodes_view, parse_gemtext, to_markdown, GemtextNode,
    GemtextNodeView,
};
use crate::link::{link_of_entry, link_of_node, GemfeedLink};
use crate::urls::{absolute_url, join, joined_url, parse_absolute};

verus! {

/// What is known of the text of a post.
#[derive(Debug, Clone, PartialEq, Eq)]
pub enum BodyCache {
    /// No fetch has been recorded.
    Empty,
    /// The fetch gave this text.
    Loaded(String),
    /// The fetch failed, with this cause.
    Failed(String),
}

/// The mathematical value of a `BodyCache`.
pub enum BodyView {
    Empty,
    Loaded(Seq<char>),
    Failed(Seq<char>),
}

impl View for BodyCache {
    type V = BodyView;

    open spec fn view(&self) -> BodyView {
        match self {
            BodyCache::Empty => BodyView::Empty,
            BodyCache::Loaded(text) => BodyView::Loaded(text@),
            BodyCache::Failed(cause) => BodyView::Failed(cause@),
        }
    }
}

/// One post of a feed.
///
/// Title, slug, publish time and address are fixed when the feed is read.
/// The text of the post is fetched later, by the caller, and recorded once
/// with `fill_body`: from then on the entry answers from what was recorded,
/// also where the fetch had failed.
#[derive(Debug, Clone, PartialEq, Eq)]
pub struct GemfeedEntry {
    title: String,
    slug: String,
    published: Option<Timestamp>,
    url: String,
    body: BodyCache,
}

/// The mathematical value of a `GemfeedEntry`.
pub struct GemfeedEntryView {
    pub title: Seq<char>,
    pub slug: Seq<char>,
    pub published: Option<Timestamp>,
    pub url: Seq<char>,
    pub body: BodyView,
}

impl View for GemfeedEntry {
    type V = GemfeedEntryView;

    closed spec fn view(&self) -> GemfeedEntryView {
        GemfeedEntryView {
            title: self.title@,
            slug: self.slug@,
            published: self.published,
            url: self.url@,
            body: self.body@,
        }
    }
}

/// The values of a list of entries.
pub open spec fn entries_view(entries: Seq<GemfeedEntry>) -> Seq<GemfeedEntryView> {
    entries.map_values(|e: GemfeedEntry| e@)
}

/// The entry that a node of the gemtext feed at `base` gives.
///
/// The date of the link is read as a calendar date and stands for noon UTC
/// of that day; the link's destination is resolved against `base`.
pub open spec fn entry_of_node(base: Seq<char>, node: GemtextNodeView) -> Result<
    GemfeedEntryView,
    FeedErrorView,
> {
    match link_of_node(node) {
        Err(error) => Err(error),
        Ok(link) => match link.published {
            None => Err(FeedErrorView::NoPublishDate),
            Some(date) => match date_day_number(date, LINK_DATE_FORMAT@) {
                None => Err(FeedErrorView::DateParseFailure),
                Some(day) => match joined_url(base, link.path) {
                    None => Err(FeedErrorView::InvalidUrl),
                    Some(url) => Ok(
                        GemfeedEntryView {
                            title: link.title,
                            slug: link.slug,
                            published: Some(Timestamp { secs: noon_utc(day) as i64, nanos: 0 }),
                            url,
                            body: BodyView::Empty,
                        },
                    ),
                },
            },
        },
    }
}

/// The entry that an entry of an Atom feed gives, its publish time read in
/// the format `format`.
pub open spec fn entry_of_atom(entry: AtomEntryView, format: Seq<char>) -> Result<
    GemfeedEntryView,
    FeedErrorView,
> {
    match link_of_entry(entry) {
        Err(error) => Err(error),
        Ok(link) => match link.published {
            None => Err(FeedErrorView::NoPublishDate),
            Some(date) => match datetime_instant(date, format) {
                None => Err(FeedErrorView::DateParseFailure),
                Some(instant) => match absolute_url(link.path) {
                    None => Err(FeedErrorView::InvalidUrl),
                    Some(url) => Ok(
                        GemfeedEntryView {
                            title: link.title,
                            slug: link.slug,
                            published: Some(instant),
                            url,
                            body: BodyView::Empty,
                        },
                    ),
                },
            },
        },
    }
}

/// The cache after the outcome of a fetch is recorded: the first outcome
/// stays, whatever comes later.
pub open spec fn body_after_fill(
    body: BodyView,
    fetched: Result<Option<Seq<char>>, Seq<char>>,
) -> BodyView {
    match body {
        BodyView::Empty => match fetched {
            Ok(Some(text)) => BodyView::Loaded(text),
            Ok(None) => BodyView::Loaded(Seq::empty()),
            Err(cause) => BodyView::Failed(cause),
        },
        _ => body,
    }
}

/// The value of the outcome of a fetch.
pub open spec fn fetched_view(fetched: Result<Option<String>, String>) -> Result<
    Option<Seq<char>>,
    Seq<char>,
> {
    match fetched {
        Ok(Some(text)) => Ok(Some(text@)),
        Ok(None) => Ok(None),
        Err(cause) => Err(cause@),
    }
}

/// What asking for the body gives, by the state of the cache.
pub open spec fn body_of(body: BodyView) -> Result<Seq<char>, FeedErrorView> {
    match body {
        BodyView::Loaded(text) => Ok(text),
        BodyView::Failed(cause) => Err(FeedErrorView::BodyFetchFailure(cause)),
        BodyView::Empty => Err(FeedErrorView::BodyNotLoaded),
    }
}

impl Default for GemfeedEntry {
    /// An entry with empty title, slug and address, no publish time and no
    /// body recorded.
    fn default() -> (r: GemfeedEntry)
        ensures
            r@ == (GemfeedEntryView {
                title: Seq::empty(),
                slug: Seq::empty(),
                published: None,
                url: Seq::empty(),
                body: BodyView::Empty,
            }),
    {
        GemfeedEntry {
            title: String::new(),
            slug: String::new(),
            published: None,
            url: String::new(),
            body: BodyCache::Empty,
        }
    }
}

impl GemfeedEntry {
    /// An entry is well formed when it has a slug.
    pub open spec fn wf(&self) -> bool {
        self@.slug.len() > 0
    }

    /// Reads an entry from a node of the gemtext feed at `base_url`.
    pub fn from_ast(base_url: &str, node: &GemtextNode) -> (r: Result<GemfeedEntry, FeedError>)
        ensures
            result_view(r) == entry_of_node(base_url@, node@),
            r matches Ok(entry) ==> entry.wf(),
    {
        let link = match GemfeedLink::from_node(node) {
            Ok(link) => link,
            Err(error) => return Err(error),
        };
        let date = match link.published {
            Some(date) => date,
            None => return Err(FeedError::NoPublishDate),
        };
        let day = match parse_day_number(date.as_str(), LINK_DATE_FORMAT) {
            Some(day) => day,
            None => return Err(FeedError::DateParseFailure),
        };
        let url = match join(base_url, link.path.as_str()) {
            Some(url) => url,
            None => return Err(FeedError::InvalidUrl),
        };
        Ok(
            GemfeedEntry {
                title: link.title,
                slug: link.slug,
                published: Some(noon_of_day(day)),
                url,
                body: BodyCache::Empty,
            },
        )
    }

    /// Reads an entry from an entry of an Atom feed, its publish time in
    /// the format `date_format`.
    pub fn from_atom(entry: &AtomEntry, date_format: &str) -> (r: Result<GemfeedEntry, FeedError>)
        ensures
            result_view(r) == entry_of_atom(entry@, date_format@),
            r matches Ok(entry) ==> entry.wf(),
    {
        let link = match GemfeedLink::from_atom_entry(entry) {
            Ok(link) => link,
            Err(error) => return Err(error),
        };
        let date = match link.published {
            Some(date) => date,
            None => return Err(FeedError::NoPublishDate),
        };
        let instant = match parse_instant(date.as_str(), date_format) {
            Some(instant) => instant,
            None => return Err(FeedError::DateParseFailure),
        };
        let url = match parse_absolute(link.path.as_str()) {
            Some(url) => url,
            None => return Err(FeedError::InvalidUrl),
        };
        Ok(
            GemfeedEntry {
                title: link.title,
                slug: link.slug,
                published: Some(instant),
                url,
                body: BodyCache::Empty,
            },
        )
    }

    /// The entry with `body` recorded as its text, as by `fill_body`: an
    /// entry that has a text or a failure recorded keeps it.
    pub fn with_body(self, body: String) -> (r: GemfeedEntry)
        ensures
            r@ == (GemfeedEntryView {
                body: body_after_fill(self@.body, Ok(Some(body@))),
                ..self@
            }),
    {
        let mut entry = self;
        entry.fill_body(Ok(Some(body)));
        entry
    }

    /// The title of the post.
    pub fn title(&self) -> (r: &str)
        ensures
            r@ == self@.title,
    {
        self.title.as_str()
    }

    /// The slug of the post: the key by which it is known remotely.
    pub fn slug(&self) -> (r: &str)
        ensures
            r@ == self@.slug,
    {
        self.slug.as_str()
    }

    /// When the post was published.
    pub fn published(&self) -> (r: Option<Timestamp>)
        ensures
            r == self@.published,
    {
        self.published
    }

    /// The address of the post.
    pub fn url(&self) -> (r: &str)
        ensures
            r@ == self@.url,
    {
        self.url.as_str()
    }

    /// Whether the text of the post has still to be fetched.
    pub fn needs_body(&self) -> (r: bool)
        ensures
            r == (self@.body is Empty),
    {
        match self.body {
            BodyCache::Empty => true,
            _ => false,
        }
    }

    /// Records the outcome of the fetch of the post's text: the text, the
    /// empty text where the response carried none, or the cause of the
    /// failure.  Only the first outcome is kept.
    pub fn fill_body(&mut self, fetched: Result<Option<String>, String>)
        ensures
            final(self)@ == (GemfeedEntryView {
                body: body_after_fill(old(self)@.body, fetched_view(fetched)),
                ..old(self)@
            }),
    {
        if self.needs_body() {
            self.body = match fetched {
                Ok(Some(text)) => BodyCache::Loaded(text),
                Ok(None) => BodyCache::Loaded(String::new()),
                Err(cause) => BodyCache::Failed(cause),
            };
        }
    }

    /// The text of the post, as it was recorded.
    pub fn body(&self) -> (r: Result<&String, FeedError>)
        ensures
            result_view(r) == body_of(self@.body),
    {
        match &self.body {
            BodyCache::Loaded(text) => Ok(text),
            BodyCache::Failed(cause) => Err(FeedError::BodyFetchFailure(cause.clone())),
            BodyCache::Empty => Err(FeedError::BodyNotLoaded),
        }
    }

    /// The text of the post, to be rewritten in place.
    pub fn body_mut(&mut self) -> (r: Result<&mut String, FeedError>)
        ensures
            match r {
                Ok(text) => {
                    &&& old(self)@.body == BodyView::Loaded(text@)
                    &&& final(self)@ == (GemfeedEntryView {
                        body: BodyView::Loaded(final(text)@),
                        ..old(self)@
                    })
                },
                Err(error) => {
                    &&& body_of(old(self)@.body) == Err::<Seq<char>, FeedErrorView>(error@)
                    &&& final(self)@ == old(self)@
                },
            },
    {
        match &mut self.body {
            BodyCache::Loaded(text) => Ok(text),
            BodyCache::Failed(cause) => Err(FeedError::BodyFetchFailure(cause.clone())),
            BodyCache::Empty => Err(FeedError::BodyNotLoaded),
        }
    }

    /// The nodes of the post's text, read as gemtext.
    pub fn body_as_ast(&self) -> (r: Result<Vec<GemtextNode>, FeedError>)
        ensures
            match r {
                Ok(nodes) => body_of(self@.body) matches Ok(text) && nodes_view(nodes@)
                    == gemtext_nodes(text),
                Err(error) => body_of(self@.body) == Err::<Seq<char>, FeedErrorView>(error@),
            },
    {
        match self.body() {
            Ok(text) => Ok(parse_gemtext(text.as_str())),
            Err(error) => Err(error),
        }
    }

    /// The post's text, converted from gemtext to Markdown.
    pub fn body_as_markdown(&self) -> (r: Result<String, FeedError>)
        ensures
            match r {
                Ok(markdown) => body_of(self@.body) matches Ok(text) && markdown@
                    == gemtext_markdown(text),
                Err(error) => body_of(self@.body) == Err::<Seq<char>, FeedErrorView>(error@),
            },
    {
        match self.body() {
            Ok(text) => Ok(to_markdown(text.as_str())),
            Err(error) => Err(error),
        }
    }
}

} // verus!
