//! Atom documents: what the feed logic reads of a feed and of its entries,
//! and the parser of the `atom_syndication` crate.

use vstd::prelude::*;

verus! {

/// A link of an entry: its relation and its address.
#[derive(Debug, Clone, PartialEq, Eq)]
pub struct AtomLink {
    pub rel: String,
    pub href: String,
}

/// An entry of an Atom feed: its title, its links and, where it has one,
/// its publish time as the document's parser prints it.
#[derive(Debug, Clone, PartialEq, Eq)]
pub struct AtomEntry {
    pub title: String,
    pub links: Vec<AtomLink>,
    pub published: Option<String>,
}

/// An Atom feed: its title and its entries, in the document's order.
#[derive(Debug, Clone, PartialEq, Eq)]
pub struct AtomFeed {
    pub title: String,
    pub entries: Vec<AtomEntry>,
}

/// The mathematical value of an `AtomLink`.
pub struct AtomLinkView {
    pub rel: Seq<char>,
    pub href: Seq<char>,
}

/// The mathematical value of an `AtomEntry`.
pub struct AtomEntryView {
    pub title: Seq<char>,
    pub links: Seq<AtomLinkView>,
    pub published: Option<Seq<char>>,
}

/// The mathematical value of an `AtomFeed`.
pub struct AtomFeedView {
    pub title: Seq<char>,
    pub entries: Seq<AtomEntryView>,
}

impl View for AtomLink {
    type V = AtomLinkView;

    open spec fn view(&self) -> AtomLinkView {
        AtomLinkView { rel: self.rel@, href: self.href@ }
    }
}

impl View for AtomEntry {
    type V = AtomEntryView;

    open spec fn view(&self) -> AtomEntryView {
        AtomEntryView {
            title: self.title@,
            links: self.links@.map_values(|l: AtomLink| l@),
            published: match self.published {
                Some(p) => Some(p@),
                None => None,
            },
        }
    }
}

impl View for AtomFeed {
    type V = AtomFeedView;

    open spec fn view(&self) -> AtomFeedView {
        AtomFeedView { title: self.title@, entries: self.entries@.map_values(|e: AtomEntry| e@) }
    }
}

/// The feed that `atom_syndication` reads from the document `content`,
/// `None` where `content` is no Atom document.
pub uninterp spec fn atom_document(content: Seq<char>) -> Option<AtomFeedView>;

/// Calls `atom_syndication::Feed::from_str` and hands out the feed's title
/// and, of each entry, the title, the links and the publish time, printed
/// by `to_string`.  Trusted: the result is the one that `atom_document`
/// names, a function of the text alone.
#[verifier::external_body]
pub(crate) fn parse_document(content: &str) -> (feed: Option<AtomFeed>)
    ensures
        match feed {
            Some(f) => atom_document(content@) == Some(f@),
            None => atom_document(content@) is None,
        },
{
    let feed = content.parse::<atom_syndication::Feed>().ok()?;
    let entries = feed.entries().iter().map(|entry| AtomEntry {
        title: entry.title().value.clone(),
        links: entry.links().iter().map(|link| AtomLink { rel: link.rel.clone(), href: link.href.clone() }).collect(),
        published: entry.published().map(|time| time.to_string()),
    }).collect();
    Some(AtomFeed { title: feed.title().value.clone(), entries })
}

} // verus!
