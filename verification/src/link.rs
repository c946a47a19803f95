//! Extraction of a post's identity from one node of a feed: from a link
//! line of a gemtext feed, or from an entry of an Atom feed.

use vstd::prelude::*;
use crate::atom::{AtomEntry, AtomEntryView, AtomLink, AtomLinkView};
use crate::error::{result_view, FeedError, FeedErrorView};
use crate::gemtext::{GemtextNode, GemtextNodeView};
use crate::path::{file_stem, stem_of};
use crate::pattern::{find_date, first_date, opens_with_date, starts_with_date};
use crate::text::{chars_of, matches_at, same_text, starts_with, trim, trimmed};
use crate::urls::{absolute_url, final_segment, last_path_segment, parse_absolute};

verus! {

/// The identity of a post as one node of a feed gives it: where the post
/// lies, its title, its slug and, as text, its publish date.
#[derive(Debug, Clone, PartialEq, Eq)]
pub struct GemfeedLink {
    pub path: String,
    pub title: String,
    pub slug: String,
    pub published: Option<String>,
}

/// The mathematical value of a `GemfeedLink`.
pub struct GemfeedLinkView {
    pub path: Seq<char>,
    pub title: Seq<char>,
    pub slug: Seq<char>,
    pub published: Option<Seq<char>>,
}

impl View for GemfeedLink {
    type V = GemfeedLinkView;

    open spec fn view(&self) -> GemfeedLinkView {
        GemfeedLinkView {
            path: self.path@,
            title: self.title@,
            slug: self.slug@,
            published: match self.published {
                Some(date) => Some(date@),
                None => None,
            },
        }
    }
}

/// The relation of the link that leads to the post itself.
pub const ALTERNATE: &'static str = "alternate";

/// Whether a node is a candidate post: a link whose text opens with a date.
pub open spec fn is_post_link(node: GemtextNodeView) -> bool {
    match node {
        GemtextNodeView::Link { to, text: Some(text) } => opens_with_date(text),
        _ => false,
    }
}

/// The title that a link's text gives: where the text opens with the date,
/// what follows the date, without the white space around it; else the text.
pub open spec fn title_of(text: Seq<char>, date: Seq<char>) -> Seq<char> {
    if starts_with(text, date) {
        trim(text.skip(date.len() as int))
    } else {
        text
    }
}

/// What a link with display text `text` and destination `path` gives.
pub open spec fn link_of_text(text: Seq<char>, path: Seq<char>) -> Result<
    GemfeedLinkView,
    FeedErrorView,
> {
    match first_date(text) {
        None => Err(FeedErrorView::NoPublishDate),
        Some(date) => match stem_of(path) {
            None => Err(FeedErrorView::SlugNotComputable),
            Some(slug) => Ok(
                GemfeedLinkView { path, title: title_of(text, date), slug, published: Some(date) },
            ),
        },
    }
}

/// What a node of a gemtext feed gives.
pub open spec fn link_of_node(node: GemtextNodeView) -> Result<GemfeedLinkView, FeedErrorView> {
    match node {
        GemtextNodeView::Link { to, text: Some(text) } => link_of_text(text, to),
        GemtextNodeView::Link { to, text: None } => Err(FeedErrorView::NoPublishDate),
        _ => Err(FeedErrorView::NoPostLink),
    }
}

/// The address of the first link with the relation `alternate`.
pub open spec fn alternate_href(links: Seq<AtomLinkView>) -> Option<Seq<char>>
    decreases links.len(),
{
    if links.len() == 0 {
        None
    } else if links[0].rel == ALTERNATE@ {
        Some(links[0].href)
    } else {
        alternate_href(links.drop_first())
    }
}

/// The slug that the absolute URL `href` gives: the stem of the last
/// segment of its path.
pub open spec fn slug_of_url(href: Seq<char>) -> Option<Seq<char>> {
    match last_path_segment(href) {
        Some(segment) => stem_of(segment),
        None => None,
    }
}

/// What an entry of an Atom feed gives.
pub open spec fn link_of_entry(entry: AtomEntryView) -> Result<GemfeedLinkView, FeedErrorView> {
    match alternate_href(entry.links) {
        None => Err(FeedErrorView::NoPostLink),
        Some(href) => if absolute_url(href) is None {
            Err(FeedErrorView::InvalidUrl)
        } else {
            match slug_of_url(href) {
                None => Err(FeedErrorView::SlugNotComputable),
                Some(slug) => Ok(
                    GemfeedLinkView {
                        path: href,
                        title: entry.title,
                        slug,
                        published: entry.published,
                    },
                ),
            }
        },
    }
}

/// An entry without a link of the relation `alternate` gives nothing, and
/// neither does one whose first such link is no absolute URL.
pub proof fn lemma_entry_needs_absolute_alternate_link(entry: AtomEntryView)
    ensures
        (forall|i: int| 0 <= i < entry.links.len() ==> (#[trigger] entry.links[i]).rel != ALTERNATE@)
            ==> link_of_entry(entry) == Err::<GemfeedLinkView, FeedErrorView>(
            FeedErrorView::NoPostLink,
        ),
        alternate_href(entry.links) matches Some(href) && absolute_url(href) is None
            ==> link_of_entry(entry) == Err::<GemfeedLinkView, FeedErrorView>(
            FeedErrorView::InvalidUrl,
        ),
{
    if forall|i: int| 0 <= i < entry.links.len() ==> (#[trigger] entry.links[i]).rel != ALTERNATE@ {
        lemma_no_alternate_link(entry.links);
    }
}

/// Links of which none has the relation `alternate` lead to no post.
proof fn lemma_no_alternate_link(links: Seq<AtomLinkView>)
    requires
        forall|i: int| 0 <= i < links.len() ==> (#[trigger] links[i]).rel != ALTERNATE@,
    ensures
        alternate_href(links) is None,
    decreases links.len(),
{
    if links.len() > 0 {
        assert forall|i: int| 0 <= i < links.drop_first().len() implies (
        #[trigger] links.drop_first()[i]).rel != ALTERNATE@ by {
            assert(links.drop_first()[i] == links[i + 1]);
        }
        lemma_no_alternate_link(links.drop_first());
    }
}

/// Whether a node is a candidate post: a link whose text opens with a date.
pub fn is_gemfeed_post_link(node: &GemtextNode) -> (r: bool)
    ensures
        r == is_post_link(node@),
{
    match node {
        GemtextNode::Link { to: _, text: Some(text) } => starts_with_date(text.as_str()),
        _ => false,
    }
}

/// The title that a link's text gives, once its date is known.
pub fn strip_date(text: &str, date: &str) -> (title: String)
    ensures
        title@ == title_of(text@, date@),
{
    let t = chars_of(text);
    let d = chars_of(date);
    if matches_at(&t, &d, 0) {
        let rest = text.substring_char(d.len(), t.len());
        assert(rest@ =~= text@.skip(date@.len() as int));
        trimmed(rest)
    } else {
        text.to_owned()
    }
}

/// The address of the first link with the relation `alternate`.
pub fn find_alternate(links: &Vec<AtomLink>) -> (href: Option<&String>)
    ensures
        match href {
            Some(h) => alternate_href(links@.map_values(|l: AtomLink| l@)) == Some(h@),
            None => alternate_href(links@.map_values(|l: AtomLink| l@)) is None,
        },
{
    let ghost views = links@.map_values(|l: AtomLink| l@);
    let mut i: usize = 0;
    assert(views.skip(0) =~= views);
    while i < links.len()
        invariant
            i <= links.len(),
            views == links@.map_values(|l: AtomLink| l@),
            alternate_href(views) == alternate_href(views.skip(i as int)),
        decreases links.len() - i,
    {
        assert(views.skip(i as int)[0] == links@[i as int]@);
        if same_text(links[i].rel.as_str(), ALTERNATE) {
            return Some(&links[i].href);
        }
        assert(views.skip(i as int).drop_first() =~= views.skip(i + 1));
        i += 1;
    }
    None
}

impl GemfeedLink {
    /// Reads a post's identity from a node of a gemtext feed.
    ///
    /// The node must be a link with display text; the date is the first
    /// one found in the text; the slug is the stem of the file that the
    /// destination names.
    pub fn from_node(node: &GemtextNode) -> (r: Result<GemfeedLink, FeedError>)
        ensures
            result_view(r) == link_of_node(node@),
            r matches Ok(link) ==> link@.slug.len() > 0,
    {
        match node {
            GemtextNode::Link { to, text: Some(text) } => {
                let date = match find_date(text.as_str()) {
                    Some(date) => date,
                    None => return Err(FeedError::NoPublishDate),
                };
                let slug = match file_stem(to.as_str()) {
                    Some(slug) => slug,
                    None => return Err(FeedError::SlugNotComputable),
                };
                let title = strip_date(text.as_str(), date.as_str());
                Ok(GemfeedLink { path: to.clone(), title, slug, published: Some(date) })
            },
            GemtextNode::Link { to: _, text: None } => Err(FeedError::NoPublishDate),
            _ => Err(FeedError::NoPostLink),
        }
    }

    /// Reads a post's identity from an entry of an Atom feed.
    ///
    /// The entry must have a link with the relation `alternate` whose
    /// address is an absolute URL; the slug is the stem of the last segment
    /// of that URL's path; title and publish time are taken as they are.
    pub fn from_atom_entry(entry: &AtomEntry) -> (r: Result<GemfeedLink, FeedError>)
        ensures
            result_view(r) == link_of_entry(entry@),
            r matches Ok(link) ==> link@.slug.len() > 0,
    {
        let href = match find_alternate(&entry.links) {
            Some(href) => href,
            None => return Err(FeedError::NoPostLink),
        };
        if parse_absolute(href.as_str()).is_none() {
            return Err(FeedError::InvalidUrl);
        }
        let segment = match final_segment(href.as_str()) {
            Some(segment) => segment,
            None => return Err(FeedError::SlugNotComputable),
        };
        let slug = match file_stem(segment.as_str()) {
            Some(slug) => slug,
            None => return Err(FeedError::SlugNotComputable),
        };
        Ok(
            GemfeedLink {
                path: href.clone(),
                title: entry.title.clone(),
                slug,
                published: entry.published.clone(),
            },
        )
    }
}

} // verus!
