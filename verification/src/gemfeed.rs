//! A feed: its address, its title and its posts, read from a gemtext
//! document or from an Atom document.
//!
//! Reading is lenient towards single posts and strict towards the feed: a
//! candidate post that cannot be read is left out, while a document of an
//! unknown type, without content, or (for gemtext) without a title is
//! refused as a whole.

use vstd::prelude::*;
use crate::atom::{atom_document, parse_document, AtomEntryView, AtomFeed};
use crate::entry::{
    entries_view, entry_of_atom, entry_of_node, GemfeedEntry, GemfeedEntryView,
};
use crate::error::{result_view, FeedError, FeedErrorView};
use crate::gemtext::{gemtext_nodes, nodes_view, parse_gemtext, GemtextNode, GemtextNodeView};
use crate::link::{is_gemfeed_post_link, is_post_link};
use crate::text::{contains, contains_text, option_text, same_text, strings_view};

verus! {

/// The format of a feed document.
#[derive(Debug, Clone, Copy, PartialEq, Eq, Structural)]
pub enum GemfeedType {
    Gemtext,
    Atom,
    Unknown,
}

/// The first type indicator of an Atom document.
pub const MIME_XML: &'static str = "text/xml";

/// The second type indicator of an Atom document.
pub const MIME_ATOM: &'static str = "application/atom+xml";

/// The type indicator of a gemtext document.
pub const MIME_GEMTEXT: &'static str = "text/gemini";

/// The format that a response's type indicator names.  An indicator that
/// names both formats is taken for Atom.
pub open spec fn classify(mime: Seq<char>) -> GemfeedType {
    if contains_text(mime, MIME_XML@) || contains_text(mime, MIME_ATOM@) {
        GemfeedType::Atom
    } else if contains_text(mime, MIME_GEMTEXT@) {
        GemfeedType::Gemtext
    } else {
        GemfeedType::Unknown
    }
}

impl GemfeedType {
    /// The format that a response's type indicator names.
    pub fn from_mime(mime: &str) -> (r: GemfeedType)
        ensures
            r == classify(mime@),
    {
        if contains(mime, MIME_XML) || contains(mime, MIME_ATOM) {
            GemfeedType::Atom
        } else if contains(mime, MIME_GEMTEXT) {
            GemfeedType::Gemtext
        } else {
            GemfeedType::Unknown
        }
    }
}

/// Settings for controlling how a feed is read.
#[derive(Debug, Clone, Copy)]
pub struct GemfeedParserSettings<'a> {
    atom_date_format: &'a str,
}

/// The format in which an Atom entry's publish time is read unless the
/// settings name another: date, time of day and offset from UTC.
pub const DEFAULT_DATE_FORMAT: &'static str = "%Y-%m-%d %H:%M:%S %:z";

impl<'a> GemfeedParserSettings<'a> {
    /// The format in which an Atom entry's publish time is read.
    pub closed spec fn date_format(&self) -> Seq<char> {
        self.atom_date_format@
    }

    /// Settings that read publish times in the format `atom_date_format`.
    pub fn new(atom_date_format: &'a str) -> (r: Self)
        ensures
            r.date_format() == atom_date_format@,
    {
        GemfeedParserSettings { atom_date_format }
    }

    /// Settings with the given format, or the default ones where none is
    /// given.
    pub fn from_date_format(date_format: Option<&'a str>) -> (r: Self)
        ensures
            r.date_format() == match date_format {
                Some(format) => format@,
                None => DEFAULT_DATE_FORMAT@,
            },
    {
        match date_format {
            Some(format) => GemfeedParserSettings { atom_date_format: format },
            None => GemfeedParserSettings { atom_date_format: DEFAULT_DATE_FORMAT },
        }
    }

    /// The format in which an Atom entry's publish time is read.
    pub fn atom_date_format(&self) -> (r: &'a str)
        ensures
            r@ == self.date_format(),
    {
        self.atom_date_format
    }
}

impl Default for GemfeedParserSettings<'_> {
    fn default() -> (r: Self)
        ensures
            r.date_format() == DEFAULT_DATE_FORMAT@,
    {
        GemfeedParserSettings { atom_date_format: DEFAULT_DATE_FORMAT }
    }
}

/// Some entry has the slug `slug`.
pub open spec fn has_slug(entries: Seq<GemfeedEntryView>, slug: Seq<char>) -> bool {
    exists|i: int| 0 <= i < entries.len() && (#[trigger] entries[i]).slug == slug
}

/// `i` is the position of the first entry with the slug `slug`.
pub open spec fn is_first_with_slug(
    entries: Seq<GemfeedEntryView>,
    slug: Seq<char>,
    i: int,
) -> bool {
    &&& 0 <= i < entries.len()
    &&& entries[i].slug == slug
    &&& forall|j: int| 0 <= j < i ==> (#[trigger] entries[j]).slug != slug
}

/// The position of the first entry with the slug `slug`, if there is one.
pub open spec fn position_with_slug(entries: Seq<GemfeedEntryView>, slug: Seq<char>) -> Option<
    int,
> {
    if exists|i: int| is_first_with_slug(entries, slug, i) {
        Some(choose|i: int| is_first_with_slug(entries, slug, i))
    } else {
        None
    }
}

/// No two entries have the same slug.
pub open spec fn unique_slugs(entries: Seq<GemfeedEntryView>) -> bool {
    forall|i: int, j: int|
        0 <= i < j < entries.len() ==> (#[trigger] entries[i]).slug != (#[trigger] entries[j]).slug
}

/// Every entry has a slug that is not empty.
pub open spec fn all_have_slugs(entries: Seq<GemfeedEntryView>) -> bool {
    forall|i: int| 0 <= i < entries.len() ==> (#[trigger] entries[i]).slug.len() > 0
}

/// The slugs of the entries, in order.
pub open spec fn slugs_of(entries: Seq<GemfeedEntryView>) -> Seq<Seq<char>> {
    entries.map_values(|e: GemfeedEntryView| e.slug)
}

/// The entries without those whose slug an earlier entry has.
pub open spec fn first_of_each_slug(entries: Seq<GemfeedEntryView>) -> Seq<GemfeedEntryView>
    decreases entries.len(),
{
    if entries.len() == 0 {
        Seq::empty()
    } else {
        let kept = first_of_each_slug(entries.drop_last());
        if has_slug(kept, entries.last().slug) {
            kept
        } else {
            kept.push(entries.last())
        }
    }
}

/// The entries that the nodes of the gemtext feed at `base` give: one for
/// each post link that can be read, in the document's order.
pub open spec fn entries_of_nodes(base: Seq<char>, nodes: Seq<GemtextNodeView>) -> Seq<
    GemfeedEntryView,
>
    decreases nodes.len(),
{
    if nodes.len() == 0 {
        Seq::empty()
    } else {
        let before = entries_of_nodes(base, nodes.drop_last());
        if is_post_link(nodes.last()) {
            match entry_of_node(base, nodes.last()) {
                Ok(entry) => before.push(entry),
                Err(_) => before,
            }
        } else {
            before
        }
    }
}

/// The entries that the entries of an Atom feed give: one for each that
/// can be read, in the document's order.
pub open spec fn entries_of_atom(entries: Seq<AtomEntryView>, format: Seq<char>) -> Seq<
    GemfeedEntryView,
>
    decreases entries.len(),
{
    if entries.len() == 0 {
        Seq::empty()
    } else {
        let before = entries_of_atom(entries.drop_last(), format);
        match entry_of_atom(entries.last(), format) {
            Ok(entry) => before.push(entry),
            Err(_) => before,
        }
    }
}

/// The title of a gemtext feed: the text of its first heading of level 1.
pub open spec fn first_title(nodes: Seq<GemtextNodeView>) -> Option<Seq<char>>
    decreases nodes.len(),
{
    if nodes.len() == 0 {
        None
    } else {
        match nodes[0] {
            GemtextNodeView::Heading { level, text } if level == 1 => Some(text),
            _ => first_title(nodes.drop_first()),
        }
    }
}

/// The mathematical value of a `Gemfeed`.
pub struct GemfeedView {
    pub url: Seq<char>,
    pub title: Seq<char>,
    pub entries: Seq<GemfeedEntryView>,
}

/// The feed that the nodes of the gemtext document at `url` give.
pub open spec fn feed_of_nodes(url: Seq<char>, nodes: Seq<GemtextNodeView>) -> Result<
    GemfeedView,
    FeedErrorView,
> {
    match first_title(nodes) {
        None => Err(FeedErrorView::InvalidFeed),
        Some(title) => Ok(
            GemfeedView { url, title, entries: first_of_each_slug(entries_of_nodes(url, nodes)) },
        ),
    }
}

/// The feed that a gemtext response from `url` gives.
pub open spec fn feed_of_gemtext(url: Seq<char>, content: Option<Seq<char>>) -> Result<
    GemfeedView,
    FeedErrorView,
> {
    match content {
        None => Err(FeedErrorView::InvalidFeed),
        Some(text) => feed_of_nodes(url, gemtext_nodes(text)),
    }
}

/// The feed that an Atom response from `url` gives, publish times read in
/// the format `format`.
pub open spec fn feed_of_atom(
    url: Seq<char>,
    content: Option<Seq<char>>,
    format: Seq<char>,
) -> Result<GemfeedView, FeedErrorView> {
    match content {
        None => Err(FeedErrorView::InvalidFeed),
        Some(text) => match atom_document(text) {
            None => Err(FeedErrorView::InvalidFeed),
            Some(document) => Ok(
                GemfeedView {
                    url,
                    title: document.title,
                    entries: first_of_each_slug(entries_of_atom(document.entries, format)),
                },
            ),
        },
    }
}

/// The feed that the response from `url` gives, by its type indicator.
pub open spec fn feed_of_response(
    url: Seq<char>,
    meta: Seq<char>,
    content: Option<Seq<char>>,
    format: Seq<char>,
) -> Result<GemfeedView, FeedErrorView> {
    match classify(meta) {
        GemfeedType::Gemtext => feed_of_gemtext(url, content),
        GemfeedType::Atom => feed_of_atom(url, content, format),
        GemfeedType::Unknown => Err(FeedErrorView::UnrecognizedFeedType(meta)),
    }
}

/// A slug that some entry has has a first entry, which has that slug.
pub proof fn lemma_position_of_present_slug(entries: Seq<GemfeedEntryView>, slug: Seq<char>)
    requires
        has_slug(entries, slug),
    ensures
        position_with_slug(entries, slug) matches Some(i) && is_first_with_slug(entries, slug, i),
{
    let k = choose|k: int| 0 <= k < entries.len() && (#[trigger] entries[k]).slug == slug;
    lemma_first_with_slug_exists(entries, slug, k);
}

/// Among the entries up to one with the slug `slug` there is a first.
proof fn lemma_first_with_slug_exists(entries: Seq<GemfeedEntryView>, slug: Seq<char>, k: int)
    requires
        0 <= k < entries.len(),
        entries[k].slug == slug,
    ensures
        exists|i: int| is_first_with_slug(entries, slug, i),
    decreases k,
{
    if exists|j: int| 0 <= j < k && (#[trigger] entries[j]).slug == slug {
        let j = choose|j: int| 0 <= j < k && (#[trigger] entries[j]).slug == slug;
        lemma_first_with_slug_exists(entries, slug, j);
    } else {
        assert(is_first_with_slug(entries, slug, k));
    }
}

/// A node that is no post link leaves no trace in the entries: without
/// it, the document gives the same ones.
pub proof fn lemma_other_nodes_are_left_out(
    base: Seq<char>,
    nodes: Seq<GemtextNodeView>,
    i: int,
)
    requires
        0 <= i < nodes.len(),
        !is_post_link(nodes[i]),
    ensures
        entries_of_nodes(base, nodes) == entries_of_nodes(base, nodes.remove(i)),
    decreases nodes.len(),
{
    if i == nodes.len() - 1 {
        assert(nodes.remove(i) =~= nodes.drop_last());
    } else {
        lemma_other_nodes_are_left_out(base, nodes.drop_last(), i);
        assert(nodes.remove(i).drop_last() =~= nodes.drop_last().remove(i));
        assert(nodes.remove(i).last() == nodes.last());
    }
}

/// Every entry read from a gemtext document stems from a post link: a
/// link whose text opens with a date.
pub proof fn lemma_entries_stem_from_post_links(base: Seq<char>, nodes: Seq<GemtextNodeView>)
    ensures
        forall|k: int|
            0 <= k < entries_of_nodes(base, nodes).len() ==> exists|i: int|
                0 <= i < nodes.len() && is_post_link(#[trigger] nodes[i]) && entry_of_node(
                    base,
                    nodes[i],
                ) == Ok::<GemfeedEntryView, FeedErrorView>(
                    #[trigger] entries_of_nodes(base, nodes)[k],
                ),
        entries_of_nodes(base, nodes).len() <= nodes.len(),
    decreases nodes.len(),
{
    if nodes.len() > 0 {
        let shorter = nodes.drop_last();
        lemma_entries_stem_from_post_links(base, shorter);
        let before = entries_of_nodes(base, shorter);
        let all = entries_of_nodes(base, nodes);
        assert forall|k: int| 0 <= k < all.len() implies exists|i: int|
            0 <= i < nodes.len() && is_post_link(#[trigger] nodes[i]) && entry_of_node(
                base,
                nodes[i],
            ) == Ok::<GemfeedEntryView, FeedErrorView>(#[trigger] all[k]) by {
            if k < before.len() {
                assert(all[k] == before[k]);
                let i = choose|i: int|
                    0 <= i < shorter.len() && is_post_link(#[trigger] shorter[i]) && entry_of_node(
                        base,
                        shorter[i],
                    ) == Ok::<GemfeedEntryView, FeedErrorView>(before[k]);
                assert(nodes[i] == shorter[i]);
            } else {
                let i = nodes.len() - 1;
                assert(is_post_link(nodes[i]));
            }
        }
    }
}

/// Keeping the first entry of each slug leaves no slug twice, and loses
/// no slug.
pub proof fn lemma_first_of_each_slug(entries: Seq<GemfeedEntryView>)
    ensures
        unique_slugs(first_of_each_slug(entries)),
        forall|slug: Seq<char>|
            has_slug(first_of_each_slug(entries), slug) <==> has_slug(entries, slug),
        unique_slugs(entries) ==> first_of_each_slug(entries) == entries,
    decreases entries.len(),
{
    if entries.len() > 0 {
        let shorter = entries.drop_last();
        let last = entries.last();
        lemma_first_of_each_slug(shorter);
        let kept = first_of_each_slug(shorter);
        let all = first_of_each_slug(entries);
        assert forall|slug: Seq<char>| has_slug(all, slug) <==> has_slug(entries, slug) by {
            if has_slug(all, slug) {
                let k = choose|k: int| 0 <= k < all.len() && (#[trigger] all[k]).slug == slug;
                if k < kept.len() {
                    assert(kept[k].slug == slug);
                    assert(has_slug(shorter, slug));
                    let j = choose|j: int|
                        0 <= j < shorter.len() && (#[trigger] shorter[j]).slug == slug;
                    assert(entries[j].slug == slug);
                } else {
                    assert(entries[entries.len() - 1].slug == slug);
                }
            }
            if has_slug(entries, slug) {
                let j = choose|j: int| 0 <= j < entries.len() && (#[trigger] entries[j]).slug == slug;
                if j < shorter.len() {
                    assert(shorter[j].slug == slug);
                    assert(has_slug(shorter, slug));
                    assert(has_slug(kept, slug));
                    let k = choose|k: int| 0 <= k < kept.len() && (#[trigger] kept[k]).slug == slug;
                    assert(all[k].slug == slug);
                } else if has_slug(kept, last.slug) {
                } else {
                    assert(all[kept.len() as int].slug == slug);
                }
            }
        }
        if unique_slugs(entries) {
            assert(unique_slugs(shorter)) by {
                assert forall|i: int, j: int| 0 <= i < j < shorter.len() implies (
                #[trigger] shorter[i]).slug != (#[trigger] shorter[j]).slug by {
                    assert(entries[i].slug != entries[j].slug);
                }
            }
            if has_slug(kept, last.slug) {
                let k = choose|k: int| 0 <= k < shorter.len() && (#[trigger] shorter[k]).slug == last.slug;
                assert(entries[k].slug != entries[entries.len() - 1].slug);
            }
            assert(all =~= entries);
        }
    } else {
        assert(first_of_each_slug(entries) =~= entries);
    }
}

/// Every entry has a slug.
pub open spec fn all_wf(entries: Seq<GemfeedEntry>) -> bool {
    forall|i: int| 0 <= i < entries.len() ==> (#[trigger] entries[i]).wf()
}

/// The position of the first entry with the slug `slug`.
pub fn position_of_slug(entries: &Vec<GemfeedEntry>, slug: &str) -> (r: Option<usize>)
    ensures
        match r {
            Some(i) => {
                &&& position_with_slug(entries_view(entries@), slug@) == Some(i as int)
                &&& is_first_with_slug(entries_view(entries@), slug@, i as int)
            },
            None => {
                &&& position_with_slug(entries_view(entries@), slug@) is None
                &&& !has_slug(entries_view(entries@), slug@)
            },
        },
{
    let mut i: usize = 0;
    while i < entries.len()
        invariant
            i <= entries.len(),
            forall|j: int| 0 <= j < i ==> (#[trigger] entries_view(entries@)[j]).slug != slug@,
        decreases entries.len() - i,
    {
        if same_text(entries[i].slug(), slug) {
            proof {
                let all = entries_view(entries@);
                assert(is_first_with_slug(all, slug@, i as int));
                let w = choose|w: int| is_first_with_slug(all, slug@, w);
                assert(all[w].slug == slug@ && all[i as int].slug == slug@);
            }
            return Some(i);
        }
        i += 1;
    }
    None
}

/// The entries without those whose slug an earlier entry has.
pub fn keep_first_of_each_slug(entries: Vec<GemfeedEntry>) -> (kept: Vec<GemfeedEntry>)
    ensures
        entries_view(kept@) == first_of_each_slug(entries_view(entries@)),
        unique_slugs(entries_view(kept@)),
        all_wf(entries@) ==> all_wf(kept@),
{
    let ghost all = entries_view(entries@);
    let mut kept: Vec<GemfeedEntry> = Vec::new();
    assert(all.take(0) =~= Seq::<GemfeedEntryView>::empty());
    for entry in it: entries.into_iter()
        invariant
            it.seq() == entries@,
            all == entries_view(entries@),
            entries_view(kept@) == first_of_each_slug(all.take(it.index())),
            unique_slugs(entries_view(kept@)),
            all_wf(entries@) ==> all_wf(kept@),
    {
        let ghost n = it.index();
        assert(all.take(n + 1).drop_last() =~= all.take(n));
        assert(all.take(n + 1).last() == entry@);
        let ghost before = kept@;
        if position_of_slug(&kept, entry.slug()).is_none() {
            kept.push(entry);
            assert(entries_view(kept@) =~= entries_view(before).push(entry@));
            assert(entry == entries@[n]);
        }
    }
    assert(all.take(all.len() as int) =~= all);
    kept
}

/// Reads the posts of the gemtext feed at `base_url` from its nodes: one
/// entry for each link whose text opens with a date and that can be read.
pub fn parse_gemfeed(base_url: &str, nodes: &Vec<GemtextNode>) -> (entries: Vec<GemfeedEntry>)
    ensures
        entries_view(entries@) == entries_of_nodes(base_url@, nodes_view(nodes@)),
        all_wf(entries@),
{
    let ghost all = nodes_view(nodes@);
    let mut entries: Vec<GemfeedEntry> = Vec::new();
    let mut i: usize = 0;
    assert(all.take(0) =~= Seq::<GemtextNodeView>::empty());
    while i < nodes.len()
        invariant
            i <= nodes.len(),
            all == nodes_view(nodes@),
            entries_view(entries@) == entries_of_nodes(base_url@, all.take(i as int)),
            all_wf(entries@),
        decreases nodes.len() - i,
    {
        assert(all.take(i + 1).drop_last() =~= all.take(i as int));
        assert(all.take(i + 1).last() == nodes@[i as int]@);
        if is_gemfeed_post_link(&nodes[i]) {
            match GemfeedEntry::from_ast(base_url, &nodes[i]) {
                Ok(entry) => {
                    let ghost before = entries@;
                    entries.push(entry);
                    assert(entries_view(entries@) =~= entries_view(before).push(entry@));
                },
                Err(_) => {},
            }
        }
        i += 1;
    }
    assert(all.take(all.len() as int) =~= all);
    entries
}

/// Reads the posts of an Atom feed: one entry for each entry of the
/// document that can be read.
pub fn parse_atom(feed: &AtomFeed, settings: &GemfeedParserSettings) -> (entries: Vec<
    GemfeedEntry,
>)
    ensures
        entries_view(entries@) == entries_of_atom(feed@.entries, settings.date_format()),
        all_wf(entries@),
{
    let ghost all = feed@.entries;
    let mut entries: Vec<GemfeedEntry> = Vec::new();
    let mut i: usize = 0;
    assert(all.take(0) =~= Seq::<AtomEntryView>::empty());
    while i < feed.entries.len()
        invariant
            i <= feed.entries.len(),
            all == feed@.entries,
            entries_view(entries@) == entries_of_atom(all.take(i as int), settings.date_format()),
            all_wf(entries@),
        decreases feed.entries.len() - i,
    {
        assert(all.take(i + 1).drop_last() =~= all.take(i as int));
        assert(all.take(i + 1).last() == feed.entries@[i as int]@);
        match GemfeedEntry::from_atom(&feed.entries[i], settings.atom_date_format()) {
            Ok(entry) => {
                let ghost before = entries@;
                entries.push(entry);
                assert(entries_view(entries@) =~= entries_view(before).push(entry@));
            },
            Err(_) => {},
        }
        i += 1;
    }
    assert(all.take(all.len() as int) =~= all);
    entries
}

/// The title of a gemtext feed: the text of its first heading of level 1.
pub fn find_title(nodes: &Vec<GemtextNode>) -> (title: Option<&String>)
    ensures
        match title {
            Some(t) => first_title(nodes_view(nodes@)) == Some(t@),
            None => first_title(nodes_view(nodes@)) is None,
        },
{
    let ghost all = nodes_view(nodes@);
    let mut i: usize = 0;
    assert(all.skip(0) =~= all);
    while i < nodes.len()
        invariant
            i <= nodes.len(),
            all == nodes_view(nodes@),
            first_title(all) == first_title(all.skip(i as int)),
        decreases nodes.len() - i,
    {
        assert(all.skip(i as int)[0] == nodes@[i as int]@);
        assert(all.skip(i as int).drop_first() =~= all.skip(i + 1));
        match &nodes[i] {
            GemtextNode::Heading { level, text } => {
                if *level == 1 {
                    return Some(text);
                }
            },
            _ => {},
        }
        i += 1;
    }
    None
}

/// A feed: its address, its title and its posts.
#[derive(Debug, Clone, PartialEq, Eq)]
pub struct Gemfeed {
    url: String,
    title: String,
    entries: Vec<GemfeedEntry>,
}

impl View for Gemfeed {
    type V = GemfeedView;

    closed spec fn view(&self) -> GemfeedView {
        GemfeedView { url: self.url@, title: self.title@, entries: entries_view(self.entries@) }
    }
}

impl Gemfeed {
    /// A feed is well formed when no two of its entries have the same slug.
    pub open spec fn wf(&self) -> bool {
        unique_slugs(self@.entries)
    }

    /// A feed that was read from a document: it is well formed, and every
    /// entry has a slug that is not empty.
    pub open spec fn wf_as_read(&self) -> bool {
        self.wf() && all_have_slugs(self@.entries)
    }

    /// A feed with the given address, title and entries.  Of entries with
    /// the same slug only the first is kept.
    pub fn new(url: &str, title: &str, entries: Vec<GemfeedEntry>) -> (feed: Gemfeed)
        ensures
            feed@ == (GemfeedView {
                url: url@,
                title: title@,
                entries: first_of_each_slug(entries_view(entries@)),
            }),
            feed.wf(),
            all_wf(entries@) ==> feed.wf_as_read(),
    {
        let kept = keep_first_of_each_slug(entries);
        assert(all_wf(kept@) ==> all_have_slugs(entries_view(kept@))) by {
            if all_wf(kept@) {
                assert forall|i: int| 0 <= i < kept@.len() implies (#[trigger] entries_view(
                    kept@,
                )[i]).slug.len() > 0 by {
                    assert(kept@[i].wf());
                }
            }
        }
        Gemfeed { url: url.to_owned(), title: title.to_owned(), entries: kept }
    }

    /// Reads a feed from the response to a request for `url`: its type
    /// indicator `meta` and its content, where it has one.  Publish times
    /// of an Atom feed are read in the default format.
    pub fn load(url: &str, meta: &str, content: Option<&str>) -> (r: Result<Gemfeed, FeedError>)
        ensures
            result_view(r) == feed_of_response(
                url@,
                meta@,
                option_text(content),
                DEFAULT_DATE_FORMAT@,
            ),
            r matches Ok(feed) ==> feed.wf_as_read(),
    {
        Self::load_with_settings(url, meta, content, &GemfeedParserSettings::default())
    }

    /// Reads a feed from the response to a request for `url`: its type
    /// indicator `meta` and its content, where it has one.
    pub fn load_with_settings(
        url: &str,
        meta: &str,
        content: Option<&str>,
        settings: &GemfeedParserSettings,
    ) -> (r: Result<Gemfeed, FeedError>)
        ensures
            result_view(r) == feed_of_response(
                url@,
                meta@,
                option_text(content),
                settings.date_format(),
            ),
            r matches Ok(feed) ==> feed.wf_as_read(),
    {
        match GemfeedType::from_mime(meta) {
            GemfeedType::Gemtext => Self::load_from_gemtext(url, content),
            GemfeedType::Atom => Self::load_from_atom(url, content, settings),
            GemfeedType::Unknown => Err(FeedError::UnrecognizedFeedType(meta.to_owned())),
        }
    }

    /// Reads a feed from the content of an Atom response.
    pub fn load_from_atom(
        url: &str,
        content: Option<&str>,
        settings: &GemfeedParserSettings,
    ) -> (r: Result<Gemfeed, FeedError>)
        ensures
            result_view(r) == feed_of_atom(url@, option_text(content), settings.date_format()),
            r matches Ok(feed) ==> feed.wf_as_read(),
    {
        let text = match content {
            Some(text) => text,
            None => return Err(FeedError::InvalidFeed),
        };
        let document = match parse_document(text) {
            Some(document) => document,
            None => return Err(FeedError::InvalidFeed),
        };
        let entries = parse_atom(&document, settings);
        Ok(Self::new(url, document.title.as_str(), entries))
    }

    /// Reads a feed from the content of a gemtext response.
    pub fn load_from_gemtext(url: &str, content: Option<&str>) -> (r: Result<Gemfeed, FeedError>)
        ensures
            result_view(r) == feed_of_gemtext(url@, option_text(content)),
            r matches Ok(feed) ==> feed.wf_as_read(),
    {
        match content {
            Some(text) => {
                let nodes = parse_gemtext(text);
                Self::load_from_ast(url, &nodes)
            },
            None => Err(FeedError::InvalidFeed),
        }
    }

    /// Reads a feed from the nodes of a gemtext document.  The document
    /// must have a heading of level 1, whose text is the feed's title.
    pub fn load_from_ast(url: &str, nodes: &Vec<GemtextNode>) -> (r: Result<Gemfeed, FeedError>)
        ensures
            result_view(r) == feed_of_nodes(url@, nodes_view(nodes@)),
            r matches Ok(feed) ==> feed.wf_as_read(),
    {
        match find_title(nodes) {
            Some(title) => {
                let entries = parse_gemfeed(url, nodes);
                Ok(Self::new(url, title.as_str(), entries))
            },
            None => Err(FeedError::InvalidFeed),
        }
    }

    /// The slugs of the feed's entries, in order.
    pub fn slugs(&self) -> (slugs: Vec<String>)
        ensures
            strings_view(slugs@) == slugs_of(self@.entries),
    {
        let mut slugs: Vec<String> = Vec::new();
        let mut i: usize = 0;
        while i < self.entries.len()
            invariant
                i <= self.entries.len(),
                strings_view(slugs@) == slugs_of(self@.entries.take(i as int)),
            decreases self.entries.len() - i,
        {
            let ghost before = slugs@;
            let slug = self.entries[i].slug().to_owned();
            slugs.push(slug);
            assert(strings_view(slugs@) =~= strings_view(before).push(slug@));
            assert(slugs_of(self@.entries.take(i + 1)) =~= slugs_of(
                self@.entries.take(i as int),
            ).push(self@.entries[i as int].slug));
            i += 1;
        }
        assert(self@.entries.take(self.entries.len() as int) =~= self@.entries);
        slugs
    }

    /// The address of the feed.
    pub fn url(&self) -> (r: &str)
        ensures
            r@ == self@.url,
    {
        self.url.as_str()
    }

    /// The title of the feed.
    pub fn title(&self) -> (r: &str)
        ensures
            r@ == self@.title,
    {
        self.title.as_str()
    }

    /// The entries of the feed, in order.
    pub fn entries(&self) -> (r: &Vec<GemfeedEntry>)
        ensures
            entries_view(r@) == self@.entries,
    {
        &self.entries
    }

    /// The entries of the feed, to be changed in place.
    pub fn entries_mut(&mut self) -> (r: &mut Vec<GemfeedEntry>)
        ensures
            entries_view(r@) == old(self)@.entries,
            final(self)@ == (GemfeedView { entries: entries_view(final(r)@), ..old(self)@ }),
    {
        &mut self.entries
    }

    /// The first entry with the slug `slug`.
    pub fn find_entry_by_slug(&self, slug: &str) -> (r: Option<&GemfeedEntry>)
        ensures
            match r {
                Some(entry) => position_with_slug(self@.entries, slug@) matches Some(i)
                    && is_first_with_slug(self@.entries, slug@, i) && entry@ == self@.entries[i],
                None => !has_slug(self@.entries, slug@),
            },
    {
        match position_of_slug(&self.entries, slug) {
            Some(i) => Some(&self.entries[i]),
            None => None,
        }
    }

    /// The first entry with the slug `slug`, to be changed in place.
    pub fn find_mut_entry_by_slug(&mut self, slug: &str) -> (r: Option<&mut GemfeedEntry>)
        ensures
            match r {
                Some(entry) => {
                    &&& position_with_slug(old(self)@.entries, slug@) matches Some(i)
                        && is_first_with_slug(old(self)@.entries, slug@, i) && entry@ == old(
                        self,
                    )@.entries[i] && final(self)@ == (GemfeedView {
                        entries: old(self)@.entries.update(i, final(entry)@),
                        ..old(self)@
                    })
                },
                None => !has_slug(old(self)@.entries, slug@) && final(self)@ == old(self)@,
            },
    {
        match position_of_slug(&self.entries, slug) {
            Some(i) => {
                let ghost before = self.entries@;
                let entry = &mut self.entries[i];
                assert(entries_view(before.update(i as int, *final(entry))) =~= entries_view(
                    before,
                ).update(i as int, final(entry)@));
                Some(entry)
            },
            None => None,
        }
    }
}

} // verus!
