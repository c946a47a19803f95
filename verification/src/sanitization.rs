//! Cutting a post's text at a marker, before it is published.

use vstd::prelude::*;
use crate::entry::{body_of, entries_view, BodyView, GemfeedEntry, GemfeedEntryView};
use crate::gemfeed::{slugs_of, unique_slugs, Gemfeed, GemfeedView};
use crate::error::{FeedError, FeedErrorView};
use crate::text::{
    chars_of, contains_text, find_first, find_last, first_occurrence, is_first_occurrence,
    is_last_occurrence, last_occurrence, lemma_first_occurrence_unique,
    lemma_last_occurrence_unique, occurs_at,
};

verus! {

/// What follows the first `marker` in `body`; all of `body` where it holds
/// no `marker`.
pub open spec fn after_first(body: Seq<char>, marker: Seq<char>) -> Seq<char> {
    match first_occurrence(body, marker) {
        Some(i) => body.skip(i + marker.len()),
        None => body,
    }
}

/// What precedes the last `marker` in `body`; all of `body` where it holds
/// no `marker`.
pub open spec fn before_last(body: Seq<char>, marker: Seq<char>) -> Seq<char> {
    match last_occurrence(body, marker) {
        Some(i) => body.take(i),
        None => body,
    }
}

/// A text without the marker is left as it is, by both cuts.
pub proof fn lemma_absent_marker_keeps_text(body: Seq<char>, marker: Seq<char>)
    requires
        !contains_text(body, marker),
    ensures
        after_first(body, marker) == body,
        before_last(body, marker) == body,
{
    if first_occurrence(body, marker) is Some {
        let i = choose|i: int| is_first_occurrence(body, marker, i);
        assert(occurs_at(body, marker, i));
    }
    if last_occurrence(body, marker) is Some {
        let i = choose|i: int| is_last_occurrence(body, marker, i);
        assert(occurs_at(body, marker, i));
    }
}

/// Once a cut has left no marker behind, the same cut changes nothing more.
pub proof fn lemma_cut_is_idempotent(body: Seq<char>, marker: Seq<char>)
    ensures
        !contains_text(after_first(body, marker), marker) ==> after_first(
            after_first(body, marker),
            marker,
        ) == after_first(body, marker),
        !contains_text(before_last(body, marker), marker) ==> before_last(
            before_last(body, marker),
            marker,
        ) == before_last(body, marker),
{
    if !contains_text(after_first(body, marker), marker) {
        lemma_absent_marker_keeps_text(after_first(body, marker), marker);
    }
    if !contains_text(before_last(body, marker), marker) {
        lemma_absent_marker_keeps_text(before_last(body, marker), marker);
    }
}

/// Of a text made of `head`, `marker` and `tail`, where `marker` is not
/// found before the end of `head`, the cut before the marker leaves `tail`.
pub proof fn lemma_after_first_of_parts(head: Seq<char>, marker: Seq<char>, tail: Seq<char>)
    requires
        forall|j: int| 0 <= j < head.len() ==> !occurs_at(head + marker + tail, marker, j),
    ensures
        after_first(head + marker + tail, marker) == tail,
{
    let body = head + marker + tail;
    assert(body.subrange(head.len() as int, (head.len() + marker.len()) as int) =~= marker);
    assert(is_first_occurrence(body, marker, head.len() as int));
    let i = choose|i: int| is_first_occurrence(body, marker, i);
    lemma_first_occurrence_unique(body, marker, i, head.len() as int);
    assert(body.skip((head.len() + marker.len()) as int) =~= tail);
}

/// Of a text made of `head`, `marker` and `tail`, where `marker` is not
/// found after the end of `head`, the cut after the marker leaves `head`.
pub proof fn lemma_before_last_of_parts(head: Seq<char>, marker: Seq<char>, tail: Seq<char>)
    requires
        forall|j: int| head.len() < j ==> !occurs_at(head + marker + tail, marker, j),
    ensures
        before_last(head + marker + tail, marker) == head,
{
    let body = head + marker + tail;
    assert(body.subrange(head.len() as int, (head.len() + marker.len()) as int) =~= marker);
    assert(is_last_occurrence(body, marker, head.len() as int));
    let i = choose|i: int| is_last_occurrence(body, marker, i);
    lemma_last_occurrence_unique(body, marker, i, head.len() as int);
    assert(body.take(head.len() as int) =~= head);
}

/// What follows the first `marker` in `body`.
pub fn text_after_first(body: &str, marker: &str) -> (r: String)
    ensures
        r@ == after_first(body@, marker@),
{
    let b = chars_of(body);
    let m = chars_of(marker);
    match find_first(&b, &m) {
        Some(i) => {
            assert(occurs_at(b@, m@, i as int));
            assert(i + m@.len() <= b@.len());
            assert(i + m.len() <= b.len());
            let rest = body.substring_char(i + m.len(), b.len());
            assert(rest@ =~= body@.skip(i + marker@.len()));
            rest.to_owned()
        },
        None => body.to_owned(),
    }
}

/// What precedes the last `marker` in `body`.
pub fn text_before_last(body: &str, marker: &str) -> (r: String)
    ensures
        r@ == before_last(body@, marker@),
{
    let b = chars_of(body);
    let m = chars_of(marker);
    match find_last(&b, &m) {
        Some(i) => {
            let rest = body.substring_char(0, i);
            assert(rest@ =~= body@.take(i as int));
            rest.to_owned()
        },
        None => body.to_owned(),
    }
}

/// Cuts away the text of the post up to and including the first `marker`.
/// A text without the marker stays as it is.  Fails, and changes nothing,
/// where no text is recorded for the post.
pub fn strip_before(entry: &mut GemfeedEntry, marker: &str) -> (r: Result<(), FeedError>)
    ensures
        match r {
            Ok(_) => old(entry)@.body matches BodyView::Loaded(text) && final(entry)@ == (
            GemfeedEntryView { body: BodyView::Loaded(after_first(text, marker@)), ..old(entry)@ }),
            Err(error) => body_of(old(entry)@.body) == Err::<Seq<char>, FeedErrorView>(error@)
                && final(entry)@ == old(entry)@,
        },
{
    match entry.body_mut() {
        Ok(body) => {
            let cut = text_after_first(body.as_str(), marker);
            *body = cut;
            Ok(())
        },
        Err(error) => Err(error),
    }
}

/// Cuts away the text of the post from the last `marker` on.  A text
/// without the marker stays as it is.  Fails, and changes nothing, where no
/// text is recorded for the post.
pub fn strip_after(entry: &mut GemfeedEntry, marker: &str) -> (r: Result<(), FeedError>)
    ensures
        match r {
            Ok(_) => old(entry)@.body matches BodyView::Loaded(text) && final(entry)@ == (
            GemfeedEntryView { body: BodyView::Loaded(before_last(text, marker@)), ..old(entry)@ }),
            Err(error) => body_of(old(entry)@.body) == Err::<Seq<char>, FeedErrorView>(error@)
                && final(entry)@ == old(entry)@,
        },
{
    match entry.body_mut() {
        Ok(body) => {
            let cut = text_before_last(body.as_str(), marker);
            *body = cut;
            Ok(())
        },
        Err(error) => Err(error),
    }
}

/// The markers at which the text of every post is cut before publication.
#[derive(Debug, Clone, PartialEq, Eq)]
pub struct SanitizeConfig {
    /// Where set, the text up to and including the first such marker goes.
    pub strip_before_marker: Option<String>,
    /// Where set, the text from the last such marker on goes.
    pub strip_after_marker: Option<String>,
}

/// The mathematical value of a `SanitizeConfig`.
pub struct SanitizeConfigView {
    pub strip_before: Option<Seq<char>>,
    pub strip_after: Option<Seq<char>>,
}

impl View for SanitizeConfig {
    type V = SanitizeConfigView;

    open spec fn view(&self) -> SanitizeConfigView {
        SanitizeConfigView {
            strip_before: match self.strip_before_marker {
                Some(marker) => Some(marker@),
                None => None,
            },
            strip_after: match self.strip_after_marker {
                Some(marker) => Some(marker@),
                None => None,
            },
        }
    }
}

impl SanitizeConfigView {
    /// Whether any cut is asked for.
    pub open spec fn has_markers(self) -> bool {
        self.strip_before is Some || self.strip_after is Some
    }
}

/// The text after the cuts that `config` asks for: first the one before
/// the marker, then the one after.
pub open spec fn sanitized_text(text: Seq<char>, config: SanitizeConfigView) -> Seq<char> {
    let cut = match config.strip_before {
        Some(marker) => after_first(text, marker),
        None => text,
    };
    match config.strip_after {
        Some(marker) => before_last(cut, marker),
        None => cut,
    }
}

/// The entry after the cuts that `config` asks for.  Where a cut is asked
/// for, the entry's text must be recorded.
pub open spec fn sanitized_entry(entry: GemfeedEntryView, config: SanitizeConfigView) -> Result<
    GemfeedEntryView,
    FeedErrorView,
> {
    if !config.has_markers() {
        Ok(entry)
    } else {
        match body_of(entry.body) {
            Ok(text) => Ok(
                GemfeedEntryView { body: BodyView::Loaded(sanitized_text(text, config)), ..entry },
            ),
            Err(error) => Err(error),
        }
    }
}

/// The entries after the cuts that `config` asks for, made in order up to
/// the first entry on which they fail, and that failure if there is one.
pub open spec fn sanitized_entries(
    entries: Seq<GemfeedEntryView>,
    config: SanitizeConfigView,
) -> (Seq<GemfeedEntryView>, Option<FeedErrorView>)
    decreases entries.len(),
{
    if entries.len() == 0 {
        (Seq::empty(), None)
    } else {
        let (done, failure) = sanitized_entries(entries.drop_last(), config);
        match failure {
            Some(_) => (done.push(entries.last()), failure),
            None => match sanitized_entry(entries.last(), config) {
                Ok(entry) => (done.push(entry), None),
                Err(error) => (done.push(entries.last()), Some(error)),
            },
        }
    }
}

/// After a failure the remaining entries stay as they are.
pub proof fn lemma_failure_ends_sanitizing(
    entries: Seq<GemfeedEntryView>,
    config: SanitizeConfigView,
    k: int,
    n: int,
)
    requires
        0 < k <= n <= entries.len(),
        sanitized_entries(entries.take(k), config).1 is Some,
    ensures
        sanitized_entries(entries.take(n), config) == (
            sanitized_entries(entries.take(k), config).0 + entries.subrange(k, n),
            sanitized_entries(entries.take(k), config).1,
        ),
    decreases n - k,
{
    if n == k {
        assert(sanitized_entries(entries.take(k), config).0 + entries.subrange(k, n)
            =~= sanitized_entries(entries.take(k), config).0);
    } else {
        lemma_failure_ends_sanitizing(entries, config, k, n - 1);
        assert(entries.take(n).drop_last() =~= entries.take(n - 1));
        assert((sanitized_entries(entries.take(k), config).0 + entries.subrange(k, n - 1)).push(
            entries[n - 1],
        ) =~= sanitized_entries(entries.take(k), config).0 + entries.subrange(k, n));
    }
}

/// Sanitizing keeps the number of entries and the slug of each.
pub proof fn lemma_sanitizing_keeps_slugs(entries: Seq<GemfeedEntryView>, config: SanitizeConfigView)
    ensures
        sanitized_entries(entries, config).0.len() == entries.len(),
        slugs_of(sanitized_entries(entries, config).0) == slugs_of(entries),
    decreases entries.len(),
{
    if entries.len() > 0 {
        lemma_sanitizing_keeps_slugs(entries.drop_last(), config);
        let done = sanitized_entries(entries.drop_last(), config).0;
        let all = sanitized_entries(entries, config).0;
        assert(all.drop_last() =~= done);
        assert(slugs_of(all) =~= slugs_of(done).push(entries.last().slug));
        assert(slugs_of(entries) =~= slugs_of(entries.drop_last()).push(entries.last().slug));
    } else {
        assert(slugs_of(sanitized_entries(entries, config).0) =~= slugs_of(entries));
    }
}

/// Entries with the same slugs as entries with unique slugs have unique slugs.
pub proof fn lemma_same_slugs_stay_unique(a: Seq<GemfeedEntryView>, b: Seq<GemfeedEntryView>)
    requires
        unique_slugs(a),
        slugs_of(a) == slugs_of(b),
    ensures
        unique_slugs(b),
{
    assert(a.len() == slugs_of(a).len() && b.len() == slugs_of(b).len());
    assert forall|i: int, j: int| 0 <= i < j < b.len() implies (#[trigger] b[i]).slug != (
    #[trigger] b[j]).slug by {
        assert(slugs_of(a)[i] == a[i].slug && slugs_of(b)[i] == b[i].slug);
        assert(slugs_of(a)[j] == a[j].slug && slugs_of(b)[j] == b[j].slug);
    }
}

/// Makes on one entry the cuts that `config` asks for.
pub fn sanitize_entry(entry: &mut GemfeedEntry, config: &SanitizeConfig) -> (r: Result<
    (),
    FeedError,
>)
    ensures
        match r {
            Ok(_) => sanitized_entry(old(entry)@, config@) == Ok::<
                GemfeedEntryView,
                FeedErrorView,
            >(final(entry)@),
            Err(error) => sanitized_entry(old(entry)@, config@) == Err::<
                GemfeedEntryView,
                FeedErrorView,
            >(error@) && final(entry)@ == old(entry)@,
        },
{
    if let Some(marker) = &config.strip_before_marker {
        match strip_before(entry, marker.as_str()) {
            Ok(_) => {},
            Err(error) => return Err(error),
        }
    }
    if let Some(marker) = &config.strip_after_marker {
        match strip_after(entry, marker.as_str()) {
            Ok(_) => {},
            Err(error) => return Err(error),
        }
    }
    Ok(())
}

/// Makes on every entry of the feed, in order, the cuts that `config` asks
/// for.  Stops at the first entry without a recorded text and returns its
/// error; the entries before it are cut, the others unchanged.
#[verifier::loop_isolation(false)]
pub fn sanitize_gemlogs(gemfeed: &mut Gemfeed, config: &SanitizeConfig) -> (r: Result<
    (),
    FeedError,
>)
    ensures
        final(gemfeed)@ == (GemfeedView {
            entries: sanitized_entries(old(gemfeed)@.entries, config@).0,
            ..old(gemfeed)@
        }),
        match r {
            Ok(_) => sanitized_entries(old(gemfeed)@.entries, config@).1 is None,
            Err(error) => sanitized_entries(old(gemfeed)@.entries, config@).1 == Some(error@),
        },
        slugs_of(final(gemfeed)@.entries) == slugs_of(old(gemfeed)@.entries),
        old(gemfeed).wf() ==> final(gemfeed).wf(),
{
    let ghost before = gemfeed@.entries;
    proof {
        lemma_sanitizing_keeps_slugs(before, config@);
        if unique_slugs(before) {
            lemma_same_slugs_stay_unique(before, sanitized_entries(before, config@).0);
        }
    }
    let entries = gemfeed.entries_mut();
    let mut i: usize = 0;
    assert(before.take(0) =~= Seq::<GemfeedEntryView>::empty());
    assert(entries_view(entries@).skip(0) =~= before.skip(0));
    while i < entries.len()
        invariant
            i <= entries.len(),
            entries.len() == before.len(),
            entries_view(entries@).take(i as int) == sanitized_entries(
                before.take(i as int),
                config@,
            ).0,
            sanitized_entries(before.take(i as int), config@).1 is None,
            entries_view(entries@).skip(i as int) == before.skip(i as int),
        decreases entries.len() - i,
    {
        let ghost current = entries_view(entries@);
        assert(current[i as int] == current.skip(i as int)[0]);
        assert(before[i as int] == before.skip(i as int)[0]);
        assert(before.take(i + 1).drop_last() =~= before.take(i as int));
        assert(before.take(i + 1).last() == before[i as int]);
        match sanitize_entry(&mut entries[i], config) {
            Ok(_) => {
                assert(entries_view(entries@).take(i + 1) =~= current.take(i as int).push(
                    entries@[i as int]@,
                ));
                assert(entries_view(entries@).skip(i + 1) =~= current.skip(i as int).drop_first());
                assert(before.skip(i + 1) =~= before.skip(i as int).drop_first());
            },
            Err(error) => {
                proof {
                    assert(entries_view(entries@) =~= current);
                    let done = sanitized_entries(before.take(i as int), config@).0;
                    assert(sanitized_entries(before.take(i + 1), config@) == (
                        done.push(before[i as int]),
                        Some(error@),
                    ));
                    lemma_failure_ends_sanitizing(before, config@, i + 1, before.len() as int);
                    assert(before.take(before.len() as int) =~= before);
                    assert forall|k: int| i <= k < current.len() implies current[k]
                        == before[k] by {
                        assert(current.skip(i as int)[k - i] == before.skip(i as int)[k - i]);
                    }
                    assert(current =~= done.push(before[i as int]) + before.subrange(
                        i + 1,
                        before.len() as int,
                    )) by {
                        assert forall|k: int| 0 <= k < i implies current[k] == done[k] by {
                            assert(current.take(i as int)[k] == current[k]);
                        }
                    }
                }
                return Err(error);
            },
        }
        i += 1;
    }
    proof {
        assert(entries_view(entries@).take(i as int) =~= entries_view(entries@));
        assert(before.take(i as int) =~= before);
    }
    Ok(())
}

} // verus!
