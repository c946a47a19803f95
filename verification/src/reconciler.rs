//! Reconciliation as a sequence of steps.
//!
//! The reconciler decides; its caller talks to the network.  Each step
//! takes what the last action brought (the remote's slugs, the text of a
//! post, the service's answer to a new post) and names the next action.
//! The order is fixed: first the remote's slugs are listed; then the texts
//! that are needed are fetched, one at a time, in the order of the feed;
//! then every text is cut as the configuration asks; then the missing
//! posts are sent, one at a time, in the order of the feed.
//!
//! A post that the service refuses does not stop the others: its failure
//! is recorded and the next post is sent.

use vstd::prelude::*;
use crate::entry::{
    body_after_fill, entries_view, fetched_view, GemfeedEntry, GemfeedEntryView,
};
use crate::error::{FeedError, FeedErrorView};
use crate::gemfeed::{
    has_slug, is_first_with_slug, lemma_position_of_present_slug, position_with_slug, slugs_of,
    Gemfeed, GemfeedView,
};
use crate::report::{PublishOutcome, PublishOutcomeView, SyncReport};
use crate::sanitization::{
    lemma_sanitizing_keeps_slugs, sanitize_gemlogs, sanitized_entries, SanitizeConfig,
    SanitizeConfigView,
};
use crate::sync::{
    holds_text, lemma_missing_membership, lemma_missing_no_duplicates,
    lemma_nothing_missing_when_in_sync, missing_of, missing_slugs,
};
use crate::text::strings_view;
use crate::wf::{request_of, PostRequest, PostRequestView};

verus! {

/// What the caller brings back from the network.
#[derive(Debug, Clone, PartialEq, Eq)]
pub enum SyncEvent {
    /// The slugs of the posts that the service has.
    Slugs(Vec<String>),
    /// The service could not list its posts, for this cause.
    SlugsFailed(String),
    /// The text of a post, or nothing where the response carried none.
    Body(Option<String>),
    /// The text of a post could not be fetched, for this cause.
    BodyFailed(String),
    /// The service created the post, and answered with its identifier and
    /// its title.
    Created { id: String, title: String },
    /// The service did not create the post, for this cause.
    CreateFailed(String),
}

/// The mathematical value of a `SyncEvent`.
pub enum SyncEventView {
    Slugs(Seq<Seq<char>>),
    SlugsFailed(Seq<char>),
    Body(Option<Seq<char>>),
    BodyFailed(Seq<char>),
    Created { id: Seq<char>, title: Seq<char> },
    CreateFailed(Seq<char>),
}

impl View for SyncEvent {
    type V = SyncEventView;

    open spec fn view(&self) -> SyncEventView {
        match self {
            SyncEvent::Slugs(slugs) => SyncEventView::Slugs(strings_view(slugs@)),
            SyncEvent::SlugsFailed(cause) => SyncEventView::SlugsFailed(cause@),
            SyncEvent::Body(text) => SyncEventView::Body(
                match text {
                    Some(t) => Some(t@),
                    None => None,
                },
            ),
            SyncEvent::BodyFailed(cause) => SyncEventView::BodyFailed(cause@),
            SyncEvent::Created { id, title } => SyncEventView::Created { id: id@, title: title@ },
            SyncEvent::CreateFailed(cause) => SyncEventView::CreateFailed(cause@),
        }
    }
}

/// What the caller is to do next.
#[derive(Debug, Clone, PartialEq, Eq)]
pub enum SyncAction {
    /// List the slugs of the posts that the service has.
    ListSlugs,
    /// Fetch the text of the post at this address.
    FetchBody { url: String },
    /// Ask the service to create this post.
    CreatePost(PostRequest),
    /// Nothing: the reconciliation is complete, and the report says how
    /// it went.
    Finished,
    /// Nothing: the reconciliation was given up, for this cause.
    Aborted(FeedError),
}

/// The mathematical value of a `SyncAction`.
pub enum SyncActionView {
    ListSlugs,
    FetchBody { url: Seq<char> },
    CreatePost(PostRequestView),
    Finished,
    Aborted(FeedErrorView),
}

impl View for SyncAction {
    type V = SyncActionView;

    open spec fn view(&self) -> SyncActionView {
        match self {
            SyncAction::ListSlugs => SyncActionView::ListSlugs,
            SyncAction::FetchBody { url } => SyncActionView::FetchBody { url: url@ },
            SyncAction::CreatePost(request) => SyncActionView::CreatePost(request@),
            SyncAction::Finished => SyncActionView::Finished,
            SyncAction::Aborted(error) => SyncActionView::Aborted(error@),
        }
    }
}

/// Where a reconciliation stands.
enum Stage {
    /// The remote's slugs are awaited.
    AwaitingSlugs,
    /// The text of the entry at this position is awaited.
    Hydrating { fetching: usize },
    /// The service's answer to the request at this position is awaited.
    Publishing { queue: Vec<PostRequest>, sending: usize },
    /// Every missing post has its outcome.
    Finished,
    /// The reconciliation was given up.
    Aborted(FeedError),
}

/// The mathematical value of the stage of a reconciliation.
pub enum StageView {
    AwaitingSlugs,
    Hydrating { fetching: int },
    Publishing { queue: Seq<PostRequestView>, sending: int },
    Finished,
    Aborted(FeedErrorView),
}

impl View for Stage {
    type V = StageView;

    closed spec fn view(&self) -> StageView {
        match self {
            Stage::AwaitingSlugs => StageView::AwaitingSlugs,
            Stage::Hydrating { fetching } => StageView::Hydrating { fetching: *fetching as int },
            Stage::Publishing { queue, sending } => StageView::Publishing {
                queue: queue@.map_values(|r: PostRequest| r@),
                sending: *sending as int,
            },
            Stage::Finished => StageView::Finished,
            Stage::Aborted(error) => StageView::Aborted(error@),
        }
    }
}

/// The mathematical value of a `Reconciler`.
pub struct ReconcilerView {
    pub feed: GemfeedView,
    pub config: SanitizeConfigView,
    /// The slugs that the remote lacks; empty until its slugs are known.
    pub missing: Seq<Seq<char>>,
    /// The outcomes so far.
    pub report: Seq<PublishOutcomeView>,
    pub stage: StageView,
}

/// Whether the text of `entry` has to be fetched: it has not been, and the
/// entry is to be cut or to be published.
pub open spec fn needs_fetch(
    entry: GemfeedEntryView,
    missing: Seq<Seq<char>>,
    config: SanitizeConfigView,
) -> bool {
    entry.body is Empty && (config.has_markers() || missing.contains(entry.slug))
}

/// The position of the first entry from `from` on whose text has to be
/// fetched; the number of entries where there is none.
pub open spec fn next_fetch(
    entries: Seq<GemfeedEntryView>,
    missing: Seq<Seq<char>>,
    config: SanitizeConfigView,
    from: int,
) -> int
    decreases entries.len() - from,
{
    if from < 0 || from >= entries.len() {
        entries.len() as int
    } else if needs_fetch(entries[from], missing, config) {
        from
    } else {
        next_fetch(entries, missing, config, from + 1)
    }
}

/// The requests to send for the missing slugs, in their order, and the
/// failures of those whose text could not be had.
pub open spec fn planned(entries: Seq<GemfeedEntryView>, missing: Seq<Seq<char>>) -> (
    Seq<PostRequestView>,
    Seq<PublishOutcomeView>,
)
    decreases missing.len(),
{
    if missing.len() == 0 {
        (Seq::empty(), Seq::empty())
    } else {
        let (queue, failed) = planned(entries, missing.drop_last());
        match position_with_slug(entries, missing.last()) {
            None => (queue, failed),
            Some(i) => match request_of(entries[i]) {
                Ok(request) => (queue.push(request), failed),
                Err(error) => (
                    queue,
                    failed.push(PublishOutcomeView::Failed { slug: missing.last(), error }),
                ),
            },
        }
    }
}

/// The state once no more text is to be fetched: every text is cut as the
/// configuration asks, and the requests are made ready.  A text that is
/// to be cut and could not be had ends the reconciliation.
pub open spec fn settled(state: ReconcilerView) -> ReconcilerView {
    let (entries, failure) = sanitized_entries(state.feed.entries, state.config);
    let feed = GemfeedView { entries, ..state.feed };
    match failure {
        Some(error) => ReconcilerView { feed, stage: StageView::Aborted(error), ..state },
        None => {
            let (queue, failed) = planned(entries, state.missing);
            ReconcilerView {
                feed,
                report: state.report + failed,
                stage: if queue.len() == 0 {
                    StageView::Finished
                } else {
                    StageView::Publishing { queue, sending: 0 }
                },
                ..state
            }
        },
    }
}

/// The state that awaits the next text to fetch from `from` on, or the
/// settled state where there is none.
pub open spec fn sought(state: ReconcilerView, from: int) -> ReconcilerView {
    let next = next_fetch(state.feed.entries, state.missing, state.config, from);
    if next < state.feed.entries.len() {
        ReconcilerView { stage: StageView::Hydrating { fetching: next }, ..state }
    } else {
        settled(state)
    }
}

/// The state after the outcome of the request at `sending` is recorded.
pub open spec fn advanced(
    state: ReconcilerView,
    queue: Seq<PostRequestView>,
    sending: int,
    outcome: PublishOutcomeView,
) -> ReconcilerView {
    ReconcilerView {
        report: state.report.push(outcome),
        stage: if sending + 1 < queue.len() {
            StageView::Publishing { queue, sending: sending + 1 }
        } else {
            StageView::Finished
        },
        ..state
    }
}

/// The state after the outcome of the fetch for the entry at `fetching` is
/// recorded.
pub open spec fn hydrated(
    state: ReconcilerView,
    fetching: int,
    fetched: Result<Option<Seq<char>>, Seq<char>>,
) -> ReconcilerView {
    let entry = state.feed.entries[fetching];
    let filled = GemfeedEntryView { body: body_after_fill(entry.body, fetched), ..entry };
    sought(
        ReconcilerView {
            feed: GemfeedView { entries: state.feed.entries.update(fetching, filled), ..state.feed },
            ..state
        },
        fetching + 1,
    )
}

/// The state after `event`.  An event that the stage does not await
/// changes nothing.
pub open spec fn apply(state: ReconcilerView, event: SyncEventView) -> ReconcilerView {
    match (state.stage, event) {
        (StageView::AwaitingSlugs, SyncEventView::Slugs(remote)) => sought(
            ReconcilerView {
                missing: missing_of(slugs_of(state.feed.entries), remote),
                ..state
            },
            0,
        ),
        (StageView::AwaitingSlugs, SyncEventView::SlugsFailed(cause)) => ReconcilerView {
            stage: StageView::Aborted(FeedErrorView::RemoteListFailure(cause)),
            ..state
        },
        (StageView::Hydrating { fetching }, SyncEventView::Body(text)) => hydrated(
            state,
            fetching,
            Ok(text),
        ),
        (StageView::Hydrating { fetching }, SyncEventView::BodyFailed(cause)) => hydrated(
            state,
            fetching,
            Err(cause),
        ),
        (StageView::Publishing { queue, sending }, SyncEventView::Created { id, title }) => {
            advanced(state, queue, sending, PublishOutcomeView::Created { id, title })
        },
        (StageView::Publishing { queue, sending }, SyncEventView::CreateFailed(cause)) => {
            advanced(
                state,
                queue,
                sending,
                PublishOutcomeView::Failed {
                    slug: queue[sending].slug,
                    error: FeedErrorView::RemotePublishFailure(cause),
                },
            )
        },
        _ => state,
    }
}

/// The action that a state awaits the outcome of.
pub open spec fn pending(state: ReconcilerView) -> SyncActionView {
    match state.stage {
        StageView::AwaitingSlugs => SyncActionView::ListSlugs,
        StageView::Hydrating { fetching } => SyncActionView::FetchBody {
            url: state.feed.entries[fetching].url,
        },
        StageView::Publishing { queue, sending } => SyncActionView::CreatePost(queue[sending]),
        StageView::Finished => SyncActionView::Finished,
        StageView::Aborted(error) => SyncActionView::Aborted(error),
    }
}

/// The state after the events `events`, taken in order.
pub open spec fn run(state: ReconcilerView, events: Seq<SyncEventView>) -> ReconcilerView
    decreases events.len(),
{
    if events.len() == 0 {
        state
    } else {
        apply(run(state, events.drop_last()), events.last())
    }
}

/// The slugs of the requests, in order.
pub open spec fn request_slugs(queue: Seq<PostRequestView>) -> Seq<Seq<char>> {
    queue.map_values(|q: PostRequestView| q.slug)
}

/// Whether every outcome is a failure of a post with one of the slugs
/// `slugs`.
pub open spec fn failures_within(outcomes: Seq<PublishOutcomeView>, slugs: Seq<Seq<char>>) -> bool {
    forall|k: int|
        0 <= k < outcomes.len() ==> match #[trigger] outcomes[k] {
            PublishOutcomeView::Failed { slug, error } => slugs.contains(slug),
            _ => false,
        }
}

/// Only missing posts are sent or fail, and no more of them than are
/// missing.
pub proof fn lemma_plan_within_missing(entries: Seq<GemfeedEntryView>, missing: Seq<Seq<char>>)
    ensures
        forall|k: int|
            0 <= k < planned(entries, missing).0.len() ==> missing.contains(
                (#[trigger] planned(entries, missing).0[k]).slug,
            ),
        failures_within(planned(entries, missing).1, missing),
        planned(entries, missing).0.len() + planned(entries, missing).1.len() <= missing.len(),
    decreases missing.len(),
{
    if missing.len() > 0 {
        let shorter = missing.drop_last();
        lemma_plan_within_missing(entries, shorter);
        let (queue, failed) = planned(entries, shorter);
        assert forall|slug: Seq<char>| shorter.contains(slug) implies missing.contains(slug) by {
            let i = choose|i: int| 0 <= i < shorter.len() && shorter[i] == slug;
            assert(missing[i] == slug);
        }
        assert(missing.contains(missing.last())) by {
            assert(missing[missing.len() - 1] == missing.last());
        }
        assert forall|k: int| 0 <= k < planned(entries, missing).0.len() implies missing.contains(
            (#[trigger] planned(entries, missing).0[k]).slug,
        ) by {
            if k < queue.len() {
                assert(planned(entries, missing).0[k] == queue[k]);
                assert(shorter.contains(queue[k].slug));
            }
        }
        assert forall|k: int| 0 <= k < planned(entries, missing).1.len() implies match #[trigger] planned(
            entries,
            missing,
        ).1[k] {
            PublishOutcomeView::Failed { slug, error } => missing.contains(slug),
            _ => false,
        } by {
            if k < failed.len() {
                assert(planned(entries, missing).1[k] == failed[k]);
                match failed[k] {
                    PublishOutcomeView::Failed { slug, error } => {
                        assert(shorter.contains(slug));
                    },
                    _ => {},
                }
            }
        }
    }
}

/// Where the text of every entry is recorded and every slug of `missing`
/// is one of the feed, the requests are those of the missing posts, one
/// for each and in their order, and nothing fails beforehand.
pub proof fn lemma_plan_sends_all_missing(entries: Seq<GemfeedEntryView>, missing: Seq<Seq<char>>)
    requires
        forall|i: int| 0 <= i < entries.len() ==> (#[trigger] entries[i]).body is Loaded,
        forall|k: int| 0 <= k < missing.len() ==> has_slug(entries, #[trigger] missing[k]),
    ensures
        request_slugs(planned(entries, missing).0) == missing,
        planned(entries, missing).1 == Seq::<PublishOutcomeView>::empty(),
    decreases missing.len(),
{
    if missing.len() > 0 {
        let shorter = missing.drop_last();
        assert forall|k: int| 0 <= k < shorter.len() implies has_slug(
            entries,
            #[trigger] shorter[k],
        ) by {
            assert(shorter[k] == missing[k]);
        }
        lemma_plan_sends_all_missing(entries, shorter);
        let slug = missing.last();
        assert(has_slug(entries, missing[missing.len() - 1]));
        lemma_position_of_present_slug(entries, slug);
        let i = position_with_slug(entries, slug)->0;
        assert(entries[i].body is Loaded);
        assert(request_slugs(planned(entries, missing).0) =~= request_slugs(
            planned(entries, shorter).0,
        ).push(slug));
        assert(missing =~= shorter.push(slug));
    } else {
        assert(request_slugs(planned(entries, missing).0) =~= missing);
    }
}

/// A reconciliation whose remote has every slug of the feed sends no
/// post, whatever the network brings: it never asks for a post to be
/// created, and its report stays empty.
pub proof fn lemma_in_sync_publishes_nothing(
    state: ReconcilerView,
    remote: Seq<Seq<char>>,
    events: Seq<SyncEventView>,
)
    requires
        state.stage is AwaitingSlugs,
        state.report.len() == 0,
        forall|i: int|
            0 <= i < state.feed.entries.len() ==> remote.contains(
                (#[trigger] state.feed.entries[i]).slug,
            ),
    ensures
        !(pending(run(apply(state, SyncEventView::Slugs(remote)), events)) is CreatePost),
        run(apply(state, SyncEventView::Slugs(remote)), events).report.len() == 0,
        run(apply(state, SyncEventView::Slugs(remote)), events).missing.len() == 0,
{
    lemma_run_stays_quiet(state, remote, events);
}

/// No post is sent twice: where no slug is missing twice, no two
/// requests have the same slug.
pub proof fn lemma_plan_names_each_once(entries: Seq<GemfeedEntryView>, missing: Seq<Seq<char>>)
    requires
        missing.no_duplicates(),
    ensures
        request_slugs(planned(entries, missing).0).no_duplicates(),
    decreases missing.len(),
{
    if missing.len() > 0 {
        let shorter = missing.drop_last();
        let slug = missing.last();
        assert(shorter.no_duplicates()) by {
            assert forall|i: int, j: int|
                0 <= i < shorter.len() && 0 <= j < shorter.len() && i != j implies shorter[i]
                != shorter[j] by {
                assert(missing[i] != missing[j]);
            }
        }
        lemma_plan_names_each_once(entries, shorter);
        lemma_plan_within_missing(entries, shorter);
        let queue = planned(entries, shorter).0;
        let all = planned(entries, missing).0;
        if all != queue {
            let i = position_with_slug(entries, slug)->0;
            assert(is_first_with_slug(entries, slug, i));
            assert(all =~= queue.push(all.last()));
            assert(all.last().slug == slug);
            assert forall|a: int, b: int|
                0 <= a < all.len() && 0 <= b < all.len() && a != b implies request_slugs(all)[a]
                != request_slugs(all)[b] by {
                if a < queue.len() && b < queue.len() {
                    assert(request_slugs(queue)[a] != request_slugs(queue)[b]);
                } else {
                    let c = if a < queue.len() {
                        a
                    } else {
                        b
                    };
                    assert(shorter.contains(queue[c].slug));
                    let k = choose|k: int| 0 <= k < shorter.len() && shorter[k] == queue[c].slug;
                    assert(missing[k] != missing[missing.len() - 1]);
                }
            }
        }
    }
}

/// What holds while the posts that the remote `remote` lacks of the feed
/// with the slugs `slugs` are being sent.
pub open spec fn sending_missing(
    state: ReconcilerView,
    slugs: Seq<Seq<char>>,
    remote: Seq<Seq<char>>,
) -> bool {
    &&& state.missing == missing_of(slugs, remote)
    &&& slugs_of(state.feed.entries) == slugs
    &&& !(state.stage is AwaitingSlugs)
    &&& match state.stage {
        StageView::Hydrating { fetching } => 0 <= fetching < state.feed.entries.len(),
        StageView::Publishing { queue, sending } => {
            &&& 0 <= sending < queue.len()
            &&& request_slugs(queue).no_duplicates()
            &&& forall|k: int|
                0 <= k < queue.len() ==> state.missing.contains((#[trigger] queue[k]).slug)
        },
        _ => true,
    }
}

/// Only what is missing is sent: whatever the network brings, a post that
/// the reconciliation asks to be created has a slug of the feed that the
/// remote lacks.
pub proof fn lemma_only_missing_is_sent(
    state: ReconcilerView,
    remote: Seq<Seq<char>>,
    events: Seq<SyncEventView>,
)
    requires
        state.stage is AwaitingSlugs,
    ensures
        sending_missing(
            run(apply(state, SyncEventView::Slugs(remote)), events),
            slugs_of(state.feed.entries),
            remote,
        ),
        pending(run(apply(state, SyncEventView::Slugs(remote)), events)) matches SyncActionView::CreatePost(
            request,
        ) ==> slugs_of(state.feed.entries).contains(request.slug) && !remote.contains(
            request.slug,
        ),
    decreases events.len(),
{
    let slugs = slugs_of(state.feed.entries);
    lemma_missing_membership(slugs, remote);
    if events.len() == 0 {
        lemma_sought_sends_missing(
            ReconcilerView { missing: missing_of(slugs, remote), ..state },
            slugs,
            remote,
            0,
        );
    } else {
        lemma_only_missing_is_sent(state, remote, events.drop_last());
        let before = run(apply(state, SyncEventView::Slugs(remote)), events.drop_last());
        match (before.stage, events.last()) {
            (StageView::Hydrating { fetching }, SyncEventView::Body(text)) => {
                lemma_hydrated_sends_missing(before, slugs, remote, fetching, Ok(text));
            },
            (StageView::Hydrating { fetching }, SyncEventView::BodyFailed(cause)) => {
                lemma_hydrated_sends_missing(before, slugs, remote, fetching, Err(cause));
            },
            _ => {},
        }
    }
}

/// A second reconciliation of the same feed sends nothing that the remote
/// has taken since: whatever the network brings, no post that it asks to
/// be created has a slug that was published before.
pub proof fn lemma_nothing_is_published_twice(
    state: ReconcilerView,
    published: Seq<Seq<char>>,
    later: Seq<Seq<char>>,
    events: Seq<SyncEventView>,
)
    requires
        state.stage is AwaitingSlugs,
        forall|i: int| 0 <= i < published.len() ==> later.contains(#[trigger] published[i]),
    ensures
        pending(run(apply(state, SyncEventView::Slugs(later)), events)) matches SyncActionView::CreatePost(
            request,
        ) ==> !published.contains(request.slug),
{
    lemma_only_missing_is_sent(state, later, events);
    match pending(run(apply(state, SyncEventView::Slugs(later)), events)) {
        SyncActionView::CreatePost(request) => {
            if published.contains(request.slug) {
                let i = choose|i: int| 0 <= i < published.len() && published[i] == request.slug;
                assert(later.contains(published[i]));
            }
        },
        _ => {},
    }
}

/// Seeking the next text keeps to what is missing.
proof fn lemma_sought_sends_missing(
    state: ReconcilerView,
    slugs: Seq<Seq<char>>,
    remote: Seq<Seq<char>>,
    from: int,
)
    requires
        state.missing == missing_of(slugs, remote),
        slugs_of(state.feed.entries) == slugs,
        0 <= from,
    ensures
        sending_missing(sought(state, from), slugs, remote),
{
    let entries = state.feed.entries;
    lemma_next_fetch_in_range(entries, state.missing, state.config, from);
    let next = next_fetch(entries, state.missing, state.config, from);
    if next >= entries.len() {
        let cut = sanitized_entries(entries, state.config).0;
        lemma_sanitizing_keeps_slugs(entries, state.config);
        lemma_plan_within_missing(cut, state.missing);
        lemma_missing_no_duplicates(slugs, remote);
        lemma_plan_names_each_once(cut, state.missing);
    }
}

/// Recording a fetched text keeps to what is missing.
proof fn lemma_hydrated_sends_missing(
    state: ReconcilerView,
    slugs: Seq<Seq<char>>,
    remote: Seq<Seq<char>>,
    fetching: int,
    fetched: Result<Option<Seq<char>>, Seq<char>>,
)
    requires
        state.missing == missing_of(slugs, remote),
        slugs_of(state.feed.entries) == slugs,
        0 <= fetching < state.feed.entries.len(),
    ensures
        sending_missing(hydrated(state, fetching, fetched), slugs, remote),
{
    let entry = state.feed.entries[fetching];
    let filled = GemfeedEntryView { body: body_after_fill(entry.body, fetched), ..entry };
    let entries = state.feed.entries.update(fetching, filled);
    assert(slugs_of(entries) =~= slugs_of(state.feed.entries));
    lemma_sought_sends_missing(
        ReconcilerView { feed: GemfeedView { entries, ..state.feed }, ..state },
        slugs,
        remote,
        fetching + 1,
    );
}

/// The next text to fetch lies at or after the position asked from.
proof fn lemma_next_fetch_in_range(
    entries: Seq<GemfeedEntryView>,
    missing: Seq<Seq<char>>,
    config: SanitizeConfigView,
    from: int,
)
    requires
        0 <= from,
    ensures
        next_fetch(entries, missing, config, from) == entries.len() || from <= next_fetch(
            entries,
            missing,
            config,
            from,
        ) < entries.len(),
    decreases entries.len() - from,
{
    if from < entries.len() && !needs_fetch(entries[from], missing, config) {
        lemma_next_fetch_in_range(entries, missing, config, from + 1);
    }
}

/// A state in which nothing is missing and nothing was or is being sent.
pub open spec fn quiet(state: ReconcilerView) -> bool {
    &&& state.missing.len() == 0
    &&& state.report.len() == 0
    &&& !(state.stage is Publishing)
    &&& !(state.stage is AwaitingSlugs)
}

/// With nothing missing, settling leaves the state quiet.
proof fn lemma_sought_stays_quiet(state: ReconcilerView, from: int)
    requires
        state.missing.len() == 0,
        state.report.len() == 0,
    ensures
        quiet(sought(state, from)),
{
    assert(state.report + Seq::<PublishOutcomeView>::empty() =~= state.report);
}

/// With nothing missing, every event leaves the state quiet.
proof fn lemma_run_stays_quiet(
    state: ReconcilerView,
    remote: Seq<Seq<char>>,
    events: Seq<SyncEventView>,
)
    requires
        state.stage is AwaitingSlugs,
        state.report.len() == 0,
        forall|i: int|
            0 <= i < state.feed.entries.len() ==> remote.contains(
                (#[trigger] state.feed.entries[i]).slug,
            ),
    ensures
        quiet(run(apply(state, SyncEventView::Slugs(remote)), events)),
    decreases events.len(),
{
    let slugs = slugs_of(state.feed.entries);
    if events.len() == 0 {
        assert forall|i: int| 0 <= i < slugs.len() implies remote.contains(#[trigger] slugs[i]) by {
            assert(slugs[i] == state.feed.entries[i].slug);
        }
        lemma_nothing_missing_when_in_sync(slugs, remote);
        lemma_sought_stays_quiet(ReconcilerView { missing: missing_of(slugs, remote), ..state }, 0);
    } else {
        lemma_run_stays_quiet(state, remote, events.drop_last());
        let before = run(apply(state, SyncEventView::Slugs(remote)), events.drop_last());
        match (before.stage, events.last()) {
            (StageView::Hydrating { fetching }, SyncEventView::Body(text)) => {
                let entry = before.feed.entries[fetching];
                let filled = GemfeedEntryView {
                    body: body_after_fill(entry.body, Ok(text)),
                    ..entry
                };
                lemma_sought_stays_quiet(
                    ReconcilerView {
                        feed: GemfeedView {
                            entries: before.feed.entries.update(fetching, filled),
                            ..before.feed
                        },
                        ..before
                    },
                    fetching + 1,
                );
            },
            (StageView::Hydrating { fetching }, SyncEventView::BodyFailed(cause)) => {
                let entry = before.feed.entries[fetching];
                let filled = GemfeedEntryView {
                    body: body_after_fill(entry.body, Err(cause)),
                    ..entry
                };
                lemma_sought_stays_quiet(
                    ReconcilerView {
                        feed: GemfeedView {
                            entries: before.feed.entries.update(fetching, filled),
                            ..before.feed
                        },
                        ..before
                    },
                    fetching + 1,
                );
            },
            _ => {},
        }
    }
}

/// Whether any cut is asked for.
pub fn has_markers(config: &SanitizeConfig) -> (r: bool)
    ensures
        r == config@.has_markers(),
{
    config.strip_before_marker.is_some() || config.strip_after_marker.is_some()
}

/// The position of the first entry from `from` on whose text has to be
/// fetched; the number of entries where there is none.
pub fn find_next_fetch(
    entries: &Vec<GemfeedEntry>,
    missing: &Vec<String>,
    config: &SanitizeConfig,
    from: usize,
) -> (next: usize)
    ensures
        next == next_fetch(entries_view(entries@), strings_view(missing@), config@, from as int),
        next <= entries.len(),
        next < entries.len() ==> from <= next,
{
    let cut = has_markers(config);
    let mut i: usize = from;
    while i < entries.len()
        invariant
            from <= i,
            cut == config@.has_markers(),
            next_fetch(entries_view(entries@), strings_view(missing@), config@, from as int)
                == next_fetch(entries_view(entries@), strings_view(missing@), config@, i as int),
        decreases entries.len() - i,
    {
        if entries[i].needs_body() && (cut || holds_text(missing, entries[i].slug())) {
            return i;
        }
        i += 1;
    }
    entries.len()
}

/// The requests to send for the missing slugs, in their order.  The
/// failures of those whose text could not be had are added to `report`.
pub fn plan(feed: &Gemfeed, missing: &Vec<String>, report: &mut SyncReport) -> (queue: Vec<
    PostRequest,
>)
    ensures
        queue@.map_values(|q: PostRequest| q@) == planned(feed@.entries, strings_view(missing@)).0,
        final(report)@ == old(report)@ + planned(feed@.entries, strings_view(missing@)).1,
{
    let ghost slugs = strings_view(missing@);
    let ghost recorded = report@;
    let mut queue: Vec<PostRequest> = Vec::new();
    let mut i: usize = 0;
    assert(slugs.take(0) =~= Seq::<Seq<char>>::empty());
    assert(queue@.map_values(|q: PostRequest| q@) =~= Seq::<PostRequestView>::empty());
    assert(report@ =~= recorded + Seq::<PublishOutcomeView>::empty());
    while i < missing.len()
        invariant
            i <= missing.len(),
            slugs == strings_view(missing@),
            queue@.map_values(|q: PostRequest| q@) == planned(
                feed@.entries,
                slugs.take(i as int),
            ).0,
            report@ == recorded + planned(feed@.entries, slugs.take(i as int)).1,
        decreases missing.len() - i,
    {
        assert(slugs.take(i + 1).drop_last() =~= slugs.take(i as int));
        assert(slugs.take(i + 1).last() == missing@[i as int]@);
        let ghost failed = planned(feed@.entries, slugs.take(i as int)).1;
        match feed.find_entry_by_slug(missing[i].as_str()) {
            Some(entry) => match PostRequest::from_entry(entry) {
                Ok(request) => {
                    let ghost before = queue@;
                    queue.push(request);
                    assert(queue@.map_values(|q: PostRequest| q@) =~= before.map_values(
                        |q: PostRequest| q@,
                    ).push(request@));
                },
                Err(error) => {
                    let outcome = PublishOutcome::Failed { slug: missing[i].clone(), error };
                    report.record(outcome);
                    assert(report@ =~= recorded + failed.push(outcome@));
                },
            },
            None => {},
        }
        i += 1;
    }
    assert(slugs.take(slugs.len() as int) =~= slugs);
    queue
}

/// A reconciliation of one feed with the remote service.
pub struct Reconciler {
    feed: Gemfeed,
    config: SanitizeConfig,
    missing: Vec<String>,
    report: SyncReport,
    stage: Stage,
}

impl View for Reconciler {
    type V = ReconcilerView;

    closed spec fn view(&self) -> ReconcilerView {
        ReconcilerView {
            feed: self.feed@,
            config: self.config@,
            missing: strings_view(self.missing@),
            report: self.report@,
            stage: self.stage@,
        }
    }
}

impl Reconciler {
    /// What holds of every reconciler: the position that its stage names
    /// lies within the entries, or within the requests.
    #[verifier::type_invariant]
    spec fn positions_in_range(self) -> bool {
        match self.stage {
            Stage::Hydrating { fetching } => fetching < self.feed@.entries.len(),
            Stage::Publishing { queue, sending } => sending < queue.len(),
            _ => true,
        }
    }

    /// A reconciliation that has yet to begin: it awaits the remote's
    /// slugs.
    pub fn new(feed: Gemfeed, config: SanitizeConfig) -> (r: Reconciler)
        ensures
            r@ == (ReconcilerView {
                feed: feed@,
                config: config@,
                missing: Seq::empty(),
                report: Seq::empty(),
                stage: StageView::AwaitingSlugs,
            }),
    {
        let r = Reconciler {
            feed,
            config,
            missing: Vec::new(),
            report: SyncReport::new(),
            stage: Stage::AwaitingSlugs,
        };
        assert(strings_view(r.missing@) =~= Seq::<Seq<char>>::empty());
        r
    }

    /// The feed, with the texts fetched and cut so far.
    pub fn feed(&self) -> (r: &Gemfeed)
        ensures
            r@ == self@.feed,
    {
        &self.feed
    }

    /// The slugs that the remote lacks; empty until its slugs are known.
    pub fn missing(&self) -> (r: &Vec<String>)
        ensures
            strings_view(r@) == self@.missing,
    {
        &self.missing
    }

    /// The outcomes so far.
    pub fn report(&self) -> (r: &SyncReport)
        ensures
            r@ == self@.report,
    {
        &self.report
    }

    /// The feed and the report, given back to the caller.
    pub fn into_parts(self) -> (r: (Gemfeed, SyncReport))
        ensures
            r.0@ == self@.feed,
            r.1@ == self@.report,
    {
        let Reconciler { feed, config: _, missing: _, report, stage: _ } = self;
        (feed, report)
    }

    /// Whether the reconciliation has ended, completed or given up.
    pub fn is_over(&self) -> (r: bool)
        ensures
            r == (self@.stage is Finished || self@.stage is Aborted),
    {
        match &self.stage {
            Stage::Finished => true,
            Stage::Aborted(_) => true,
            _ => false,
        }
    }

    /// The action whose outcome the reconciliation awaits.
    pub fn pending(&self) -> (action: SyncAction)
        ensures
            action@ == pending(self@),
    {
        proof {
            use_type_invariant(self);
        }
        match &self.stage {
            Stage::AwaitingSlugs => SyncAction::ListSlugs,
            Stage::Hydrating { fetching } => {
                let entries = self.feed.entries();
                SyncAction::FetchBody { url: entries[*fetching].url().to_owned() }
            },
            Stage::Publishing { queue, sending } => SyncAction::CreatePost(
                queue[*sending].duplicate(),
            ),
            Stage::Finished => SyncAction::Finished,
            Stage::Aborted(error) => SyncAction::Aborted(error.duplicate()),
        }
    }

    /// Takes what the last action brought and names the next action.
    pub fn step(self, event: SyncEvent) -> (r: (Reconciler, SyncAction))
        ensures
            r.0@ == apply(self@, event@),
            r.1@ == pending(r.0@),
    {
        proof {
            use_type_invariant(&self);
        }
        let Reconciler { feed, config, missing, report, stage } = self;
        let next = match (stage, event) {
            (Stage::AwaitingSlugs, SyncEvent::Slugs(remote)) => {
                let missing = missing_slugs(&feed.slugs(), &remote);
                Self::seek(feed, config, missing, report, 0)
            },
            (Stage::AwaitingSlugs, SyncEvent::SlugsFailed(cause)) => Reconciler {
                feed,
                config,
                missing,
                report,
                stage: Stage::Aborted(FeedError::RemoteListFailure(cause)),
            },
            (Stage::Hydrating { fetching }, SyncEvent::Body(text)) => {
                Self::hydrate(feed, config, missing, report, fetching, Ok(text))
            },
            (Stage::Hydrating { fetching }, SyncEvent::BodyFailed(cause)) => {
                Self::hydrate(feed, config, missing, report, fetching, Err(cause))
            },
            (Stage::Publishing { queue, sending }, SyncEvent::Created { id, title }) => {
                let outcome = PublishOutcome::Created { id, title };
                Self::advance(feed, config, missing, report, queue, sending, outcome)
            },
            (Stage::Publishing { queue, sending }, SyncEvent::CreateFailed(cause)) => {
                let outcome = PublishOutcome::Failed {
                    slug: queue[sending].slug.clone(),
                    error: FeedError::RemotePublishFailure(cause),
                };
                Self::advance(feed, config, missing, report, queue, sending, outcome)
            },
            (stage, _) => Reconciler { feed, config, missing, report, stage },
        };
        let action = next.pending();
        (next, action)
    }

    /// Records the outcome of the fetch for the entry at `fetching` and
    /// moves on.
    fn hydrate(
        feed: Gemfeed,
        config: SanitizeConfig,
        missing: Vec<String>,
        report: SyncReport,
        fetching: usize,
        fetched: Result<Option<String>, String>,
    ) -> (r: Reconciler)
        requires
            fetching < feed@.entries.len(),
        ensures
            r@ == hydrated(
                ReconcilerView {
                    feed: feed@,
                    config: config@,
                    missing: strings_view(missing@),
                    report: report@,
                    stage: StageView::AwaitingSlugs,
                },
                fetching as int,
                fetched_view(fetched),
            ),
    {
        let mut feed = feed;
        let ghost before = feed@.entries;
        let entries = feed.entries_mut();
        assert(entries_view(entries@).len() == entries.len());
        entries[fetching].fill_body(fetched);
        assert(entries_view(entries@) =~= before.update(
            fetching as int,
            entries@[fetching as int]@,
        ));
        Self::seek(feed, config, missing, report, fetching + 1)
    }

    /// Awaits the next text to fetch from `from` on, or settles.
    fn seek(
        feed: Gemfeed,
        config: SanitizeConfig,
        missing: Vec<String>,
        report: SyncReport,
        from: usize,
    ) -> (r: Reconciler)
        ensures
            r@ == sought(
                ReconcilerView {
                    feed: feed@,
                    config: config@,
                    missing: strings_view(missing@),
                    report: report@,
                    stage: StageView::AwaitingSlugs,
                },
                from as int,
            ),
    {
        let next = find_next_fetch(feed.entries(), &missing, &config, from);
        if next < feed.entries().len() {
            Reconciler { feed, config, missing, report, stage: Stage::Hydrating { fetching: next } }
        } else {
            Self::settle(feed, config, missing, report)
        }
    }

    /// Cuts every text as the configuration asks and makes the requests
    /// ready.
    fn settle(
        feed: Gemfeed,
        config: SanitizeConfig,
        missing: Vec<String>,
        report: SyncReport,
    ) -> (r: Reconciler)
        ensures
            r@ == settled(
                ReconcilerView {
                    feed: feed@,
                    config: config@,
                    missing: strings_view(missing@),
                    report: report@,
                    stage: StageView::AwaitingSlugs,
                },
            ),
    {
        let mut feed = feed;
        let mut report = report;
        match sanitize_gemlogs(&mut feed, &config) {
            Err(error) => Reconciler { feed, config, missing, report, stage: Stage::Aborted(error) },
            Ok(_) => {
                let queue = plan(&feed, &missing, &mut report);
                let stage = if queue.len() == 0 {
                    Stage::Finished
                } else {
                    Stage::Publishing { queue, sending: 0 }
                };
                Reconciler { feed, config, missing, report, stage }
            },
        }
    }

    /// Records the outcome of the request at `sending` and moves on.
    fn advance(
        feed: Gemfeed,
        config: SanitizeConfig,
        missing: Vec<String>,
        report: SyncReport,
        queue: Vec<PostRequest>,
        sending: usize,
        outcome: PublishOutcome,
    ) -> (r: Reconciler)
        requires
            sending < queue.len(),
        ensures
            r@ == advanced(
                ReconcilerView {
                    feed: feed@,
                    config: config@,
                    missing: strings_view(missing@),
                    report: report@,
                    stage: StageView::AwaitingSlugs,
                },
                queue@.map_values(|q: PostRequest| q@),
                sending as int,
                outcome@,
            ),
    {
        let mut report = report;
        report.record(outcome);
        let stage = if sending + 1 < queue.len() {
            Stage::Publishing { queue, sending: sending + 1 }
        } else {
            Stage::Finished
        };
        Reconciler { feed, config, missing, report, stage }
    }
}

} // verus!
