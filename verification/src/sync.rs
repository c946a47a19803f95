//! Reconciliation: which posts of a feed the remote service lacks.
//!
//! Posts are known by their slugs and by nothing else: a post whose slug
//! the service has is never sent again, whatever else changed.  The missing
//! slugs keep the order of the feed, each named once.

use vstd::prelude::*;
use crate::text::{same_text, strings_view};

verus! {

/// The slugs of `feed` that `remote` lacks, in the order of `feed`, each
/// once.
pub open spec fn missing_of(feed: Seq<Seq<char>>, remote: Seq<Seq<char>>) -> Seq<Seq<char>>
    decreases feed.len(),
{
    if feed.len() == 0 {
        Seq::empty()
    } else {
        let before = missing_of(feed.drop_last(), remote);
        if remote.contains(feed.last()) || before.contains(feed.last()) {
            before
        } else {
            before.push(feed.last())
        }
    }
}

/// A slug is missing exactly when the feed has it and the remote has not.
pub proof fn lemma_missing_membership(feed: Seq<Seq<char>>, remote: Seq<Seq<char>>)
    ensures
        forall|slug: Seq<char>| #[trigger]
            missing_of(feed, remote).contains(slug) <==> feed.contains(slug) && !remote.contains(
                slug,
            ),
    decreases feed.len(),
{
    if feed.len() > 0 {
        lemma_missing_membership(feed.drop_last(), remote);
        let before = missing_of(feed.drop_last(), remote);
        let last = feed.last();
        assert forall|slug: Seq<char>| #[trigger]
            missing_of(feed, remote).contains(slug) <==> feed.contains(slug) && !remote.contains(
                slug,
            ) by {
            if feed.contains(slug) {
                let i = choose|i: int| 0 <= i < feed.len() && feed[i] == slug;
                if i < feed.len() - 1 {
                    assert(feed.drop_last()[i] == slug);
                }
            }
            if feed.drop_last().contains(slug) {
                let i = choose|i: int| 0 <= i < feed.drop_last().len() && feed.drop_last()[i] == slug;
                assert(feed[i] == slug);
            }
            if slug == last {
                assert(feed[feed.len() - 1] == slug);
            }
            if before.contains(slug) {
                let i = choose|i: int| 0 <= i < before.len() && before[i] == slug;
                if missing_of(feed, remote) != before {
                    assert(before.push(last)[i] == slug);
                }
            }
            if missing_of(feed, remote).contains(slug) && missing_of(feed, remote) != before {
                let i = choose|i: int|
                    0 <= i < before.push(last).len() && before.push(last)[i] == slug;
                if i < before.len() {
                    assert(before[i] == slug);
                }
            }
            if slug == last && !remote.contains(last) && !before.contains(last) {
                assert(before.push(last)[before.len() as int] == last);
            }
        }
    }
}

/// The missing slugs are the difference of two sets: those of the feed
/// without those of the remote.
pub proof fn lemma_missing_is_set_difference(feed: Seq<Seq<char>>, remote: Seq<Seq<char>>)
    ensures
        missing_of(feed, remote).to_set() == feed.to_set().difference(remote.to_set()),
{
    lemma_missing_membership(feed, remote);
    assert(missing_of(feed, remote).to_set() =~= feed.to_set().difference(remote.to_set()));
}

/// No slug is missing twice.
pub proof fn lemma_missing_no_duplicates(feed: Seq<Seq<char>>, remote: Seq<Seq<char>>)
    ensures
        missing_of(feed, remote).no_duplicates(),
    decreases feed.len(),
{
    if feed.len() > 0 {
        lemma_missing_no_duplicates(feed.drop_last(), remote);
    }
}

/// Where the remote has every slug of the feed, nothing is missing.
pub proof fn lemma_nothing_missing_when_in_sync(feed: Seq<Seq<char>>, remote: Seq<Seq<char>>)
    requires
        forall|i: int| 0 <= i < feed.len() ==> remote.contains(#[trigger] feed[i]),
    ensures
        missing_of(feed, remote) == Seq::<Seq<char>>::empty(),
    decreases feed.len(),
{
    if feed.len() > 0 {
        assert forall|i: int| 0 <= i < feed.drop_last().len() implies remote.contains(
            #[trigger] feed.drop_last()[i],
        ) by {
            assert(feed.drop_last()[i] == feed[i]);
        }
        lemma_nothing_missing_when_in_sync(feed.drop_last(), remote);
        assert(remote.contains(feed[feed.len() - 1]));
    }
}

/// A slug that the remote has taken since is not missing again: whatever
/// was published after one reconciliation, a second one of the same feed
/// leaves it out.
pub proof fn lemma_published_is_not_missing_again(
    feed: Seq<Seq<char>>,
    remote: Seq<Seq<char>>,
    published: Seq<Seq<char>>,
    later: Seq<Seq<char>>,
)
    requires
        forall|i: int| 0 <= i < remote.len() ==> later.contains(#[trigger] remote[i]),
        forall|i: int| 0 <= i < published.len() ==> later.contains(#[trigger] published[i]),
    ensures
        forall|i: int|
            0 <= i < published.len() ==> !missing_of(feed, later).contains(#[trigger] published[i]),
        forall|slug: Seq<char>| #[trigger]
            missing_of(feed, later).contains(slug) ==> missing_of(feed, remote).contains(slug),
{
    lemma_missing_membership(feed, remote);
    lemma_missing_membership(feed, later);
    assert forall|slug: Seq<char>| #[trigger]
        missing_of(feed, later).contains(slug) implies missing_of(feed, remote).contains(slug) by {
        if remote.contains(slug) {
            let i = choose|i: int| 0 <= i < remote.len() && remote[i] == slug;
            assert(later.contains(remote[i]));
        }
    }
}

/// Where everything missing was published, a second reconciliation of the
/// same feed finds nothing missing.
pub proof fn lemma_second_sync_finds_nothing(
    feed: Seq<Seq<char>>,
    remote: Seq<Seq<char>>,
    later: Seq<Seq<char>>,
)
    requires
        forall|i: int| 0 <= i < remote.len() ==> later.contains(#[trigger] remote[i]),
        forall|i: int|
            0 <= i < missing_of(feed, remote).len() ==> later.contains(
                #[trigger] missing_of(feed, remote)[i],
            ),
    ensures
        missing_of(feed, later) == Seq::<Seq<char>>::empty(),
{
    lemma_missing_membership(feed, remote);
    assert forall|i: int| 0 <= i < feed.len() implies later.contains(#[trigger] feed[i]) by {
        let slug = feed[i];
        assert(feed.contains(slug));
        if remote.contains(slug) {
            let k = choose|k: int| 0 <= k < remote.len() && remote[k] == slug;
            assert(later.contains(remote[k]));
        } else {
            assert(missing_of(feed, remote).contains(slug));
            let k = choose|k: int|
                0 <= k < missing_of(feed, remote).len() && missing_of(feed, remote)[k] == slug;
            assert(later.contains(missing_of(feed, remote)[k]));
        }
    }
    lemma_nothing_missing_when_in_sync(feed, later);
}

/// Whether `list` holds `text`.
pub fn holds_text(list: &Vec<String>, text: &str) -> (r: bool)
    ensures
        r == strings_view(list@).contains(text@),
{
    let mut i: usize = 0;
    while i < list.len()
        invariant
            i <= list.len(),
            forall|j: int| 0 <= j < i ==> strings_view(list@)[j] != text@,
        decreases list.len() - i,
    {
        if same_text(list[i].as_str(), text) {
            assert(strings_view(list@)[i as int] == text@);
            return true;
        }
        i += 1;
    }
    false
}

/// The slugs of the feed that the remote lacks, in the order of the feed,
/// each once.
pub fn missing_slugs(feed_slugs: &Vec<String>, remote_slugs: &Vec<String>) -> (missing: Vec<
    String,
>)
    ensures
        strings_view(missing@) == missing_of(strings_view(feed_slugs@), strings_view(remote_slugs@)),
{
    let ghost feed = strings_view(feed_slugs@);
    let ghost remote = strings_view(remote_slugs@);
    let mut missing: Vec<String> = Vec::new();
    let mut i: usize = 0;
    assert(feed.take(0) =~= Seq::<Seq<char>>::empty());
    while i < feed_slugs.len()
        invariant
            i <= feed_slugs.len(),
            feed == strings_view(feed_slugs@),
            remote == strings_view(remote_slugs@),
            strings_view(missing@) == missing_of(feed.take(i as int), remote),
        decreases feed_slugs.len() - i,
    {
        assert(feed.take(i + 1).drop_last() =~= feed.take(i as int));
        assert(feed.take(i + 1).last() == feed_slugs@[i as int]@);
        let slug = &feed_slugs[i];
        if !holds_text(remote_slugs, slug.as_str()) && !holds_text(&missing, slug.as_str()) {
            let ghost before = missing@;
            missing.push(slug.clone());
            assert(strings_view(missing@) =~= strings_view(before).push(slug@));
        }
        i += 1;
    }
    assert(feed.take(feed.len() as int) =~= feed);
    missing
}

} // verus!
