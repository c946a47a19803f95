use gemlog_sync::error::FeedError;
use gemlog_sync::gemfeed::Gemfeed;
use gemlog_sync::reconciler::{Reconciler, SyncAction, SyncEvent};
use gemlog_sync::report::{PublishOutcome, SyncReport};
use gemlog_sync::sanitization::SanitizeConfig;
use gemlog_sync::sync::{holds_text, missing_slugs};
use std::collections::HashSet;

fn strings(items: &[&str]) -> Vec<String> {
    items.iter().map(|item| item.to_string()).collect()
}

#[test]
fn missing_is_the_feed_without_the_remote() {
    assert_eq!(missing_slugs(&strings(&["a", "b", "c"]), &strings(&["a", "b"])), strings(&["c"]));
    assert_eq!(missing_slugs(&strings(&["a", "b"]), &strings(&["b", "a", "z"])), strings(&[]));
    assert_eq!(missing_slugs(&strings(&["c", "a", "b"]), &strings(&[])), strings(&["c", "a", "b"]));
    assert_eq!(missing_slugs(&strings(&[]), &strings(&["a"])), strings(&[]));
}

#[test]
fn missing_names_each_slug_once_in_feed_order() {
    let feed = strings(&["b", "a", "b", "c", "a"]);
    assert_eq!(missing_slugs(&feed, &strings(&["c"])), strings(&["b", "a"]));
}

#[test]
fn missing_agrees_with_the_difference_of_sets() {
    let feed = strings(&["one", "two", "three", "four", "two"]);
    let remote = strings(&["two", "nine", "four"]);
    let expected: HashSet<String> = feed
        .iter()
        .cloned()
        .collect::<HashSet<_>>()
        .difference(&remote.iter().cloned().collect())
        .cloned()
        .collect();
    let missing = missing_slugs(&feed, &remote);
    assert_eq!(missing.iter().cloned().collect::<HashSet<_>>(), expected);
    assert_eq!(missing.len(), expected.len());
}

#[test]
fn holds_text_finds_whole_strings_only() {
    assert!(holds_text(&strings(&["ab", "cd"]), "cd"));
    assert!(!holds_text(&strings(&["ab", "cd"]), "c"));
    assert!(!holds_text(&strings(&[]), ""));
}

const FEED: &str = "# T\n=> a.gmi 2023-03-05 A\n=> b.gmi 2023-03-06 B\n=> c.gmi 2023-03-07 C\n";

fn feed() -> Gemfeed {
    Gemfeed::load_from_gemtext("gemini://example.com/", Some(FEED)).unwrap()
}

fn no_cuts() -> SanitizeConfig {
    SanitizeConfig { strip_before_marker: None, strip_after_marker: None }
}

/// Runs a reconciliation against a remote that has the slugs `remote`,
/// serves every text and creates every post but those with the slugs
/// `refused`.  Gives the slugs sent, in order, and the reconciler at its
/// end.
fn run(
    feed: Gemfeed,
    config: SanitizeConfig,
    remote: &[&str],
    refused: &[&str],
) -> (Vec<String>, Vec<String>, Reconciler) {
    let mut reconciler = Reconciler::new(feed, config);
    let mut action = reconciler.pending();
    let mut sent = Vec::new();
    let mut fetched = Vec::new();
    for _ in 0..100 {
        let event = match action {
            SyncAction::ListSlugs => SyncEvent::Slugs(strings(remote)),
            SyncAction::FetchBody { url } => {
                fetched.push(url.clone());
                SyncEvent::Body(Some(format!("intro|text of {}", url)))
            }
            SyncAction::CreatePost(request) => {
                sent.push(request.slug.clone());
                if refused.contains(&request.slug.as_str()) {
                    SyncEvent::CreateFailed(format!("refused {}", request.slug))
                } else {
                    SyncEvent::Created { id: format!("id-{}", request.slug), title: request.title }
                }
            }
            SyncAction::Finished | SyncAction::Aborted(_) => break,
        };
        let (next, then) = reconciler.step(event);
        reconciler = next;
        action = then;
    }
    (sent, fetched, reconciler)
}

#[test]
fn exactly_the_missing_post_is_published() {
    let (sent, fetched, reconciler) = run(feed(), no_cuts(), &["a", "b"], &[]);
    assert_eq!(sent, strings(&["c"]));
    assert_eq!(fetched, strings(&["gemini://example.com/c.gmi"]));
    assert!(reconciler.is_over());
    assert_eq!(reconciler.pending(), SyncAction::Finished);
    assert_eq!(reconciler.missing(), &strings(&["c"]));
    let report = reconciler.report();
    assert_eq!(report.attempted(), 1);
    assert_eq!(report.succeeded(), 1);
    assert!(report.failures().is_empty());
    assert_eq!(
        report.outcomes(),
        &vec![PublishOutcome::Created { id: "id-c".into(), title: "C".into() }]
    );
}

#[test]
fn nothing_is_published_when_the_remote_has_every_slug() {
    let (sent, fetched, reconciler) = run(feed(), no_cuts(), &["c", "b", "a", "other"], &[]);
    assert!(sent.is_empty());
    assert!(fetched.is_empty());
    assert_eq!(reconciler.pending(), SyncAction::Finished);
    assert_eq!(reconciler.report().attempted(), 0);
    assert_eq!(reconciler.report().succeeded(), 0);
}

#[test]
fn syncing_twice_never_publishes_a_slug_twice() {
    let mut remote = strings(&["a"]);
    let (first, _, _) = run(feed(), no_cuts(), &["a"], &[]);
    assert_eq!(first, strings(&["b", "c"]));
    remote.extend(first.iter().cloned());
    let remote: Vec<&str> = remote.iter().map(|slug| slug.as_str()).collect();
    let (second, _, reconciler) = run(feed(), no_cuts(), &remote, &[]);
    assert!(second.is_empty());
    assert_eq!(reconciler.report().attempted(), 0);
}

#[test]
fn a_refused_post_is_sent_again_next_time_and_the_others_are_not() {
    let (first, _, reconciler) = run(feed(), no_cuts(), &[], &["b"]);
    assert_eq!(first, strings(&["a", "b", "c"]));
    let report = reconciler.report();
    assert_eq!(report.attempted(), 3);
    assert_eq!(report.succeeded(), 2);
    assert_eq!(
        report.failures(),
        vec![&PublishOutcome::Failed {
            slug: "b".into(),
            error: FeedError::RemotePublishFailure("refused b".into()),
        }]
    );
    let (second, _, _) = run(feed(), no_cuts(), &["a", "c"], &[]);
    assert_eq!(second, strings(&["b"]));
}

#[test]
fn every_text_is_cut_before_anything_is_published() {
    let config = SanitizeConfig { strip_before_marker: Some("|".into()), strip_after_marker: None };
    let (sent, fetched, reconciler) = run(feed(), config, &["a", "b"], &[]);
    assert_eq!(sent, strings(&["c"]));
    assert_eq!(
        fetched,
        strings(&[
            "gemini://example.com/a.gmi",
            "gemini://example.com/b.gmi",
            "gemini://example.com/c.gmi"
        ])
    );
    for entry in reconciler.feed().entries() {
        assert_eq!(entry.body(), Ok(&format!("text of {}", entry.url())));
    }
    let (feed, report) = reconciler.into_parts();
    assert_eq!(feed.slugs(), strings(&["a", "b", "c"]));
    assert_eq!(report.attempted(), 1);
}

#[test]
fn request_holds_the_cut_text_as_markdown() {
    let config = SanitizeConfig {
        strip_before_marker: Some("<start>".into()),
        strip_after_marker: Some("<end>".into()),
    };
    let reconciler = Reconciler::new(feed(), config);
    let (reconciler, action) = reconciler.step(SyncEvent::Slugs(strings(&["a", "b"])));
    assert_eq!(action, SyncAction::FetchBody { url: "gemini://example.com/a.gmi".into() });
    let (reconciler, _) = reconciler.step(SyncEvent::Body(Some("A".into())));
    let (reconciler, _) = reconciler.step(SyncEvent::Body(None));
    let (reconciler, action) =
        reconciler.step(SyncEvent::Body(Some("head<start>plain text<end>tail".into())));
    match action {
        SyncAction::CreatePost(request) => {
            assert_eq!(request.slug, "c");
            assert_eq!(request.title, "C");
            assert_eq!(request.body, "plain text\n");
            assert_eq!(request.created.unwrap().secs, 1_678_190_400);
        }
        other => panic!("{:?}", other),
    }
    assert!(!reconciler.is_over());
}

#[test]
fn a_failed_listing_ends_the_reconciliation() {
    let reconciler = Reconciler::new(feed(), no_cuts());
    assert_eq!(reconciler.pending(), SyncAction::ListSlugs);
    let (reconciler, action) = reconciler.step(SyncEvent::SlugsFailed("unauthorized".into()));
    assert_eq!(action, SyncAction::Aborted(FeedError::RemoteListFailure("unauthorized".into())));
    assert!(reconciler.is_over());
    let (reconciler, action) = reconciler.step(SyncEvent::Slugs(strings(&[])));
    assert_eq!(action, SyncAction::Aborted(FeedError::RemoteListFailure("unauthorized".into())));
    assert_eq!(reconciler.report().attempted(), 0);
}

#[test]
fn a_text_that_cannot_be_fetched_fails_that_post_only() {
    let reconciler = Reconciler::new(feed(), no_cuts());
    let (reconciler, action) = reconciler.step(SyncEvent::Slugs(strings(&["a"])));
    assert_eq!(action, SyncAction::FetchBody { url: "gemini://example.com/b.gmi".into() });
    let (reconciler, action) = reconciler.step(SyncEvent::BodyFailed("timed out".into()));
    assert_eq!(action, SyncAction::FetchBody { url: "gemini://example.com/c.gmi".into() });
    let (reconciler, action) = reconciler.step(SyncEvent::Body(Some("text".into())));
    assert!(matches!(action, SyncAction::CreatePost(_)));
    let (reconciler, action) =
        reconciler.step(SyncEvent::Created { id: "1".into(), title: "C".into() });
    assert_eq!(action, SyncAction::Finished);
    let report = reconciler.report();
    assert_eq!(report.attempted(), 2);
    assert_eq!(report.succeeded(), 1);
    assert_eq!(
        report.failures(),
        vec![&PublishOutcome::Failed {
            slug: "b".into(),
            error: FeedError::BodyFetchFailure("timed out".into()),
        }]
    );
}

#[test]
fn a_text_that_cannot_be_fetched_ends_a_reconciliation_that_cuts() {
    let config = SanitizeConfig { strip_before_marker: None, strip_after_marker: Some("|".into()) };
    let reconciler = Reconciler::new(feed(), config);
    let (reconciler, _) = reconciler.step(SyncEvent::Slugs(strings(&[])));
    let (reconciler, _) = reconciler.step(SyncEvent::Body(Some("a|x".into())));
    let (reconciler, _) = reconciler.step(SyncEvent::BodyFailed("gone".into()));
    let (reconciler, action) = reconciler.step(SyncEvent::Body(Some("c|x".into())));
    assert_eq!(action, SyncAction::Aborted(FeedError::BodyFetchFailure("gone".into())));
    assert!(reconciler.is_over());
    assert_eq!(reconciler.report().attempted(), 0);
}

#[test]
fn an_event_that_is_not_awaited_changes_nothing() {
    let reconciler = Reconciler::new(feed(), no_cuts());
    let (reconciler, action) = reconciler.step(SyncEvent::Body(Some("text".into())));
    assert_eq!(action, SyncAction::ListSlugs);
    let (reconciler, action) =
        reconciler.step(SyncEvent::Created { id: "1".into(), title: "t".into() });
    assert_eq!(action, SyncAction::ListSlugs);
    let (reconciler, action) = reconciler.step(SyncEvent::Slugs(strings(&["a", "b"])));
    assert_eq!(action, SyncAction::FetchBody { url: "gemini://example.com/c.gmi".into() });
    let (reconciler, action) = reconciler.step(SyncEvent::CreateFailed("early".into()));
    assert_eq!(action, SyncAction::FetchBody { url: "gemini://example.com/c.gmi".into() });
    assert!(reconciler.feed().entries()[2].needs_body());
    assert_eq!(reconciler.report().attempted(), 0);
}

#[test]
fn report_counts_outcomes() {
    let mut report = SyncReport::new();
    assert_eq!(report.attempted(), 0);
    report.record(PublishOutcome::Created { id: "1".into(), title: "one".into() });
    report.record(PublishOutcome::Failed { slug: "two".into(), error: FeedError::BodyNotLoaded });
    report.record(PublishOutcome::Created { id: "3".into(), title: "three".into() });
    assert_eq!(report.attempted(), 3);
    assert_eq!(report.succeeded(), 2);
    assert_eq!(report.failures().len(), 1);
    let mut copy = SyncReport::new();
    for outcome in report.outcomes() {
        copy.record(outcome.clone());
    }
    assert_eq!(copy, report);
}
