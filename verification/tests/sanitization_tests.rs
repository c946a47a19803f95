use gemlog_sync::entry::GemfeedEntry;
use gemlog_sync::error::FeedError;
use gemlog_sync::gemfeed::Gemfeed;
use gemlog_sync::sanitization::{
    sanitize_entry, sanitize_gemlogs, strip_after, strip_before, text_after_first,
    text_before_last, SanitizeConfig,
};

fn entry_with_body(body: &str) -> GemfeedEntry {
    GemfeedEntry::default().with_body(body.to_string())
}

#[test]
fn strip_before_keeps_what_follows_the_marker() {
    let mut entry = entry_with_body("AAA<marker>BBB");
    assert_eq!(strip_before(&mut entry, "<marker>"), Ok(()));
    assert_eq!(entry.body(), Ok(&"BBB".to_string()));
}

#[test]
fn strip_before_without_marker_changes_nothing() {
    let mut entry = entry_with_body("AAABBB");
    assert_eq!(strip_before(&mut entry, "<marker>"), Ok(()));
    assert_eq!(entry.body(), Ok(&"AAABBB".to_string()));
}

#[test]
fn strip_after_keeps_what_precedes_the_marker() {
    let mut entry = entry_with_body("AAA<marker>BBB");
    assert_eq!(strip_after(&mut entry, "<marker>"), Ok(()));
    assert_eq!(entry.body(), Ok(&"AAA".to_string()));
}

#[test]
fn strip_after_without_marker_changes_nothing() {
    let mut entry = entry_with_body("AAABBB");
    assert_eq!(strip_after(&mut entry, "<marker>"), Ok(()));
    assert_eq!(entry.body(), Ok(&"AAABBB".to_string()));
}

#[test]
fn strip_before_cuts_at_the_first_marker_and_strip_after_at_the_last() {
    assert_eq!(text_after_first("a--b--c", "--"), "b--c");
    assert_eq!(text_before_last("a--b--c", "--"), "a--b");
    assert_eq!(text_after_first("\u{e9}\u{e9}--x", "--"), "x");
    assert_eq!(text_before_last("\u{e9}--\u{e9}", "--"), "\u{e9}");
    assert_eq!(text_after_first("abc", ""), "abc");
    assert_eq!(text_before_last("abc", ""), "abc");
    assert_eq!(text_after_first("abc", "abc"), "");
    assert_eq!(text_before_last("abc", "abc"), "");
}

#[test]
fn cuts_agree_with_the_standard_library() {
    for body in ["", "a", "ab", "aab", "abab", "xxabxxabxx", "aaa"] {
        for marker in ["", "a", "ab", "b", "aa", "xx", "zz"] {
            let after = match body.find(marker) {
                Some(index) => body.split_at(index + marker.len()).1,
                None => body,
            };
            let before = match body.rfind(marker) {
                Some(index) => body.split_at(index).0,
                None => body,
            };
            assert_eq!(text_after_first(body, marker), after, "{:?} {:?}", body, marker);
            assert_eq!(text_before_last(body, marker), before, "{:?} {:?}", body, marker);
        }
    }
}

#[test]
fn strip_before_twice_is_strip_before_once_when_the_marker_is_gone() {
    let mut entry = entry_with_body("head<!-- cut -->tail");
    assert_eq!(strip_before(&mut entry, "<!-- cut -->"), Ok(()));
    assert_eq!(strip_before(&mut entry, "<!-- cut -->"), Ok(()));
    assert_eq!(entry.body(), Ok(&"tail".to_string()));
    let mut entry = entry_with_body("head<!-- cut -->tail");
    assert_eq!(strip_after(&mut entry, "<!-- cut -->"), Ok(()));
    assert_eq!(strip_after(&mut entry, "<!-- cut -->"), Ok(()));
    assert_eq!(entry.body(), Ok(&"head".to_string()));
}

#[test]
fn strip_fails_without_a_recorded_text() {
    let mut entry = GemfeedEntry::default();
    assert_eq!(strip_before(&mut entry, "x"), Err(FeedError::BodyNotLoaded));
    assert_eq!(strip_after(&mut entry, "x"), Err(FeedError::BodyNotLoaded));
    assert!(entry.needs_body());
    entry.fill_body(Err("timed out".to_string()));
    assert_eq!(strip_before(&mut entry, "x"), Err(FeedError::BodyFetchFailure("timed out".into())));
    assert_eq!(strip_after(&mut entry, "x"), Err(FeedError::BodyFetchFailure("timed out".into())));
}

fn config(before: Option<&str>, after: Option<&str>) -> SanitizeConfig {
    SanitizeConfig {
        strip_before_marker: before.map(|m| m.to_string()),
        strip_after_marker: after.map(|m| m.to_string()),
    }
}

#[test]
fn sanitize_entry_makes_both_cuts() {
    let mut entry = entry_with_body("title\n---\ntext\n===\nfooter");
    assert_eq!(sanitize_entry(&mut entry, &config(Some("---\n"), Some("\n==="))), Ok(()));
    assert_eq!(entry.body(), Ok(&"text".to_string()));
}

#[test]
fn sanitize_entry_without_markers_asks_for_no_text() {
    let mut entry = GemfeedEntry::default();
    assert_eq!(sanitize_entry(&mut entry, &config(None, None)), Ok(()));
    assert!(entry.needs_body());
}

const FEED: &str = "# T\n=> a.gmi 2023-03-05 A\n=> b.gmi 2023-03-06 B\n=> c.gmi 2023-03-07 C\n";

#[test]
fn sanitize_gemlogs_cuts_every_entry() {
    let mut feed = Gemfeed::load_from_gemtext("gemini://example.com/", Some(FEED)).unwrap();
    for entry in feed.entries_mut().iter_mut() {
        let text = format!("head of {}|body|tail", entry.slug());
        entry.fill_body(Ok(Some(text)));
    }
    assert_eq!(sanitize_gemlogs(&mut feed, &config(Some("|"), Some("|"))), Ok(()));
    for entry in feed.entries() {
        assert_eq!(entry.body(), Ok(&"body".to_string()));
    }
    assert_eq!(feed.slugs(), vec!["a".to_string(), "b".to_string(), "c".to_string()]);
}

#[test]
fn sanitize_gemlogs_stops_at_the_first_entry_without_text() {
    let mut feed = Gemfeed::load_from_gemtext("gemini://example.com/", Some(FEED)).unwrap();
    feed.entries_mut()[0].fill_body(Ok(Some("x|a".to_string())));
    feed.entries_mut()[1].fill_body(Err("refused".to_string()));
    feed.entries_mut()[2].fill_body(Ok(Some("x|c".to_string())));
    assert_eq!(
        sanitize_gemlogs(&mut feed, &config(Some("|"), None)),
        Err(FeedError::BodyFetchFailure("refused".into()))
    );
    assert_eq!(feed.entries()[0].body(), Ok(&"a".to_string()));
    assert_eq!(feed.entries()[2].body(), Ok(&"x|c".to_string()));
}

#[test]
fn body_is_recorded_once() {
    let mut entry = GemfeedEntry::default();
    assert_eq!(entry.body(), Err(FeedError::BodyNotLoaded));
    entry.fill_body(Ok(Some("first".to_string())));
    entry.fill_body(Ok(Some("second".to_string())));
    entry.fill_body(Err("late failure".to_string()));
    assert_eq!(entry.body(), Ok(&"first".to_string()));
    assert!(!entry.needs_body());
}

#[test]
fn response_without_body_is_recorded_as_empty_text() {
    let mut entry = GemfeedEntry::default();
    entry.fill_body(Ok(None));
    assert_eq!(entry.body(), Ok(&String::new()));
}

#[test]
fn failed_fetch_is_kept_and_not_retried() {
    let mut entry = GemfeedEntry::default();
    entry.fill_body(Err("no route".to_string()));
    entry.fill_body(Ok(Some("late text".to_string())));
    assert_eq!(entry.body(), Err(FeedError::BodyFetchFailure("no route".into())));
    assert_eq!(entry.body_mut().err(), Some(FeedError::BodyFetchFailure("no route".into())));
    assert_eq!(entry.body_as_markdown(), Err(FeedError::BodyFetchFailure("no route".into())));
    assert_eq!(entry.body_as_ast(), Err(FeedError::BodyFetchFailure("no route".into())));
}

#[test]
fn body_mut_lets_the_text_be_rewritten() {
    let mut entry = entry_with_body("old");
    entry.body_mut().unwrap().push_str(" and new");
    assert_eq!(entry.body(), Ok(&"old and new".to_string()));
}
