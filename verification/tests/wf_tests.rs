use gemlog_sync::entry::GemfeedEntry;
use gemlog_sync::error::FeedError;
use gemlog_sync::gemtext::GemtextNode;
use gemlog_sync::wf::{PostRequest, WriteFreelyCredentials};

#[test]
fn tryfrom_to_request_handles_gt_lt() {
    let gemtext: String = r#"
        # This is gemtext <dyn>

        With a > in it.
        "#
    .lines()
    .map(|line| line.trim_start())
    .map(|line| format!("{}\n", line))
    .collect();

    let entry = GemfeedEntry::default().with_body(gemtext);
    let result = PostRequest::from_entry(&entry);
    assert!(result.is_ok());
}

#[test]
fn request_carries_slug_title_date_and_markdown() {
    let node = GemtextNode::Link { to: "post.gmi".into(), text: Some("2023-03-05 A post".into()) };
    let entry = GemfeedEntry::from_ast("gemini://example.com/", &node)
        .unwrap()
        .with_body("# Heading\n=> gemini://example.com/x Link\n* item\n".to_string());
    let request = PostRequest::from_entry(&entry).unwrap();
    assert_eq!(request.slug, "post");
    assert_eq!(request.title, "A post");
    assert_eq!(request.created.unwrap().secs, 1_678_017_600);
    assert_eq!(
        request.body,
        germ::convert::from_string(
            "# Heading\n=> gemini://example.com/x Link\n* item\n",
            &germ::convert::Target::Markdown
        )
    );
    assert!(request.body.contains("[Link](gemini://example.com/x)"));
    assert_eq!(request.duplicate(), request);
}

#[test]
fn request_needs_a_recorded_text() {
    let entry = GemfeedEntry::default();
    assert_eq!(PostRequest::from_entry(&entry), Err(FeedError::BodyNotLoaded));
}

#[test]
fn body_as_ast_reads_links_and_headings() {
    let entry = GemfeedEntry::default().with_body(
        "# Title\ntext\n\n=> a.gmi\n=> b.gmi B\n* one\n* two\n> quoted\n```alt\ncode\n```\n"
            .to_string(),
    );
    assert_eq!(
        entry.body_as_ast(),
        Ok(vec![
            GemtextNode::Heading { level: 1, text: "Title".into() },
            GemtextNode::Text("text".into()),
            GemtextNode::Whitespace,
            GemtextNode::Link { to: "a.gmi".into(), text: None },
            GemtextNode::Link { to: "b.gmi".into(), text: Some("B".into()) },
            GemtextNode::List(vec!["one".into(), "two".into()]),
            GemtextNode::Blockquote("quoted".into()),
            GemtextNode::PreformattedText { alt_text: Some("alt".into()), text: "code\n".into() },
        ])
    );
}

#[test]
fn credentials_are_a_token_or_a_name_and_password() {
    let login = WriteFreelyCredentials::UsernameAndPassword("user", "secret");
    let token = WriteFreelyCredentials::AccessToken("token");
    assert_ne!(login, token);
    assert_eq!(token, WriteFreelyCredentials::AccessToken("token"));
}

#[test]
fn error_duplicate_keeps_the_cause() {
    let errors = vec![
        FeedError::UnrecognizedFeedType("x/y".into()),
        FeedError::InvalidFeed,
        FeedError::NoPublishDate,
        FeedError::DateParseFailure,
        FeedError::NoPostLink,
        FeedError::InvalidUrl,
        FeedError::SlugNotComputable,
        FeedError::BodyNotLoaded,
        FeedError::BodyFetchFailure("a".into()),
        FeedError::RemoteListFailure("b".into()),
        FeedError::RemotePublishFailure("c".into()),
    ];
    for error in errors {
        assert_eq!(error.duplicate(), error);
    }
}
