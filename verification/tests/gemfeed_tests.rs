use gemlog_sync::entry::GemfeedEntry;
use gemlog_sync::error::FeedError;
use gemlog_sync::gemfeed::{parse_gemfeed, Gemfeed};
use gemlog_sync::gemtext::GemtextNode;
use gemlog_sync::link::GemfeedLink;

/// Each line without its leading white space, and ended by a line feed.
fn document(text: &str) -> String {
    text.lines().map(|line| line.trim_start()).map(|line| format!("{}\n", line)).collect()
}

/// The nodes of a gemtext document, as the parser gives them.
fn nodes_of(gemtext: String) -> Vec<GemtextNode> {
    let ast = germ::ast::Ast::from_string(gemtext);
    ast.inner()
        .iter()
        .map(|node| match node {
            germ::ast::Node::Link { to, text } => {
                GemtextNode::Link { to: to.clone(), text: text.clone() }
            }
            germ::ast::Node::Heading { level, text } => {
                GemtextNode::Heading { level: *level, text: text.clone() }
            }
            germ::ast::Node::Text(text) => GemtextNode::Text(text.clone()),
            germ::ast::Node::List(items) => GemtextNode::List(items.clone()),
            germ::ast::Node::Blockquote(text) => GemtextNode::Blockquote(text.clone()),
            germ::ast::Node::PreformattedText { alt_text, text } => {
                GemtextNode::PreformattedText { alt_text: alt_text.clone(), text: text.clone() }
            }
            germ::ast::Node::Whitespace => GemtextNode::Whitespace,
        })
        .collect()
}

#[test]
fn parse_gemfeed_invalid_if_no_title() {
    let gemfeed: String = document(
        r#"
        This is a gemfeed without a title.
        => atom.xml Atom Feed

        ## Posts

        => post2.gmi 2023-03-05 Post 2
        => post1.gmi 2023-02-01 Post 1
        "#,
    );

    let ast = nodes_of(gemfeed);
    let result = Gemfeed::load_from_ast("gemini://example.com/posts", &ast);
    assert!(matches!(result, Err(_)));
}

#[test]
fn parse_gemfeed_ignores_non_post_links() {
    let gemfeed: String = document(
        r#"
        # My Gemfeed

        This is a gemfeed.
        => atom.xml Atom Feed

        ## Posts

        => post2.gmi 2023-03-05 Post 2
        => post1.gmi 2023-02-01 Post 1
        "#,
    );

    let ast = nodes_of(gemfeed);
    let results = parse_gemfeed("gemini://example.com/posts", &ast);
    assert_eq!(results.len(), 2);
}

#[test]
fn parse_gemfeed_ignores_non_links() {
    let gemfeed: String = document(
        r#"
        # My Gemfeed

        This is a gemfeed.

        ## Posts

        => post2.gmi 2023-03-05 Post 2
        => post1.gmi 2023-02-01 Post 1
        "#,
    );

    let ast = nodes_of(gemfeed);
    let results = parse_gemfeed("gemini://example.com/posts", &ast);
    assert_eq!(results.len(), 2);
}

#[test]
fn convert_gemfeed_links_success() {
    let gemfeed_links: String = document(
        r#"
        => post2.gmi 2023-03-05 Post 2
        => post1.gmi 2023-02-01 Post 1
        "#,
    );

    let ast = nodes_of(gemfeed_links);

    let result = ast
        .iter()
        .map(|node| GemfeedLink::from_node(node))
        .flat_map(|res| res.ok())
        .collect::<Vec<_>>();

    let expected = vec![
        GemfeedLink {
            path: "post2.gmi".into(),
            slug: "post2".into(),
            title: "Post 2".into(),
            published: Some("2023-03-05".into()),
        },
        GemfeedLink {
            path: "post1.gmi".into(),
            slug: "post1".into(),
            title: "Post 1".into(),
            published: Some("2023-02-01".into()),
        },
    ];

    assert_eq!(expected, result);
}

fn slug_test(gemtext: String, expected_slugs: Vec<String>) {
    let ast = nodes_of(gemtext);

    let result = ast
        .iter()
        .map(|node| GemfeedLink::from_node(node))
        .flat_map(|res| res.ok())
        .map(|link| link.slug)
        .collect::<Vec<_>>();

    assert_eq!(expected_slugs, result);
}

#[test]
fn convert_gemfeed_slug_with_slash() {
    let gemfeed_links: String = document(
        r#"
        => ./post2 2023-03-05 Post 2
        => ./post1 2023-02-01 Post 1
        "#,
    );

    let expected = vec!["post2".into(), "post1".into()];
    slug_test(gemfeed_links, expected)
}

#[test]
fn convert_gemfeed_slug_no_ext() {
    let gemfeed_links: String = document(
        r#"
        => post2 2023-03-05 Post 2
        => post1 2023-02-01 Post 1
        "#,
    );

    let expected = vec!["post2".into(), "post1".into()];
    slug_test(gemfeed_links, expected)
}

#[test]
fn convert_gemfeed_slug_no_ext_with_slash() {
    let gemfeed_links: String = document(
        r#"
        => ./post2 2023-03-05 Post 2
        => ./post1 2023-02-01 Post 1
        "#,
    );

    let expected = vec!["post2".into(), "post1".into()];
    slug_test(gemfeed_links, expected)
}

fn link(to: &str, text: &str) -> GemtextNode {
    GemtextNode::Link { to: to.into(), text: Some(text.into()) }
}

const FEED: &str = "# My Gemfeed\n\nThis is a gemfeed.\n=> atom.xml Atom Feed\n\n## Posts\n\n=> post2.gmi 2023-03-05 Post 2\n=> post1.gmi 2023-02-01 Post 1\n";

#[test]
fn extraction_yields_slug_title_and_date() {
    let found = GemfeedLink::from_node(&link("post2.gmi", "2023-03-05 Post 2")).unwrap();
    assert_eq!(found.slug, "post2");
    assert_eq!(found.title, "Post 2");
    assert_eq!(found.published.as_deref(), Some("2023-03-05"));
    assert_eq!(found.path, "post2.gmi");
}

#[test]
fn path_with_and_without_extension_give_the_same_slug() {
    let bare = GemfeedLink::from_node(&link("./post1", "2023-02-01 Post 1")).unwrap();
    let full = GemfeedLink::from_node(&link("post1.gmi", "2023-02-01 Post 1")).unwrap();
    assert_eq!(bare.slug, "post1");
    assert_eq!(full.slug, "post1");
}

#[test]
fn date_inside_the_text_is_found_but_not_stripped() {
    let found = GemfeedLink::from_node(&link("a.gmi", "Post of 2023-03-05 again")).unwrap();
    assert_eq!(found.published.as_deref(), Some("2023-03-05"));
    assert_eq!(found.title, "Post of 2023-03-05 again");
}

#[test]
fn link_without_date_is_no_post() {
    let result = GemfeedLink::from_node(&link("atom.xml", "Atom Feed"));
    assert_eq!(result, Err(FeedError::NoPublishDate));
    let bare = GemtextNode::Link { to: "atom.xml".into(), text: None };
    assert_eq!(GemfeedLink::from_node(&bare), Err(FeedError::NoPublishDate));
}

#[test]
fn node_that_is_no_link_is_no_post() {
    assert_eq!(GemfeedLink::from_node(&GemtextNode::Whitespace), Err(FeedError::NoPostLink));
    let text = GemtextNode::Text("2023-03-05 Not a link".into());
    assert_eq!(GemfeedLink::from_node(&text), Err(FeedError::NoPostLink));
    let heading = GemtextNode::Heading { level: 1, text: "2023-03-05 Title".into() };
    assert_eq!(GemfeedLink::from_node(&heading), Err(FeedError::NoPostLink));
}

#[test]
fn link_without_file_name_has_no_slug() {
    for to in ["/", "..", "posts/..", "", "."] {
        let result = GemfeedLink::from_node(&link(to, "2023-03-05 Post"));
        assert_eq!(result, Err(FeedError::SlugNotComputable), "{:?}", to);
    }
}

#[test]
fn links_whose_text_does_not_open_with_a_date_are_excluded() {
    let nodes = vec![
        link("a.gmi", "Post of 2023-03-05"),
        link("b.gmi", " 2023-03-05 leading space"),
        link("c.gmi", "2023-03-0 short"),
        link("d.gmi", "2023-03-05 Post D"),
        GemtextNode::Link { to: "e.gmi".into(), text: None },
        GemtextNode::Text("2023-03-05 Text".into()),
        GemtextNode::List(vec!["2023-03-05 Item".into()]),
    ];
    let entries = parse_gemfeed("gemini://example.com/posts/", &nodes);
    let slugs: Vec<&str> = entries.iter().map(|entry| entry.slug()).collect();
    assert_eq!(slugs, vec!["d"]);
}

#[test]
fn entry_from_link_resolves_address_and_reads_noon_utc() {
    let node = link("post2.gmi", "2023-03-05 Post 2");
    let entry = GemfeedEntry::from_ast("gemini://example.com/posts/index.gmi", &node).unwrap();
    assert_eq!(entry.title(), "Post 2");
    assert_eq!(entry.slug(), "post2");
    assert_eq!(entry.url(), "gemini://example.com/posts/post2.gmi");
    let published = entry.published().unwrap();
    assert_eq!(published.secs, 1_678_017_600);
    assert_eq!(published.nanos, 0);
    assert!(entry.needs_body());
}

#[test]
fn entry_from_link_before_1970_has_negative_time() {
    let node = link("old.gmi", "1969-12-31 Old");
    let entry = GemfeedEntry::from_ast("gemini://example.com/", &node).unwrap();
    assert_eq!(entry.published().unwrap().secs, -43_200);
}

#[test]
fn entry_with_impossible_date_fails() {
    let node = link("post.gmi", "2023-13-45 Post");
    let result = GemfeedEntry::from_ast("gemini://example.com/", &node);
    assert_eq!(result, Err(FeedError::DateParseFailure));
}

#[test]
fn entry_under_a_base_that_is_no_url_fails() {
    let node = link("post.gmi", "2023-03-05 Post");
    let result = GemfeedEntry::from_ast("example.com/posts", &node);
    assert_eq!(result, Err(FeedError::InvalidUrl));
}

#[test]
fn unreadable_candidates_are_dropped_from_the_feed() {
    let text = "# Title\n=> good.gmi 2023-03-05 Good\n=> bad.gmi 2023-13-45 Bad\n=> .. 2023-03-06 No file\n";
    let feed = Gemfeed::load_from_gemtext("gemini://example.com/", Some(text)).unwrap();
    assert_eq!(feed.slugs(), vec!["good".to_string()]);
}

#[test]
fn load_reads_a_gemtext_feed() {
    let feed =
        Gemfeed::load("gemini://example.com/posts/", "text/gemini; lang=en", Some(FEED)).unwrap();
    assert_eq!(feed.title(), "My Gemfeed");
    assert_eq!(feed.url(), "gemini://example.com/posts/");
    assert_eq!(feed.slugs(), vec!["post2".to_string(), "post1".to_string()]);
    assert_eq!(feed.entries().len(), 2);
    assert_eq!(feed.entries()[0].url(), "gemini://example.com/posts/post2.gmi");
    assert_eq!(feed.entries()[1].title(), "Post 1");
}

#[test]
fn load_refuses_an_unknown_type() {
    let result = Gemfeed::load("gemini://example.com/", "text/plain", Some(FEED));
    assert_eq!(result, Err(FeedError::UnrecognizedFeedType("text/plain".into())));
}

#[test]
fn load_refuses_a_response_without_content() {
    let result = Gemfeed::load("gemini://example.com/", "text/gemini", None);
    assert_eq!(result, Err(FeedError::InvalidFeed));
    let result = Gemfeed::load("gemini://example.com/", "text/xml", None);
    assert_eq!(result, Err(FeedError::InvalidFeed));
}

#[test]
fn load_refuses_a_gemtext_feed_without_title() {
    let text = "## Posts\n=> post1.gmi 2023-02-01 Post 1\n";
    let result = Gemfeed::load("gemini://example.com/", "text/gemini", Some(text));
    assert_eq!(result, Err(FeedError::InvalidFeed));
}

#[test]
fn title_is_the_first_heading_of_level_one() {
    let text = "## Sub\n# First\n# Second\n";
    let feed = Gemfeed::load_from_gemtext("gemini://example.com/", Some(text)).unwrap();
    assert_eq!(feed.title(), "First");
    assert_eq!(feed.entries().len(), 0);
}

#[test]
fn feed_keeps_the_first_entry_of_each_slug() {
    let text = "# T\n=> a/post.gmi 2023-03-05 First\n=> b/post.gmi 2023-03-06 Second\n=> other.gmi 2023-03-07 Other\n";
    let feed = Gemfeed::load_from_gemtext("gemini://example.com/", Some(text)).unwrap();
    assert_eq!(feed.slugs(), vec!["post".to_string(), "other".to_string()]);
    assert_eq!(feed.find_entry_by_slug("post").unwrap().title(), "First");
    assert!(feed.find_entry_by_slug("missing").is_none());
}

#[test]
fn find_mut_entry_gives_the_entry_to_change() {
    let mut feed = Gemfeed::load_from_gemtext("gemini://example.com/", Some(FEED)).unwrap();
    feed.find_mut_entry_by_slug("post1").unwrap().fill_body(Ok(Some("text".into())));
    assert_eq!(feed.find_entry_by_slug("post1").unwrap().body(), Ok(&"text".to_string()));
    assert!(feed.find_entry_by_slug("post2").unwrap().needs_body());
    assert!(feed.find_mut_entry_by_slug("nope").is_none());
    assert_eq!(feed.entries_mut().len(), 2);
}
