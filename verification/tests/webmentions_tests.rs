use chrono::{DateTime, FixedOffset};
use gemlog_sync::dates::{Timestamp, ZonedTime};
use gemlog_sync::webmentions::{
    create_querystring, create_request_url, decimal_text, types_to_query_pairs,
    GetWebmentionsRequest, NumWebmentionTypes, QueryError, WebmentionType, WebmentionsSince,
};

/// The date as the library holds it.
fn zoned(date: DateTime<FixedOffset>) -> ZonedTime {
    ZonedTime {
        instant: Timestamp { secs: date.timestamp(), nanos: date.timestamp_subsec_nanos() },
        offset: date.offset().local_minus_utc(),
    }
}

#[test]
fn create_querystring_with_since_date() {
    let date = DateTime::parse_from_str("2022-03-08T13:05:27-0100", "%FT%T%z").unwrap();

    let req = GetWebmentionsRequest {
        since: Some(WebmentionsSince::SinceDate(zoned(date))),
        types: None,
    };

    let expected = "since=2022-03-08T13:05:27-0100";
    let querystring = create_querystring(&req).unwrap();
    assert_eq!(querystring.as_str(), expected);
}

#[test]
fn create_querystring_with_since_id() {
    let req = GetWebmentionsRequest { since: Some(WebmentionsSince::SinceId(12345)), types: None };

    let expected = "since_id=12345";
    let querystring = create_querystring(&req).unwrap();
    assert_eq!(querystring, expected);
}

#[test]
fn create_querystring_with_one_type() {
    let req = GetWebmentionsRequest { since: None, types: Some(vec![WebmentionType::InReplyTo]) };

    let expected = "wm-property=in-reply-to";
    let querystring = create_querystring(&req).unwrap();
    assert_eq!(querystring, expected);
}

#[test]
fn create_querystring_with_since_and_one_type() {
    let req = GetWebmentionsRequest {
        since: Some(WebmentionsSince::SinceId(12345)),
        types: Some(vec![WebmentionType::InReplyTo]),
    };

    let expected = "since_id=12345&wm-property=in-reply-to";
    let querystring = create_querystring(&req).unwrap();
    assert_eq!(querystring, expected);
}

#[test]
fn create_querystring_with_mutiple_types() {
    let req = GetWebmentionsRequest {
        since: None,
        types: Some(vec![WebmentionType::InReplyTo, WebmentionType::BookmarkOf]),
    };

    let expected = "wm-property[]=in-reply-to&wm-property[]=bookmark-of";
    let querystring = create_querystring(&req).unwrap();
    assert_eq!(querystring, expected);
}

#[test]
fn create_querystring_with_since_and_mutiple_types() {
    let req = GetWebmentionsRequest {
        since: Some(WebmentionsSince::SinceId(12345)),
        types: Some(vec![WebmentionType::InReplyTo, WebmentionType::BookmarkOf]),
    };

    let expected = "since_id=12345&wm-property[]=in-reply-to&wm-property[]=bookmark-of";
    let querystring = create_querystring(&req).unwrap();
    assert_eq!(querystring, expected);
}

#[test]
fn create_querystring_with_no_types_in_filter() {
    let req = GetWebmentionsRequest { since: None, types: Some(vec![]) };

    let querystring = create_querystring(&req);
    assert!(matches!(querystring, Err(_)));
}

#[test]
fn test_create_url_with_since_date() {
    let base_url = "https://webmention.io";
    let date = DateTime::parse_from_str("2022-03-08T13:05:27-0100", "%FT%T%z").unwrap();

    let req = GetWebmentionsRequest {
        since: Some(WebmentionsSince::SinceDate(zoned(date))),
        types: None,
    };

    let expected = "https://webmention.io/api/mentions.jf2?since=2022-03-08T13:05:27-0100";
    let api_url = create_request_url(base_url, &req).unwrap();
    assert_eq!(api_url.as_str(), expected);
}

#[test]
fn querystring_of_an_empty_request_is_empty() {
    let req = GetWebmentionsRequest { since: None, types: None };
    assert_eq!(create_querystring(&req), Ok(String::new()));
    assert_eq!(req.types(), None);
}

#[test]
fn querystring_errors_say_what_is_wrong() {
    let empty = GetWebmentionsRequest { since: None, types: Some(vec![]) };
    assert_eq!(create_querystring(&empty), Err(QueryError::NoTypesGiven));
    assert_eq!(empty.types(), Some(NumWebmentionTypes::Zero));
    let far = ZonedTime { instant: Timestamp { secs: i64::MAX, nanos: 0 }, offset: 0 };
    let unprintable =
        GetWebmentionsRequest { since: Some(WebmentionsSince::SinceDate(far)), types: None };
    assert_eq!(create_querystring(&unprintable), Err(QueryError::DateNotPrintable));
    let skewed = ZonedTime { instant: Timestamp { secs: 0, nanos: 0 }, offset: 86_400 };
    let unprintable =
        GetWebmentionsRequest { since: Some(WebmentionsSince::SinceDate(skewed)), types: None };
    assert_eq!(create_querystring(&unprintable), Err(QueryError::DateNotPrintable));
    let plain = GetWebmentionsRequest { since: None, types: None };
    assert_eq!(create_request_url("webmention.io", &plain), Err(QueryError::InvalidUrl));
    assert_eq!(create_request_url("https://webmention.io", &empty), Err(QueryError::NoTypesGiven));
}

#[test]
fn every_type_has_its_name() {
    let kinds = [
        (WebmentionType::InReplyTo, "in-reply-to"),
        (WebmentionType::LikeOf, "like-of"),
        (WebmentionType::RepostOf, "repost-of"),
        (WebmentionType::BookmarkOf, "bookmark-of"),
        (WebmentionType::MentionOf, "mention-of"),
        (WebmentionType::Rsvp, "rsvp"),
    ];
    for (kind, name) in kinds {
        assert_eq!(kind.to_string(), name);
        assert_eq!(kind.to_query_pair(), ("wm-property".to_string(), name.to_string()));
    }
    assert_eq!(
        types_to_query_pairs(&[WebmentionType::Rsvp, WebmentionType::LikeOf]),
        vec![
            ("wm-property[]".to_string(), "rsvp".to_string()),
            ("wm-property[]".to_string(), "like-of".to_string())
        ]
    );
}

#[test]
fn decimal_text_agrees_with_the_standard_library() {
    for n in [0usize, 1, 9, 10, 11, 99, 100, 101, 12345, 1_000_000, usize::MAX - 1, usize::MAX] {
        assert_eq!(decimal_text(n), format!("{}", n));
    }
}

#[test]
fn request_url_of_an_empty_request_has_an_empty_query() {
    let plain = GetWebmentionsRequest { since: None, types: None };
    assert_eq!(
        create_request_url("https://webmention.io/some/page", &plain),
        Ok("https://webmention.io/api/mentions.jf2?".to_string())
    );
}
