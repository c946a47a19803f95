//! Requests to the webmention.io service: which mentions are asked for,
//! and the address that asks for them.

use vstd::prelude::*;
use vstd::string::StringExecFns;
use crate::dates::{datetime_text, print_zoned, ZonedTime};
use crate::urls::{join, joined_url, url_with_query, with_query};

verus! {

/// The path of the service's endpoint for mentions.
pub const WEBMENTIONS_IO_ENDPOINT: &'static str = "/api/mentions.jf2";

/// The format in which a date is written into a query.
pub const SINCE_DATE_FORMAT: &'static str = "%FT%T%z";

/// Why a request could not be written down.
#[derive(Debug, Clone, Copy, PartialEq, Eq, Structural)]
pub enum QueryError {
    /// The request names a filter by type and gives no type.
    NoTypesGiven,
    /// The request names a date that cannot be written.
    DateNotPrintable,
    /// The service's address is no absolute URL.
    InvalidUrl,
}

/// From where on mentions are asked for.
#[derive(Debug, Clone, Copy, PartialEq, Eq, Structural)]
pub enum WebmentionsSince {
    /// The mentions after the one with this number.
    SinceId(usize),
    /// The mentions since this date.
    SinceDate(ZonedTime),
}

/// The kinds of mention.
#[derive(Debug, Clone, Copy, PartialEq, Eq, Structural)]
pub enum WebmentionType {
    InReplyTo,
    LikeOf,
    RepostOf,
    BookmarkOf,
    MentionOf,
    Rsvp,
}

/// How many types a request filters by.
#[derive(Debug, Clone, Copy, PartialEq, Eq)]
pub enum NumWebmentionTypes<'a> {
    Single(&'a WebmentionType),
    Multiple(&'a [WebmentionType]),
    Zero,
}

/// Which mentions are asked for.
#[derive(Debug, Clone, PartialEq, Eq)]
pub struct GetWebmentionsRequest {
    /// If specified, retrieve webmentions since an ID or date/time.
    /// If not specified, fetch all possible webmentions from the
    /// server.
    pub since: Option<WebmentionsSince>,
    /// If specified, fetch only these types of web mentions.  An empty
    /// list is refused.  If not specified, fetch all kinds of webmentions.
    pub types: Option<Vec<WebmentionType>>,
}

/// The character of the decimal digit `d`.
pub open spec fn digit_char(d: int) -> char {
    if d == 0 {
        '0'
    } else if d == 1 {
        '1'
    } else if d == 2 {
        '2'
    } else if d == 3 {
        '3'
    } else if d == 4 {
        '4'
    } else if d == 5 {
        '5'
    } else if d == 6 {
        '6'
    } else if d == 7 {
        '7'
    } else if d == 8 {
        '8'
    } else {
        '9'
    }
}

/// The digits of `n` in base ten, without leading zeros.
pub open spec fn decimal(n: nat) -> Seq<char>
    decreases n,
{
    if n < 10 {
        seq![digit_char(n as int)]
    } else {
        decimal(n / 10).push(digit_char((n % 10) as int))
    }
}

/// The name by which the service knows a kind of mention.
pub open spec fn property_name(kind: WebmentionType) -> Seq<char> {
    match kind {
        WebmentionType::InReplyTo => "in-reply-to"@,
        WebmentionType::LikeOf => "like-of"@,
        WebmentionType::RepostOf => "repost-of"@,
        WebmentionType::BookmarkOf => "bookmark-of"@,
        WebmentionType::MentionOf => "mention-of"@,
        WebmentionType::Rsvp => "rsvp"@,
    }
}

/// The key and the value that say from where on mentions are asked for.
pub open spec fn since_pair(since: WebmentionsSince) -> Option<(Seq<char>, Seq<char>)> {
    match since {
        WebmentionsSince::SinceId(id) => Some(("since_id"@, decimal(id as nat))),
        WebmentionsSince::SinceDate(date) => match datetime_text(
            date.instant.secs as int,
            date.instant.nanos as int,
            date.offset as int,
            SINCE_DATE_FORMAT@,
        ) {
            Some(text) => Some(("since"@, text)),
            None => None,
        },
    }
}

/// The key and the value of each type, where several are asked for.
pub open spec fn type_pairs(types: Seq<WebmentionType>) -> Seq<(Seq<char>, Seq<char>)> {
    types.map_values(|kind: WebmentionType| ("wm-property[]"@, property_name(kind)))
}

/// A key and a value as they stand in a query.
pub open spec fn query_part(pair: (Seq<char>, Seq<char>)) -> Seq<char> {
    pair.0 + "="@ + pair.1
}

/// The keys and values of the types that a request filters by.
pub open spec fn types_pairs(types: Seq<WebmentionType>) -> Result<
    Seq<(Seq<char>, Seq<char>)>,
    QueryError,
> {
    if types.len() == 0 {
        Err(QueryError::NoTypesGiven)
    } else if types.len() == 1 {
        Ok(seq![("wm-property"@, property_name(types[0]))])
    } else {
        Ok(type_pairs(types))
    }
}

/// The keys and values of a request, in the order of the query: first
/// from where on, then the types.
pub open spec fn query_pairs(request: GetWebmentionsRequest) -> Result<
    Seq<(Seq<char>, Seq<char>)>,
    QueryError,
> {
    let first = match request.since {
        Some(since) => match since_pair(since) {
            Some(pair) => Ok(seq![pair]),
            None => Err(QueryError::DateNotPrintable),
        },
        None => Ok(Seq::empty()),
    };
    match first {
        Err(error) => Err(error),
        Ok(first) => match request.types {
            None => Ok(first),
            Some(types) => match types_pairs(types@) {
                Ok(pairs) => Ok(first + pairs),
                Err(error) => Err(error),
            },
        },
    }
}

/// The parts with `&` between them.
pub open spec fn joined(parts: Seq<Seq<char>>) -> Seq<char>
    decreases parts.len(),
{
    if parts.len() == 0 {
        Seq::empty()
    } else if parts.len() == 1 {
        parts[0]
    } else {
        joined(parts.drop_last()) + "&"@ + parts.last()
    }
}

/// The query of a request.
pub open spec fn query_of(request: GetWebmentionsRequest) -> Result<Seq<char>, QueryError> {
    match query_pairs(request) {
        Ok(pairs) => Ok(joined(pairs.map_values(|pair: (Seq<char>, Seq<char>)| query_part(pair)))),
        Err(error) => Err(error),
    }
}

/// The address that asks the service at `base` for the mentions of a
/// request.
pub open spec fn request_url_of(base: Seq<char>, request: GetWebmentionsRequest) -> Result<
    Seq<char>,
    QueryError,
> {
    match joined_url(base, WEBMENTIONS_IO_ENDPOINT@) {
        None => Err(QueryError::InvalidUrl),
        Some(url) => match query_of(request) {
            Err(error) => Err(error),
            Ok(query) => match url_with_query(url, query) {
                Some(full) => Ok(full),
                None => Err(QueryError::InvalidUrl),
            },
        },
    }
}

/// The decimal digit `d` as a text.
fn digit_text(d: usize) -> (r: &'static str)
    requires
        d < 10,
    ensures
        r@ == seq![digit_char(d as int)],
{
    proof {
        reveal_strlit("0");
        reveal_strlit("1");
        reveal_strlit("2");
        reveal_strlit("3");
        reveal_strlit("4");
        reveal_strlit("5");
        reveal_strlit("6");
        reveal_strlit("7");
        reveal_strlit("8");
        reveal_strlit("9");
    }
    let r = if d == 0 {
        "0"
    } else if d == 1 {
        "1"
    } else if d == 2 {
        "2"
    } else if d == 3 {
        "3"
    } else if d == 4 {
        "4"
    } else if d == 5 {
        "5"
    } else if d == 6 {
        "6"
    } else if d == 7 {
        "7"
    } else if d == 8 {
        "8"
    } else {
        "9"
    };
    assert(r@ =~= seq![digit_char(d as int)]);
    r
}

/// The digits of `n` in base ten, without leading zeros.
pub fn decimal_text(n: usize) -> (r: String)
    ensures
        r@ == decimal(n as nat),
{
    let mut text = String::from_str(digit_text(n % 10));
    let mut rest: usize = n / 10;
    while rest > 0
        invariant
            rest > 0 ==> decimal(n as nat) == decimal(rest as nat) + text@,
            rest == 0 ==> decimal(n as nat) == text@,
        decreases rest,
    {
        let ghost before = text@;
        text = String::from_str(digit_text(rest % 10)).concat(text.as_str());
        assert(decimal(rest as nat) + before =~= (if rest < 10 {
            Seq::<char>::empty()
        } else {
            decimal((rest / 10) as nat)
        }) + text@);
        assert(Seq::<char>::empty() + text@ =~= text@);
        rest = rest / 10;
    }
    text
}

impl WebmentionType {
    /// The name by which the service knows this kind of mention.
    pub fn to_string(&self) -> (r: String)
        ensures
            r@ == property_name(*self),
    {
        match self {
            WebmentionType::InReplyTo => String::from_str("in-reply-to"),
            WebmentionType::LikeOf => String::from_str("like-of"),
            WebmentionType::RepostOf => String::from_str("repost-of"),
            WebmentionType::BookmarkOf => String::from_str("bookmark-of"),
            WebmentionType::MentionOf => String::from_str("mention-of"),
            WebmentionType::Rsvp => String::from_str("rsvp"),
        }
    }

    /// The key and the value that ask for this kind of mention alone.
    pub fn to_query_pair(&self) -> (r: (String, String))
        ensures
            r.0@ == "wm-property"@,
            r.1@ == property_name(*self),
    {
        (String::from_str("wm-property"), self.to_string())
    }
}

impl WebmentionsSince {
    /// The key and the value that say from where on mentions are asked
    /// for.  `None` for a date that cannot be written.
    pub fn to_query_pair(&self) -> (r: Option<(String, String)>)
        ensures
            match r {
                Some(pair) => since_pair(*self) == Some((pair.0@, pair.1@)),
                None => since_pair(*self) is None,
            },
    {
        match self {
            WebmentionsSince::SinceId(id) => Some(
                (String::from_str("since_id"), decimal_text(*id)),
            ),
            WebmentionsSince::SinceDate(date) => match print_zoned(date, SINCE_DATE_FORMAT) {
                Some(text) => Some((String::from_str("since"), text)),
                None => None,
            },
        }
    }
}

/// The values of a list of keys and values.
pub open spec fn pairs_view(pairs: Seq<(String, String)>) -> Seq<(Seq<char>, Seq<char>)> {
    pairs.map_values(|pair: (String, String)| (pair.0@, pair.1@))
}

/// The key and the value of each type, where several are asked for.
pub fn types_to_query_pairs(types: &[WebmentionType]) -> (r: Vec<(String, String)>)
    ensures
        pairs_view(r@) == type_pairs(types@),
{
    let mut pairs: Vec<(String, String)> = Vec::new();
    let mut i: usize = 0;
    while i < types.len()
        invariant
            i <= types.len(),
            pairs_view(pairs@) == type_pairs(types@.take(i as int)),
        decreases types.len() - i,
    {
        let ghost before = pairs@;
        let pair = (String::from_str("wm-property[]"), types[i].to_string());
        pairs.push(pair);
        assert(pairs_view(pairs@) =~= pairs_view(before).push((pair.0@, pair.1@)));
        assert(type_pairs(types@.take(i + 1)) =~= type_pairs(types@.take(i as int)).push(
            ("wm-property[]"@, property_name(types@[i as int])),
        ));
        i += 1;
    }
    assert(types@.take(types@.len() as int) =~= types@);
    pairs
}

impl GetWebmentionsRequest {
    /// How many types the request filters by, where it filters by type.
    pub fn types(&self) -> (r: Option<NumWebmentionTypes<'_>>)
        ensures
            match r {
                None => self.types is None,
                Some(NumWebmentionTypes::Zero) => self.types matches Some(types) && types.len()
                    == 0,
                Some(NumWebmentionTypes::Single(kind)) => self.types matches Some(types)
                    && types.len() == 1 && *kind == types[0],
                Some(NumWebmentionTypes::Multiple(kinds)) => self.types matches Some(types)
                    && types.len() > 1 && kinds@ == types@,
            },
    {
        match &self.types {
            None => None,
            Some(types) => {
                if types.len() > 1 {
                    Some(NumWebmentionTypes::Multiple(types.as_slice()))
                } else if types.len() == 1 {
                    Some(NumWebmentionTypes::Single(&types[0]))
                } else {
                    Some(NumWebmentionTypes::Zero)
                }
            },
        }
    }
}

/// The keys and values of a request, in the order of the query.
pub fn request_pairs(req: &GetWebmentionsRequest) -> (r: Result<Vec<(String, String)>, QueryError>)
    ensures
        match r {
            Ok(pairs) => query_pairs(*req) == Ok::<Seq<(Seq<char>, Seq<char>)>, QueryError>(
                pairs_view(pairs@),
            ),
            Err(error) => query_pairs(*req) == Err::<Seq<(Seq<char>, Seq<char>)>, QueryError>(
                error,
            ),
        },
{
    let mut pairs: Vec<(String, String)> = Vec::new();
    assert(pairs_view(pairs@) =~= Seq::empty());
    if let Some(since) = &req.since {
        match since.to_query_pair() {
            Some(pair) => {
                pairs.push(pair);
                assert(pairs_view(pairs@) =~= seq![(pair.0@, pair.1@)]);
            },
            None => return Err(QueryError::DateNotPrintable),
        }
    }
    let ghost first = pairs_view(pairs@);
    match req.types() {
        None => {},
        Some(NumWebmentionTypes::Zero) => return Err(QueryError::NoTypesGiven),
        Some(NumWebmentionTypes::Single(kind)) => {
            let pair = kind.to_query_pair();
            pairs.push(pair);
            assert(pairs_view(pairs@) =~= first + seq![("wm-property"@, property_name(*kind))]);
        },
        Some(NumWebmentionTypes::Multiple(kinds)) => {
            let mut more = types_to_query_pairs(kinds);
            let ghost added = more@;
            pairs.append(&mut more);
            assert(pairs_view(pairs@) =~= first + pairs_view(added));
        },
    }
    Ok(pairs)
}

/// The query that asks for the mentions of a request: its keys and
/// values, each written as `key=value`, with `&` between them.
pub fn create_querystring(req: &GetWebmentionsRequest) -> (r: Result<String, QueryError>)
    ensures
        match r {
            Ok(query) => query_of(*req) == Ok::<Seq<char>, QueryError>(query@),
            Err(error) => query_of(*req) == Err::<Seq<char>, QueryError>(error),
        },
{
    let pairs = match request_pairs(req) {
        Ok(pairs) => pairs,
        Err(error) => return Err(error),
    };
    let ghost parts = pairs_view(pairs@).map_values(
        |pair: (Seq<char>, Seq<char>)| query_part(pair),
    );
    let mut query = String::new();
    let mut i: usize = 0;
    assert(parts.take(0) =~= Seq::<Seq<char>>::empty());
    while i < pairs.len()
        invariant
            i <= pairs.len(),
            parts == pairs_view(pairs@).map_values(|pair: (Seq<char>, Seq<char>)| query_part(pair)),
            query@ == joined(parts.take(i as int)),
        decreases pairs.len() - i,
    {
        assert(parts.take(i + 1).drop_last() =~= parts.take(i as int));
        assert(parts.take(i + 1).last() == query_part((pairs@[i as int].0@, pairs@[i as int].1@)));
        if i > 0 {
            query.append("&");
        }
        let ghost so_far = query@;
        query.append(pairs[i].0.as_str());
        query.append("=");
        query.append(pairs[i].1.as_str());
        assert(query@ =~= so_far + query_part((pairs@[i as int].0@, pairs@[i as int].1@)));
        assert(Seq::<char>::empty() + parts[i as int] =~= parts[i as int]);
        i += 1;
    }
    assert(parts.take(parts.len() as int) =~= parts);
    Ok(query)
}

/// The address that asks the service at `base_url` for the mentions of a
/// request.
pub fn create_request_url(base_url: &str, req: &GetWebmentionsRequest) -> (r: Result<
    String,
    QueryError,
>)
    ensures
        match r {
            Ok(url) => request_url_of(base_url@, *req) == Ok::<Seq<char>, QueryError>(url@),
            Err(error) => request_url_of(base_url@, *req) == Err::<Seq<char>, QueryError>(error),
        },
{
    let url = match join(base_url, WEBMENTIONS_IO_ENDPOINT) {
        Some(url) => url,
        None => return Err(QueryError::InvalidUrl),
    };
    let querystring = match create_querystring(req) {
        Ok(querystring) => querystring,
        Err(error) => return Err(error),
    };
    match with_query(url.as_str(), querystring.as_str()) {
        Some(full) => Ok(full),
        None => Err(QueryError::InvalidUrl),
    }
}

} // verus!
