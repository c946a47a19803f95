use gemlog_sync::gemfeed::GemfeedType;
use gemlog_sync::path::file_stem;
use gemlog_sync::pattern::{find_date, starts_with_date};
use gemlog_sync::text::{
    char_is_whitespace, chars_of, contains, find_first, find_last, matches_at, same_text, trimmed,
};

fn chars(text: &str) -> Vec<char> {
    text.chars().collect()
}

#[test]
fn chars_of_gives_every_character() {
    assert_eq!(chars_of("a\u{e9}\u{1f600}z"), vec!['a', '\u{e9}', '\u{1f600}', 'z']);
    assert_eq!(chars_of(""), Vec::<char>::new());
}

#[test]
fn white_space_is_what_the_standard_library_calls_so() {
    for code in 0..=0x10ffff_u32 {
        if let Some(c) = char::from_u32(code) {
            assert_eq!(char_is_whitespace(c), c.is_whitespace(), "U+{:04X}", code);
        }
    }
}

#[test]
fn trimmed_removes_surrounding_white_space() {
    assert_eq!(trimmed("  Post 2 \n"), "Post 2");
    assert_eq!(trimmed("\u{3000}a b\u{a0}"), "a b");
    assert_eq!(trimmed(" \t "), "");
    assert_eq!(trimmed(""), "");
    assert_eq!(trimmed("x"), "x");
}

#[test]
fn trimmed_agrees_with_the_standard_library() {
    for text in ["", " ", "a", " a", "a ", "  a  b  ", "\n\ta\u{2003}", "\u{200b}a\u{200b}"] {
        assert_eq!(trimmed(text), text.trim(), "{:?}", text);
    }
}

#[test]
fn matches_at_compares_in_place() {
    assert!(matches_at(&chars("hello"), &chars("ll"), 2));
    assert!(!matches_at(&chars("hello"), &chars("ll"), 3));
    assert!(!matches_at(&chars("hello"), &chars("lo"), 4));
    assert!(matches_at(&chars("hello"), &chars(""), 5));
    assert!(!matches_at(&chars("hello"), &chars(""), 6));
}

#[test]
fn find_first_and_last_give_the_outermost_occurrences() {
    let hay = chars("abcabcabc");
    assert_eq!(find_first(&hay, &chars("bc")), Some(1));
    assert_eq!(find_last(&hay, &chars("bc")), Some(7));
    assert_eq!(find_first(&hay, &chars("cb")), None);
    assert_eq!(find_last(&hay, &chars("cb")), None);
    assert_eq!(find_first(&hay, &chars("")), Some(0));
    assert_eq!(find_last(&hay, &chars("")), Some(9));
    assert_eq!(find_first(&chars("ab"), &chars("abc")), None);
    assert_eq!(find_first(&chars("aaa"), &chars("aa")), Some(0));
    assert_eq!(find_last(&chars("aaa"), &chars("aa")), Some(1));
}

#[test]
fn find_counts_characters_not_bytes() {
    let hay = chars("\u{e9}\u{e9}x");
    assert_eq!(find_first(&hay, &chars("x")), Some(2));
    assert_eq!("\u{e9}\u{e9}x".find('x'), Some(4));
}

#[test]
fn contains_and_same_text() {
    assert!(contains("text/gemini; lang=en", "text/gemini"));
    assert!(!contains("text/gemin", "text/gemini"));
    assert!(contains("abc", ""));
    assert!(same_text("abc", "abc"));
    assert!(!same_text("abc", "abd"));
    assert!(!same_text("abc", "ab"));
    assert!(same_text("", ""));
}

#[test]
fn type_indicator_names_the_format() {
    assert_eq!(GemfeedType::from_mime("text/gemini"), GemfeedType::Gemtext);
    assert_eq!(GemfeedType::from_mime("text/gemini; charset=utf-8"), GemfeedType::Gemtext);
    assert_eq!(GemfeedType::from_mime("text/xml"), GemfeedType::Atom);
    assert_eq!(GemfeedType::from_mime("application/atom+xml"), GemfeedType::Atom);
    assert_eq!(GemfeedType::from_mime("text/gemini text/xml"), GemfeedType::Atom);
    assert_eq!(GemfeedType::from_mime("text/plain"), GemfeedType::Unknown);
    assert_eq!(GemfeedType::from_mime(""), GemfeedType::Unknown);
}

#[test]
fn file_stem_of_plain_names() {
    assert_eq!(file_stem("post1.gmi").as_deref(), Some("post1"));
    assert_eq!(file_stem("./post1").as_deref(), Some("post1"));
    assert_eq!(file_stem("posts/2023/post.tar.gz").as_deref(), Some("post.tar"));
    assert_eq!(file_stem(".hidden").as_deref(), Some(".hidden"));
    assert_eq!(file_stem("dir/").as_deref(), Some("dir"));
    assert_eq!(file_stem("name.").as_deref(), Some("name"));
    assert_eq!(file_stem("/"), None);
    assert_eq!(file_stem(""), None);
    assert_eq!(file_stem(".."), None);
    assert_eq!(file_stem("."), None);
}

#[test]
fn file_stem_agrees_with_the_standard_library() {
    let parts = ["", "a", ".", "..", "...", "a.b", ".a", "a.", "a.b.c", "..a", "/", "//", "/.", "./"];
    let mut paths: Vec<String> = parts.iter().map(|p| p.to_string()).collect();
    for left in parts {
        for right in parts {
            paths.push(format!("{}/{}", left, right));
            paths.push(format!("{}{}", left, right));
            paths.push(format!("{}/{}/", left, right));
            paths.push(format!("/{}/./{}", left, right));
        }
    }
    for path in paths {
        let expected = std::path::Path::new(&path)
            .file_stem()
            .map(|stem| stem.to_string_lossy().to_string());
        assert_eq!(file_stem(&path), expected, "{:?}", path);
    }
}

#[test]
fn date_is_found_where_it_stands() {
    assert_eq!(find_date("2023-03-05 Post 2").as_deref(), Some("2023-03-05"));
    assert_eq!(find_date("Post of 2023-03-05").as_deref(), Some("2023-03-05"));
    assert_eq!(find_date("12023-03-0512").as_deref(), Some("2023-03-05"));
    assert_eq!(find_date("2023-3-05"), None);
    assert_eq!(find_date(""), None);
}

#[test]
fn only_a_date_at_the_start_opens_the_text() {
    assert!(starts_with_date("2023-03-05 Post 2"));
    assert!(starts_with_date("2023-03-05"));
    assert!(!starts_with_date(" 2023-03-05"));
    assert!(!starts_with_date("Post of 2023-03-05"));
    assert!(!starts_with_date("Atom Feed"));
}
