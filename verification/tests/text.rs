use zeroblog_server::html::escape_html;
use zeroblog_server::text::{chars_of, ends_with, find_first, push_decimal, string_of_chars};

#[test]
fn decimal_notation() {
    let mut s = String::from("n=");
    push_decimal(&mut s, 0);
    assert_eq!(s, "n=0");
    let mut s = String::new();
    push_decimal(&mut s, 1234567890);
    assert_eq!(s, "1234567890");
}

#[test]
fn suffixes() {
    assert!(ends_with("clip.mp4", ".mp4"));
    assert!(!ends_with("clip.mp3", ".mp4"));
    assert!(!ends_with("mp4", ".mp4"));
    assert!(ends_with("ü.mp3", ".mp3"));
}

#[test]
fn first_occurrence() {
    let s = chars_of("ab* * *cd* * *");
    let p = chars_of("* * *");
    assert_eq!(find_first(&s, &p), Some(2));
    assert_eq!(find_first(&chars_of("abc"), &p), None);
    assert_eq!(string_of_chars(&s, 0, 2), "ab");
}

#[test]
fn escaping() {
    assert_eq!(escape_html("<a href=\"x\">&'</a>"), "&lt;a href=&quot;x&quot;&gt;&amp;'&lt;/a&gt;");
    assert_eq!(escape_html("/post/12"), "/post/12");
}
