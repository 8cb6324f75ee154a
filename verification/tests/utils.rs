use std::borrow::Cow;
use zeroblog_server::utils::datetime::{format_date, format_timestamp, MAX_TIMESTAMP, MIN_TIMESTAMP};
use zeroblog_server::utils::{evaluate, image_to_video, is_absolute_path, markdown};

#[test]
fn absolute_paths() {
    assert!(is_absolute_path("/a/b"));
    assert!(is_absolute_path("/"));
    assert!(!is_absolute_path("//host/a"));
    assert!(!is_absolute_path("a/b"));
    assert!(!is_absolute_path(""));
}

#[test]
fn relative_urls_are_made_absolute() {
    assert_eq!(evaluate("/a/b"), Some(Cow::Borrowed("/a/b")));
    assert_eq!(evaluate("img/x.png"), Some(Cow::Owned::<str>("/img/x.png".to_string())));
    assert_eq!(evaluate(""), Some(Cow::Owned::<str>("/".to_string())));
    assert_eq!(evaluate("//host"), Some(Cow::Owned::<str>("///host".to_string())));
}

#[test]
fn evaluating_twice_changes_nothing_more() {
    for u in ["", "a", "/a", "data/x.mp4", "?q=1"] {
        let once = evaluate(u).unwrap().into_owned();
        let twice = evaluate(&once).unwrap().into_owned();
        assert_eq!(once, twice);
        assert!(is_absolute_path(&once));
    }
}

#[test]
fn media_images_become_players() {
    assert_eq!(
        image_to_video(true, "a.mp4").unwrap(),
        "<video controls=\"controls\" src=\"a.mp4\" title>Your browser does not support the video tag.<span hidden>"
    );
    assert_eq!(image_to_video(false, "a.mp4").unwrap(), "</span></video>");
    assert_eq!(
        image_to_video(true, "b.mp3").unwrap(),
        "<audio controls=\"controls\" src=\"b.mp3\" title>Your browser does not support the audio tag.<span hidden>"
    );
    assert_eq!(image_to_video(false, "b.mp3").unwrap(), "</span></audio>");
    assert_eq!(image_to_video(true, "c.png"), None);
    assert_eq!(image_to_video(false, "c.png"), None);
}

#[test]
fn media_players_open_and_close_together() {
    for d in ["a.mp4", "b.mp3", "c.png", "mp4", ""] {
        assert_eq!(image_to_video(true, d).is_some(), image_to_video(false, d).is_some());
    }
}

#[test]
fn markdown_paragraph() {
    assert_eq!(markdown("Hello *world*"), "<p>Hello <em>world</em></p>\n");
    assert_eq!(markdown(""), "");
}

#[test]
fn markdown_escapes_scripts() {
    assert_eq!(markdown("<script>alert(1)</script>x"), "x");
}

#[test]
fn markdown_rewrites_relative_links() {
    assert_eq!(markdown("[a](b)"), "<p><a href=\"/b\" rel=\"noopener noreferrer\">a</a></p>\n");
    assert_eq!(markdown("[a](/b)"), "<p><a href=\"/b\" rel=\"noopener noreferrer\">a</a></p>\n");
}

#[test]
fn markdown_tables() {
    assert_eq!(
        markdown("|a|\n|-|\n|b|"),
        "<table><thead><tr><th>a</th></tr></thead><tbody>\n<tr><td>b</td></tr>\n</tbody></table>\n"
    );
}

#[test]
fn markdown_video() {
    assert_eq!(
        markdown("![clip](movie.mp4)"),
        "<p><video controls=\"controls\" src=\"/movie.mp4\" title=\"\">Your browser does not support the video tag.<span>clip</span></video></p>\n"
    );
}

#[test]
fn markdown_image_kept() {
    assert_eq!(markdown("![pic](/p.png)"), "<p><img src=\"/p.png\" alt=\"pic\"></p>\n");
}

#[test]
fn dates() {
    assert_eq!(format_date(0), " 1 Jan 1970");
    assert_eq!(format_date(1431648000), "15 May 2015");
    assert_eq!(format_timestamp(0), " 1 Jan 1970 00:00:00");
    assert_eq!(format_timestamp(1431648000 + 3723), "15 May 2015 01:02:03");
    assert_eq!(format_date(-1), "31 Dec 1969");
}

#[test]
fn calendar_bounds() {
    assert_eq!(format_date(MIN_TIMESTAMP), " 1 Jan -262143");
    assert_eq!(format_date(MAX_TIMESTAMP), "31 Dec +262142");
    // Outside the calendar the date cannot be formatted.
    assert_eq!(format_date(MIN_TIMESTAMP - 1), "");
    assert_eq!(format_date(MAX_TIMESTAMP + 1), "");
}

#[test]
fn absolute_paths_are_handed_back_unchanged() {
    assert!(matches!(evaluate("/a/b"), Some(Cow::Borrowed("/a/b"))));
    assert!(matches!(evaluate("a/b"), Some(Cow::Owned(_))));
}

#[test]
fn markdown_audio_and_other_images_together() {
    assert_eq!(
        markdown("![song](s.mp3) ![pic](/p.png)"),
        "<p><audio controls=\"controls\" src=\"/s.mp3\" title=\"\">Your browser does not support the audio tag.<span>song</span></audio> <img src=\"/p.png\" alt=\"pic\"></p>\n"
    );
}

#[test]
fn dates_across_the_calendar() {
    assert_eq!(format_date(-62003750400), " 7 Mar 0005");
    assert_eq!(format_date(-62293536000), "31 Dec -0005");
    assert_eq!(format_date(253407398400), "29 Feb +10000");
    assert_eq!(format_date(-62162121600), "29 Feb 0000");
    assert_eq!(format_date(1709164800), "29 Feb 2024");
    assert_eq!(format_date(-2203891200), " 1 Mar 1900");
    assert_eq!(format_timestamp(1709164800 + 45296), "29 Feb 2024 12:34:56");
    assert_eq!(format_timestamp(-1), "31 Dec 1969 23:59:59");
}

#[test]
fn timestamp_text_extends_date_text() {
    for t in [0i64, -1, 1709164800 + 45296, MIN_TIMESTAMP, MAX_TIMESTAMP] {
        let date = format_date(t);
        let full = format_timestamp(t);
        assert!(full.starts_with(&date));
        assert_eq!(full.len(), date.len() + 9);
    }
}

#[test]
fn same_day_same_date() {
    assert_eq!(format_date(86400), format_date(86400 + 86399));
    assert_eq!(format_date(-86400), format_date(-1));
}
