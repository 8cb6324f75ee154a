//! Markdown rendering of post bodies and the URL rules applied to it.

pub mod datetime;

use std::borrow::Cow;
use pulldown_cmark::{html, Event, Options, Parser, Tag};
use vstd::prelude::*;
use crate::text::{chars_of, ends_with, has_suffix};

verus! {

/// A URL is an absolute path when it starts with one `/` that is not followed by
/// another `/` (`//host/path` is protocol-relative, `/a/b` is an absolute path).
pub open spec fn spec_is_absolute_path(url: Seq<char>) -> bool {
    url.len() >= 1 && url[0] == '/' && !(url.len() >= 2 && url[1] == '/')
}

/// What a relative URL of a post is rewritten to: absolute paths are kept, any
/// other URL gets a leading `/`.
pub open spec fn spec_evaluate(url: Seq<char>) -> Seq<char> {
    if spec_is_absolute_path(url) {
        url
    } else {
        seq!['/'] + url
    }
}

/// Whether `url` is an absolute path (not a protocol-relative URL).
pub fn is_absolute_path(url: &str) -> (b: bool)
    ensures
        b == spec_is_absolute_path(url@),
{
    let cs = chars_of(url);
    cs.len() >= 1 && cs[0] == '/' && !(cs.len() >= 2 && cs[1] == '/')
}

/// Rewrites a relative URL found in rendered markdown: absolute paths are kept
/// as they are, every other URL is made absolute by prefixing `/`.
pub fn evaluate(url: &str) -> (r: Option<Cow<'_, str>>)
    ensures
        r matches Some(u) && u@ == spec_evaluate(url@),
        spec_is_absolute_path(url@) ==> r == Some(Cow::Borrowed(url)),
{
    if is_absolute_path(url) {
        Some(Cow::Borrowed(url))
    } else {
        let mut s = String::from_str("/");
        s.append(url);
        proof {
            reveal_strlit("/");
            assert(s@ =~= seq!['/'] + url@);
        }
        Some(Cow::Owned(s))
    }
}

/// Rewriting twice gives what rewriting once gives, for every URL that is not
/// protocol-relative (does not start with `//`).
pub proof fn lemma_evaluate_idempotent(url: Seq<char>)
    requires
        !(url.len() >= 2 && url[0] == '/' && url[1] == '/'),
    ensures
        spec_is_absolute_path(spec_evaluate(url)),
        spec_evaluate(spec_evaluate(url)) == spec_evaluate(url),
{
    if !spec_is_absolute_path(url) {
        let e = seq!['/'] + url;
        assert(e[0] == '/');
        if url.len() >= 1 {
            assert(e[1] == url[0]);
            assert(url[0] != '/');
        }
    }
}


/// The HTML that replaces the start (`is_start`) or the end of a markdown image
/// whose destination is `dest`: images of `.mp4` files become `<video>` players
/// and images of `.mp3` files `<audio>` players; other images are kept.
///
/// The image's alternative text, which markdown renders between the start and the
/// end, ends up inside a hidden `<span>`.
pub open spec fn media_replacement(is_start: bool, dest: Seq<char>) -> Option<Seq<char>> {
    if has_suffix(dest, ".mp4"@) {
        Some(
            if is_start {
                "<video controls=\"controls\" src=\""@ + dest
                    + "\" title>Your browser does not support the video tag.<span hidden>"@
            } else {
                "</span></video>"@
            },
        )
    } else if has_suffix(dest, ".mp3"@) {
        Some(
            if is_start {
                "<audio controls=\"controls\" src=\""@ + dest
                    + "\" title>Your browser does not support the audio tag.<span hidden>"@
            } else {
                "</span></audio>"@
            },
        )
    } else {
        None
    }
}

/// The HTML that replaces the start or the end of a markdown image with
/// destination `dest`, or `None` when the image is kept as an image.
pub fn image_to_video(is_start: bool, dest: &str) -> (r: Option<String>)
    ensures
        r matches Some(h) ==> media_replacement(is_start, dest@) == Some(h@),
        r is None <==> media_replacement(is_start, dest@) is None,
{
    if ends_with(dest, ".mp4") {
        if is_start {
            let mut h = String::from_str("<video controls=\"controls\" src=\"");
            h.append(dest);
            h.append("\" title>Your browser does not support the video tag.<span hidden>");
            Some(h)
        } else {
            Some(String::from_str("</span></video>"))
        }
    } else if ends_with(dest, ".mp3") {
        if is_start {
            let mut h = String::from_str("<audio controls=\"controls\" src=\"");
            h.append(dest);
            h.append("\" title>Your browser does not support the audio tag.<span hidden>");
            Some(h)
        } else {
            Some(String::from_str("</span></audio>"))
        }
    } else {
        None
    }
}

/// The start of an image is replaced exactly when its end is: a media player that
/// is opened is also closed, and an image that is kept stays whole.
pub proof fn lemma_media_replacement_balanced(dest: Seq<char>)
    ensures
        media_replacement(true, dest) is Some <==> media_replacement(false, dest) is Some,
{
}

/// The images among the events that pulldown-cmark's parser yields for
/// `content` (with tables enabled when `tables`): for each event, in order,
/// `Some((is_start, dest))` when it starts (`is_start`) or ends an image whose
/// destination is `dest`, and `None` for any other event.
pub uninterp spec fn cmark_image_events(content: Seq<char>, tables: bool) -> Seq<Option<(bool, Seq<char>)>>;

/// HTML that pulldown-cmark's `push_html` writes for the events of its parser on
/// `content` (with tables enabled when `tables`), where event `i` is replaced by
/// an HTML event holding `replacements[i]` whenever that is `Some`.
pub uninterp spec fn cmark_html_with(
    content: Seq<char>,
    tables: bool,
    replacements: Seq<Option<Seq<char>>>,
) -> Seq<char>;

/// For each event, the HTML that replaces it: a media player's start or end for
/// the start or end of an `.mp4` or `.mp3` image, nothing otherwise.
pub open spec fn media_replacements(events: Seq<Option<(bool, Seq<char>)>>) -> Seq<Option<Seq<char>>> {
    Seq::new(
        events.len(),
        |i: int|
            match events[i] {
                Some((is_start, dest)) => media_replacement(is_start, dest),
                None => None,
            },
    )
}

/// The HTML of a markdown text, with its `.mp4` and `.mp3` images turned into
/// media players.
pub open spec fn markdown_html(content: Seq<char>, tables: bool) -> Seq<char> {
    cmark_html_with(content, tables, media_replacements(cmark_image_events(content, tables)))
}

/// HTML that ammonia's default cleaner returns for `html` once `extra_tags` are
/// allowed, each with the attributes `tag_attributes`, and relative URLs are
/// rewritten by `evaluate`.
pub uninterp spec fn sanitized_html(
    html: Seq<char>,
    extra_tags: Seq<Seq<char>>,
    tag_attributes: Seq<Seq<char>>,
) -> Seq<char>;

/// The images among the events of a markdown text.
///
/// Trusted wrapper around `pulldown_cmark::Parser::new_ext`: each event it yields
/// is mapped to the destination of the image it starts or ends, or to `None`. The
/// result is only named (`cmark_image_events`).
#[verifier::external_body]
fn image_events(content: &str, tables: bool) -> (events: Vec<Option<(bool, String)>>)
    ensures
        events.deep_view() == cmark_image_events(content@, tables),
{
    let mut options = Options::empty();
    options.set(Options::ENABLE_TABLES, tables);
    Parser::new_ext(content, options).map(|e| match e {
        Event::Start(Tag::Image(_, dest, _)) => Some((true, dest.to_string())),
        Event::End(Tag::Image(_, dest, _)) => Some((false, dest.to_string())),
        _ => None,
    }).collect()
}

/// Renders markdown to HTML with some events replaced.
///
/// Trusted wrapper around `pulldown_cmark::Parser::new_ext` and
/// `pulldown_cmark::html::push_html`: the parser's events are handed to
/// `push_html`, event `i` replaced by `Event::Html(replacements[i])` when that is
/// `Some`. The parser is deterministic, so its events are those that
/// `image_events` sees. The result is only named (`cmark_html_with`).
#[verifier::external_body]
fn render_with(content: &str, tables: bool, replacements: &Vec<Option<String>>) -> (html: String)
    ensures
        html@ == cmark_html_with(content@, tables, replacements.deep_view()),
{
    let mut options = Options::empty();
    options.set(Options::ENABLE_TABLES, tables);
    let events = Parser::new_ext(content, options).enumerate().map(|(i, e)| match replacements.get(i) {
        Some(Some(h)) => Event::Html(h.clone().into()),
        _ => e,
    });
    let mut out = String::new();
    html::push_html(&mut out, events);
    out
}

/// For each event, the HTML that `image_to_video` puts in its place.
fn media_html(events: &Vec<Option<(bool, String)>>) -> (r: Vec<Option<String>>)
    ensures
        r.deep_view() == media_replacements(events.deep_view()),
{
    let mut r: Vec<Option<String>> = Vec::new();
    let mut i: usize = 0;
    while i < events.len()
        invariant
            i <= events.len(),
            r.deep_view() == media_replacements(events.deep_view()).take(i as int),
        decreases events.len() - i,
    {
        let h = match &events[i] {
            Some((is_start, dest)) => image_to_video(*is_start, dest.as_str()),
            None => None,
        };
        proof {
            assert(h.deep_view() == media_replacements(events.deep_view())[i as int]);
        }
        let ghost before = r.deep_view();
        r.push(h);
        assert(r.deep_view() =~= before.push(h.deep_view()));
        assert(media_replacements(events.deep_view()).take(i + 1) =~= media_replacements(
            events.deep_view(),
        ).take(i as int).push(h.deep_view()));
        i = i + 1;
    }
    assert(media_replacements(events.deep_view()).take(events.len() as int) =~= media_replacements(
        events.deep_view(),
    ));
    r
}

/// Tags that ammonia refuses to allow: those whose content it always strips
/// (`script`, `style`) and the SVG animation tags.
pub open spec fn refused_by_ammonia(tag: Seq<char>) -> bool {
    tag == "script"@ || tag == "style"@ || tag == "animate"@ || tag == "animateTransform"@
        || tag == "animateMotion"@ || tag == "animateColor"@ || tag == "set"@
}

/// Sanitizes HTML.
///
/// Trusted wrapper around `ammonia::Builder::default`, `add_tags`,
/// `add_tag_attributes`, `url_relative` and `clean`: every tag of `media_tags` is
/// allowed with the attributes `media_attributes`, and relative URLs are passed to
/// `evaluate`. `clean` asserts that no allowed tag is refused by ammonia and that
/// `a` is not given `rel` (the default builder adds `rel` to links itself); the
/// `requires` leaves those inputs out. The contract only names the result
/// (`sanitized_html`).
#[verifier::external_body]
fn sanitize_html(html: &str, media_tags: &Vec<String>, media_attributes: &Vec<String>) -> (clean: String)
    requires
        forall|i: int| 0 <= i < media_tags.len() ==> !refused_by_ammonia(#[trigger] media_tags@[i]@),
        !(media_tags.deep_view().contains("a"@) && media_attributes.deep_view().contains("rel"@)),
    ensures
        clean@ == sanitized_html(html@, media_tags.deep_view(), media_attributes.deep_view()),
{
    let mut b = ammonia::Builder::default();
    b.add_tags(media_tags.iter().map(|t| t.as_str()));
    for tag in media_tags.iter() {
        b.add_tag_attributes(tag.as_str(), media_attributes.iter().map(|a| a.as_str()));
    }
    b.url_relative(ammonia::UrlRelative::Custom(Box::new(evaluate)));
    b.clean(html).to_string()
}

/// The tags that post bodies may use beyond ammonia's defaults.
pub open spec fn media_tags() -> Seq<Seq<char>> {
    seq!["video"@, "audio"@]
}

/// The attributes allowed on each of `media_tags`.
pub open spec fn media_attributes() -> Seq<Seq<char>> {
    seq!["src"@, "controls"@]
}

/// The sanitized HTML of a markdown text, as the pages show it.
pub open spec fn spec_markdown(content: Seq<char>) -> Seq<char> {
    sanitized_html(markdown_html(content, true), media_tags(), media_attributes())
}

/// Renders markdown (with tables) to HTML, turning images of `.mp4` and `.mp3`
/// files into `<video>` and `<audio>` players, and sanitizes it, allowing those
/// players with `src` and `controls`.
pub fn markdown(content: &str) -> (html: String)
    ensures
        html@ == spec_markdown(content@),
{
    let events = image_events(content, true);
    let replacements = media_html(&events);
    let raw = render_with(content, true, &replacements);
    let tags = vec![String::from_str("video"), String::from_str("audio")];
    let attrs = vec![String::from_str("src"), String::from_str("controls")];
    assert(tags.deep_view() =~= media_tags());
    assert(attrs.deep_view() =~= media_attributes());
    proof {
        reveal_strlit("video");
        reveal_strlit("audio");
        reveal_strlit("script");
        reveal_strlit("style");
        reveal_strlit("animate");
        reveal_strlit("animateTransform");
        reveal_strlit("animateMotion");
        reveal_strlit("animateColor");
        reveal_strlit("set");
        reveal_strlit("a");
        assert forall|i: int| 0 <= i < tags.len() implies !refused_by_ammonia(#[trigger] tags@[i]@) by {
            assert(tags@[i]@.len() == 5);
            assert(tags@[i]@[1] != 'c' && tags@[i]@[0] != 's');
        }
        assert(!media_tags().contains("a"@)) by {
            assert(media_tags()[0].len() == 5 && media_tags()[1].len() == 5);
        }
    }
    sanitize_html(raw.as_str(), &tags, &attrs)
}

} // verus!
