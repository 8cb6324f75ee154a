use zeroblog_server::schemas::zeroblog::{Content, ZeroBlog, ZeroBlogPost};
use zeroblog_server::shared_state::SharedState;
use zeroblog_server::zero_site::SiteData;

const FRAME_START: &str = "<link rel=\"stylesheet\" type=\"text/css\" href=\"/css\"><body class=\"loaded page-main\"><div class=\"left\"><div class=\"trigger\"><a class=\"nolink\" href=\"/\"><h1 class=\"title\">";

fn post(id: usize, title: &str, date: i64, body: &str) -> ZeroBlogPost {
    ZeroBlogPost { post_id: id, title: title.to_string(), date_published: date, body: body.to_string() }
}

fn site(posts: Vec<ZeroBlogPost>, next_post_id: usize) -> SiteData {
    let mut s = SiteData::default();
    let mut data = ZeroBlog::default();
    data.title = "My <Blog>".to_string();
    data.description = "".to_string();
    data.next_post_id = next_post_id;
    data.post = posts;
    s.load_data(data);
    s
}

#[test]
fn teaser_is_text_before_separator() {
    assert_eq!(post(1, "", 0, "intro* * *rest* * *more").short_body(), "intro");
    assert_eq!(post(1, "", 0, "no separator").short_body(), "no separator");
    assert_eq!(post(1, "", 0, "* * *x").short_body(), "");
    assert_eq!(post(1, "", 0, "").short_body(), "");
}

#[test]
fn defaults_are_empty() {
    let s = SharedState::default();
    assert_eq!(s.content.title, "");
    assert_eq!(s.data.next_post_id, 0);
    assert!(s.data.post.is_empty());
    let c = Content::default();
    assert!(c.favicon.is_none());
}

#[test]
fn loading_replaces_one_part() {
    let mut s = site(vec![post(1, "a", 0, "b")], 2);
    let mut c = Content::default();
    c.title = "Site".to_string();
    s.load_content(c);
    assert_eq!(s.content.title, "Site");
    assert_eq!(s.data.post.len(), 1);
    s.load_data(ZeroBlog::default());
    assert_eq!(s.content.title, "Site");
    assert!(s.data.post.is_empty());
}

#[test]
fn frame() {
    let s = site(vec![], 1);
    assert_eq!(
        s.render("X".to_string()),
        format!("{}My &lt;Blog&gt;</h1></a><div></div></div></div><div class=\"right\">X</div></body>", FRAME_START)
    );
}

#[test]
fn index_page() {
    let s = site(vec![post(1, "First", 0, "Hi* * *more"), post(2, "B&B", 86400, "Two")], 3);
    assert!(s.index_renderable());
    let expected_inner = "<div class=\"posts\"><div class=\"post\"><h2 class=\"title\">First</h2><p class=\"details\"><span>on </span><span> 1 Jan 1970</span></p><div class=\"body\"><p>Hi</p>\n</div><a href=\"/post/1\">Read more -&gt;</a></div><div class=\"post\"><h2 class=\"title\">B&amp;B</h2><p class=\"details\"><span>on </span><span> 2 Jan 1970</span></p><div class=\"body\"><p>Two</p>\n</div><a href=\"/post/2\">Read more -&gt;</a></div></div>";
    assert_eq!(s.index(), s.render(expected_inner.to_string()));
}

#[test]
fn index_of_empty_blog() {
    let s = site(vec![], 1);
    assert_eq!(s.index(), s.render("<div class=\"posts\"></div>".to_string()));
}

#[test]
fn post_page_with_both_neighbours() {
    let s = site(vec![post(1, "a", 0, "x"), post(2, "Two", 0, "Body"), post(3, "c", 0, "y")], 4);
    assert!(s.post_renderable(2));
    let inner = "<div style=\"display: flex\"><div><a href=\"/post/1\">&lt;- Prev</a></div><div style=\"flex-grow: 1; text-align: center\"><a href=\"/\">Home</a></div><div><a href=\"/post/3\">Next -&gt;</a></div></div><div class=\"post\"><h2>Two</h2><p class=\"details\"><span>on </span><span> 1 Jan 1970</span></p><div class=\"body\"><p>Body</p>\n</div></div>";
    assert_eq!(s.blog_post(2), s.render(inner.to_string()));
}

#[test]
fn first_post_has_no_previous_and_last_no_next() {
    let s = site(vec![post(1, "a", 0, "x")], 2);
    let inner = "<div style=\"display: flex\"><div style=\"flex-grow: 1; text-align: center\"><a href=\"/\">Home</a></div></div><div class=\"post\"><h2>a</h2><p class=\"details\"><span>on </span><span> 1 Jan 1970</span></p><div class=\"body\"><p>x</p>\n</div></div>";
    assert_eq!(s.blog_post(1), s.render(inner.to_string()));
}

#[test]
fn missing_post_is_not_found() {
    let s = site(vec![post(1, "a", 0, "x")], 2);
    let inner = "<div style=\"display: flex\"><div><a href=\"/post/6\">&lt;- Prev</a></div><div style=\"flex-grow: 1; text-align: center\"><a href=\"/\">Home</a></div></div><h2>404 Not Found</h2>";
    assert_eq!(s.blog_post(7), s.render(inner.to_string()));
}

#[test]
fn every_listed_post_has_a_page() {
    let s = site(vec![post(5, "five", 0, "x"), post(5, "again", 0, "y"), post(9, "nine", 0, "z")], 10);
    for p in &s.data.post {
        assert!(!s.blog_post(p.post_id).contains("404 Not Found"));
    }
    assert!(s.blog_post(5).contains("<h2>five</h2>"));
}

#[test]
fn renderability() {
    let s = site(vec![post(1, "a", i64::MAX, "x")], 2);
    assert!(!s.index_renderable());
    assert!(!s.post_renderable(1));
    assert!(s.post_renderable(2));
    let s = site(vec![], 0);
    assert!(!s.post_renderable(1));
}
