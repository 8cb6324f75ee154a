//! The pages of one ZeroBlog site: its index of posts and one page per post.

use vstd::prelude::*;
use crate::args::{is_digit, lemma_decimal_digits};
use crate::html::{escape_html, html_escaped, is_html_special, lemma_escape_plain};
use crate::schemas::zeroblog::{first_piece, teaser_separator, Content, ZeroBlog, ZeroBlogPost};
use crate::text::{contains_pattern, decimal, has_suffix, occurs_at, push_decimal};
use crate::utils::datetime::{date_text, format_date, MAX_TIMESTAMP, MIN_TIMESTAMP};
use crate::utils::{markdown, spec_markdown};

verus! {

/// What is known of one site: its description and its blog.
pub struct SiteData {
    pub content: Content,
    pub data: ZeroBlog,
}

impl Default for SiteData {
    fn default() -> (r: Self)
        ensures
            r.content.address@ == Seq::<char>::empty(),
            r.content.title@ == Seq::<char>::empty(),
            r.content.description@ == Seq::<char>::empty(),
            r.content.modified == 0,
            r.content.favicon is None,
            r.data.title@ == Seq::<char>::empty(),
            r.data.description@ == Seq::<char>::empty(),
            r.data.links@ == Seq::<char>::empty(),
            r.data.next_post_id == 0,
            !r.data.demo,
            r.data.modified == 0,
            r.data.post@ == Seq::<ZeroBlogPost>::empty(),
            r.data.tag@.len() == 0,
    {
        SiteData { content: Content::default(), data: ZeroBlog::default() }
    }
}

/// The page frame: the site's title and description on the left, `inner` on the
/// right.
pub open spec fn page_html(title: Seq<char>, description: Seq<char>, inner: Seq<char>) -> Seq<char> {
    "<link rel=\"stylesheet\" type=\"text/css\" href=\"/css\"><body class=\"loaded page-main\"><div class=\"left\"><div class=\"trigger\"><a class=\"nolink\" href=\"/\"><h1 class=\"title\">"@
        + html_escaped(title) + "</h1></a><div>"@ + spec_markdown(description)
        + "</div></div></div><div class=\"right\">"@ + inner + "</div></body>"@
}

/// The link to the page of post `id`.
pub open spec fn post_link(id: nat) -> Seq<char> {
    "/post/"@ + decimal(id)
}

/// The shown date of a post.
pub open spec fn post_date(p: ZeroBlogPost) -> Seq<char> {
    date_text(p.date_published as int)
}

/// The date of every post can be shown.
pub open spec fn dates_in_range(posts: Seq<ZeroBlogPost>) -> bool {
    forall|i: int| 0 <= i < posts.len() ==> MIN_TIMESTAMP <= #[trigger] posts[i].date_published <= MAX_TIMESTAMP
}

/// One entry of the index: title, date, teaser and a link to the post.
pub open spec fn post_summary_html(p: ZeroBlogPost) -> Seq<char> {
    "<div class=\"post\"><h2 class=\"title\">"@ + html_escaped(p.title@)
        + "</h2><p class=\"details\"><span>on </span><span>"@ + html_escaped(post_date(p))
        + "</span></p><div class=\"body\">"@ + spec_markdown(first_piece(p.body@, teaser_separator()))
        + "</div><a href=\""@ + html_escaped(post_link(p.post_id as nat)) + "\">Read more -&gt;</a></div>"@
}

/// The entries of the index for `posts`, in order.
pub open spec fn post_summaries_html(posts: Seq<ZeroBlogPost>) -> Seq<char>
    decreases posts.len(),
{
    if posts.len() == 0 {
        Seq::empty()
    } else {
        post_summaries_html(posts.drop_last()) + post_summary_html(posts.last())
    }
}

/// The inner part of the index page.
pub open spec fn index_inner_html(posts: Seq<ZeroBlogPost>) -> Seq<char> {
    "<div class=\"posts\">"@ + post_summaries_html(posts) + "</div>"@
}

/// The first post with id `id`, if any.
pub open spec fn find_post(posts: Seq<ZeroBlogPost>, id: usize) -> Option<ZeroBlogPost>
    decreases posts.len(),
{
    if posts.len() == 0 {
        None
    } else if posts[0].post_id == id {
        Some(posts[0])
    } else {
        find_post(posts.drop_first(), id)
    }
}

/// The navigation bar above a post: a link to the previous post when
/// `post_id > 1`, a link home, and a link to the next post when
/// `post_id < next_post_id - 1`.
pub open spec fn post_navigation_html(post_id: usize, next_post_id: usize) -> Seq<char> {
    "<div style=\"display: flex\">"@ + (if post_id > 1 {
        "<div><a href=\""@ + html_escaped(post_link((post_id - 1) as nat)) + "\">&lt;- Prev</a></div>"@
    } else {
        Seq::empty()
    }) + "<div style=\"flex-grow: 1; text-align: center\"><a href=\"/\">Home</a></div>"@ + (if post_id
        < next_post_id - 1 {
        "<div><a href=\""@ + html_escaped(post_link((post_id + 1) as nat)) + "\">Next -&gt;</a></div>"@
    } else {
        Seq::empty()
    }) + "</div>"@
}

/// The body of a post's page: the post in full, or a "404 Not Found" heading.
pub open spec fn post_body_html(post: Option<ZeroBlogPost>) -> Seq<char> {
    match post {
        Some(p) => "<div class=\"post\"><h2>"@ + html_escaped(p.title@)
            + "</h2><p class=\"details\"><span>on </span><span>"@ + html_escaped(post_date(p))
            + "</span></p><div class=\"body\">"@ + spec_markdown(p.body@) + "</div></div>"@,
        None => "<h2>404 Not Found</h2>"@,
    }
}

/// Position of the first post with id `post_id`.
fn find_post_index(posts: &Vec<ZeroBlogPost>, post_id: usize) -> (found: Option<usize>)
    ensures
        found matches Some(k) ==> k < posts.len() && find_post(posts@, post_id) == Some(posts@[k as int]),
        found is None ==> find_post(posts@, post_id) is None,
{
    let mut found: Option<usize> = None;
    let mut i: usize = 0;
    assert(posts@.skip(0) =~= posts@);
    while i < posts.len()
        invariant_except_break
            found is None,
        invariant
            i <= posts.len(),
            find_post(posts@, post_id) == find_post(posts@.skip(i as int), post_id),
        ensures
            found matches Some(k) ==> k < posts.len() && find_post(posts@, post_id) == Some(
                posts@[k as int],
            ),
            found is None ==> find_post(posts@, post_id) is None,
        decreases posts.len() - i,
    {
        assert(posts@.skip(i as int).drop_first() =~= posts@.skip(i + 1));
        assert(posts@.skip(i as int)[0] == posts@[i as int]);
        if posts[i].post_id == post_id {
            found = Some(i);
            break;
        }
        i = i + 1;
    }
    found
}

/// Every post listed on the index has a page: looking its id up finds a post
/// with that id (the first one, when ids repeat).
pub proof fn lemma_listed_posts_have_pages(posts: Seq<ZeroBlogPost>, i: int)
    requires
        0 <= i < posts.len(),
    ensures
        find_post(posts, posts[i].post_id) matches Some(q) && q.post_id == posts[i].post_id,
    decreases posts.len(),
{
    if posts[0].post_id != posts[i].post_id {
        assert(posts.drop_first()[i - 1] == posts[i]);
        lemma_listed_posts_have_pages(posts.drop_first(), i - 1);
    }
}

/// The links to posts are written into the pages as they are: escaping leaves
/// `/post/<id>` unchanged.
pub proof fn lemma_post_link_unescaped(id: nat)
    ensures
        html_escaped(post_link(id)) == post_link(id),
{
    reveal_strlit("/post/");
    lemma_decimal_digits(id);
    let l = post_link(id);
    assert forall|i: int| 0 <= i < l.len() implies !is_html_special(#[trigger] l[i]) by {
        if i >= 6 {
            assert(l[i] == decimal(id)[i - 6]);
            assert(is_digit(decimal(id)[i - 6]));
        }
    }
    lemma_escape_plain(l);
}

/// `s` holds no character `c`.
pub open spec fn lacks(s: Seq<char>, c: char) -> bool {
    forall|i: int| 0 <= i < s.len() ==> s[i] != c
}

/// A text is found where it was put: `p` occurs in `a + p + b` right after `a`.
pub proof fn lemma_occurs_between(a: Seq<char>, p: Seq<char>, b: Seq<char>)
    ensures
        occurs_at(a + p + b, p, a.len() as int),
        contains_pattern(a + p + b, p),
{
    assert((a + p + b).subrange(a.len() as int, (a.len() + p.len()) as int) =~= p);
}

proof fn lemma_lacks_concat(a: Seq<char>, b: Seq<char>, c: char)
    requires
        lacks(a, c),
        lacks(b, c),
    ensures
        lacks(a + b, c),
{
    assert forall|i: int| 0 <= i < (a + b).len() implies (a + b)[i] != c by {
        if i < a.len() {
            assert((a + b)[i] == a[i]);
        } else {
            assert((a + b)[i] == b[i - a.len()]);
        }
    }
}

proof fn lemma_lacks_no_pattern(s: Seq<char>, p: Seq<char>)
    requires
        p.len() > 0,
        lacks(s, p[0]),
    ensures
        !contains_pattern(s, p),
{
    if contains_pattern(s, p) {
        let i = choose|i: int| occurs_at(s, p, i);
        assert(s.subrange(i, i + p.len())[0] == s[i]);
    }
}

proof fn lemma_link_lacks(id: nat, c: char)
    requires
        c == 'N' || c == 'P',
    ensures
        lacks(html_escaped(post_link(id)), c),
{
    lemma_post_link_unescaped(id);
    reveal_strlit("/post/");
    lemma_decimal_digits(id);
    let l = post_link(id);
    assert forall|i: int| 0 <= i < l.len() implies l[i] != c by {
        if i >= 6 {
            assert(l[i] == decimal(id)[i - 6]);
            assert(is_digit(decimal(id)[i - 6]));
        }
    }
}

/// The link to the next post on the page of post `post_id`.
pub open spec fn next_link_html(post_id: nat) -> Seq<char> {
    post_link(post_id + 1) + "\">Next -&gt;</a></div>"@
}

/// The link to the previous post on the page of post `post_id`.
pub open spec fn prev_link_html(post_id: nat) -> Seq<char> {
    post_link((post_id - 1) as nat) + "\">&lt;- Prev</a></div>"@
}

/// The navigation of a post's page links to the next post exactly when
/// `post_id < next_post_id - 1`, and to the previous post exactly when
/// `post_id > 1`, each whatever the other condition is; the links lead to the
/// posts `post_id + 1` and `post_id - 1`.
pub proof fn lemma_navigation_links(post_id: usize, next_post_id: usize)
    requires
        next_post_id >= 1,
    ensures
        contains_pattern(post_navigation_html(post_id, next_post_id), "Next"@) <==> post_id
            < next_post_id - 1,
        contains_pattern(post_navigation_html(post_id, next_post_id), "Prev"@) <==> post_id > 1,
        post_id < next_post_id - 1 ==> contains_pattern(
            post_navigation_html(post_id, next_post_id),
            next_link_html(post_id as nat),
        ),
        post_id > 1 ==> contains_pattern(
            post_navigation_html(post_id, next_post_id),
            prev_link_html(post_id as nat),
        ),
{
    reveal_strlit("Next");
    reveal_strlit("Prev");
    reveal_strlit("<div style=\"display: flex\">");
    reveal_strlit("<div><a href=\"");
    reveal_strlit("\">&lt;- Prev</a></div>");
    reveal_strlit("<div style=\"flex-grow: 1; text-align: center\"><a href=\"/\">Home</a></div>");
    reveal_strlit("\">Next -&gt;</a></div>");
    reveal_strlit("</div>");
    let head = "<div style=\"display: flex\">"@;
    let open_link = "<div><a href=\""@;
    let prev_tail = "\">&lt;- Prev</a></div>"@;
    let home = "<div style=\"flex-grow: 1; text-align: center\"><a href=\"/\">Home</a></div>"@;
    let next_tail = "\">Next -&gt;</a></div>"@;
    let close = "</div>"@;
    let has_prev = post_id > 1;
    let has_next = post_id < next_post_id - 1;
    let prev_part = if has_prev {
        open_link + html_escaped(post_link((post_id - 1) as nat)) + prev_tail
    } else {
        Seq::empty()
    };
    let next_part = if has_next {
        open_link + html_escaped(post_link((post_id + 1) as nat)) + next_tail
    } else {
        Seq::empty()
    };
    let nav = post_navigation_html(post_id, next_post_id);
    assert(nav == head + prev_part + home + next_part + close);
    // Characters of the fixed parts.
    assert(lacks(head, 'N') && lacks(head, 'P'));
    assert(lacks(open_link, 'N') && lacks(open_link, 'P'));
    assert(lacks(home, 'N') && lacks(home, 'P'));
    assert(lacks(close, 'N') && lacks(close, 'P'));
    assert(lacks(prev_tail, 'N'));
    assert(lacks(next_tail, 'P'));
    let empty = Seq::<char>::empty();
    assert(lacks(empty, 'N') && lacks(empty, 'P'));
    if has_prev {
        lemma_post_link_unescaped((post_id - 1) as nat);
        lemma_link_lacks((post_id - 1) as nat, 'N');
        lemma_lacks_concat(open_link, html_escaped(post_link((post_id - 1) as nat)), 'N');
        lemma_lacks_concat(open_link + html_escaped(post_link((post_id - 1) as nat)), prev_tail, 'N');
    } else {
    }
    if has_next {
        lemma_post_link_unescaped((post_id + 1) as nat);
        lemma_link_lacks((post_id + 1) as nat, 'P');
        lemma_lacks_concat(open_link, html_escaped(post_link((post_id + 1) as nat)), 'P');
        lemma_lacks_concat(open_link + html_escaped(post_link((post_id + 1) as nat)), next_tail, 'P');
    }
    assert(lacks(prev_part, 'N'));
    assert(lacks(next_part, 'P'));
    // "Next" is found exactly when the next link is there.
    if has_next {
        let a = head + prev_part + home + open_link + post_link((post_id + 1) as nat);
        assert(nav =~= a + next_tail + close);
        assert(next_tail =~= "\">"@ + "Next"@ + " -&gt;</a></div>"@) by {
            reveal_strlit("\">");
            reveal_strlit(" -&gt;</a></div>");
        }
        assert(nav =~= (a + "\">"@) + "Next"@ + (" -&gt;</a></div>"@ + close));
        lemma_occurs_between(a + "\">"@, "Next"@, " -&gt;</a></div>"@ + close);
        let a2 = head + prev_part + home + open_link;
        assert(nav =~= a2 + next_link_html(post_id as nat) + close);
        lemma_occurs_between(a2, next_link_html(post_id as nat), close);
    } else {
        lemma_lacks_concat(head, prev_part, 'N');
        lemma_lacks_concat(head + prev_part, home, 'N');
        lemma_lacks_concat(head + prev_part + home, next_part, 'N');
        lemma_lacks_concat(head + prev_part + home + next_part, close, 'N');
        lemma_lacks_no_pattern(nav, "Next"@);
    }
    if has_prev {
        let a = head + open_link + post_link((post_id - 1) as nat);
        assert(prev_tail =~= "\">&lt;- "@ + "Prev"@ + "</a></div>"@) by {
            reveal_strlit("\">&lt;- ");
            reveal_strlit("</a></div>");
        }
        assert(nav =~= (a + "\">&lt;- "@) + "Prev"@ + ("</a></div>"@ + home + next_part + close));
        lemma_occurs_between(a + "\">&lt;- "@, "Prev"@, "</a></div>"@ + home + next_part + close);
        assert(nav =~= (head + open_link) + prev_link_html(post_id as nat) + (home + next_part + close));
        lemma_occurs_between(head + open_link, prev_link_html(post_id as nat), home + next_part + close);
    } else {
        lemma_lacks_concat(head, prev_part, 'P');
        lemma_lacks_concat(head + prev_part, home, 'P');
        lemma_lacks_concat(head + prev_part + home, next_part, 'P');
        lemma_lacks_concat(head + prev_part + home + next_part, close, 'P');
        lemma_lacks_no_pattern(nav, "Prev"@);
    }
}

proof fn lemma_contains_trans(x: Seq<char>, y: Seq<char>, z: Seq<char>)
    requires
        contains_pattern(x, y),
        contains_pattern(y, z),
    ensures
        contains_pattern(x, z),
{
    let i = choose|i: int| occurs_at(x, y, i);
    let j = choose|j: int| occurs_at(y, z, j);
    assert(x.subrange(i + j, i + j + z.len()) =~= y.subrange(j, j + z.len()));
    assert(occurs_at(x, z, i + j));
}

proof fn lemma_contains_in_concat(a: Seq<char>, b: Seq<char>, p: Seq<char>)
    ensures
        contains_pattern(a, p) ==> contains_pattern(a + b, p),
        contains_pattern(b, p) ==> contains_pattern(a + b, p),
        has_suffix(b, p) ==> contains_pattern(b, p),
{
    if contains_pattern(a, p) {
        let i = choose|i: int| occurs_at(a, p, i);
        assert((a + b).subrange(i, i + p.len()) =~= a.subrange(i, i + p.len()));
        assert(occurs_at(a + b, p, i));
    }
    if contains_pattern(b, p) {
        let i = choose|i: int| occurs_at(b, p, i);
        assert((a + b).subrange(a.len() + i, a.len() + i + p.len()) =~= b.subrange(i, i + p.len()));
        assert(occurs_at(a + b, p, a.len() + i));
    }
    if has_suffix(b, p) {
        assert(occurs_at(b, p, b.len() - p.len()));
    }
}

/// Every page shows, under the site's title, its description rendered as
/// markdown, and the page's own content `inner`.
pub proof fn lemma_page_shows_description(title: Seq<char>, description: Seq<char>, inner: Seq<char>)
    ensures
        contains_pattern(
            page_html(title, description, inner),
            html_escaped(title) + "</h1></a><div>"@ + spec_markdown(description),
        ),
        contains_pattern(page_html(title, description, inner), inner),
{
    let head = "<link rel=\"stylesheet\" type=\"text/css\" href=\"/css\"><body class=\"loaded page-main\"><div class=\"left\"><div class=\"trigger\"><a class=\"nolink\" href=\"/\"><h1 class=\"title\">"@;
    let mid = "</div></div></div><div class=\"right\">"@;
    let tail = "</div></body>"@;
    let shown = html_escaped(title) + "</h1></a><div>"@ + spec_markdown(description);
    assert(page_html(title, description, inner) =~= head + shown + (mid + inner + tail));
    lemma_occurs_between(head, shown, mid + inner + tail);
    assert(page_html(title, description, inner) =~= (head + shown + mid) + inner + tail);
    lemma_occurs_between(head + shown + mid, inner, tail);
}

/// The page of a post shows the markdown of its whole body, not only its teaser.
pub proof fn lemma_post_body_whole(p: ZeroBlogPost)
    ensures
        has_suffix(post_body_html(Some(p)), spec_markdown(p.body@) + "</div></div>"@),
{
    let b = post_body_html(Some(p));
    let s = spec_markdown(p.body@) + "</div></div>"@;
    let a = "<div class=\"post\"><h2>"@ + html_escaped(p.title@)
        + "</h2><p class=\"details\"><span>on </span><span>"@ + html_escaped(post_date(p))
        + "</span></p><div class=\"body\">"@;
    assert(b =~= a + s);
    assert(b.subrange(b.len() - s.len(), b.len() as int) =~= s);
}

/// Each index entry ends with the link to the page of its own post.
pub proof fn lemma_summary_links_own_post(p: ZeroBlogPost)
    ensures
        has_suffix(post_summary_html(p), post_link(p.post_id as nat) + "\">Read more -&gt;</a></div>"@),
{
    lemma_post_link_unescaped(p.post_id as nat);
    let e = post_summary_html(p);
    let s = post_link(p.post_id as nat) + "\">Read more -&gt;</a></div>"@;
    let a = "<div class=\"post\"><h2 class=\"title\">"@ + html_escaped(p.title@)
        + "</h2><p class=\"details\"><span>on </span><span>"@ + html_escaped(post_date(p))
        + "</span></p><div class=\"body\">"@ + spec_markdown(first_piece(p.body@, teaser_separator()))
        + "</div><a href=\""@;
    assert(e =~= a + s);
    assert(e.subrange(e.len() - s.len(), e.len() as int) =~= s);
}

/// The entries of the index are those of the posts, one after the other, in the
/// order of the blog's list.
pub proof fn lemma_summaries_in_order(posts: Seq<ZeroBlogPost>)
    ensures
        post_summaries_html(posts) == posts.map_values(|p: ZeroBlogPost| post_summary_html(p)).flatten_alt(),
    decreases posts.len(),
{
    if posts.len() > 0 {
        lemma_summaries_in_order(posts.drop_last());
        assert(posts.map_values(|p: ZeroBlogPost| post_summary_html(p)).drop_last() =~= posts.drop_last().map_values(
            |p: ZeroBlogPost| post_summary_html(p),
        ));
    }
}

proof fn lemma_summaries_concat(a: Seq<ZeroBlogPost>, b: Seq<ZeroBlogPost>)
    ensures
        post_summaries_html(a + b) == post_summaries_html(a) + post_summaries_html(b),
    decreases b.len(),
{
    if b.len() == 0 {
        assert(a + b =~= a);
        assert(post_summaries_html(a) + post_summaries_html(b) =~= post_summaries_html(a));
    } else {
        lemma_summaries_concat(a, b.drop_last());
        assert((a + b).drop_last() =~= a + b.drop_last());
        assert((a + b).last() == b.last());
        assert(post_summaries_html(a + b) =~= post_summaries_html(a) + post_summaries_html(b));
    }
}

/// Entry `i` of the index is the summary of post `i`, after the entries of the
/// posts before it and before those of the posts after it; its link leads to a
/// page that finds a post with the same id.
pub proof fn lemma_index_entry(posts: Seq<ZeroBlogPost>, i: int)
    requires
        0 <= i < posts.len(),
    ensures
        index_inner_html(posts) == "<div class=\"posts\">"@ + post_summaries_html(posts.take(i))
            + post_summary_html(posts[i]) + post_summaries_html(posts.skip(i + 1)) + "</div>"@,
        has_suffix(
            post_summary_html(posts[i]),
            post_link(posts[i].post_id as nat) + "\">Read more -&gt;</a></div>"@,
        ),
        find_post(posts, posts[i].post_id) matches Some(q) && q.post_id == posts[i].post_id,
{
    assert(posts =~= posts.take(i) + (seq![posts[i]] + posts.skip(i + 1)));
    lemma_summaries_concat(posts.take(i), seq![posts[i]] + posts.skip(i + 1));
    lemma_summaries_concat(seq![posts[i]], posts.skip(i + 1));
    let one = seq![posts[i]];
    assert(one.drop_last() =~= Seq::<ZeroBlogPost>::empty());
    assert(post_summaries_html(Seq::<ZeroBlogPost>::empty()) =~= Seq::<char>::empty());
    assert(one.last() == posts[i]);
    assert(post_summaries_html(one) =~= post_summary_html(posts[i]));
    lemma_summary_links_own_post(posts[i]);
    lemma_listed_posts_have_pages(posts, i);
}

impl SiteData {
    /// Whether the index page can be rendered: every post's date lies in the
    /// calendar.
    pub fn index_renderable(&self) -> (b: bool)
        ensures
            b == dates_in_range(self.data.post@),
    {
        let posts = &self.data.post;
        let mut i: usize = 0;
        while i < posts.len()
            invariant
                i <= posts.len(),
                posts@ == self.data.post@,
                forall|j: int| 0 <= j < i ==> MIN_TIMESTAMP <= #[trigger] posts@[j].date_published <= MAX_TIMESTAMP,
            decreases posts.len() - i,
        {
            if posts[i].date_published < MIN_TIMESTAMP || posts[i].date_published > MAX_TIMESTAMP {
                assert(!(MIN_TIMESTAMP <= posts@[i as int].date_published <= MAX_TIMESTAMP));
                return false;
            }
            i = i + 1;
        }
        true
    }

    /// Whether the page of post `post_id` can be rendered: the blog's next post id
    /// is positive and the post, if there is one, has a date in the calendar.
    pub fn post_renderable(&self, post_id: usize) -> (b: bool)
        ensures
            b == (self.data.next_post_id >= 1 && (find_post(self.data.post@, post_id) matches Some(p)
                ==> MIN_TIMESTAMP <= p.date_published <= MAX_TIMESTAMP)),
    {
        if self.data.next_post_id < 1 {
            return false;
        }
        match find_post_index(&self.data.post, post_id) {
            Some(k) => MIN_TIMESTAMP <= self.data.post[k].date_published
                && self.data.post[k].date_published <= MAX_TIMESTAMP,
            None => true,
        }
    }

    /// Replaces the site description; the blog is kept.
    pub fn load_content(&mut self, content: Content)
        ensures
            final(self).content == content,
            final(self).data == old(self).data,
    {
        self.content = content;
    }

    /// Replaces the blog; the site description is kept.
    pub fn load_data(&mut self, data: ZeroBlog)
        ensures
            final(self).data == data,
            final(self).content == old(self).content,
    {
        self.data = data;
    }

    /// Frames `inner` with the site's title and description.
    pub fn render(&self, inner: String) -> (page: String)
        ensures
            page@ == page_html(self.data.title@, self.data.description@, inner@),
            contains_pattern(
                page@,
                html_escaped(self.data.title@) + "</h1></a><div>"@ + spec_markdown(self.data.description@),
            ),
            contains_pattern(page@, inner@),
    {
        let mut page = String::from_str(
            "<link rel=\"stylesheet\" type=\"text/css\" href=\"/css\"><body class=\"loaded page-main\"><div class=\"left\"><div class=\"trigger\"><a class=\"nolink\" href=\"/\"><h1 class=\"title\">",
        );
        page.append(escape_html(self.data.title.as_str()).as_str());
        page.append("</h1></a><div>");
        page.append(markdown(self.data.description.as_str()).as_str());
        page.append("</div></div></div><div class=\"right\">");
        page.append(inner.as_str());
        page.append("</div></body>");
        proof {
            lemma_page_shows_description(self.data.title@, self.data.description@, inner@);
        }
        page
    }

    /// The index page: every post with its title, date and teaser.
    pub fn index(&self) -> (page: String)
        requires
            dates_in_range(self.data.post@),
        ensures
            page@ == page_html(
                self.data.title@,
                self.data.description@,
                index_inner_html(self.data.post@),
            ),
            page@ == page_html(
                self.data.title@,
                self.data.description@,
                "<div class=\"posts\">"@ + self.data.post@.map_values(|p: ZeroBlogPost| post_summary_html(p)).flatten_alt()
                    + "</div>"@,
            ),
    {
        let posts = &self.data.post;
        let mut inner = String::from_str("<div class=\"posts\">");
        let mut i: usize = 0;
        while i < posts.len()
            invariant
                i <= posts.len(),
                dates_in_range(posts@),
                inner@ == "<div class=\"posts\">"@ + post_summaries_html(posts@.take(i as int)),
            decreases posts.len() - i,
        {
            let p = &posts[i];
            assert(MIN_TIMESTAMP <= posts@[i as int].date_published <= MAX_TIMESTAMP);
            inner.append("<div class=\"post\"><h2 class=\"title\">");
            inner.append(escape_html(p.title.as_str()).as_str());
            inner.append("</h2><p class=\"details\"><span>on </span><span>");
            inner.append(escape_html(format_date(p.date_published).as_str()).as_str());
            inner.append("</span></p><div class=\"body\">");
            inner.append(markdown(p.short_body().as_str()).as_str());
            inner.append("</div><a href=\"");
            let mut link = String::from_str("/post/");
            push_decimal(&mut link, p.post_id);
            inner.append(escape_html(link.as_str()).as_str());
            inner.append("\">Read more -&gt;</a></div>");
            assert(posts@.take(i + 1).drop_last() =~= posts@.take(i as int));
            i = i + 1;
        }
        assert(posts@.take(posts@.len() as int) =~= posts@);
        inner.append("</div>");
        proof {
            lemma_summaries_in_order(posts@);
        }
        self.render(inner)
    }

    /// The page of post `post_id`, with links to the neighbouring posts, or a
    /// "404 Not Found" page body when the blog has no such post.
    pub fn blog_post(&self, post_id: usize) -> (page: String)
        requires
            self.data.next_post_id >= 1,
            find_post(self.data.post@, post_id) matches Some(p) ==> MIN_TIMESTAMP
                <= p.date_published <= MAX_TIMESTAMP,
        ensures
            page@ == page_html(
                self.data.title@,
                self.data.description@,
                post_navigation_html(post_id, self.data.next_post_id) + post_body_html(
                    find_post(self.data.post@, post_id),
                ),
            ),
            find_post(self.data.post@, post_id) matches Some(p) ==> contains_pattern(
                page@,
                spec_markdown(p.body@) + "</div></div>"@,
            ),
            post_id < self.data.next_post_id - 1 ==> contains_pattern(page@, next_link_html(post_id as nat)),
            post_id > 1 ==> contains_pattern(page@, prev_link_html(post_id as nat)),
    {
        let posts = &self.data.post;
        let found = find_post_index(posts, post_id);
        let mut inner = String::from_str("<div style=\"display: flex\">");
        if post_id > 1 {
            inner.append("<div><a href=\"");
            let mut link = String::from_str("/post/");
            push_decimal(&mut link, post_id - 1);
            inner.append(escape_html(link.as_str()).as_str());
            inner.append("\">&lt;- Prev</a></div>");
        }
        inner.append("<div style=\"flex-grow: 1; text-align: center\"><a href=\"/\">Home</a></div>");
        if post_id < self.data.next_post_id - 1 {
            inner.append("<div><a href=\"");
            let mut link = String::from_str("/post/");
            push_decimal(&mut link, post_id + 1);
            inner.append(escape_html(link.as_str()).as_str());
            inner.append("\">Next -&gt;</a></div>");
        }
        inner.append("</div>");
        let ghost nav = inner@;
        assert(nav == post_navigation_html(post_id, self.data.next_post_id));
        match found {
            Some(k) => {
                let p = &posts[k];
                inner.append("<div class=\"post\"><h2>");
                inner.append(escape_html(p.title.as_str()).as_str());
                inner.append("</h2><p class=\"details\"><span>on </span><span>");
                inner.append(escape_html(format_date(p.date_published).as_str()).as_str());
                inner.append("</span></p><div class=\"body\">");
                inner.append(markdown(p.body.as_str()).as_str());
                inner.append("</div></div>");
            },
            None => {
                inner.append("<h2>404 Not Found</h2>");
            },
        }
        let ghost inner_view = inner@;
        let page = self.render(inner);
        proof {
            let nav = post_navigation_html(post_id, self.data.next_post_id);
            let body = post_body_html(find_post(self.data.post@, post_id));
            assert(inner_view =~= nav + body);
            lemma_navigation_links(post_id, self.data.next_post_id);
            if let Some(p) = find_post(self.data.post@, post_id) {
                let s = spec_markdown(p.body@) + "</div></div>"@;
                lemma_post_body_whole(p);
                lemma_contains_in_concat(nav, body, s);
                lemma_contains_trans(page@, nav + body, s);
            }
            if post_id < self.data.next_post_id - 1 {
                lemma_contains_in_concat(nav, body, next_link_html(post_id as nat));
                lemma_contains_trans(page@, nav + body, next_link_html(post_id as nat));
            }
            if post_id > 1 {
                lemma_contains_in_concat(nav, body, prev_link_html(post_id as nat));
                lemma_contains_trans(page@, nav + body, prev_link_html(post_id as nat));
            }
        }
        page
    }
}

} // verus!
