//! The `content.json` and `data/data.json` files of a ZeroBlog site.

use vstd::prelude::*;
use crate::text::{chars_of, contains_pattern, find_first, occurs_at, string_of_chars};

verus! {

/// The site description (`content.json`).
#[derive(Debug)]
pub struct Content {
    pub address: String,
    pub modified: usize,
    pub title: String,
    pub description: String,
    pub favicon: Option<String>,
}

/// The blog itself (`data/data.json`).
#[derive(Debug)]
pub struct ZeroBlog {
    pub title: String,
    pub description: String,
    pub links: String,
    pub next_post_id: usize,
    pub demo: bool,
    pub modified: usize,
    pub post: Vec<ZeroBlogPost>,
    pub tag: Vec<ZeroBlogPostTag>,
}

/// One post of a blog.
///
/// `date_published` is the publication time in whole seconds since the UNIX
/// epoch: the site stores it as a JSON number with a fraction, and the pages only
/// ever show it truncated to whole seconds.
#[derive(Debug)]
pub struct ZeroBlogPost {
    pub post_id: usize,
    pub title: String,
    pub date_published: i64,
    pub body: String,
}

/// A tag attached to a post.
#[derive(Debug)]
pub struct ZeroBlogPostTag {
    pub post_id: usize,
    pub value: String,
}

impl Default for Content {
    fn default() -> (r: Self)
        ensures
            r.address@ == Seq::<char>::empty(),
            r.modified == 0,
            r.title@ == Seq::<char>::empty(),
            r.description@ == Seq::<char>::empty(),
            r.favicon is None,
    {
        Content {
            address: String::new(),
            modified: 0,
            title: String::new(),
            description: String::new(),
            favicon: None,
        }
    }
}

impl Default for ZeroBlog {
    fn default() -> (r: Self)
        ensures
            r.title@ == Seq::<char>::empty(),
            r.description@ == Seq::<char>::empty(),
            r.links@ == Seq::<char>::empty(),
            r.next_post_id == 0,
            !r.demo,
            r.modified == 0,
            r.post@ == Seq::<ZeroBlogPost>::empty(),
            r.tag@ == Seq::<ZeroBlogPostTag>::empty(),
    {
        ZeroBlog {
            title: String::new(),
            description: String::new(),
            links: String::new(),
            next_post_id: 0,
            demo: false,
            modified: 0,
            post: Vec::new(),
            tag: Vec::new(),
        }
    }
}

impl Default for ZeroBlogPost {
    fn default() -> (r: Self)
        ensures
            r.post_id == 0,
            r.title@ == Seq::<char>::empty(),
            r.date_published == 0,
            r.body@ == Seq::<char>::empty(),
    {
        ZeroBlogPost { post_id: 0, title: String::new(), date_published: 0, body: String::new() }
    }
}

impl Default for ZeroBlogPostTag {
    fn default() -> (r: Self)
        ensures
            r.post_id == 0,
            r.value@ == Seq::<char>::empty(),
    {
        ZeroBlogPostTag { post_id: 0, value: String::new() }
    }
}

/// The line that separates the teaser of a post from the rest of its body.
pub open spec fn teaser_separator() -> Seq<char> {
    "* * *"@
}

/// The text of `s` before the first occurrence of `sep`, or all of `s` when `sep`
/// does not occur in it.
pub open spec fn first_piece(s: Seq<char>, sep: Seq<char>) -> Seq<char> {
    if contains_pattern(s, sep) {
        s.take(
            choose|i: int|
                occurs_at(s, sep, i) && forall|j: int| 0 <= j < i ==> !occurs_at(s, sep, j),
        )
    } else {
        s
    }
}

impl ZeroBlogPost {
    /// The teaser of the post: its body up to the first `* * *`, or the whole body
    /// when there is none.
    pub fn short_body(&self) -> (r: String)
        ensures
            r@ == first_piece(self.body@, teaser_separator()),
    {
        let cs = chars_of(self.body.as_str());
        let sep = chars_of("* * *");
        match find_first(&cs, &sep) {
            Some(i) => {
                let r = string_of_chars(&cs, 0, i);
                proof {
                    let s = self.body@;
                    let p = teaser_separator();
                    let k = choose|k: int|
                        occurs_at(s, p, k) && forall|j: int| 0 <= j < k ==> !occurs_at(s, p, j);
                    assert(occurs_at(s, p, i as int));
                    assert(contains_pattern(s, p));
                    if k < i {
                        assert(!occurs_at(s, p, k));
                    }
                    if k > i {
                        assert(!occurs_at(s, p, i as int));
                    }
                    assert(k == i);
                    assert(r@ =~= s.take(i as int));
                }
                r
            },
            None => self.body.clone(),
        }
    }
}

/// The teaser is a prefix of the body in which no occurrence of the separator
/// starts; when the body
/// has a separator, the body is the teaser, the separator and the rest.
pub proof fn lemma_first_piece(s: Seq<char>, sep: Seq<char>)
    ensures
        first_piece(s, sep).len() <= s.len(),
        first_piece(s, sep) == s.take(first_piece(s, sep).len() as int),
        forall|j: int|
            0 <= j < first_piece(s, sep).len() ==> !occurs_at(s, sep, j),
        contains_pattern(s, sep) ==> occurs_at(s, sep, first_piece(s, sep).len() as int),
        !contains_pattern(s, sep) ==> first_piece(s, sep) == s,
{
    if contains_pattern(s, sep) {
        let w = choose|i: int| occurs_at(s, sep, i);
        lemma_first_occurrence_exists(s, sep, w);
        let k = choose|i: int|
            occurs_at(s, sep, i) && forall|j: int| 0 <= j < i ==> !occurs_at(s, sep, j);
        assert(first_piece(s, sep) == s.take(k));
        assert(s.take(k).len() == k);
        assert(s.take(k) =~= s.take(first_piece(s, sep).len() as int));
    } else {
        assert(s.take(s.len() as int) =~= s);
    }
}

/// When `sep` occurs at `w`, it has a first occurrence.
proof fn lemma_first_occurrence_exists(s: Seq<char>, sep: Seq<char>, w: int)
    requires
        occurs_at(s, sep, w),
    ensures
        exists|i: int| occurs_at(s, sep, i) && forall|j: int| 0 <= j < i ==> !occurs_at(s, sep, j),
    decreases w,
{
    if exists|j: int| 0 <= j < w && occurs_at(s, sep, j) {
        let j = choose|j: int| 0 <= j < w && occurs_at(s, sep, j);
        lemma_first_occurrence_exists(s, sep, j);
    } else {
        assert(occurs_at(s, sep, w) && forall|j: int| 0 <= j < w ==> !occurs_at(s, sep, j));
    }
}

} // verus!
