//! The state of a single served site.

use vstd::prelude::*;
use crate::schemas::zeroblog::{Content, ZeroBlog, ZeroBlogPost};

verus! {

/// A site description together with its blog.
pub struct SharedState {
    pub content: Content,
    pub data: ZeroBlog,
}

impl Default for SharedState {
    fn default() -> (r: Self)
        ensures
            r.content.address@ == Seq::<char>::empty(),
            r.content.title@ == Seq::<char>::empty(),
            r.content.description@ == Seq::<char>::empty(),
            r.content.modified == 0,
            r.content.favicon is None,
            r.data.title@ == Seq::<char>::empty(),
            r.data.description@ == Seq::<char>::empty(),
            r.data.links@ == Seq::<char>::empty(),
            r.data.next_post_id == 0,
            !r.data.demo,
            r.data.modified == 0,
            r.data.post@ == Seq::<ZeroBlogPost>::empty(),
            r.data.tag@.len() == 0,
    {
        SharedState { content: Content::default(), data: ZeroBlog::default() }
    }
}

} // verus!
