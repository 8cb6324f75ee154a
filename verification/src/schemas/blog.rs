//! A blog and its postings as schema.org describes them.

use vstd::prelude::*;

verus! {

/// A blog. Dates are UNIX timestamps in seconds (UTC).
pub struct Blog {
    headline: String,
    description: String,
    date_modified: i64,
    date_published: i64,
    keywords: Vec<String>,
}

/// One posting of a blog. Its date is a UNIX timestamp in seconds (UTC).
#[allow(non_snake_case)]
pub struct BlogPosting {
    headline: String,
    datePublished: i64,
    article_body: String,
    image: Option<String>,
    word_count: usize,
}

} // verus!
