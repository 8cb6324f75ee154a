//! Data models: the JSON files of a ZeroBlog site and a schema.org-style blog.

pub mod blog;
pub mod zeroblog;
