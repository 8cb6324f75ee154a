//! Verified core of a server that renders ZeroNet blogs (ZeroBlog sites) as
//! static HTML pages.

pub mod args;
pub mod file_watcher;
pub mod html;
pub mod routes;
pub mod schemas;
pub mod shared_state;
pub mod text;
pub mod utils;
pub mod zero_site;
