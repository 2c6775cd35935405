//! Discovery of article URLs under a user-supplied URL prefix.
pub mod collect;
pub mod crawl;
pub mod feeds;
pub mod prefix;
pub mod sitemap;
pub mod sources;
pub mod types;
pub mod steps;
