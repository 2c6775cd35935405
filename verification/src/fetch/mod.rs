//! Fetching articles: file names, the Markdown documents with their
//! frontmatter, and the decisions of a fetch run.
pub mod slug;
pub mod writer;
pub mod run;
pub mod images;
