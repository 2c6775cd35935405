//! Per-source crawl and extraction overrides.
use vstd::prelude::*;

verus! {

/// Per-source crawl/extraction overrides (stored as JSON on the source).
#[derive(Debug, Clone)]
pub struct SourceOverrides {
    /// CSS selector for the main article body.
    pub content_selector: Option<String>,
    /// CSS selector for the page title.
    pub title_selector: Option<String>,
    /// CSS selector for "next page" / archive pagination links during crawl.
    pub pagination_link_selector: Option<String>,
    /// Cap on crawl pages for this source.
    pub max_pages: Option<usize>,
}

impl Default for SourceOverrides {
    fn default() -> (r: Self)
        ensures
            r.content_selector is None && r.title_selector is None
                && r.pagination_link_selector is None && r.max_pages is None,
    {
        SourceOverrides {
            content_selector: None,
            title_selector: None,
            pagination_link_selector: None,
            max_pages: None,
        }
    }
}

impl SourceOverrides {
    /// No override is set.
    pub fn is_empty(&self) -> (r: bool)
        ensures
            r == (self.content_selector is None && self.title_selector is None
                && self.pagination_link_selector is None && self.max_pages is None),
    {
        self.content_selector.is_none() && self.title_selector.is_none()
            && self.pagination_link_selector.is_none() && self.max_pages.is_none()
    }
}

} // verus!
