use vstd::prelude::*;

use crate::weburl::WebUrl;

verus! {

/// How an article URL was found, ordered by how much metadata the source
/// carries.
#[derive(Debug, Clone, Copy, PartialEq, Eq, Structural)]
pub enum DiscoverySource {
    Feed,
    Sitemap,
    Crawl,
    /// Nothing was found.
    Unknown,
}

impl DiscoverySource {
    pub open spec fn spec_rank(self) -> u8 {
        match self {
            DiscoverySource::Feed => 3,
            DiscoverySource::Sitemap => 2,
            DiscoverySource::Crawl => 1,
            DiscoverySource::Unknown => 0,
        }
    }

    pub fn rank(self) -> (r: u8)
        ensures
            r == self.spec_rank(),
    {
        match self {
            DiscoverySource::Feed => 3,
            DiscoverySource::Sitemap => 2,
            DiscoverySource::Crawl => 1,
            DiscoverySource::Unknown => 0,
        }
    }
}

/// An article URL found under a prefix, with what the finder knew of it.
pub struct DiscoveredUrl {
    pub url: WebUrl,
    pub title: Option<String>,
    pub published: Option<String>,
    pub source: DiscoverySource,
}

/// Bounds of the fallback crawl.
#[derive(Debug, Clone, Copy)]
pub struct CrawlLimits {
    pub max_depth: u32,
    pub page_cap: usize,
}

impl Default for CrawlLimits {
    /// The default bounds: depth 2, 200 pages.
    fn default() -> (r: CrawlLimits)
        ensures
            r.max_depth == 2,
            r.page_cap == 200,
    {
        CrawlLimits { max_depth: 2, page_cap: 200 }
    }
}

/// What to discover: a URL prefix, an optional cap on the result, where to
/// cache responses, and the crawl bounds.
pub struct DiscoverOptions {
    pub url_prefix: WebUrl,
    pub limit: Option<usize>,
    pub cache_dir: Option<String>,
    pub limits: CrawlLimits,
}

/// The outcome of discovery.
pub struct DiscoverReport {
    pub prefix: WebUrl,
    pub urls: Vec<DiscoveredUrl>,
    pub feed_url: Option<WebUrl>,
    pub sitemap_urls: Vec<WebUrl>,
    pub primary_source: DiscoverySource,
    pub warnings: Vec<String>,
}

} // verus!
