//! Decisions between the steps of discovery: whether the prefix redirected,
//! when the feed step stops, which sitemap failures are worth a warning, the crawl bounds of a source,
//! and where sitemap index recursion stops.
use vstd::prelude::*;
use crate::discover::collect::{inserted_all, views, UrlCollection};
use crate::discover::types::{CrawlLimits, DiscoveredUrl};
use crate::text::{chars_eq, chars_of, concat_vec, contains, contains_seq, string_of, trim_end_char, trimmed_end_char};
use crate::weburl::WebUrl;

verus! {

/// A warning when the prefix page answered from another URL (ignoring
/// trailing slashes): `prefix redirected: <prefix> → <resolved>`.
pub fn prefix_redirect(prefix: &WebUrl, resolved: &WebUrl) -> (r: Option<String>)
    ensures
        trim_end_char(prefix@.href, '/') == trim_end_char(resolved@.href, '/') ==> r is None,
        trim_end_char(prefix@.href, '/') != trim_end_char(resolved@.href, '/') ==> (r matches Some(w)
            && w@ == "prefix redirected: "@ + prefix@.href + " → "@ + resolved@.href),
{
    let before = trimmed_end_char(prefix.href(), '/');
    let after = trimmed_end_char(resolved.href(), '/');
    if chars_eq(before.as_slice(), after.as_slice()) {
        return None;
    }
    let a = concat_vec(chars_of("prefix redirected: ").as_slice(), prefix.href());
    let b = concat_vec(a.as_slice(), chars_of(" → ").as_slice());
    let c = concat_vec(b.as_slice(), resolved.href());
    Some(string_of(c.as_slice()))
}

/// A failed sitemap is worth a warning unless the error mentions 404
/// (speculative paths often do not exist): `sitemap <url>: <error>`.
pub fn sitemap_failure_warning(doc: &WebUrl, error: &str) -> (r: Option<String>)
    ensures
        contains(error@, "404"@) ==> r is None,
        !contains(error@, "404"@) ==> (r matches Some(w) && w@ == "sitemap "@ + doc@.href + ": "@
            + error@),
{
    let e = chars_of(error);
    if contains_seq(e.as_slice(), chars_of("404").as_slice()) {
        return None;
    }
    let a = concat_vec(chars_of("sitemap ").as_slice(), doc.href());
    let b = concat_vec(a.as_slice(), chars_of(": ").as_slice());
    Some(string_of(concat_vec(b.as_slice(), e.as_slice()).as_slice()))
}

/// The crawl bounds of a source: a per-source page cap (at least one)
/// replaces the global one.
pub fn crawl_limits(limits: CrawlLimits, max_pages: Option<usize>) -> (r: CrawlLimits)
    ensures
        r.max_depth == limits.max_depth,
        r.page_cap == match max_pages {
            Some(m) => if m < 1 { 1 } else { m },
            None => limits.page_cap,
        },
{
    match max_pages {
        Some(m) => CrawlLimits { max_depth: limits.max_depth, page_cap: if m < 1 { 1 } else { m } },
        None => limits,
    }
}

/// Sitemap indexes are followed to a bounded depth; at the cap the index is
/// left with a warning `sitemap index depth cap reached at <url>`.
pub fn index_depth_warning(url: &WebUrl, depth: u32, max_depth: u32) -> (r: Option<String>)
    ensures
        depth < max_depth ==> r is None,
        depth >= max_depth ==> (r matches Some(w) && w@ == "sitemap index depth cap reached at "@
            + url@.href),
{
    if depth < max_depth {
        return None;
    }
    let a = concat_vec(chars_of("sitemap index depth cap reached at ").as_slice(), url.href());
    Some(string_of(a.as_slice()))
}

/// What trying one feed candidate gave.
pub enum FeedOutcome {
    /// The feed's entries.
    Entries(Vec<DiscoveredUrl>),
    /// The feed was fetched but did not parse.
    ParseFailed(String),
    /// The feed could not be fetched.
    FetchFailed(String),
}

/// What the feed step does next.
pub enum FeedStep {
    /// The feed listed entries: they were taken, and the feed step ends.
    Found,
    /// Go on with the next candidate, after this warning.
    Next(String),
}

/// One feed candidate tried: the first feed that lists entries gives them to
/// the collection and ends the feed step; an empty feed and a failure only
/// leave a warning (`empty feed at <url>`, `feed parse <url>: <error>`,
/// `feed fetch <url>: <error>`).
pub fn feed_step(found: &mut UrlCollection, prefix: &WebUrl, candidate: &WebUrl, outcome: FeedOutcome) -> (r:
    FeedStep)
    ensures
        match outcome {
            FeedOutcome::Entries(v) => if v@.len() > 0 {
                &&& r is Found
                &&& final(found)@ == inserted_all(old(found)@, views(v@), prefix@, false)
                &&& final(found).feed_hits() == final(found)@.len()
            } else {
                &&& r matches FeedStep::Next(w) && w@ == "empty feed at "@ + candidate@.href
                &&& *final(found) == *old(found)
            },
            FeedOutcome::ParseFailed(e) => {
                &&& r matches FeedStep::Next(w) && w@ == "feed parse "@ + candidate@.href + ": "@ + e@
                &&& *final(found) == *old(found)
            },
            FeedOutcome::FetchFailed(e) => {
                &&& r matches FeedStep::Next(w) && w@ == "feed fetch "@ + candidate@.href + ": "@ + e@
                &&& *final(found) == *old(found)
            },
        },
{
    match outcome {
        FeedOutcome::Entries(v) => {
            if v.len() > 0 {
                found.add_feed_entries(v, prefix);
                FeedStep::Found
            } else {
                let w = concat_vec(chars_of("empty feed at ").as_slice(), candidate.href());
                FeedStep::Next(string_of(w.as_slice()))
            }
        },
        FeedOutcome::ParseFailed(e) => {
            let a = concat_vec(chars_of("feed parse ").as_slice(), candidate.href());
            let b = concat_vec(a.as_slice(), chars_of(": ").as_slice());
            FeedStep::Next(string_of(concat_vec(b.as_slice(), chars_of(e.as_str()).as_slice()).as_slice()))
        },
        FeedOutcome::FetchFailed(e) => {
            let a = concat_vec(chars_of("feed fetch ").as_slice(), candidate.href());
            let b = concat_vec(a.as_slice(), chars_of(": ").as_slice());
            FeedStep::Next(string_of(concat_vec(b.as_slice(), chars_of(e.as_str()).as_slice()).as_slice()))
        },
    }
}

/// Discovery crawls the prefix only when the feeds and sitemaps gave no URL.
pub fn crawl_needed(found: &UrlCollection) -> (r: bool)
    ensures
        r == (found@.len() == 0),
{
    found.is_empty()
}

} // verus!
