//! Feeds: alternate links of a page, and the entries of a feed document
//! (parsed by the `feed-rs` crate).
use vstd::prelude::*;
use crate::discover::collect::{views, FoundView};
use crate::discover::sources::url_views;
use crate::discover::types::{DiscoveredUrl, DiscoverySource};
use crate::error::TidyError;
use crate::extract::metadata::copy_opt;
use crate::html::{html_select_attrs, opt_view, rows_view, select_attrs, strs_view};
use crate::text::{chars_eq, chars_of, contains, contains_seq, lower, lowercase, starts_with, has_prefix};
use crate::weburl::{join_url, parse_url, url_join_result, url_parse_result, UrlView, WebUrl};

verus! {

/// The selector of alternate links.
pub open spec fn alternate_selector() -> Seq<char> {
    "link[rel~=\"alternate\"]"@
}

/// An alternate link looks like a feed by its type or its reference.
pub open spec fn looks_like_feed(type_attr: Seq<char>, href: Seq<char>) -> bool {
    let t = lower(type_attr);
    contains(t, "rss"@) || contains(t, "atom"@) || contains(t, "json"@) || contains(href, "rss"@)
        || contains(href, "atom"@) || contains(href, "feed"@)
}

/// The feed URLs among alternate links (rows of type and href), resolved
/// against the page URL, in document order.
pub open spec fn alternates_from(base: UrlView, rows: Seq<Seq<Option<Seq<char>>>>) -> Seq<UrlView>
    decreases rows.len(),
{
    if rows.len() == 0 {
        Seq::empty()
    } else {
        let rest = alternates_from(base, rows.drop_last());
        let row = rows.last();
        let t = match row[0] {
            Some(t) => t,
            None => Seq::empty(),
        };
        match row[1] {
            Some(href) => if looks_like_feed(t, href) {
                match url_join_result(base, href) {
                    Some(u) => rest.push(u),
                    None => rest,
                }
            } else {
                rest
            },
            None => rest,
        }
    }
}

pub fn extract_alternate_feeds(base: &WebUrl, html: &str) -> (r: Vec<WebUrl>)
    ensures
        match html_select_attrs(html@, alternate_selector(), seq!["type"@, "href"@]) {
            Some(rows) => url_views(r@) == alternates_from(base@, rows),
            None => r@.len() == 0,
        },
{
    let attrs: [&str; 2] = ["type", "href"];
    proof {
        reveal_strlit("rss");
        reveal_strlit("atom");
        reveal_strlit("json");
        reveal_strlit("feed");
    }
    assert(strs_view(attrs@) =~= seq!["type"@, "href"@]);
    let rows = match select_attrs(html, "link[rel~=\"alternate\"]", &attrs) {
        Ok(rows) => rows,
        Err(_) => return Vec::new(),
    };
    let ghost rv = rows_view(rows@);
    let mut out: Vec<WebUrl> = Vec::new();
    let mut i: usize = 0;
    while i < rows.len()
        invariant
            i <= rows@.len(),
            rv == rows_view(rows@),
            forall|k: int| 0 <= k < rows@.len() ==> (#[trigger] rows@[k])@.len() == 2,
            url_views(out@) == alternates_from(base@, rv.take(i as int)),
        decreases rows.len() - i,
    {
        assert(rv.take(i + 1).drop_last() =~= rv.take(i as int));
        let row = &rows[i];
        assert(rv.take(i + 1).last() == crate::html::row_view(rows@[i as int]));
        let type_attr: Vec<char> = match &row[0] {
            Some(t) => chars_of(t.as_str()),
            None => Vec::new(),
        };
        match &row[1] {
            Some(href) => {
                let h = chars_of(href.as_str());
                let t = lowercase(type_attr.as_slice());
                let feedish = contains_seq(t.as_slice(), chars_of("rss").as_slice()) || contains_seq(
                    t.as_slice(),
                    chars_of("atom").as_slice(),
                ) || contains_seq(t.as_slice(), chars_of("json").as_slice()) || contains_seq(
                    h.as_slice(),
                    chars_of("rss").as_slice(),
                ) || contains_seq(h.as_slice(), chars_of("atom").as_slice()) || contains_seq(
                    h.as_slice(),
                    chars_of("feed").as_slice(),
                );
                if feedish {
                    match join_url(base, h.as_slice()) {
                        Ok(u) => {
                            let ghost before = out@;
                            out.push(u);
                            assert(url_views(out@) =~= url_views(before).push(u@));
                        },
                        Err(_) => {},
                    }
                }
            },
            None => {},
        }
        i = i + 1;
    }
    assert(rv.take(rv.len() as int) =~= rv);
    out
}

/// A link of a feed entry.
#[derive(Debug, Clone)]
pub struct FeedLink {
    pub href: String,
    pub rel: Option<String>,
    pub media_type: Option<String>,
}

/// What discovery reads of a feed entry; the times are RFC 3339 text.
#[derive(Debug, Clone)]
pub struct FeedItem {
    pub links: Vec<FeedLink>,
    pub title: Option<String>,
    pub published: Option<String>,
    pub updated: Option<String>,
}

pub struct FeedLinkView {
    pub href: Seq<char>,
    pub rel: Option<Seq<char>>,
    pub media_type: Option<Seq<char>>,
}

pub struct FeedItemView {
    pub links: Seq<FeedLinkView>,
    pub title: Option<Seq<char>>,
    pub published: Option<Seq<char>>,
    pub updated: Option<Seq<char>>,
}

impl View for FeedLink {
    type V = FeedLinkView;

    open spec fn view(&self) -> FeedLinkView {
        FeedLinkView { href: self.href@, rel: opt_view(self.rel), media_type: opt_view(self.media_type) }
    }
}

impl View for FeedItem {
    type V = FeedItemView;

    open spec fn view(&self) -> FeedItemView {
        FeedItemView {
            links: self.links@.map_values(|l: FeedLink| l@),
            title: opt_view(self.title),
            published: opt_view(self.published),
            updated: opt_view(self.updated),
        }
    }
}

pub open spec fn items_view(v: Seq<FeedItem>) -> Seq<FeedItemView> {
    v.map_values(|i: FeedItem| i@)
}

/// The entries `feed-rs` reads from a feed document, or the error's message.
pub uninterp spec fn parsed_feed(body: Seq<u8>) -> Result<Seq<FeedItemView>, Seq<char>>;

/// `feed_rs::parser::parse`, each entry read as its links (href, rel, media
/// type), its title's text and its published and updated times
/// (`to_rfc3339`). Claimed: the outcome is a function of the bytes.
#[verifier::external_body]
fn read_feed(body: &[u8]) -> (r: Result<Vec<FeedItem>, String>)
    ensures
        match r {
            Ok(items) => parsed_feed(body@) == Ok::<Seq<FeedItemView>, Seq<char>>(items_view(items@)),
            Err(e) => parsed_feed(body@) == Err::<Seq<FeedItemView>, Seq<char>>(e@),
        },
{
    let feed = feed_rs::parser::parse(body).map_err(|error| error.to_string())?;
    Ok(feed.entries.into_iter().map(|entry| FeedItem {
        links: entry.links.into_iter().map(|l| FeedLink { href: l.href, rel: l.rel, media_type: l.media_type }).collect(),
        title: entry.title.map(|t| t.content),
        published: entry.published.map(|d| d.to_rfc3339()),
        updated: entry.updated.map(|d| d.to_rfc3339()),
    }).collect())
}

/// The link that names an entry's page: the first marked alternate, typed as
/// HTML, or without a relation.
pub open spec fn is_page_link(l: FeedLinkView) -> bool {
    l.rel == Some("alternate"@) || (l.media_type matches Some(m) && starts_with(m, "text/html"@))
        || l.rel is None
}

pub open spec fn first_page_link(links: Seq<FeedLinkView>) -> Option<int> {
    if exists|i: int| 0 <= i < links.len() && is_page_link(links[i]) {
        Some(choose|i: int| 0 <= i < links.len() && is_page_link(links[i]) && forall|j: int| 0 <= j < i ==> !is_page_link(links[j]))
    } else if links.len() > 0 {
        Some(0)
    } else {
        None
    }
}

/// The entry's URL: its chosen link read as a URL, else resolved against the
/// feed URL.
pub open spec fn entry_url(feed_url: UrlView, item: FeedItemView) -> Option<UrlView> {
    match first_page_link(item.links) {
        Some(i) => match url_parse_result(item.links[i].href) {
            Some(u) => Some(u),
            None => url_join_result(feed_url, item.links[i].href),
        },
        None => None,
    }
}

/// The discovered URLs of the feed's entries, in order; entries without a
/// usable link are left out.
pub open spec fn entries_of(feed_url: UrlView, items: Seq<FeedItemView>) -> Seq<FoundView>
    decreases items.len(),
{
    if items.len() == 0 {
        Seq::empty()
    } else {
        let rest = entries_of(feed_url, items.drop_last());
        let item = items.last();
        match entry_url(feed_url, item) {
            Some(u) => rest.push(
                FoundView {
                    url: u,
                    title: item.title,
                    published: if item.published is Some {
                        item.published
                    } else {
                        item.updated
                    },
                    source: DiscoverySource::Feed,
                },
            ),
            None => rest,
        }
    }
}

/// The first page link is the one chosen.
pub proof fn lemma_first_page_link(links: Seq<FeedLinkView>, i: int)
    requires
        0 <= i < links.len(),
        is_page_link(links[i]),
        forall|j: int| 0 <= j < i ==> !is_page_link(links[j]),
    ensures
        first_page_link(links) == Some(i),
{
    let c = choose|k: int| 0 <= k < links.len() && is_page_link(links[k]) && forall|j: int| 0 <= j < k ==> !is_page_link(links[j]);
    assert(0 <= c < links.len() && is_page_link(links[c]) && forall|j: int| 0 <= j < c ==> !is_page_link(links[j]));
    if c < i {
    } else if c > i {
    }
}

fn page_link_index(links: &Vec<FeedLink>) -> (r: Option<usize>)
    ensures
        r matches Some(i) ==> i < links@.len(),
        match r {
            Some(i) => first_page_link(links@.map_values(|l: FeedLink| l@)) == Some(i as int),
            None => first_page_link(links@.map_values(|l: FeedLink| l@)) is None,
        },
{
    let ghost lv = links@.map_values(|l: FeedLink| l@);
    proof {
        reveal_strlit("alternate");
        reveal_strlit("text/html");
    }
    let alternate = chars_of("alternate");
    let html = chars_of("text/html");
    let mut i: usize = 0;
    while i < links.len()
        invariant
            i <= links@.len(),
            lv == links@.map_values(|l: FeedLink| l@),
            alternate@ == "alternate"@,
            html@ == "text/html"@,
            forall|j: int| 0 <= j < i ==> !is_page_link(lv[j]),
        decreases links.len() - i,
    {
        let l = &links[i];
        assert(lv[i as int] == l@);
        let is_alt = match &l.rel {
            Some(r) => chars_eq(chars_of(r.as_str()).as_slice(), alternate.as_slice()),
            None => false,
        };
        let is_html = match &l.media_type {
            Some(m) => has_prefix(chars_of(m.as_str()).as_slice(), html.as_slice()),
            None => false,
        };
        if is_alt || is_html || l.rel.is_none() {
            assert(is_page_link(lv[i as int]));
            proof {
                lemma_first_page_link(lv, i as int);
            }
            return Some(i);
        }
        i = i + 1;
    }
    if links.len() > 0 {
        Some(0)
    } else {
        None
    }
}

/// The discovered URLs of feed entries.
pub fn entries_from_feed(feed_url: &WebUrl, items: Vec<FeedItem>) -> (r: Vec<DiscoveredUrl>)
    ensures
        views(r@) == entries_of(feed_url@, items_view(items@)),
{
    let ghost iv = items_view(items@);
    let mut out: Vec<DiscoveredUrl> = Vec::new();
    let mut i: usize = 0;
    while i < items.len()
        invariant
            i <= items@.len(),
            iv == items_view(items@),
            views(out@) == entries_of(feed_url@, iv.take(i as int)),
        decreases items.len() - i,
    {
        assert(iv.take(i + 1).drop_last() =~= iv.take(i as int));
        let item = &items[i];
        assert(iv.take(i + 1).last() == item@);
        match page_link_index(&item.links) {
            Some(k) => {
                let href = chars_of(item.links[k].href.as_str());
                let url = match parse_url(href.as_slice()) {
                    Ok(u) => Some(u),
                    Err(_) => match join_url(feed_url, href.as_slice()) {
                        Ok(u) => Some(u),
                        Err(_) => None,
                    },
                };
                if let Some(u) = url {
                    let published = if item.published.is_some() {
                        copy_opt(&item.published)
                    } else {
                        copy_opt(&item.updated)
                    };
                    let d = DiscoveredUrl {
                        url: u,
                        title: copy_opt(&item.title),
                        published,
                        source: DiscoverySource::Feed,
                    };
                    let ghost before = out@;
                    out.push(d);
                    assert(views(out@) =~= views(before).push(d@));
                }
            },
            None => {},
        }
        i = i + 1;
    }
    assert(iv.take(iv.len() as int) =~= iv);
    out
}

/// Parse a feed document into discovered URLs; a feed error names the feed.
pub fn parse_feed_entries(feed_url: &WebUrl, body: &[u8]) -> (r: Result<Vec<DiscoveredUrl>, TidyError>)
    ensures
        match parsed_feed(body@) {
            Ok(items) => r matches Ok(v) && views(v@) == entries_of(feed_url@, items),
            Err(m) => r matches Err(TidyError::Feed { url, message }) && url@ == feed_url@.href
                && message@ == m,
        },
{
    match read_feed(body) {
        Ok(items) => Ok(entries_from_feed(feed_url, items)),
        Err(m) => Err(TidyError::Feed { url: feed_url.as_str(), message: m }),
    }
}

} // verus!
