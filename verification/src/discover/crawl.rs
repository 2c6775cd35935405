//! The fallback crawl: a breadth-first walk of same-site pages under the
//! prefix. The engine's decisions are a state machine; the caller performs
//! each request it asks for and hands back what happened.
use vstd::prelude::*;

use crate::discover::collect::FoundView;
use crate::discover::prefix::{
    matches_prefix, same_host, spec_matches_prefix, spec_same_host,
};
use crate::discover::types::{CrawlLimits, DiscoveredUrl, DiscoverySource};
use crate::html::{html_select_attrs, html_select_texts, select_attrs, select_texts, strs_view};
use crate::text::{
    chars_eq, chars_of, contains, contains_any, count_parts, decimal, decimal_chars, ends_with,
    ends_with_any, extend_vec, slice_vec, contains_seq, has_prefix, lower, lowercase, part_count, starts_with,
    string_of, trim, trim_end_char, trimmed, trimmed_end_char, utf8_text,
};
use crate::weburl::{
    join_url, url_join_result, url_with_fragment, url_with_path, with_path, without_fragment,
    UrlView, WebUrl,
};

verus! {

/// The URL can be canonicalized: setting its path again keeps the `u32`
/// positions of the `url` crate (a path character takes at most twelve
/// characters once percent-encoded).
pub open spec fn canonical_fits(u: UrlView) -> bool {
    u.href.len() + 12 * u.path.len() < 0x1_0000_0000
}

pub fn fits_canonical(u: &WebUrl) -> (r: bool)
    ensures
        r == canonical_fits(u@),
{
    (u.href().len() as u128) + 12 * (u.path().len() as u128) < 0x1_0000_0000u128
}

/// The URL used to recognise pages already visited: no fragment, and no
/// trailing `/` on a path longer than the root.
pub open spec fn canonical_url(u: UrlView) -> UrlView {
    let c = url_with_fragment(u, None);
    if c.path.len() > 1 && c.path.last() == '/' {
        url_with_path(c, trim_end_char(c.path, '/'))
    } else {
        c
    }
}

pub open spec fn canonical_key(u: UrlView) -> Seq<char> {
    canonical_url(u).href
}

pub fn canonicalize(url: &WebUrl) -> (r: Vec<char>)
    requires
        canonical_fits(url@),
    ensures
        r@ == canonical_key(url@),
{
    let clean = without_fragment(url);
    clean.note_wf();
    let path = clean.path();
    if path.len() > 1 && path[path.len() - 1] == '/' {
        let t = trimmed_end_char(path, '/');
        let c2 = with_path(&clean, t.as_slice());
        slice_vec(c2.href(), 0, c2.href().len())
    } else {
        slice_vec(clean.href(), 0, clean.href().len())
    }
}

pub open spec fn banned_parts() -> Seq<Seq<char>> {
    seq![
        "/tag/"@,
        "/tags/"@,
        "/category/"@,
        "/categories/"@,
        "/author/"@,
        "/authors/"@,
        "/page/"@,
        "/pages/"@,
        "/search"@,
        "/feed"@,
        "/rss"@,
        "/atom"@,
    ]
}

pub open spec fn asset_extensions() -> Seq<Seq<char>> {
    seq![
        ".css"@,
        ".js"@,
        ".png"@,
        ".jpg"@,
        ".jpeg"@,
        ".gif"@,
        ".svg"@,
        ".webp"@,
        ".ico"@,
        ".pdf"@,
        ".zip"@,
        ".mp4"@,
        ".mp3"@,
        ".woff"@,
        ".woff2"@,
    ]
}

/// A page deeper than the prefix whose path is not an index, tag,
/// category, author, pagination, search or feed page.
pub open spec fn spec_looks_like_article(url: UrlView, prefix: UrlView) -> bool {
    let path = trim_end_char(url.path, '/');
    let prefix_path = trim_end_char(prefix.path, '/');
    &&& path != prefix_path
    &&& path != "/"@
    &&& !(exists|i: int|
        0 <= i < banned_parts().len() && contains(lower(path), #[trigger] banned_parts()[i]))
    &&& part_count(path, '/') > part_count(prefix_path, '/')
}

/// The path names a stylesheet, script, image, document, archive, media or
/// font file.
pub open spec fn spec_is_probably_asset(url: UrlView) -> bool {
    exists|i: int|
        0 <= i < asset_extensions().len() && ends_with(lower(url.path), #[trigger] asset_extensions()[i])
}

/// Index pages are never taken for articles: a URL whose path (without
/// trailing `/`, ignoring ASCII case) holds `/tag/`, `/tags/`, `/category/`,
/// `/categories/`, `/author/`, `/authors/`, `/page/` (pagination),
/// `/pages/`, `/search`, `/feed`, `/rss` or `/atom`, or that is the prefix
/// itself or the site root, does not look like an article.
pub proof fn lemma_index_pages_are_not_articles(url: UrlView, prefix: UrlView)
    ensures
        ({
            let p = lower(trim_end_char(url.path, '/'));
            (contains(p, "/tag/"@) || contains(p, "/tags/"@) || contains(p, "/category/"@)
                || contains(p, "/categories/"@) || contains(p, "/author/"@) || contains(
                p,
                "/authors/"@,
            ) || contains(p, "/page/"@) || contains(p, "/pages/"@) || contains(p, "/search"@)
                || contains(p, "/feed"@) || contains(p, "/rss"@) || contains(p, "/atom"@))
                ==> !spec_looks_like_article(url, prefix)
        }),
        trim_end_char(url.path, '/') == trim_end_char(prefix.path, '/') ==> !spec_looks_like_article(
            url,
            prefix,
        ),
        trim_end_char(url.path, '/') == "/"@ ==> !spec_looks_like_article(url, prefix),
{
    let p = lower(trim_end_char(url.path, '/'));
    let b = banned_parts();
    if contains(p, "/tag/"@) { assert(contains(p, b[0])); }
    if contains(p, "/tags/"@) { assert(contains(p, b[1])); }
    if contains(p, "/category/"@) { assert(contains(p, b[2])); }
    if contains(p, "/categories/"@) { assert(contains(p, b[3])); }
    if contains(p, "/author/"@) { assert(contains(p, b[4])); }
    if contains(p, "/authors/"@) { assert(contains(p, b[5])); }
    if contains(p, "/page/"@) { assert(contains(p, b[6])); }
    if contains(p, "/pages/"@) { assert(contains(p, b[7])); }
    if contains(p, "/search"@) { assert(contains(p, b[8])); }
    if contains(p, "/feed"@) { assert(contains(p, b[9])); }
    if contains(p, "/rss"@) { assert(contains(p, b[10])); }
    if contains(p, "/atom"@) { assert(contains(p, b[11])); }
}

pub fn looks_like_article(url: &WebUrl, prefix: &WebUrl) -> (r: bool)
    ensures
        r == spec_looks_like_article(url@, prefix@),
{
    let path = trimmed_end_char(url.path(), '/');
    let prefix_path = trimmed_end_char(prefix.path(), '/');
    let slash = chars_of("/");
    if chars_eq(path.as_slice(), prefix_path.as_slice()) || chars_eq(
        path.as_slice(),
        slash.as_slice(),
    ) {
        return false;
    }
    let lower_path = lowercase(path.as_slice());
    let banned: [&str; 12] = [
        "/tag/",
        "/tags/",
        "/category/",
        "/categories/",
        "/author/",
        "/authors/",
        "/page/",
        "/pages/",
        "/search",
        "/feed",
        "/rss",
        "/atom",
    ];
    assert(banned@.map_values(|s: &str| s@) =~= banned_parts());
    if contains_any(lower_path.as_slice(), &banned) {
        proof {
            let i = choose|i: int| 0 <= i < banned@.len() && contains(lower_path@, banned@[i]@);
            assert(banned_parts()[i] == banned@[i]@);
        }
        return false;
    }
    proof {
        assert forall|i: int| 0 <= i < banned_parts().len() implies !contains(lower(path@), #[trigger] banned_parts()[i]) by {
            assert(banned_parts()[i] == banned@[i]@);
        }
    }
    count_parts(path.as_slice(), '/') > count_parts(prefix_path.as_slice(), '/')
}

pub fn is_probably_asset(url: &WebUrl) -> (r: bool)
    ensures
        r == spec_is_probably_asset(url@),
{
    let path = lowercase(url.path());
    let exts: [&str; 15] = [
        ".css",
        ".js",
        ".png",
        ".jpg",
        ".jpeg",
        ".gif",
        ".svg",
        ".webp",
        ".ico",
        ".pdf",
        ".zip",
        ".mp4",
        ".mp3",
        ".woff",
        ".woff2",
    ];
    assert(exts@.map_values(|s: &str| s@) =~= asset_extensions());
    let r = ends_with_any(path.as_slice(), &exts);
    proof {
        if r {
            let i = choose|i: int| 0 <= i < exts@.len() && ends_with(path@, exts@[i]@);
            assert(asset_extensions()[i] == exts@[i]@);
        } else {
            assert forall|i: int| 0 <= i < asset_extensions().len() implies !ends_with(path@, #[trigger] asset_extensions()[i]) by {
                assert(asset_extensions()[i] == exts@[i]@);
            }
        }
    }
    r
}

// ---------------------------------------------------------------------------
// Links and titles of a page.

/// References that are not followed: empty, in-page, mail and script links.
pub open spec fn href_skipped(h: Seq<char>) -> bool {
    h.len() == 0 || starts_with(h, "#"@) || starts_with(h, "mailto:"@) || starts_with(
        h,
        "javascript:"@,
    )
}

/// The link an `href` value leads to, resolved against the page URL and
/// without its fragment.
pub open spec fn link_of(base: UrlView, raw: Option<Seq<char>>) -> Option<UrlView> {
    match raw {
        None => None,
        Some(r) => {
            let h = trim(r);
            if href_skipped(h) {
                None
            } else {
                match url_join_result(base, h) {
                    Some(u) => Some(url_with_fragment(u, None)),
                    None => None,
                }
            }
        },
    }
}

pub open spec fn links_of_rows(base: UrlView, rows: Seq<Seq<Option<Seq<char>>>>) -> Seq<UrlView>
    decreases rows.len(),
{
    if rows.len() == 0 {
        Seq::empty()
    } else {
        let rest = links_of_rows(base, rows.drop_last());
        match link_of(base, rows.last()[0]) {
            Some(u) => rest.push(u),
            None => rest,
        }
    }
}

/// The links of a page's `<a href>` elements, in document order.
pub open spec fn page_links(base: UrlView, html: Seq<char>) -> Seq<UrlView> {
    match html_select_attrs(html, "a[href]"@, seq!["href"@]) {
        Some(rows) => links_of_rows(base, rows),
        None => Seq::empty(),
    }
}

/// The page's first `<title>`, trimmed, when not blank.
pub open spec fn page_title(html: Seq<char>) -> Option<Seq<char>> {
    match html_select_texts(html, "title"@) {
        Some(ts) => if ts.len() > 0 && trim(ts[0]).len() > 0 {
            Some(trim(ts[0]))
        } else {
            None
        },
        None => None,
    }
}

pub fn extract_links(base: &WebUrl, html: &str) -> (r: Vec<WebUrl>)
    ensures
        r@.map_values(|u: WebUrl| u@) == page_links(base@, html@),
{
    let attrs: [&str; 1] = ["href"];
    assert(strs_view(attrs@) =~= seq!["href"@]);
    let rows = match select_attrs(html, "a[href]", &attrs) {
        Ok(rows) => rows,
        Err(_) => {
            let r: Vec<WebUrl> = Vec::new();
            assert(r@.map_values(|u: WebUrl| u@) =~= Seq::<UrlView>::empty());
            return r;
        },
    };
    let ghost rv = crate::html::rows_view(rows@);
    let mut links: Vec<WebUrl> = Vec::new();
    let mut i: usize = 0;
    assert(rv.take(0) =~= Seq::<Seq<Option<Seq<char>>>>::empty());
    while i < rows.len()
        invariant
            i <= rows@.len(),
            rv == crate::html::rows_view(rows@),
            forall|k: int| 0 <= k < rows@.len() ==> (#[trigger] rows@[k])@.len() == 1,
            links@.map_values(|u: WebUrl| u@) == links_of_rows(base@, rv.take(i as int)),
        decreases rows.len() - i,
    {
        proof {
            assert(rv.take(i + 1).drop_last() =~= rv.take(i as int));
            assert(rows@[i as int]@.len() == 1);
        }
        let raw = &rows[i][0];
        assert(rv.take(i + 1).last()[0] == crate::html::opt_view(*raw));
        match raw {
            Some(text) => {
                let cs = chars_of(text.as_str());
                let h = trimmed(cs.as_slice());
                let hash = chars_of("#");
                let mailto = chars_of("mailto:");
                let js = chars_of("javascript:");
                if !(h.len() == 0 || has_prefix(h.as_slice(), hash.as_slice()) || has_prefix(
                    h.as_slice(),
                    mailto.as_slice(),
                ) || has_prefix(h.as_slice(), js.as_slice())) {
                    if let Ok(u) = join_url(base, h.as_slice()) {
                        let clean = without_fragment(&u);
                        links.push(clean);
                        assert(links@.map_values(|u: WebUrl| u@) =~= links_of_rows(base@, rv.take(i as int)).push(clean@));
                    }
                }
            },
            None => {},
        }
        i = i + 1;
    }
    assert(rv.take(rows@.len() as int) =~= rv);
    links
}

pub fn extract_title(html: &str) -> (r: Option<String>)
    ensures
        match r {
            Some(t) => page_title(html@) == Some(t@),
            None => page_title(html@) is None,
        },
{
    match select_texts(html, "title") {
        Ok(texts) => {
            if texts.len() == 0 {
                return None;
            }
            let cs = chars_of(texts[0].as_str());
            let t = trimmed(cs.as_slice());
            if t.len() == 0 {
                None
            } else {
                Some(string_of(t.as_slice()))
            }
        },
        Err(_) => None,
    }
}

} // verus!

verus! {

/// The crawl's state as the engine sees it.
pub struct CrawlView {
    pub prefix: UrlView,
    pub max_depth: u32,
    pub page_cap: usize,
    /// Every URL ever queued, with its depth; `head` is the next to consider.
    pub queue: Seq<(UrlView, u32)>,
    pub head: nat,
    /// Canonical keys of the pages requested so far.
    pub visited: Seq<Seq<char>>,
    pub discovered: Seq<FoundView>,
    pub pages: nat,
    pub warnings: Seq<Seq<char>>,
    /// The page cap was reached.
    pub stopped: bool,
    /// The request handed out and not yet answered, with its depth.
    pub pending: Option<(UrlView, u32)>,
    /// robots.txt allowed the pending request.
    pub cleared: bool,
}

/// First queue position at or after `from` whose page was not visited.
pub open spec fn first_unvisited(q: Seq<(UrlView, u32)>, from: nat, visited: Seq<Seq<char>>) -> nat
    decreases q.len() - from,
{
    if from >= q.len() {
        q.len()
    } else if !visited.contains(canonical_key(q[from as int].0)) {
        from
    } else {
        first_unvisited(q, from + 1, visited)
    }
}

/// A link found on a page is queued when it stays on the prefix's site and
/// under the prefix, is not an asset, and its page was not visited.
pub open spec fn queues_link(link: UrlView, prefix: UrlView, visited: Seq<Seq<char>>) -> bool {
    &&& spec_same_host(link, prefix)
    &&& spec_matches_prefix(link, prefix)
    &&& !spec_is_probably_asset(link)
    &&& canonical_fits(link)
    &&& !visited.contains(canonical_key(link))
}

pub open spec fn queued_links(
    links: Seq<UrlView>,
    prefix: UrlView,
    visited: Seq<Seq<char>>,
    depth: u32,
) -> Seq<(UrlView, u32)>
    decreases links.len(),
{
    if links.len() == 0 {
        Seq::empty()
    } else {
        let rest = queued_links(links.drop_last(), prefix, visited, depth);
        if queues_link(links.last(), prefix, visited) {
            rest.push((links.last(), depth))
        } else {
            rest
        }
    }
}

/// Content types the crawl reads: anything naming HTML or XML (a missing
/// type counts as HTML).
pub open spec fn readable_type(content_type: Option<Seq<char>>) -> bool {
    let ct = lower(
        match content_type {
            Some(t) => t,
            None => "text/html"@,
        },
    );
    contains(ct, "html"@) || contains(ct, "xml"@)
}

pub open spec fn cap_warning(cap: nat) -> Seq<char> {
    "crawl page cap ("@ + decimal(cap) + ") reached"@
}

/// The state after asking for the next request: the first unvisited queue
/// entry is marked visited; when the page cap is already reached the crawl
/// stops instead, with a warning.
pub open spec fn after_next(o: CrawlView) -> CrawlView {
    let i = first_unvisited(o.queue, o.head, o.visited);
    if o.stopped {
        o
    } else if i >= o.queue.len() {
        CrawlView { head: o.queue.len(), ..o }
    } else if o.pages >= o.page_cap {
        CrawlView {
            head: i + 1,
            visited: o.visited.push(canonical_key(o.queue[i as int].0)),
            warnings: o.warnings.push(cap_warning(o.page_cap as nat)),
            stopped: true,
            ..o
        }
    } else {
        CrawlView {
            head: i + 1,
            visited: o.visited.push(canonical_key(o.queue[i as int].0)),
            pending: Some(o.queue[i as int]),
            ..o
        }
    }
}

/// The page requested next, with its depth.
pub open spec fn next_request_of(o: CrawlView) -> Option<(UrlView, u32)> {
    let i = first_unvisited(o.queue, o.head, o.visited);
    if o.stopped || i >= o.queue.len() || o.pages >= o.page_cap {
        None
    } else {
        Some(o.queue[i as int])
    }
}

pub open spec fn request_view(r: Option<(WebUrl, u32)>) -> Option<(UrlView, u32)> {
    match r {
        Some((u, d)) => Some((u@, d)),
        None => None,
    }
}

/// The state after a page arrived (see `CrawlState::on_page`).
pub open spec fn after_page(
    o: CrawlView,
    url: UrlView,
    depth: u32,
    content_type: Option<Seq<char>>,
    body: Seq<u8>,
) -> CrawlView {
    if !readable_type(content_type) || !vstd::utf8::valid_utf8(body) {
        CrawlView { pages: o.pages + 1, pending: None, cleared: false, ..o }
    } else {
        let html = vstd::utf8::decode_utf8(body);
        let found = if depth > 0 && spec_matches_prefix(url, o.prefix) && spec_looks_like_article(
            url,
            o.prefix,
        ) {
            o.discovered.push(
                FoundView {
                    url,
                    title: page_title(html),
                    published: None,
                    source: DiscoverySource::Crawl,
                },
            )
        } else {
            o.discovered
        };
        let queue = if depth >= o.max_depth {
            o.queue
        } else {
            o.queue + queued_links(page_links(url, html), o.prefix, o.visited, (depth + 1) as u32)
        };
        CrawlView { pages: o.pages + 1, discovered: found, queue, pending: None, cleared: false, ..o }
    }
}

pub struct CrawlState {
    prefix: WebUrl,
    limits: CrawlLimits,
    queue: Vec<(WebUrl, u32)>,
    head: usize,
    visited: Vec<Vec<char>>,
    discovered: Vec<DiscoveredUrl>,
    pages: usize,
    warnings: Vec<String>,
    stopped: bool,
    pending: Option<(WebUrl, u32)>,
    cleared: bool,
}

pub open spec fn queue_view(q: Seq<(WebUrl, u32)>) -> Seq<(UrlView, u32)> {
    q.map_values(|e: (WebUrl, u32)| (e.0@, e.1))
}

impl View for CrawlState {
    type V = CrawlView;

    closed spec fn view(&self) -> CrawlView {
        CrawlView {
            prefix: self.prefix@,
            max_depth: self.limits.max_depth,
            page_cap: self.limits.page_cap,
            queue: queue_view(self.queue@),
            head: self.head as nat,
            visited: self.visited@.map_values(|k: Vec<char>| k@),
            discovered: self.discovered@.map_values(|d: DiscoveredUrl| d@),
            pages: self.pages as nat,
            warnings: self.warnings@.map_values(|w: String| w@),
            stopped: self.stopped,
            pending: request_view(self.pending),
            cleared: self.cleared,
        }
    }
}

impl CrawlView {
    /// Every queued URL can be canonicalized and no deeper than
    /// the depth bound; no more pages were fetched than the cap allows; a
    /// pending request is within the depth bound and the page cap, and only a
    /// pending request can be cleared by robots.txt.
    pub open spec fn wf(self) -> bool {
        &&& self.head <= self.queue.len()
        &&& self.pages <= self.page_cap
        &&& (self.pending matches Some((u, d)) ==> self.pages < self.page_cap && d <= self.max_depth)
        &&& (self.pending is None ==> !self.cleared)
        &&& forall|i: int|
            0 <= i < self.queue.len() ==> canonical_fits((#[trigger] self.queue[i]).0)
                && self.queue[i].1 <= self.max_depth
    }
}

fn contains_key(visited: &Vec<Vec<char>>, key: &[char]) -> (r: bool)
    ensures
        r == visited@.map_values(|k: Vec<char>| k@).contains(key@),
{
    let ghost vs = visited@.map_values(|k: Vec<char>| k@);
    let mut i: usize = 0;
    while i < visited.len()
        invariant
            i <= visited@.len(),
            vs == visited@.map_values(|k: Vec<char>| k@),
            forall|j: int| 0 <= j < i ==> vs[j] != key@,
        decreases visited.len() - i,
    {
        if chars_eq(visited[i].as_slice(), key) {
            assert(vs[i as int] == key@);
            return true;
        }
        i = i + 1;
    }
    false
}

impl CrawlState {
    pub closed spec fn wf(&self) -> bool {
        self@.wf()
    }

    /// A crawl that starts at the prefix page, at depth 0.
    pub fn new(prefix: &WebUrl, limits: CrawlLimits) -> (r: CrawlState)
        requires
            canonical_fits(prefix@),
        ensures
            r.wf(),
            r@ == (CrawlView {
                prefix: prefix@,
                max_depth: limits.max_depth,
                page_cap: limits.page_cap,
                queue: seq![(prefix@, 0u32)],
                head: 0,
                visited: Seq::empty(),
                discovered: Seq::empty(),
                pages: 0,
                warnings: Seq::empty(),
                stopped: false,
                pending: None,
                cleared: false,
            }),
    {
        let mut queue: Vec<(WebUrl, u32)> = Vec::new();
        queue.push((prefix.duplicate(), 0));
        let r = CrawlState {
            prefix: prefix.duplicate(),
            limits,
            queue,
            head: 0,
            visited: Vec::new(),
            discovered: Vec::new(),
            pages: 0,
            warnings: Vec::new(),
            stopped: false,
            pending: None,
            cleared: false,
        };
        assert(r@.queue =~= seq![(prefix@, 0u32)]);
        assert(r@.visited =~= Seq::<Seq<char>>::empty());
        assert(r@.discovered =~= Seq::<FoundView>::empty());
        assert(r@.warnings =~= Seq::<Seq<char>>::empty());
        r
    }

    /// The next page to request and its depth, or `None` when the crawl is
    /// over (queue exhausted, or the page cap reached, which adds a
    /// warning). Pages already visited are passed over. The request stays
    /// pending until robots.txt and the fetch have answered it.
    pub fn next_request(&mut self) -> (r: Option<(WebUrl, u32)>)
        requires
            old(self).wf(),
            old(self)@.pending is None,
        ensures
            final(self).wf(),
            final(self)@ == after_next(old(self)@),
            request_view(r) == next_request_of(old(self)@),
    {
        let ghost o = self@;
        if self.stopped {
            return None;
        }
        while self.head < self.queue.len()
            invariant
                o == old(self)@,
                self.wf(),
                !self.stopped,
                o.head <= self.head,
                first_unvisited(o.queue, o.head, o.visited) == first_unvisited(o.queue, self.head as nat, o.visited),
                self@ == (CrawlView { head: self.head as nat, ..o }),
            decreases self.queue.len() - self.head,
        {
            let h = self.head;
            assert(queue_view(self.queue@)[h as int] == (self.queue@[h as int].0@, self.queue@[h as int].1));
            let key = canonicalize(&self.queue[h].0);
            self.head = h + 1;
            if !contains_key(&self.visited, key.as_slice()) {
                assert(first_unvisited(o.queue, h as nat, o.visited) == h);
                self.visited.push(key);
                assert(self@.visited =~= o.visited.push(canonical_key(o.queue[h as int].0)));
                if self.pages >= self.limits.page_cap {
                    let mut msg = chars_of("crawl page cap (");
                    let digits = decimal_chars(self.limits.page_cap as u64);
                    extend_vec(&mut msg, digits.as_slice());
                    let tail = chars_of(") reached");
                    extend_vec(&mut msg, tail.as_slice());
                    self.warnings.push(string_of(msg.as_slice()));
                    self.stopped = true;
                    assert(self@.warnings =~= o.warnings.push(cap_warning(o.page_cap as nat)));
                    assert(self@ == (CrawlView {
                        head: (h + 1) as nat,
                        visited: o.visited.push(canonical_key(o.queue[h as int].0)),
                        warnings: o.warnings.push(cap_warning(o.page_cap as nat)),
                        stopped: true,
                        ..o
                    }));
                    return None;
                }
                let (u, d) = (self.queue[h].0.duplicate(), self.queue[h].1);
                self.pending = Some((u.duplicate(), d));
                assert(first_unvisited(o.queue, o.head, o.visited) == h);
                assert(!o.stopped);
                assert(o.pages < o.page_cap);
                assert(u@ == o.queue[h as int].0);
                assert(d == o.queue[h as int].1);

                assert(self@ == (CrawlView {
                    head: (h + 1) as nat,
                    visited: o.visited.push(canonical_key(o.queue[h as int].0)),
                    pending: Some(o.queue[h as int]),
                    ..o
                }));
                return Some((u, d));
            }
        }
        None
    }

    /// The pending request, which robots.txt allowed, arrived. It is
    /// counted; an HTML or XML page that decodes as UTF-8 is read: a deeper
    /// page under the prefix that looks like an article is kept (with its
    /// title), and unless the depth bound is reached its links are queued one
    /// level deeper.
    pub fn on_page(
        &mut self,
        url: &WebUrl,
        depth: u32,
        content_type: Option<String>,
        body: Vec<u8>,
    )
        requires
            old(self).wf(),
            old(self)@.pending == Some((url@, depth)),
            old(self)@.cleared,
        ensures
            final(self).wf(),
            final(self)@ == after_page(
                old(self)@,
                url@,
                depth,
                crate::html::opt_view(content_type),
                body@,
            ),
    {
        let ghost o = self@;
        self.pending = None;
        self.cleared = false;
        self.pages = self.pages + 1;
        let ct = match &content_type {
            Some(t) => chars_of(t.as_str()),
            None => chars_of("text/html"),
        };
        let ct = lowercase(ct.as_slice());
        let html_word = chars_of("html");
        let xml_word = chars_of("xml");
        if !contains_seq(ct.as_slice(), html_word.as_slice()) && !contains_seq(ct.as_slice(), xml_word.as_slice()) {
            return;
        }
        assert(readable_type(crate::html::opt_view(content_type)));
        let ghost body_bytes = body@;
        let html = match utf8_text(body) {
            Ok(h) => h,
            Err(_) => {
                return;
            },
        };
        if depth > 0 && matches_prefix(url, &self.prefix) && looks_like_article(url, &self.prefix) {
            let title = extract_title(html.as_str());
            let found = DiscoveredUrl {
                url: url.duplicate(),
                title,
                published: None,
                source: DiscoverySource::Crawl,
            };
            self.discovered.push(found);
            assert(self@.discovered =~= o.discovered.push(
                FoundView {
                    url: url@,
                    title: page_title(html@),
                    published: None,
                    source: DiscoverySource::Crawl,
                },
            ));
        }
        if depth >= self.limits.max_depth {
            return;
        }
        let links = extract_links(url, html.as_str());
        let ghost lv = links@.map_values(|u: WebUrl| u@);
        let ghost q0 = self@.queue;
        let mut i: usize = 0;
        assert(lv.take(0) =~= Seq::<UrlView>::empty());
        assert(q0 + queued_links(lv.take(0), o.prefix, o.visited, (depth + 1) as u32) =~= q0);
        while i < links.len()
            invariant
                i <= links@.len(),
                lv == links@.map_values(|u: WebUrl| u@),
                depth < self.limits.max_depth,
                self@ == (CrawlView { queue: self@.queue, ..self@ }),
                self@.queue == q0 + queued_links(lv.take(i as int), o.prefix, o.visited, (depth + 1) as u32),
                self@.prefix == o.prefix,
                self@.visited == o.visited,
                self@.max_depth == o.max_depth,
                self@.head == o.head,
                o.head <= q0.len(),
                self@.pages <= self@.page_cap,
                forall|k: int|
                    0 <= k < self@.queue.len() ==> canonical_fits((#[trigger] self@.queue[k]).0)
                        && self@.queue[k].1 <= self@.max_depth,
                self@.discovered == (if depth > 0 && spec_matches_prefix(url@, o.prefix) && spec_looks_like_article(url@, o.prefix) {
                    o.discovered.push(FoundView { url: url@, title: page_title(html@), published: None, source: DiscoverySource::Crawl })
                } else {
                    o.discovered
                }),
                self@.warnings == o.warnings,
                self@.stopped == o.stopped,
                self@.pending is None,
                !self@.cleared,
                self@.pages == o.pages + 1,
                self@.page_cap == o.page_cap,
            decreases links.len() - i,
        {
            let link = &links[i];
            assert(lv[i as int] == link@);
            assert(lv.take(i + 1).drop_last() =~= lv.take(i as int));
            let keep = same_host(link, &self.prefix) && matches_prefix(link, &self.prefix)
                && !is_probably_asset(link) && fits_canonical(link) && {
                let key = canonicalize(link);
                !contains_key(&self.visited, key.as_slice())
            };
            if keep {
                let ghost before = self@.queue;
                self.queue.push((link.duplicate(), depth + 1));
                assert(self@.queue =~= before.push((link@, (depth + 1) as u32)));
            }
            i = i + 1;
        }
        assert(lv.take(links@.len() as int) =~= lv);
        assert(q0 == o.queue);
        assert(lv == page_links(url@, html@));
        assert(readable_type(crate::html::opt_view(content_type)));
        assert(html@ == vstd::utf8::decode_utf8(body_bytes));
    }

    /// robots.txt allows the pending request: it may be fetched.
    pub fn on_allowed(&mut self)
        requires
            old(self).wf(),
            old(self)@.pending is Some,
            !old(self)@.cleared,
        ensures
            final(self).wf(),
            final(self)@ == (CrawlView { cleared: true, ..old(self)@ }),
    {
        self.cleared = true;
    }

    /// robots.txt does not allow the pending request for `url`: it is dropped
    /// with a warning, and the page is not fetched.
    pub fn on_blocked(&mut self, url: &WebUrl)
        requires
            old(self).wf(),
            old(self)@.pending matches Some((u, _)) && u == url@,
            !old(self)@.cleared,
        ensures
            final(self).wf(),
            final(self)@ == (CrawlView {
                warnings: old(self)@.warnings.push("robots blocked crawl of "@ + url@.href),
                pending: None,
                ..old(self)@
            }),
    {
        self.pending = None;
        let mut msg = chars_of("robots blocked crawl of ");
        extend_vec(&mut msg, url.href());
        self.warnings.push(string_of(msg.as_slice()));
        assert(self@.warnings =~= old(self)@.warnings.push("robots blocked crawl of "@ + url@.href));
    }

    /// Fetching the pending request for `url`, which robots.txt allowed,
    /// failed with `message`.
    pub fn on_fetch_error(&mut self, url: &WebUrl, message: &str)
        requires
            old(self).wf(),
            old(self)@.pending matches Some((u, _)) && u == url@,
            old(self)@.cleared,
        ensures
            final(self).wf(),
            final(self)@ == (CrawlView {
                warnings: old(self)@.warnings.push("crawl fetch "@ + url@.href + ": "@ + message@),
                pending: None,
                cleared: false,
                ..old(self)@
            }),
    {
        self.pending = None;
        self.cleared = false;
        let mut msg = chars_of("crawl fetch ");
        extend_vec(&mut msg, url.href());
        let sep = chars_of(": ");
        extend_vec(&mut msg, sep.as_slice());
        let m = chars_of(message);
        extend_vec(&mut msg, m.as_slice());
        self.warnings.push(string_of(msg.as_slice()));
        assert(self@.warnings =~= old(self)@.warnings.push("crawl fetch "@ + url@.href + ": "@ + message@));
    }

    /// The crawl is over: the article pages it found and its warnings.
    pub fn finish(self) -> (r: (Vec<DiscoveredUrl>, Vec<String>))
        ensures
            r.0@.map_values(|d: DiscoveredUrl| d@) == self@.discovered,
            r.1@.map_values(|w: String| w@) == self@.warnings,
    {
        (self.discovered, self.warnings)
    }
}

} // verus!

verus! {

proof fn lemma_first_unvisited(q: Seq<(UrlView, u32)>, from: nat, visited: Seq<Seq<char>>)
    requires
        from <= q.len(),
    ensures
        first_unvisited(q, from, visited) >= from,
        first_unvisited(q, from, visited) < q.len() ==> !visited.contains(
            canonical_key(q[first_unvisited(q, from, visited) as int].0),
        ),
    decreases q.len() - from,
{
    if from < q.len() && visited.contains(canonical_key(q[from as int].0)) {
        lemma_first_unvisited(q, from + 1, visited);
    }
}

/// The crawl never asks for a page twice: the page it requests next was not
/// visited before, and is visited afterwards.
pub proof fn lemma_request_is_new(o: CrawlView)
    requires
        o.wf(),
    ensures
        match next_request_of(o) {
            Some((u, _)) => !o.visited.contains(canonical_key(u)) && after_next(o).visited.contains(
                canonical_key(u),
            ),
            None => true,
        },
{
    lemma_first_unvisited(o.queue, o.head, o.visited);
    let i = first_unvisited(o.queue, o.head, o.visited);
    if next_request_of(o) is Some {
        let v = after_next(o).visited;
        assert(v == o.visited.push(canonical_key(o.queue[i as int].0)));
        assert(v[v.len() - 1] == canonical_key(o.queue[i as int].0));
    }
}

} // verus!
