//! Sitemaps: which sitemap documents to try for a prefix, and what a
//! sitemap document lists.
use vstd::prelude::*;

use crate::discover::prefix::spec_same_host;
use crate::error::TidyError;
use crate::text::{
    chars_eq, chars_of, contains, contains_seq, extend_vec, lower, lowercase, slice_vec, string_of,
    trim, trim_char, trimmed, trimmed_char,
};
use crate::weburl::{
    join_url, parse_url, url_join_result, url_parse_result, url_with_fragment, url_with_path,
    url_with_query, with_path, with_query, without_fragment, UrlView, WebUrl,
};
use crate::html::opt_view;
use crate::xml::{
    events_view, lossy_text, next_xml_event, utf8_lossy, xml_event_at, xml_stream, XmlEvent,
    XmlEventView,
};

verus! {

/// `local_name` of a tag: the part after the last `}`, lowercased.
pub open spec fn spec_local_name(name: Seq<u8>) -> Seq<char> {
    lower(crate::discover::prefix::after_last(utf8_lossy(name), '}'))
}

pub fn local_name(name: &[u8]) -> (r: Vec<char>)
    ensures
        r@ == spec_local_name(name@),
{
    let full = lossy_text(name);
    let cs = chars_of(full.as_str());
    let last = crate::discover::prefix::after_last_exec(cs.as_slice(), '}');
    lowercase(last.as_slice())
}

/// What a sitemap document lists.
pub enum SitemapBody {
    /// Page URLs (`<urlset>`).
    UrlSet(Vec<WebUrl>),
    /// Further sitemaps (`<sitemapindex>`).
    Index(Vec<WebUrl>),
}

pub enum SitemapBodyView {
    UrlSet(Seq<UrlView>),
    Index(Seq<UrlView>),
}

pub open spec fn urls_view(v: Seq<WebUrl>) -> Seq<UrlView> {
    v.map_values(|u: WebUrl| u@)
}

impl View for SitemapBody {
    type V = SitemapBodyView;

    open spec fn view(&self) -> SitemapBodyView {
        match self {
            SitemapBody::UrlSet(v) => SitemapBodyView::UrlSet(urls_view(v@)),
            SitemapBody::Index(v) => SitemapBodyView::Index(urls_view(v@)),
        }
    }
}

/// Where the scan of a sitemap's events stands.
pub struct SitemapScan {
    pub in_loc: bool,
    pub urls: Seq<UrlView>,
    pub is_index: bool,
    pub is_urlset: bool,
    /// Why a `<loc>` text could not be decoded or unescaped.
    pub failed: Option<Seq<char>>,
    /// End of document seen.
    pub done: bool,
}

/// The URL a `<loc>` text names: absolute, or relative to the sitemap.
pub open spec fn loc_url(base: UrlView, text: Seq<char>) -> Option<UrlView> {
    match url_parse_result(text) {
        Some(u) => Some(u),
        None => url_join_result(base, text),
    }
}

pub open spec fn scan_step(s: SitemapScan, base: UrlView, e: XmlEventView) -> SitemapScan {
    if s.failed is Some || s.done {
        s
    } else {
        match e {
            XmlEventView::Start(n) | XmlEventView::Empty(n) => {
                let l = spec_local_name(n);
                if l == "sitemapindex"@ {
                    SitemapScan { is_index: true, ..s }
                } else if l == "urlset"@ {
                    SitemapScan { is_urlset: true, ..s }
                } else if l == "loc"@ {
                    SitemapScan { in_loc: true, ..s }
                } else {
                    s
                }
            },
            XmlEventView::Text(t) => if s.in_loc {
                match t {
                    Err(m) => SitemapScan { failed: Some(m), ..s },
                    Ok(text) => {
                        let tt = trim(text);
                        let urls = if tt.len() > 0 {
                            match loc_url(base, tt) {
                                Some(u) => s.urls.push(u),
                                None => s.urls,
                            }
                        } else {
                            s.urls
                        };
                        SitemapScan { in_loc: false, urls, ..s }
                    },
                }
            } else {
                s
            },
            XmlEventView::End(n) => if spec_local_name(n) == "loc"@ {
                SitemapScan { in_loc: false, ..s }
            } else {
                s
            },
            XmlEventView::Eof => SitemapScan { done: true, ..s },
            XmlEventView::Other => s,
        }
    }
}

pub open spec fn initial_scan() -> SitemapScan {
    SitemapScan {
        in_loc: false,
        urls: Seq::empty(),
        is_index: false,
        is_urlset: false,
        failed: None,
        done: false,
    }
}

/// The scan after a sequence of events.
pub open spec fn scan_events(base: UrlView, events: Seq<XmlEventView>) -> SitemapScan
    decreases events.len(),
{
    if events.len() == 0 {
        initial_scan()
    } else {
        scan_step(scan_events(base, events.drop_last()), base, events.last())
    }
}

/// What the document lists once scanned: an index when a `<sitemapindex>`
/// tag appeared, else a URL set when `<urlset>` appeared or any `<loc>`
/// was read; `None` otherwise.
pub open spec fn scan_outcome(s: SitemapScan) -> Option<SitemapBodyView> {
    if s.is_index {
        Some(SitemapBodyView::Index(s.urls))
    } else if s.is_urlset || s.urls.len() > 0 {
        Some(SitemapBodyView::UrlSet(s.urls))
    } else {
        None
    }
}

/// What a sitemap lists given the events its reader gave and the reader's
/// error after them, if any; else the message of the sitemap's error.
pub open spec fn sitemap_events_result(
    base: UrlView,
    events: Seq<XmlEventView>,
    read_error: Option<Seq<char>>,
) -> Result<SitemapBodyView, Seq<char>> {
    let s = scan_events(base, events);
    match s.failed {
        Some(m) => Err(m),
        None => if !s.done {
            match read_error {
                Some(m) => Err(m),
                None => Err("unterminated sitemap document"@),
            }
        } else {
            match scan_outcome(s) {
                Some(b) => Ok(b),
                None => Err("unrecognized sitemap document"@),
            }
        },
    }
}

/// The events the reader gives for `body` from its `i`-th call on: up to
/// and including the end of the document, at most `left + 1` of them; and
/// the reader's error, when it failed before.
pub open spec fn events_from(body: Seq<u8>, i: nat, left: nat) -> (Seq<XmlEventView>, Option<
    Seq<char>,
>)
    decreases left,
{
    match xml_event_at(body, i) {
        Err(m) => (Seq::empty(), Some(m)),
        Ok(e) => if e is Eof || left == 0 {
            (seq![e], None)
        } else {
            let (rest, err) = events_from(body, i + 1, (left - 1) as nat);
            (seq![e] + rest, err)
        },
    }
}

/// What the sitemap at `base` whose document is `body` lists, or the
/// message of its error. The reader is asked for at most one event per byte
/// of the body, plus the end.
pub open spec fn sitemap_result(base: UrlView, body: Seq<u8>) -> Result<SitemapBodyView, Seq<char>> {
    let (events, err) = events_from(body, 0, body.len());
    sitemap_events_result(base, events, err)
}

/// The exec side of the scan.
struct Scanner {
    in_loc: bool,
    urls: Vec<WebUrl>,
    is_index: bool,
    is_urlset: bool,
    failed: Option<String>,
    done: bool,
}

impl Scanner {
    spec fn view_scan(&self) -> SitemapScan {
        SitemapScan {
            in_loc: self.in_loc,
            urls: urls_view(self.urls@),
            is_index: self.is_index,
            is_urlset: self.is_urlset,
            failed: opt_view(self.failed),
            done: self.done,
        }
    }

    fn step(&mut self, base: &WebUrl, e: XmlEvent)
        ensures
            final(self).view_scan() == scan_step(old(self).view_scan(), base@, e@),
    {
        if self.failed.is_some() || self.done {
            return;
        }
        match e {
            XmlEvent::Start(n) | XmlEvent::Empty(n) => {
                let l = local_name(n.as_slice());
                let idx = chars_of("sitemapindex");
                let set = chars_of("urlset");
                let loc = chars_of("loc");
                if chars_eq(l.as_slice(), idx.as_slice()) {
                    self.is_index = true;
                } else if chars_eq(l.as_slice(), set.as_slice()) {
                    self.is_urlset = true;
                } else if chars_eq(l.as_slice(), loc.as_slice()) {
                    self.in_loc = true;
                }
            },
            XmlEvent::Text(t) => {
                if self.in_loc {
                    match t {
                        Err(message) => {
                            self.failed = Some(message);
                        },
                        Ok(text) => {
                            let cs = chars_of(text.as_str());
                            let tt = trimmed(cs.as_slice());
                            if tt.len() > 0 {
                                let parsed = match parse_url(tt.as_slice()) {
                                    Ok(u) => Some(u),
                                    Err(_) => match join_url(base, tt.as_slice()) {
                                        Ok(u) => Some(u),
                                        Err(_) => None,
                                    },
                                };
                                if let Some(u) = parsed {
                                    let ghost before = self.urls@;
                                    self.urls.push(u);
                                    assert(urls_view(self.urls@) =~= urls_view(before).push(u@));
                                }
                            }
                            self.in_loc = false;
                        },
                    }
                }
            },
            XmlEvent::End(n) => {
                let l = local_name(n.as_slice());
                let loc = chars_of("loc");
                if chars_eq(l.as_slice(), loc.as_slice()) {
                    self.in_loc = false;
                }
            },
            XmlEvent::Eof => {
                self.done = true;
            },
            XmlEvent::Other => {},
        }
    }
}

fn sitemap_error(base: &WebUrl, message: String) -> (r: TidyError)
    ensures
        r matches TidyError::Sitemap { url, message: m } && url@ == base@.href && m@ == message@,
{
    TidyError::Sitemap { url: base.as_str(), message }
}

/// What a sitemap lists, from the events its XML reader gave, in order;
/// `read_error` is the reader's failure after the last of them, if it
/// failed. Errors are `Sitemap` errors for this sitemap's URL: a `<loc>` text
/// that does not decode or unescape, the reader's failure, a document whose
/// end was not reached, and one that lists nothing recognisable.
pub fn sitemap_from_events(sitemap_url: &WebUrl, events: Vec<XmlEvent>, read_error: Option<String>) -> (r:
    Result<SitemapBody, TidyError>)
    ensures
        match r {
            Ok(b) => sitemap_events_result(sitemap_url@, events_view(events@), opt_view(read_error))
                == Ok::<SitemapBodyView, Seq<char>>(b@),
            Err(e) => e matches TidyError::Sitemap { url, message } && url@ == sitemap_url@.href
                && sitemap_events_result(sitemap_url@, events_view(events@), opt_view(read_error))
                == Err::<SitemapBodyView, Seq<char>>(message@),
        },
{
    let ghost all = events_view(events@);
    let mut rest = events;
    let mut scanner = Scanner {
        in_loc: false,
        urls: Vec::new(),
        is_index: false,
        is_urlset: false,
        failed: None,
        done: false,
    };
    let ghost mut k: int = 0;
    assert(scanner.view_scan() == scan_events(sitemap_url@, all.take(0))) by {
        assert(all.take(0) =~= Seq::<XmlEventView>::empty());
        assert(urls_view(scanner.urls@) =~= Seq::<UrlView>::empty());
    }
    assert(events_view(rest@) =~= all.skip(0));
    while rest.len() > 0
        invariant
            0 <= k <= all.len(),
            events_view(rest@) == all.skip(k),
            scanner.view_scan() == scan_events(sitemap_url@, all.take(k)),
        decreases rest.len(),
    {
        let ghost before = rest@;
        let e = rest.remove(0);
        proof {
            assert(events_view(before).len() == before.len());
            assert(k < all.len());
            assert(events_view(before)[0] == e@);
            assert(all.skip(k)[0] == all[k]);
            assert(e@ == all[k]);
            assert(all.take(k + 1).drop_last() =~= all.take(k));
        }
        scanner.step(sitemap_url, e);
        proof {
            k = k + 1;
            assert(events_view(rest@) =~= events_view(before).skip(1));
            assert(events_view(rest@) =~= all.skip(k));
        }
    }
    assert(all.take(all.len() as int) =~= all);
    if let Some(message) = scanner.failed {
        return Err(sitemap_error(sitemap_url, message));
    }
    if !scanner.done {
        let message = match read_error {
            Some(m) => m,
            None => string_of(chars_of("unterminated sitemap document").as_slice()),
        };
        return Err(sitemap_error(sitemap_url, message));
    }
    let ghost s = scan_events(sitemap_url@, all);
    if scanner.is_index {
        let r = SitemapBody::Index(scanner.urls);
        assert(scan_outcome(s) == Some(r@));
        Ok(r)
    } else if scanner.is_urlset || scanner.urls.len() > 0 {
        let r = SitemapBody::UrlSet(scanner.urls);
        assert(scan_outcome(s) == Some(r@));
        Ok(r)
    } else {
        Err(sitemap_error(sitemap_url, string_of(chars_of("unrecognized sitemap document").as_slice())))
    }
}

/// Reads a sitemap's events with `quick-xml` until the end of the document
/// or the reader's failure, at most one event per byte of the body plus the
/// end, and hands them to `sitemap_from_events`.
pub fn parse_sitemap_body(sitemap_url: &WebUrl, body: &[u8]) -> (r: Result<
    SitemapBody,
    TidyError,
>)
    ensures
        match r {
            Ok(b) => sitemap_result(sitemap_url@, body@) == Ok::<SitemapBodyView, Seq<char>>(b@),
            Err(e) => e matches TidyError::Sitemap { url, message } && url@ == sitemap_url@.href
                && sitemap_result(sitemap_url@, body@) == Err::<SitemapBodyView, Seq<char>>(
                message@,
            ),
        },
{
    let mut stream = xml_stream(body);
    let mut events: Vec<XmlEvent> = Vec::new();
    let mut read_error: Option<String> = None;
    let mut budget: usize = body.len();
    let ghost total = events_from(body@, 0, body@.len() as nat);
    assert(events_view(events@) =~= Seq::<XmlEventView>::empty());
    assert(total == (events_view(events@) + events_from(body@, 0, budget as nat).0, events_from(
        body@,
        0,
        budget as nat,
    ).1));
    loop
        invariant_except_break
            stream.body() == body@,
            read_error is None,
            total == (events_view(events@) + events_from(body@, stream.events_read(), budget as nat).0,
            events_from(body@, stream.events_read(), budget as nat).1),
        ensures
            total == (events_view(events@), opt_view(read_error)),
        decreases budget,
    {
        let ghost i = stream.events_read();
        let ghost old_events = events_view(events@);
        let ghost here = events_from(body@, i, budget as nat);
        match next_xml_event(&mut stream) {
            Ok(e) => {
                let end = matches!(e, XmlEvent::Eof);
                let ghost ev = e@;
                events.push(e);
                proof {
                    assert(events_view(events@) =~= old_events.push(ev));
                }
                if end || budget == 0 {
                    proof {
                        assert(here == (seq![ev], None::<Seq<char>>));
                        assert(old_events + seq![ev] =~= old_events.push(ev));
                    }
                    break;
                }
                proof {
                    let next = events_from(body@, (i + 1) as nat, (budget - 1) as nat);
                    assert(here == (seq![ev] + next.0, next.1));
                    assert(old_events + (seq![ev] + next.0) =~= old_events.push(ev) + next.0);
                }
            },
            Err(message) => {
                read_error = Some(message);
                proof {
                    assert(here.0 =~= Seq::<XmlEventView>::empty());
                    assert(old_events + here.0 =~= old_events);
                }
                break;
            },
        }
        budget = budget - 1;
    }
    sitemap_from_events(sitemap_url, events, read_error)
}

} // verus!
