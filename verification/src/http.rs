//! The polite HTTP client's decisions: its configuration, the cache layout,
//! conditional requests, what a response status means, and pacing per host.
use vstd::prelude::*;
use crate::digest::{digest_chars, text_digest};
use crate::error::TidyError;
use crate::html::opt_view;
use crate::text::{chars_of, concat_vec, string_of, utf8_text};
use crate::vault::{join_path, path_join};
use crate::weburl::{UrlView, WebUrl};

verus! {

pub const USER_AGENT: &'static str = "Tidy/0.1 (+https://github.com/ririyad/tidy; polite local-first reader)";

/// How the client behaves: where it caches, how often and how many at once
/// it asks one host, how many requests run at all, and when it gives up.
#[derive(Debug, Clone)]
pub struct HttpClientConfig {
    pub cache_dir: Option<String>,
    pub per_host_interval_ms: u64,
    pub per_host_concurrency: usize,
    pub global_concurrency: usize,
    pub request_timeout_secs: u64,
}

impl Default for HttpClientConfig {
    fn default() -> (r: Self)
        ensures
            r.cache_dir is None,
            r.per_host_interval_ms == 1000,
            r.per_host_concurrency == 2,
            r.global_concurrency == 6,
            r.request_timeout_secs == 30,
    {
        HttpClientConfig {
            cache_dir: None,
            per_host_interval_ms: 1000,
            per_host_concurrency: 2,
            global_concurrency: 6,
            request_timeout_secs: 30,
        }
    }
}

/// Permits per host and in all, each at least one.
pub fn limiter_sizes(config: &HttpClientConfig) -> (r: (usize, usize))
    ensures
        r.0 == if config.per_host_concurrency < 1 { 1 } else { config.per_host_concurrency },
        r.1 == if config.global_concurrency < 1 { 1 } else { config.global_concurrency },
{
    (
        if config.per_host_concurrency < 1 { 1 } else { config.per_host_concurrency },
        if config.global_concurrency < 1 { 1 } else { config.global_concurrency },
    )
}

/// A cached response.
#[derive(Debug, Clone)]
pub struct CacheEntry {
    pub url: String,
    pub content_type: Option<String>,
    pub etag: Option<String>,
    pub last_modified: Option<String>,
    pub body: Vec<u8>,
}

/// The on-disk response cache: a directory holding, for each URL, its
/// metadata as `<key>.json` and its body as `<key>.bin`.
#[derive(Debug, Clone)]
pub struct HttpCache {
    root: String,
}

impl View for HttpCache {
    type V = Seq<char>;

    /// The cache directory.
    closed spec fn view(&self) -> Seq<char> {
        self.root@
    }
}

impl HttpCache {
    /// The cache kept in the directory `root` (creating the directory is the
    /// caller's part).
    pub fn new(root: String) -> (r: HttpCache)
        ensures
            r@ == root@,
    {
        HttpCache { root }
    }

    /// The cache directory.
    pub fn root(&self) -> (r: &str)
        ensures
            r@ == self@,
    {
        self.root.as_str()
    }

    /// The cache key of a URL: the hexadecimal SHA-256 of its serialization.
    pub fn key(url: &WebUrl) -> (r: String)
        ensures
            r@ == text_digest(url@.href),
    {
        let href = url.as_str();
        string_of(digest_chars(href.as_str()).as_slice())
    }

    /// `<root>/<key>.json`, where the cache keeps a response's metadata.
    pub fn meta_path(&self, url: &WebUrl) -> (r: String)
        ensures
            r@ == path_join(self@, text_digest(url@.href) + ".json"@),
    {
        let href = url.as_str();
        let name = concat_vec(digest_chars(href.as_str()).as_slice(), chars_of(".json").as_slice());
        join_path(self.root.as_str(), string_of(name.as_slice()).as_str())
    }

    /// `<root>/<key>.bin`, where the cache keeps a response's body.
    pub fn body_path(&self, url: &WebUrl) -> (r: String)
        ensures
            r@ == path_join(self@, text_digest(url@.href) + ".bin"@),
    {
        let href = url.as_str();
        let name = concat_vec(digest_chars(href.as_str()).as_slice(), chars_of(".bin").as_slice());
        join_path(self.root.as_str(), string_of(name.as_slice()).as_str())
    }
}

/// `<scheme>://<host>`: robots.txt rules are kept per origin.
pub fn origin_key(url: &WebUrl) -> (r: String)
    ensures
        r@ == url@.scheme + "://"@ + match url@.host {
            Some(h) => h,
            None => Seq::empty(),
        },
{
    let a = concat_vec(url.scheme(), chars_of("://").as_slice());
    let b = match url.host() {
        Some(h) => concat_vec(a.as_slice(), h),
        None => a,
    };
    string_of(b.as_slice())
}

pub open spec fn pairs_view(v: Seq<(String, String)>) -> Seq<(Seq<char>, Seq<char>)> {
    v.map_values(|p: (String, String)| (p.0@, p.1@))
}

/// The headers that revalidate a cached response: its entity tag and its
/// modification time, when known.
pub open spec fn revalidation_headers(entry: Option<CacheEntry>) -> Seq<(Seq<char>, Seq<char>)> {
    match entry {
        Some(e) => (match opt_view(e.etag) {
            Some(t) => seq![("if-none-match"@, t)],
            None => Seq::empty(),
        }) + (match opt_view(e.last_modified) {
            Some(m) => seq![("if-modified-since"@, m)],
            None => Seq::empty(),
        }),
        None => Seq::empty(),
    }
}

pub fn conditional_headers(entry: Option<&CacheEntry>) -> (r: Vec<(String, String)>)
    ensures
        pairs_view(r@) == revalidation_headers(
            match entry {
                Some(e) => Some(*e),
                None => None,
            },
        ),
{
    let mut out: Vec<(String, String)> = Vec::new();
    if let Some(e) = entry {
        if let Some(t) = &e.etag {
            out.push(("if-none-match".to_owned(), t.clone()));
        }
        if let Some(m) = &e.last_modified {
            out.push(("if-modified-since".to_owned(), m.clone()));
        }
    }
    assert(pairs_view(out@) =~= revalidation_headers(
        match entry {
            Some(e) => Some(*e),
            None => None,
        },
    ));
    out
}

/// What to make of a response.
#[derive(Debug)]
pub enum ResponseStep {
    /// Not modified, and a cached copy exists: answer from the cache.
    UseCached,
    /// Read the body.
    Accept,
    /// Not a success.
    Fail(TidyError),
}

/// Interpret a response status (`status_text` is how it is shown, e.g.
/// `404 Not Found`): 304 with a cached copy is answered from the cache, any
/// other status outside 200–299 fails.
pub fn classify_response(url: &WebUrl, status: u16, status_text: &str, has_cached: bool) -> (r:
    ResponseStep)
    ensures
        status == 304 && has_cached ==> r is UseCached,
        !(status == 304 && has_cached) && 200 <= status < 300 ==> r is Accept,
        !(status == 304 && has_cached) && !(200 <= status < 300) ==> (r matches ResponseStep::Fail(
            TidyError::Http { url: u, message: m },
        ) && u@ == url@.href && m@ == "unexpected status "@ + status_text@),
{
    if status == 304 && has_cached {
        return ResponseStep::UseCached;
    }
    if 200 <= status && status < 300 {
        return ResponseStep::Accept;
    }
    proof {
        reveal_strlit("unexpected status ");
    }
    let m = concat_vec(chars_of("unexpected status ").as_slice(), chars_of(status_text).as_slice());
    ResponseStep::Fail(TidyError::http(url.as_str(), string_of(m.as_slice())))
}

/// The body of a response as text, or an HTTP error for the URL.
pub fn response_text(url: &WebUrl, body: Vec<u8>) -> (r: Result<String, TidyError>)
    ensures
        vstd::utf8::valid_utf8(body@) ==> (r matches Ok(s) && s@ == vstd::utf8::decode_utf8(body@)),
        !vstd::utf8::valid_utf8(body@) ==> (r matches Err(TidyError::Http { url: u, message: m })
            && u@ == url@.href && starts_with_prefix(m@)),
{
    match utf8_text(body) {
        Ok(s) => Ok(s),
        Err(e) => {
            proof {
                reveal_strlit("response was not UTF-8: ");
            }
            let head = chars_of("response was not UTF-8: ");
            let m = concat_vec(head.as_slice(), chars_of(e.as_str()).as_slice());
            assert(m@.take(head@.len() as int) =~= head@);
            Err(TidyError::http(url.as_str(), string_of(m.as_slice())))
        },
    }
}

pub open spec fn starts_with_prefix(m: Seq<char>) -> bool {
    crate::text::starts_with(m, "response was not UTF-8: "@)
}

/// How long a request to a host waits: until the host's next allowed time,
/// if that is still ahead (times in milliseconds).
pub fn pacing_delay(next_allowed_ms: u64, now_ms: u64) -> (r: u64)
    ensures
        r == if next_allowed_ms > now_ms { next_allowed_ms - now_ms } else { 0 },
{
    if next_allowed_ms > now_ms {
        next_allowed_ms - now_ms
    } else {
        0
    }
}

} // verus!
