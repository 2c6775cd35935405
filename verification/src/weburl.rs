//! Absolute URLs as the engine reads them. Parsing, joining and the setters
//! are done by the `url` crate; the library keeps each component as plain
//! characters so that its decisions can be stated over them.
use vstd::prelude::*;

use crate::text::{chars_eq, chars_of, string_of};

verus! {

#[verifier::external_type_specification]
#[verifier::external_body]
pub struct ExUrl(url::Url);

/// The components of a parsed URL.
pub struct UrlView {
    /// `Url::as_str`: the whole serialization.
    pub href: Seq<char>,
    pub scheme: Seq<char>,
    /// `Url::host_str`.
    pub host: Option<Seq<char>>,
    /// `Url::port_or_known_default`.
    pub port: Option<u16>,
    pub path: Seq<char>,
    pub query: Option<Seq<char>>,
    pub fragment: Option<Seq<char>>,
}

impl UrlView {
    /// The path and the query are parts of the serialization.
    pub open spec fn wf(self) -> bool {
        &&& self.path.len() <= self.href.len()
        &&& (self.query matches Some(q) ==> q.len() <= self.href.len())
    }
}

/// What `Url::parse` gives for a string.
pub uninterp spec fn url_parse_result(input: Seq<char>) -> Option<UrlView>;

/// What `Url::join` gives for a base URL and a reference.
pub uninterp spec fn url_join_result(base: UrlView, input: Seq<char>) -> Option<UrlView>;

/// The URL after `Url::set_path`.
pub uninterp spec fn url_with_path(u: UrlView, path: Seq<char>) -> UrlView;

/// The URL after `Url::set_query`.
pub uninterp spec fn url_with_query(u: UrlView, query: Option<Seq<char>>) -> UrlView;

/// The URL after `Url::set_fragment`.
pub uninterp spec fn url_with_fragment(u: UrlView, fragment: Option<Seq<char>>) -> UrlView;

/// The decoded name/value pairs of `Url::query_pairs`.
pub uninterp spec fn url_query_pairs(u: UrlView) -> Seq<(Seq<char>, Seq<char>)>;

/// An uppercase hexadecimal digit.
pub open spec fn hex_upper(d: u8) -> char {
    if d < 10 {
        (0x30 + d) as char
    } else {
        (0x37 + d) as char
    }
}

/// `form_urlencoded::byte_serialize` of one byte: `A-Z`, `a-z`, `0-9`, `*`,
/// `-`, `.` and `_` as they are, `+` for a space, and `%XX` (uppercase) for
/// any other byte.
pub open spec fn form_byte(b: u8) -> Seq<char> {
    if (0x30 <= b && b <= 0x39) || (0x41 <= b && b <= 0x5a) || (0x61 <= b && b <= 0x7a) || b == 0x2a
        || b == 0x2d || b == 0x2e || b == 0x5f {
        seq![b as char]
    } else if b == 0x20 {
        seq!['+']
    } else {
        seq!['%', hex_upper(b / 16), hex_upper(b % 16)]
    }
}

/// `form_urlencoded::byte_serialize` of a byte string.
pub open spec fn form_bytes(bs: Seq<u8>) -> Seq<char>
    decreases bs.len(),
{
    if bs.len() == 0 {
        Seq::empty()
    } else {
        form_bytes(bs.drop_last()) + form_byte(bs.last())
    }
}

/// `form_urlencoded::byte_serialize` of a string's UTF-8 bytes.
pub open spec fn form_component(s: Seq<char>) -> Seq<char> {
    form_bytes(vstd::utf8::encode_utf8(s))
}

/// The characters `form_urlencoded::byte_serialize` writes: `A-Z`, `a-z`,
/// `0-9`, `*`, `-`, `.`, `_` as they are, `+` for a space, and `%` with two
/// hexadecimal digits for any other byte.
pub open spec fn form_output_char(c: char) -> bool {
    ||| ('A' <= c && c <= 'Z')
    ||| ('a' <= c && c <= 'z')
    ||| ('0' <= c && c <= '9')
    ||| c == '*' || c == '-' || c == '.' || c == '_' || c == '+' || c == '%'
}

/// Characters that `Url::set_query` writes as they are: printable ASCII
/// outside its percent-encode set (space, `"`, `#`, `<`, `>`, and `'` for
/// special schemes).
pub open spec fn query_kept_char(c: char) -> bool {
    &&& '!' <= c && c <= '~'
    &&& c != '"' && c != '#' && c != '<' && c != '>' && c != '\''
}

/// Characters taken by a list of name/value pairs, one separator each.
pub open spec fn pairs_weight(ps: Seq<(Seq<char>, Seq<char>)>) -> nat
    decreases ps.len(),
{
    if ps.len() == 0 {
        0
    } else {
        pairs_weight(ps.drop_last()) + ps.last().0.len() + ps.last().1.len() + 1
    }
}

pub open spec fn pairs_view(r: Seq<(Vec<char>, Vec<char>)>) -> Seq<(Seq<char>, Seq<char>)> {
    r.map_values(|p: (Vec<char>, Vec<char>)| (p.0@, p.1@))
}

/// A parsed absolute URL together with its components.
#[derive(Debug)]
pub struct WebUrl {
    inner: url::Url,
    href: Vec<char>,
    scheme: Vec<char>,
    host: Option<Vec<char>>,
    port: Option<u16>,
    path: Vec<char>,
    query: Option<Vec<char>>,
    fragment: Option<Vec<char>>,
}

pub open spec fn opt_chars(o: Option<Vec<char>>) -> Option<Seq<char>> {
    match o {
        Some(v) => Some(v@),
        None => None,
    }
}

impl WebUrl {
    /// The path and the query are slices of the serialization
    /// (`url::Url` keeps them as ranges of one string). Every `WebUrl` is
    /// built from a `url::Url` by `components`.
    #[verifier::type_invariant]
    spec fn inv(self) -> bool {
        &&& self.path@.len() <= self.href@.len()
        &&& (self.query matches Some(q) ==> q@.len() <= self.href@.len())
    }

    /// Brings the invariant into a caller's proof context.
    pub fn note_wf(&self)
        ensures
            self@.wf(),
    {
        proof {
            use_type_invariant(self);
        }
    }
}

impl View for WebUrl {
    type V = UrlView;

    closed spec fn view(&self) -> UrlView {
        UrlView {
            href: self.href@,
            scheme: self.scheme@,
            host: opt_chars(self.host),
            port: self.port,
            path: self.path@,
            query: opt_chars(self.query),
            fragment: opt_chars(self.fragment),
        }
    }
}

/// Reads the components of a `url::Url` (conversion only).
#[verifier::external_body]
fn components(u: url::Url) -> (r: WebUrl) {
    WebUrl {
        href: u.as_str().chars().collect(),
        scheme: u.scheme().chars().collect(),
        host: u.host_str().map(|h| h.chars().collect()),
        port: u.port_or_known_default(),
        path: u.path().chars().collect(),
        query: u.query().map(|q| q.chars().collect()),
        fragment: u.fragment().map(|f| f.chars().collect()),
        inner: u,
    }
}

/// `url::Url::parse`: `Ok` exactly when the crate accepts the input, with
/// the components it reads; the error text is the crate's message.
#[verifier::external_body]
pub(crate) fn parse_url(input: &[char]) -> (r: Result<WebUrl, String>)
    ensures
        r is Ok <==> url_parse_result(input@) is Some,
        r matches Ok(u) ==> url_parse_result(input@) == Some(u@),
{
    let text: String = input.iter().collect();
    match url::Url::parse(&text) {
        Ok(u) => Ok(components(u)),
        Err(e) => Err(e.to_string()),
    }
}

/// `url::Url::join`: resolves a reference against a base URL.
#[verifier::external_body]
pub(crate) fn join_url(base: &WebUrl, input: &[char]) -> (r: Result<WebUrl, String>)
    ensures
        r is Ok <==> url_join_result(base@, input@) is Some,
        r matches Ok(u) ==> url_join_result(base@, input@) == Some(u@),
{
    let text: String = input.iter().collect();
    match base.inner.join(&text) {
        Ok(u) => Ok(components(u)),
        Err(e) => Err(e.to_string()),
    }
}

/// `url::Url::set_path` on a copy. On a URL with a host (never an opaque
/// path), a path that ends in `/` is set as one that ends in `/`: its last
/// segment is empty. The scheme, host, port, query and
/// fragment are left as they were; the new path is the crate's encoding of
/// the argument (at most twelve characters per character, percent-encoded
/// UTF-8, and a leading slash), which is not stated further.
#[verifier::external_body]
pub(crate) fn with_path(u: &WebUrl, path: &[char]) -> (r: WebUrl)
    requires
        u@.href.len() + 12 * path@.len() < 0x1_0000_0000,
    ensures
        r@ == url_with_path(u@, path@),
        r@.href.len() <= u@.href.len() + 12 * path@.len() + 1,
        u@.host is Some && path@.len() > 0 && path@.last() == '/' ==> r@.path.len() > 0
            && r@.path.last() == '/',
        r@.scheme == u@.scheme,
        r@.host == u@.host,
        r@.port == u@.port,
        r@.query == u@.query,
        r@.fragment == u@.fragment,
{
    let text: String = path.iter().collect();
    let mut inner = u.inner.clone();
    inner.set_path(&text);
    components(inner)
}

/// `url::Url::set_query` on a copy. Clearing the query leaves it `None`;
/// scheme, host, port and fragment are unchanged; so is the path when a query is set, and it is
/// not longer when the query is cleared (trailing spaces of an opaque path go
/// with the query). The crate indexes its
/// serialization with `u32` and panics past that; a query character takes
/// at most twelve characters once percent-encoded, and one that needs no
/// encoding takes one.
#[verifier::external_body]
pub(crate) fn with_query(u: &WebUrl, query: Option<&[char]>) -> (r: WebUrl)
    requires
        u@.href.len() + 12 * (match query {
            Some(q) => q@.len(),
            None => 0,
        }) < 0x1_0000_0000 || (query matches Some(q) && u@.href.len() + q@.len() + 1 < 0x1_0000_0000
            && forall|i: int| 0 <= i < q@.len() ==> query_kept_char(#[trigger] q@[i])),
    ensures
        query is None ==> r@.href.len() <= u@.href.len(),
        r@ == url_with_query(
            u@,
            match query {
                Some(q) => Some(q@),
                None => None,
            },
        ),
        query is None ==> r@.query is None,
        r@.path.len() <= u@.path.len(),
        query is Some ==> r@.path == u@.path,
        r@.scheme == u@.scheme,
        r@.host == u@.host,
        r@.port == u@.port,
        r@.fragment == u@.fragment,
{
    let text: Option<String> = query.map(|q| q.iter().collect());
    let mut inner = u.inner.clone();
    inner.set_query(text.as_deref());
    components(inner)
}

/// `url::Url::set_fragment(None)` on a copy: the fragment is gone and the
/// scheme, host, port and query are unchanged; the path is not longer (the
/// crate strips trailing spaces from an opaque path then).
#[verifier::external_body]
pub(crate) fn without_fragment(u: &WebUrl) -> (r: WebUrl)
    ensures
        r@ == url_with_fragment(u@, None),
        r@.href.len() <= u@.href.len(),
        r@.fragment is None,
        r@.scheme == u@.scheme,
        r@.host == u@.host,
        r@.port == u@.port,
        r@.path.len() <= u@.path.len(),
        r@.query == u@.query,
{
    let mut inner = u.inner.clone();
    inner.set_fragment(None);
    components(inner)
}

/// `url::Url::query_pairs`, decoded and owned. A URL without a query has no
/// pairs.
#[verifier::external_body]
pub(crate) fn query_pairs(u: &WebUrl) -> (r: Vec<(Vec<char>, Vec<char>)>)
    ensures
        pairs_view(r@) == url_query_pairs(u@),
        u@.query is None ==> r@.len() == 0,
        u@.query matches Some(q) ==> pairs_weight(pairs_view(r@)) <= q.len() + 1,
{
    u.inner.query_pairs().map(|(k, v)| (k.chars().collect(), v.chars().collect())).collect()
}

/// `form_urlencoded::byte_serialize` of the UTF-8 bytes of `s`: claimed to
/// be `form_component(s)`, hence no longer than twelve characters per
/// character, and made of the characters it writes.
#[verifier::external_body]
pub(crate) fn form_encode(s: &[char]) -> (r: Vec<char>)
    ensures
        r@ == form_component(s@),
        r@.len() <= 12 * s@.len(),
        forall|i: int| 0 <= i < r@.len() ==> form_output_char(#[trigger] r@[i]),
{
    let text: String = s.iter().collect();
    url::form_urlencoded::byte_serialize(text.as_bytes()).flat_map(|part| part.chars()).collect()
}

impl WebUrl {
    /// A second handle on the same URL (`url::Url::clone`).
    #[verifier::external_body]
    pub fn duplicate(&self) -> (r: WebUrl)
        ensures
            r@ == self@,
    {
        components(self.inner.clone())
    }

    pub fn href(&self) -> (r: &[char])
        ensures
            r@ == self@.href,
    {
        self.href.as_slice()
    }

    pub fn scheme(&self) -> (r: &[char])
        ensures
            r@ == self@.scheme,
    {
        self.scheme.as_slice()
    }

    pub fn host(&self) -> (r: Option<&[char]>)
        ensures
            match r {
                Some(h) => self@.host == Some(h@),
                None => self@.host is None,
            },
    {
        match &self.host {
            Some(h) => Some(h.as_slice()),
            None => None,
        }
    }

    pub fn port(&self) -> (r: Option<u16>)
        ensures
            r == self@.port,
    {
        self.port
    }

    pub fn path(&self) -> (r: &[char])
        ensures
            r@ == self@.path,
    {
        self.path.as_slice()
    }

    pub fn query(&self) -> (r: Option<&[char]>)
        ensures
            match r {
                Some(q) => self@.query == Some(q@),
                None => self@.query is None,
            },
    {
        match &self.query {
            Some(q) => Some(q.as_slice()),
            None => None,
        }
    }

    pub fn has_query(&self) -> (r: bool)
        ensures
            r == self@.query is Some,
    {
        self.query.is_some()
    }

    /// The serialization as a `String` (`Url::as_str`).
    pub fn as_str(&self) -> (r: String)
        ensures
            r@ == self@.href,
    {
        string_of(self.href.as_slice())
    }
}

/// Equality of two optional character sequences.
pub fn opt_chars_eq(a: Option<&[char]>, b: Option<&[char]>) -> (r: bool)
    ensures
        r == (match (a, b) {
            (Some(x), Some(y)) => x@ == y@,
            (None, None) => true,
            _ => false,
        }),
{
    match (a, b) {
        (Some(x), Some(y)) => chars_eq(x, y),
        (None, None) => true,
        _ => false,
    }
}

/// Parses a URL given as a string slice.
pub fn parse_url_str(input: &str) -> (r: Result<WebUrl, String>)
    ensures
        r is Ok <==> url_parse_result(input@) is Some,
        r matches Ok(u) ==> url_parse_result(input@) == Some(u@),
{
    let cs = chars_of(input);
    parse_url(cs.as_slice())
}

} // verus!
