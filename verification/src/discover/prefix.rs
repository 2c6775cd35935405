//! URL-prefix normalization and the "is this URL under the prefix" tests.
use vstd::prelude::*;

use crate::error::TidyError;
use crate::text::{
    chars_eq, chars_of, contains, contains_char, contains_seq, ends_with, extend_vec, has_char, has_prefix,
    lowercase, lower, slice_vec, starts_with, string_of, trim, trim_end_char, trimmed, trimmed_end_char,
};
use crate::weburl::{
    form_component, form_encode, form_output_char, query_kept_char, join_url, opt_chars_eq, pairs_view, pairs_weight, parse_url,
    query_pairs, url_parse_result, url_with_fragment, url_with_path, url_with_query, with_path,
    with_query, without_fragment, UrlView, WebUrl,
};

verus! {

/// The part of `s` after the last `c` (`str::rsplit(c).next()`).
pub open spec fn after_last(s: Seq<char>, c: char) -> Seq<char>
    decreases s.len(),
{
    if s.len() == 0 {
        s
    } else if s.last() == c {
        Seq::empty()
    } else {
        after_last(s.drop_last(), c).push(s.last())
    }
}

pub fn after_last_exec(s: &[char], c: char) -> (r: Vec<char>)
    ensures
        r@ == after_last(s@, c),
{
    let mut j: usize = s.len();
    assert(s@.take(j as int) =~= s@);
    assert(s@.subrange(j as int, s@.len() as int) =~= Seq::<char>::empty());
    assert(after_last(s@, c) =~= after_last(s@.take(j as int), c) + s@.subrange(j as int, s@.len() as int));
    while j > 0 && s[j - 1] != c
        invariant
            j <= s@.len(),
            after_last(s@, c) == after_last(s@.take(j as int), c) + s@.subrange(
                j as int,
                s@.len() as int,
            ),
        decreases j,
    {
        assert(s@.take(j as int).drop_last() =~= s@.take(j - 1));
        assert(after_last(s@.take(j as int), c) == after_last(s@.take(j - 1), c).push(s@[j - 1]));
        assert(after_last(s@.take(j - 1), c).push(s@[j - 1]) + s@.subrange(j as int, s@.len() as int)
            =~= after_last(s@.take(j - 1), c) + s@.subrange(j - 1, s@.len() as int));
        j = j - 1;
    }
    if j > 0 {
        assert(after_last(s@.take(j as int), c) =~= Seq::empty());
    } else {
        assert(after_last(s@.take(0), c) =~= Seq::empty());
    }
    let mut out: Vec<char> = Vec::new();
    let mut k: usize = j;
    while k < s.len()
        invariant
            j <= k <= s@.len(),
            out@ == s@.subrange(j as int, k as int),
        decreases s.len() - k,
    {
        out.push(s[k]);
        k = k + 1;
        assert(out@ =~= s@.subrange(j as int, k as int));
    }
    assert(after_last(s@, c) =~= out@);
    out
}

/// The URL that `normalize_prefix` settles on before checking the host: no
/// fragment, no query, and a path that ends in `/` unless its last segment
/// looks like a document (holds a `.`).
pub open spec fn normalized_url(u: UrlView) -> UrlView {
    let a = url_with_fragment(u, None);
    let b = if a.query is Some {
        url_with_query(a, None)
    } else {
        a
    };
    if b.path.len() == 0 {
        url_with_path(b, seq!['/'])
    } else if b.path.last() != '/' && !has_char(after_last(b.path, '/'), '.') {
        url_with_path(b, b.path.push('/'))
    } else {
        b
    }
}

/// Setting the path once more, with a `/` added, keeps the `u32` positions
/// of the `url` crate (a path character takes at most twelve characters once
/// percent-encoded).
pub open spec fn prefix_fits(u: UrlView) -> bool {
    u.href.len() + 12 * (u.path.len() + 1) < 0x1_0000_0000
}

pub fn fits_prefix(u: &WebUrl) -> (r: bool)
    ensures
        r == prefix_fits(u@),
{
    (u.href().len() as u128) + 12 * (u.path().len() as u128 + 1) < 0x1_0000_0000u128
}

/// Normalizes a URL prefix so that path comparisons are stable. Fails when
/// the URL has no host.
pub fn normalize_prefix(url: &WebUrl) -> (r: Result<WebUrl, TidyError>)
    requires
        prefix_fits(url@),
    ensures
        match r {
            Ok(n) => n@ == normalized_url(url@) && n@.host is Some,
            Err(e) => normalized_url(url@).host is None && (e matches TidyError::Message(m)
                && m@ == seq!['p', 'r', 'e', 'f', 'i', 'x', ' ', 'h', 'a', 's', ' ', 'n', 'o', ' ', 'h', 'o', 's', 't', ':', ' '] + normalized_url(url@).href),
        },
        r matches Ok(n) ==> n@.fragment is None && n@.query is None && spec_same_host(n@, url@),
        r matches Ok(n) ==> n@.path.len() > 0 && (n@.path.last() == '/' || has_char(
            after_last(n@.path, '/'),
            '.',
        )),
{
    let a = without_fragment(url);
    a.note_wf();
    let b = if a.has_query() {
        with_query(&a, None)
    } else {
        a
    };
    b.note_wf();
    let path: Vec<char> = slice_vec(b.path(), 0, b.path().len());
    assert(path@ =~= b@.path);
    let ghost a0 = url_with_fragment(url@, None);
    let ghost b0 = if a0.query is Some { url_with_query(a0, None) } else { a0 };
    assert(b@ == b0);
    let n = if path.len() == 0 {
        let slash: Vec<char> = vec!['/'];
        assert(slash@ =~= seq!['/']);
        with_path(&b, slash.as_slice())
    } else if path[path.len() - 1] != '/' && !contains_char(after_last_exec(path.as_slice(), '/').as_slice(), '.') {
        let mut p2 = path.clone();
        p2.push('/');
        with_path(&b, p2.as_slice())
    } else {
        b
    };
    if n.host().is_none() {
        let mut msg: Vec<char> = vec!['p', 'r', 'e', 'f', 'i', 'x', ' ', 'h', 'a', 's', ' ', 'n', 'o', ' ', 'h', 'o', 's', 't', ':', ' '];
        assert(msg@ =~= seq!['p', 'r', 'e', 'f', 'i', 'x', ' ', 'h', 'a', 's', ' ', 'n', 'o', ' ', 'h', 'o', 's', 't', ':', ' ']);
        extend_vec(&mut msg, n.href());
        return Err(TidyError::Message(string_of(msg.as_slice())));
    }
    Ok(n)
}

/// Scheme, host and port agree.
pub open spec fn spec_same_host(a: UrlView, b: UrlView) -> bool {
    a.scheme == b.scheme && a.host == b.host && a.port == b.port
}

/// `candidate` is on the prefix's origin and its path is under the prefix
/// path (the prefix path without its trailing `/` counts too).
pub open spec fn spec_matches_prefix(candidate: UrlView, prefix: UrlView) -> bool {
    &&& spec_same_host(candidate, prefix)
    &&& (prefix.path == seq!['/'] || candidate.path == trim_end_char(prefix.path, '/')
        || starts_with(candidate.path, prefix.path))
}

/// The candidate is the prefix index itself rather than an article under it.
pub open spec fn spec_is_prefix_root(candidate: UrlView, prefix: UrlView) -> bool {
    let left = trim_end_char(candidate.path, '/');
    let right = trim_end_char(prefix.path, '/');
    spec_matches_prefix(candidate, prefix) && (left == right || (right.len() == 0 && (
    left.len() == 0 || left == seq!['/'])))
}

pub fn same_host(a: &WebUrl, b: &WebUrl) -> (r: bool)
    ensures
        r == spec_same_host(a@, b@),
{
    chars_eq(a.scheme(), b.scheme()) && opt_chars_eq(a.host(), b.host()) && a.port() == b.port()
}

pub fn matches_prefix(candidate: &WebUrl, prefix: &WebUrl) -> (r: bool)
    ensures
        r == spec_matches_prefix(candidate@, prefix@),
{
    if !same_host(candidate, prefix) {
        return false;
    }
    let pp = prefix.path();
    let cp = candidate.path();
    let slash: Vec<char> = vec!['/'];
    if chars_eq(pp, slash.as_slice()) {
        assert(slash@ =~= seq!['/']);
        return true;
    }
    assert(slash@ =~= seq!['/']);
    let trimmed_pp = trimmed_end_char(pp, '/');
    chars_eq(cp, trimmed_pp.as_slice()) || has_prefix(cp, pp)
}

pub fn is_prefix_root(candidate: &WebUrl, prefix: &WebUrl) -> (r: bool)
    ensures
        r == spec_is_prefix_root(candidate@, prefix@),
{
    if !matches_prefix(candidate, prefix) {
        return false;
    }
    let left = trimmed_end_char(candidate.path(), '/');
    let right = trimmed_end_char(prefix.path(), '/');
    let slash: Vec<char> = vec!['/'];
    assert(slash@ =~= seq!['/']);
    chars_eq(left.as_slice(), right.as_slice()) || (right.len() == 0 && (left.len() == 0
        || chars_eq(left.as_slice(), slash.as_slice())))
}

/// A URL that is the prefix root is under the prefix.
pub proof fn lemma_root_is_under_prefix(candidate: UrlView, prefix: UrlView)
    requires
        spec_is_prefix_root(candidate, prefix),
    ensures
        spec_matches_prefix(candidate, prefix),
{
}

/// A URL under the prefix shares the prefix's origin.
pub proof fn lemma_under_prefix_same_host(candidate: UrlView, prefix: UrlView)
    requires
        spec_matches_prefix(candidate, prefix),
    ensures
        spec_same_host(candidate, prefix),
        spec_same_host(prefix, candidate),
{
}

/// Every URL is under itself taken as a prefix.
pub proof fn lemma_matches_itself(u: UrlView)
    ensures
        spec_matches_prefix(u, u),
{
    assert(u.path.take(u.path.len() as int) =~= u.path);
}

// ---------------------------------------------------------------------------
// Tracking parameters.

/// Campaign/tracking keys, compared case-insensitively.
pub open spec fn is_tracking_key(key: Seq<char>) -> bool {
    let k = lower(key);
    ||| starts_with(k, seq!['u', 't', 'm', '_'])
    ||| k == seq!['f', 'b', 'c', 'l', 'i', 'd']
    ||| k == seq!['g', 'c', 'l', 'i', 'd']
    ||| k == seq!['m', 'c', '_', 'c', 'i', 'd']
    ||| k == seq!['m', 'c', '_', 'e', 'i', 'd']
}

/// The pairs whose key is not a tracking key, in order.
pub open spec fn kept_pairs(ps: Seq<(Seq<char>, Seq<char>)>) -> Seq<(Seq<char>, Seq<char>)>
    decreases ps.len(),
{
    if ps.len() == 0 {
        ps
    } else if is_tracking_key(ps.last().0) {
        kept_pairs(ps.drop_last())
    } else {
        kept_pairs(ps.drop_last()).push(ps.last())
    }
}

/// `name=value` with both sides form-encoded.
pub open spec fn encoded_pair(p: (Seq<char>, Seq<char>)) -> Seq<char> {
    form_component(p.0) + seq!['='] + form_component(p.1)
}

/// What `form_urlencoded::Serializer` produces for these pairs: the encoded
/// pairs joined by `&`.
pub open spec fn encoded_query(ps: Seq<(Seq<char>, Seq<char>)>) -> Seq<char>
    decreases ps.len(),
{
    if ps.len() == 0 {
        Seq::empty()
    } else if ps.len() == 1 {
        encoded_pair(ps[0])
    } else {
        encoded_query(ps.drop_last()) + seq!['&'] + encoded_pair(ps.last())
    }
}

/// The URL after dropping tracking parameters: unchanged when it has no
/// query pairs, without a query when every pair was a tracking pair, and
/// otherwise with the kept pairs re-encoded.
pub open spec fn scrubbed_url(u: UrlView) -> UrlView {
    let ps = crate::weburl::url_query_pairs(u);
    let kept = kept_pairs(ps);
    if ps.len() == 0 {
        u
    } else if kept.len() == 0 {
        url_with_query(u, None)
    } else {
        url_with_query(u, Some(encoded_query(kept)))
    }
}

/// A campaign/tracking parameter: its key, ignoring ASCII case, starts with
/// `utm_` or is `fbclid`, `gclid`, `mc_cid` or `mc_eid`.
pub open spec fn campaign_pair(p: (Seq<char>, Seq<char>)) -> bool {
    let k = lower(p.0);
    ||| (k.len() >= 4 && k[0] == 'u' && k[1] == 't' && k[2] == 'm' && k[3] == '_')
    ||| k =~= seq!['f', 'b', 'c', 'l', 'i', 'd']
    ||| k =~= seq!['g', 'c', 'l', 'i', 'd']
    ||| k =~= seq!['m', 'c', '_', 'c', 'i', 'd']
    ||| k =~= seq!['m', 'c', '_', 'e', 'i', 'd']
}

proof fn lemma_kept_is_filter(ps: Seq<(Seq<char>, Seq<char>)>)
    ensures
        kept_pairs(ps) == ps.filter(|p: (Seq<char>, Seq<char>)| !campaign_pair(p)),
    decreases ps.len(),
{
    reveal(Seq::filter);
    if ps.len() > 0 {
        lemma_kept_is_filter(ps.drop_last());
        let k = lower(ps.last().0);
        assert(is_tracking_key(ps.last().0) == campaign_pair(ps.last())) by {
            if k.len() >= 4 {
                assert(starts_with(k, seq!['u', 't', 'm', '_']) <==> (k[0] == 'u' && k[1] == 't'
                    && k[2] == 'm' && k[3] == '_')) by {
                    if k[0] == 'u' && k[1] == 't' && k[2] == 'm' && k[3] == '_' {
                        assert(k.take(4) =~= seq!['u', 't', 'm', '_']);
                    }
                }
            }
        }
    }
}

/// Scrubbing drops exactly the campaign/tracking parameters: the pairs the
/// scrubbed URL is built from are the URL's query pairs, in order, less
/// those whose key (ignoring ASCII case) starts with `utm_` or is `fbclid`,
/// `gclid`, `mc_cid` or `mc_eid`; a URL whose pairs are all such loses its
/// query, and a URL without pairs is left as it is.
pub proof fn lemma_scrub_drops_campaign_pairs(u: UrlView)
    ensures
        ({
            let ps = crate::weburl::url_query_pairs(u);
            let kept = ps.filter(|p: (Seq<char>, Seq<char>)| !campaign_pair(p));
            &&& forall|i: int| 0 <= i < kept.len() ==> !campaign_pair(#[trigger] kept[i])
            &&& forall|i: int|
                0 <= i < ps.len() && !campaign_pair(#[trigger] ps[i]) ==> kept.contains(ps[i])
            &&& scrubbed_url(u) == if ps.len() == 0 {
                u
            } else if kept.len() == 0 {
                url_with_query(u, None)
            } else {
                url_with_query(u, Some(encoded_query(kept)))
            }
        }),
{
    let ps = crate::weburl::url_query_pairs(u);
    let pred = |p: (Seq<char>, Seq<char>)| !campaign_pair(p);
    lemma_kept_is_filter(ps);
    let kept = ps.filter(pred);
    assert forall|i: int| 0 <= i < kept.len() implies !campaign_pair(#[trigger] kept[i]) by {
        ps.lemma_filter_pred(pred, i);
    }
    assert forall|i: int| 0 <= i < ps.len() && !campaign_pair(#[trigger] ps[i]) implies kept.contains(
        ps[i],
    ) by {
        ps.lemma_filter_contains(pred, i);
    }
}

proof fn lemma_kept_weight(ps: Seq<(Seq<char>, Seq<char>)>)
    ensures
        pairs_weight(kept_pairs(ps)) <= pairs_weight(ps),
        kept_pairs(ps).len() <= ps.len(),
    decreases ps.len(),
{
    if ps.len() > 0 {
        lemma_kept_weight(ps.drop_last());
        let k = kept_pairs(ps.drop_last());
        assert(k.push(ps.last()).drop_last() =~= k);
    }
}

fn is_tracking(key: &[char]) -> (r: bool)
    ensures
        r == is_tracking_key(key@),
{
    let k = lowercase(key);
    let utm: Vec<char> = vec!['u', 't', 'm', '_'];
    let fbclid: Vec<char> = vec!['f', 'b', 'c', 'l', 'i', 'd'];
    let gclid: Vec<char> = vec!['g', 'c', 'l', 'i', 'd'];
    let mc_cid: Vec<char> = vec!['m', 'c', '_', 'c', 'i', 'd'];
    let mc_eid: Vec<char> = vec!['m', 'c', '_', 'e', 'i', 'd'];
    assert(utm@ =~= seq!['u', 't', 'm', '_']);
    assert(fbclid@ =~= seq!['f', 'b', 'c', 'l', 'i', 'd']);
    assert(gclid@ =~= seq!['g', 'c', 'l', 'i', 'd']);
    assert(mc_cid@ =~= seq!['m', 'c', '_', 'c', 'i', 'd']);
    assert(mc_eid@ =~= seq!['m', 'c', '_', 'e', 'i', 'd']);
    has_prefix(k.as_slice(), utm.as_slice()) || chars_eq(k.as_slice(), fbclid.as_slice())
        || chars_eq(k.as_slice(), gclid.as_slice()) || chars_eq(k.as_slice(), mc_cid.as_slice())
        || chars_eq(k.as_slice(), mc_eid.as_slice())
}

/// The URL's query re-encoded still fits the `u32` positions of the `url`
/// crate: re-encoding takes at most twelve characters per decoded one.
pub open spec fn scrub_fits(u: UrlView) -> bool {
    u.href.len() + 12 * (match u.query {
        Some(q) => q.len() + 1,
        None => 0,
    }) + 1 < 0x1_0000_0000
}

pub fn fits_scrub(u: &WebUrl) -> (r: bool)
    ensures
        r == scrub_fits(u@),
{
    let q: u128 = match u.query() {
        Some(q) => q.len() as u128 + 1,
        None => 0,
    };
    (u.href().len() as u128) + 12 * q + 1 < 0x1_0000_0000u128
}

/// Drops common campaign/tracking query parameters so that the same
/// article collapses to one URL.
pub fn scrub_tracking_params(url: &mut WebUrl)
    requires
        scrub_fits(old(url)@),
    ensures
        final(url)@ == scrubbed_url(old(url)@),
{
    url.note_wf();
    let pairs = query_pairs(url);
    let ghost ps = pairs_view(pairs@);
    if pairs.len() == 0 {
        return;
    }
    let ghost q = url@.query->0;
    proof {
        lemma_kept_weight(ps);
    }
    let mut query: Vec<char> = Vec::new();
    let mut count: usize = 0;
    let mut i: usize = 0;
    while i < pairs.len()
        invariant
            i <= pairs@.len(),
            ps == pairs_view(pairs@),
            ps.len() == pairs@.len(),
            count == kept_pairs(ps.take(i as int)).len(),
            query@ == encoded_query(kept_pairs(ps.take(i as int))),
            query@.len() <= 12 * pairs_weight(kept_pairs(ps.take(i as int))),
            pairs_weight(ps) <= q.len() + 1,
            url@.query == Some(q),
            scrub_fits(url@),
            forall|j: int| 0 <= j < query@.len() ==> query_kept_char(#[trigger] query@[j]),
        decreases pairs.len() - i,
    {
        proof {
            assert(ps.take(i + 1).drop_last() =~= ps.take(i as int));
            lemma_take_weight(ps, i as int);
            lemma_kept_weight(ps.take(i as int));
        }
        let key = &pairs[i].0;
        let value = &pairs[i].1;
        assert(ps[i as int] == (key@, value@));
        if !is_tracking(key.as_slice()) {
            let ek = form_encode(key.as_slice());
            let ev = form_encode(value.as_slice());
            if count > 0 {
                query.push('&');
            }
            extend_vec(&mut query, ek.as_slice());
            query.push('=');
            extend_vec(&mut query, ev.as_slice());
            count = count + 1;
            proof {
                let kp = kept_pairs(ps.take(i as int));
                assert(kept_pairs(ps.take(i + 1)) == kp.push(ps[i as int]));
                assert(kp.push(ps[i as int]).drop_last() =~= kp);
                if kp.len() == 0 {
                    assert(query@ =~= encoded_pair(ps[i as int]));
                } else {
                    assert(query@ =~= encoded_query(kp) + seq!['&'] + encoded_pair(ps[i as int]));
                }
            }
        } else {
            assert(kept_pairs(ps.take(i + 1)) == kept_pairs(ps.take(i as int)));
        }
        i = i + 1;
    }
    assert(ps.take(pairs@.len() as int) =~= ps);
    if count == 0 {
        *url = with_query(url, None);
    } else {
        *url = with_query(url, Some(query.as_slice()));
    }
}

proof fn lemma_take_weight(ps: Seq<(Seq<char>, Seq<char>)>, i: int)
    requires
        0 <= i < ps.len(),
    ensures
        pairs_weight(ps.take(i + 1)) <= pairs_weight(ps),
        pairs_weight(ps.take(i + 1)) == pairs_weight(ps.take(i)) + ps[i].0.len() + ps[i].1.len() + 1,
    decreases ps.len(),
{
    assert(ps.take(i + 1).drop_last() =~= ps.take(i));
    if i + 1 < ps.len() {
        lemma_take_weight(ps.drop_last(), i);
        assert(ps.drop_last().take(i + 1) =~= ps.take(i + 1));
    } else {
        assert(ps.take(i + 1) =~= ps);
    }
}

/// What `parse_prefix` tries to parse: the trimmed input, with `https://`
/// in front unless it names a scheme.
pub open spec fn prefix_candidate(input: Seq<char>) -> Seq<char> {
    let t = trim(input);
    if contains(t, seq![':', '/', '/']) {
        t
    } else {
        seq!['h', 't', 't', 'p', 's', ':', '/', '/'] + t
    }
}

/// Parses a user-supplied URL prefix. Fails with the parser's message when
/// the URL does not parse, and when it has no host.
pub fn parse_prefix(input: &str) -> (r: Result<WebUrl, TidyError>)
    ensures
        match r {
            Ok(u) => url_parse_result(prefix_candidate(input@)) == Some(u@) && u@.host is Some,
            Err(TidyError::Url(_)) => url_parse_result(prefix_candidate(input@)) is None,
            Err(TidyError::Message(m)) => url_parse_result(prefix_candidate(input@)) matches Some(
                u,
            ) && u.host is None && m@ == seq!['U', 'R', 'L', ' ', 'h', 'a', 's', ' ', 'n', 'o', ' ', 'h', 'o', 's', 't', ':', ' '] + prefix_candidate(input@),
            Err(_) => false,
        },
{
    let cs = chars_of(input);
    let t = trimmed(cs.as_slice());
    let sep: Vec<char> = vec![':', '/', '/'];
    assert(sep@ =~= seq![':', '/', '/']);
    let with_scheme = if contains_seq(t.as_slice(), sep.as_slice()) {
        t
    } else {
        let mut w: Vec<char> = vec!['h', 't', 't', 'p', 's', ':', '/', '/'];
        assert(w@ =~= seq!['h', 't', 't', 'p', 's', ':', '/', '/']);
        extend_vec(&mut w, t.as_slice());
        w
    };
    match parse_url(with_scheme.as_slice()) {
        Err(message) => Err(TidyError::Url(message)),
        Ok(u) => {
            if u.host().is_none() {
                let mut msg: Vec<char> = vec!['U', 'R', 'L', ' ', 'h', 'a', 's', ' ', 'n', 'o', ' ', 'h', 'o', 's', 't', ':', ' '];
                assert(msg@ =~= seq!['U', 'R', 'L', ' ', 'h', 'a', 's', ' ', 'n', 'o', ' ', 'h', 'o', 's', 't', ':', ' ']);
                extend_vec(&mut msg, with_scheme.as_slice());
                Err(TidyError::Message(string_of(msg.as_slice())))
            } else {
                Ok(u)
            }
        },
    }
}

} // verus!
