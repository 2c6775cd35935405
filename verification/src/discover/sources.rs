//! Where discovery looks: feed candidates (alternate links and common
//! paths), sitemap candidates (robots.txt and common paths), and the
//! site origin of a prefix.
use vstd::prelude::*;
use crate::html::{opt_view, row_view, rows_view, select_attrs, html_select_attrs, strs_view};
use crate::text::{
    chars_eq, chars_of, concat_vec, contains, contains_seq, lower, lowercase, string_of, trim_char,
    trimmed_char,
};
use crate::weburl::{
    join_url, parse_url, url_join_result, url_parse_result, url_with_fragment, url_with_path,
    url_with_query, with_path, with_query, without_fragment, UrlView, WebUrl,
};

verus! {

/// The site origin of a URL: path `/`, no query, no fragment.
pub open spec fn origin_of(u: UrlView) -> UrlView {
    url_with_fragment(url_with_query(url_with_path(u, "/"@), None), None)
}

/// Setting the path `/` keeps the `u32` positions of the `url` crate.
pub open spec fn origin_fits(u: UrlView) -> bool {
    u.href.len() + 13 < 0x1_0000_0000
}

pub fn fits_origin(u: &WebUrl) -> (r: bool)
    ensures
        r == origin_fits(u@),
{
    (u.href().len() as u128) + 13 < 0x1_0000_0000u128
}

pub fn origin_url(url: &WebUrl) -> (r: WebUrl)
    requires
        origin_fits(url@),
    ensures
        r@ == origin_of(url@),
{
    let slash = chars_of("/");
    proof {
        reveal_strlit("/");
    }
    let a = with_path(url, slash.as_slice());
    let b = with_query(&a, None);
    without_fragment(&b)
}

/// `u` appended unless a URL with the same serialization is listed.
pub open spec fn unique_push(s: Seq<UrlView>, u: UrlView) -> Seq<UrlView> {
    if exists|i: int| 0 <= i < s.len() && s[i].href == u.href {
        s
    } else {
        s.push(u)
    }
}

pub open spec fn unique_extend(s: Seq<UrlView>, us: Seq<UrlView>) -> Seq<UrlView>
    decreases us.len(),
{
    if us.len() == 0 {
        s
    } else {
        unique_push(unique_extend(s, us.drop_last()), us.last())
    }
}

/// The references that resolve against `base`, resolved, in order.
pub open spec fn joined_all(base: UrlView, refs: Seq<Seq<char>>) -> Seq<UrlView>
    decreases refs.len(),
{
    if refs.len() == 0 {
        Seq::empty()
    } else {
        let rest = joined_all(base, refs.drop_last());
        match url_join_result(base, refs.last()) {
            Some(u) => rest.push(u),
            None => rest,
        }
    }
}

pub open spec fn url_views(v: Seq<WebUrl>) -> Seq<UrlView> {
    v.map_values(|u: WebUrl| u@)
}

/// Append a URL unless one with the same serialization is already listed.
pub fn push_unique(list: &mut Vec<WebUrl>, u: WebUrl)
    ensures
        url_views(final(list)@) == unique_push(url_views(old(list)@), u@),
{
    let mut i: usize = 0;
    while i < list.len()
        invariant
            i <= list@.len(),
            forall|j: int| 0 <= j < i ==> list@[j]@.href != u@.href,
        decreases list.len() - i,
    {
        if chars_eq(list[i].href(), u.href()) {
            proof {
                assert(url_views(list@)[i as int].href == u@.href);
            }
            return;
        }
        i = i + 1;
    }
    let ghost before = list@;
    list.push(u);
    assert(url_views(list@) =~= url_views(before).push(u@));
}

fn push_all_unique(list: &mut Vec<WebUrl>, us: Vec<WebUrl>)
    ensures
        url_views(final(list)@) == unique_extend(url_views(old(list)@), url_views(us@)),
{
    let ghost start = url_views(list@);
    let ghost all = url_views(us@);
    let mut rest = us;
    let mut i: usize = 0;
    assert(all.len() == rest.len());
    assert(url_views(rest@) =~= all.skip(0));
    assert(all.take(0) =~= Seq::<UrlView>::empty());
    while rest.len() > 0
        invariant
            i + rest@.len() == all.len(),
            all.len() <= usize::MAX,
            url_views(rest@) == all.skip(i as int),
            url_views(list@) == unique_extend(start, all.take(i as int)),
        decreases rest.len(),
    {
        let ghost before = rest@;
        let u = rest.remove(0);
        assert(u@ == url_views(before)[0]);
        assert(rest@ =~= before.subrange(1, before.len() as int));
        assert(url_views(rest@) =~= url_views(before).skip(1));
        assert(url_views(rest@) =~= all.skip(i + 1));
        push_unique(list, u);
        assert(all.take(i + 1).drop_last() =~= all.take(i as int));
        i = i + 1;
    }
    assert(all.take(all.len() as int) =~= all);
}

/// Resolve each reference against `base`, keeping those that resolve.
pub fn join_all(base: &WebUrl, refs: &[&str]) -> (r: Vec<WebUrl>)
    ensures
        url_views(r@) == joined_all(base@, strs_view(refs@)),
{
    let mut out: Vec<WebUrl> = Vec::new();
    let mut i: usize = 0;
    while i < refs.len()
        invariant
            i <= refs@.len(),
            url_views(out@) == joined_all(base@, strs_view(refs@.take(i as int))),
        decreases refs.len() - i,
    {
        let ghost t = strs_view(refs@.take(i + 1));
        assert(t.drop_last() =~= strs_view(refs@.take(i as int)));
        assert(t.last() == refs@[i as int]@);
        let cs = chars_of(refs[i]);
        match join_url(base, cs.as_slice()) {
            Ok(u) => {
                let ghost before = out@;
                out.push(u);
                assert(url_views(out@) =~= url_views(before).push(u@));
            },
            Err(_) => {},
        }
        i = i + 1;
    }
    assert(refs@.take(refs@.len() as int) =~= refs@);
    out
}

/// Feed paths probed under the prefix and under the site origin.
pub open spec fn common_feed_paths() -> Seq<Seq<char>> {
    seq![
        "feed"@,
        "rss.xml"@,
        "atom.xml"@,
        "index.xml"@,
        "feed.xml"@,
        "feed.json"@,
        "rss"@,
        "atom"@,
        "feeds/posts/default"@,
        "index.json"@,
    ]
}

/// Feed candidates: the alternate links of the prefix page, then the common
/// paths under the prefix, then under the origin; each URL once, first
/// place kept.
pub open spec fn feed_candidates_of(prefix: UrlView, alternates: Seq<UrlView>) -> Seq<UrlView> {
    unique_extend(
        unique_extend(unique_extend(Seq::empty(), alternates), joined_all(prefix, common_feed_paths())),
        joined_all(origin_of(prefix), common_feed_paths()),
    )
}

pub fn feed_candidates(prefix: &WebUrl, alternates: Vec<WebUrl>) -> (r: Vec<WebUrl>)
    requires
        origin_fits(prefix@),
    ensures
        url_views(r@) == feed_candidates_of(prefix@, url_views(alternates@)),
{
    let paths: [&str; 10] = [
        "feed",
        "rss.xml",
        "atom.xml",
        "index.xml",
        "feed.xml",
        "feed.json",
        "rss",
        "atom",
        "feeds/posts/default",
        "index.json",
    ];
    assert(strs_view(paths@) =~= common_feed_paths());
    let mut out: Vec<WebUrl> = Vec::new();
    assert(url_views(out@) =~= Seq::<UrlView>::empty());
    push_all_unique(&mut out, alternates);
    push_all_unique(&mut out, join_all(prefix, &paths));
    let origin = origin_url(prefix);
    push_all_unique(&mut out, join_all(&origin, &paths));
    out
}

/// The part of a path before its first slash.
pub open spec fn first_segment(s: Seq<char>) -> Seq<char>
    decreases s.len(),
{
    if s.len() == 0 || s[0] == '/' {
        Seq::empty()
    } else {
        seq![s[0]] + first_segment(s.drop_first())
    }
}

fn first_segment_exec(s: &[char]) -> (r: Vec<char>)
    ensures
        r@ == first_segment(s@),
{
    let mut k: usize = 0;
    while k < s.len() && s[k] != '/'
        invariant
            k <= s@.len(),
            forall|j: int| 0 <= j < k ==> s@[j] != '/',
        decreases s.len() - k,
    {
        k = k + 1;
    }
    proof {
        lemma_first_segment(s@, k as int);
    }
    crate::text::slice_vec(s, 0, k)
}

proof fn lemma_first_segment(s: Seq<char>, k: int)
    requires
        0 <= k <= s.len(),
        forall|j: int| 0 <= j < k ==> s[j] != '/',
        k == s.len() || s[k] == '/',
    ensures
        first_segment(s) == s.take(k),
    decreases s.len(),
{
    if s.len() == 0 || s[0] == '/' {
        assert(s.take(k) =~= Seq::<char>::empty());
    } else {
        lemma_first_segment(s.drop_first(), k - 1);
        assert(s.take(k) =~= seq![s[0]] + s.drop_first().take(k - 1));
    }
}

/// A sitemap looks related to the prefix when it is on the same host and,
/// unless the prefix is the whole site, its path mentions the prefix's
/// first segment or a word for posts.
pub open spec fn looks_related(sitemap: UrlView, prefix: UrlView) -> bool {
    let pp = trim_char(prefix.path, '/');
    let sp = lower(sitemap.path);
    sitemap.host == prefix.host && (pp.len() == 0 || contains(sp, lower(first_segment(pp)))
        || contains(sp, "post"@) || contains(sp, "blog"@) || contains(sp, "article"@) || contains(
        sp,
        "news"@,
    ))
}

pub fn sitemap_looks_related(sitemap: &WebUrl, prefix: &WebUrl) -> (r: bool)
    ensures
        r == looks_related(sitemap@, prefix@),
{
    if !crate::weburl::opt_chars_eq(sitemap.host(), prefix.host()) {
        return false;
    }
    let pp = trimmed_char(prefix.path(), '/');
    if pp.len() == 0 {
        return true;
    }
    let first = lowercase(first_segment_exec(pp.as_slice()).as_slice());
    let sp = lowercase(sitemap.path());
    contains_seq(sp.as_slice(), first.as_slice()) || contains_seq(sp.as_slice(), chars_of("post").as_slice())
        || contains_seq(sp.as_slice(), chars_of("blog").as_slice()) || contains_seq(
        sp.as_slice(),
        chars_of("article").as_slice(),
    ) || contains_seq(sp.as_slice(), chars_of("news").as_slice())
}

/// A robots.txt sitemap entry read as a URL, else resolved against the prefix.
pub open spec fn sitemap_entry_url(prefix: UrlView, entry: Seq<char>) -> Option<UrlView> {
    match url_parse_result(entry) {
        Some(u) => Some(u),
        None => url_join_result(prefix, entry),
    }
}

/// Entries of robots.txt that read as URLs related (`want`) or not related
/// to the prefix, in order.
pub open spec fn entries_by_relation(prefix: UrlView, entries: Seq<Seq<char>>, want: bool) -> Seq<
    UrlView,
>
    decreases entries.len(),
{
    if entries.len() == 0 {
        Seq::empty()
    } else {
        let rest = entries_by_relation(prefix, entries.drop_last(), want);
        match sitemap_entry_url(prefix, entries.last()) {
            Some(u) => if looks_related(u, prefix) == want {
                rest.push(u)
            } else {
                rest
            },
            None => rest,
        }
    }
}

/// The first `n` URLs (all of them when there are fewer).
pub open spec fn at_most(s: Seq<UrlView>, n: nat) -> Seq<UrlView> {
    if s.len() <= n {
        s
    } else {
        s.take(n as int)
    }
}

/// Sitemap paths probed on the origin and under the prefix.
pub open spec fn common_sitemap_paths() -> Seq<Seq<char>> {
    seq!["sitemap.xml"@, "sitemap_index.xml"@, "sitemap-index.xml"@]
}

/// Each reference resolved against the origin and then against the prefix.
pub open spec fn probe_pairs(origin: UrlView, prefix: UrlView, refs: Seq<Seq<char>>) -> Seq<UrlView>
    decreases refs.len(),
{
    if refs.len() == 0 {
        Seq::empty()
    } else {
        probe_pairs(origin, prefix, refs.drop_last()) + joined_all(origin, seq![refs.last()])
            + joined_all(prefix, seq![refs.last()])
    }
}

/// Sitemap candidates: robots.txt entries related to the prefix, then at
/// most two others; then the origin's sitemap.xml when robots gave any,
/// else the common paths on the origin and under the prefix; each URL once.
pub open spec fn sitemap_candidates_of(prefix: UrlView, robots: Option<Seq<Seq<char>>>) -> Seq<UrlView> {
    let from_robots = match robots {
        Some(entries) => unique_extend(
            Seq::empty(),
            entries_by_relation(prefix, entries, true) + at_most(entries_by_relation(prefix, entries, false), 2),
        ),
        None => Seq::empty(),
    };
    let origin = origin_of(prefix);
    if from_robots.len() == 0 {
        unique_extend(from_robots, probe_pairs(origin, prefix, common_sitemap_paths()))
    } else {
        unique_extend(from_robots, joined_all(origin, seq!["sitemap.xml"@]))
    }
}

fn robots_entry_url(prefix: &WebUrl, entry: &str) -> (r: Option<WebUrl>)
    ensures
        match r {
            Some(u) => sitemap_entry_url(prefix@, entry@) == Some(u@),
            None => sitemap_entry_url(prefix@, entry@) is None,
        },
{
    let cs = chars_of(entry);
    match parse_url(cs.as_slice()) {
        Ok(u) => Some(u),
        Err(_) => match join_url(prefix, cs.as_slice()) {
            Ok(u) => Some(u),
            Err(_) => None,
        },
    }
}

pub open spec fn strings_view(v: Seq<String>) -> Seq<Seq<char>> {
    v.map_values(|s: String| s@)
}

/// Sitemap documents to try for a prefix, given the `Sitemap:` entries of
/// its robots.txt when robots.txt was read.
pub fn sitemap_candidates(prefix: &WebUrl, robots_sitemaps: Option<Vec<String>>) -> (r: Vec<WebUrl>)
    requires
        origin_fits(prefix@),
    ensures
        url_views(r@) == sitemap_candidates_of(
            prefix@,
            match robots_sitemaps {
                Some(v) => Some(strings_view(v@)),
                None => None,
            },
        ),
{
    let mut out: Vec<WebUrl> = Vec::new();
    assert(url_views(out@) =~= Seq::<UrlView>::empty());
    if let Some(entries) = &robots_sitemaps {
        let ghost es = strings_view(entries@);
        let mut related: Vec<WebUrl> = Vec::new();
        let mut other: Vec<WebUrl> = Vec::new();
        let mut i: usize = 0;
        while i < entries.len()
            invariant
                i <= entries@.len(),
                es == strings_view(entries@),
                url_views(related@) == entries_by_relation(prefix@, es.take(i as int), true),
                url_views(other@) == entries_by_relation(prefix@, es.take(i as int), false),
            decreases entries.len() - i,
        {
            assert(es.take(i + 1).drop_last() =~= es.take(i as int));
            assert(es.take(i + 1).last() == entries@[i as int]@);
            match robots_entry_url(prefix, entries[i].as_str()) {
                Some(u) => {
                    let ghost uv = u@;
                    if sitemap_looks_related(&u, prefix) {
                        let ghost before = related@;
                        related.push(u);
                        assert(url_views(related@) =~= url_views(before).push(uv));
                    } else {
                        let ghost before = other@;
                        other.push(u);
                        assert(url_views(other@) =~= url_views(before).push(uv));
                    }
                },
                None => {},
            }
            i = i + 1;
        }
        assert(es.take(es.len() as int) =~= es);
        let ghost others = url_views(other@);
        other.truncate(2);
        assert(url_views(other@) =~= at_most(others, 2));
        let ghost rel = url_views(related@);
        let ghost oth = url_views(other@);
        let mut chosen = related;
        let mut tail = other;
        chosen.append(&mut tail);
        assert(url_views(chosen@) =~= rel + oth);
        push_all_unique(&mut out, chosen);
    }
    let origin = origin_url(prefix);
    if out.len() == 0 {
        let names: [&str; 3] = ["sitemap.xml", "sitemap_index.xml", "sitemap-index.xml"];
        assert(strs_view(names@) =~= common_sitemap_paths());
        let ghost base = url_views(out@);
        let mut k: usize = 0;
        while k < 3
            invariant
                k <= 3,
                strs_view(names@) == common_sitemap_paths(),
                url_views(out@) == unique_extend(base, probe_pairs(origin@, prefix@, common_sitemap_paths().take(k as int))),
            decreases 3 - k,
        {
            let ghost cur = common_sitemap_paths().take(k + 1);
            assert(cur.drop_last() =~= common_sitemap_paths().take(k as int));
            let one: [&str; 1] = [names[k]];
            assert(strs_view(one@) =~= seq![cur.last()]);
            let a = join_all(&origin, &one);
            let b = join_all(prefix, &one);
            proof {
                lemma_unique_extend_append(base, probe_pairs(origin@, prefix@, cur.drop_last()), url_views(a@));
                lemma_unique_extend_append(base, probe_pairs(origin@, prefix@, cur.drop_last()) + url_views(a@), url_views(b@));
                assert(probe_pairs(origin@, prefix@, cur) =~= probe_pairs(origin@, prefix@, cur.drop_last()) + url_views(a@) + url_views(b@));
            }
            push_all_unique(&mut out, a);
            push_all_unique(&mut out, b);
            k = k + 1;
        }
        assert(common_sitemap_paths().take(3) =~= common_sitemap_paths());
    } else {
        let one: [&str; 1] = ["sitemap.xml"];
        assert(strs_view(one@) =~= seq!["sitemap.xml"@]);
        push_all_unique(&mut out, join_all(&origin, &one));
    }
    out
}

/// Extending by two lists one after the other is extending by both.
pub proof fn lemma_unique_extend_append(s: Seq<UrlView>, a: Seq<UrlView>, b: Seq<UrlView>)
    ensures
        unique_extend(unique_extend(s, a), b) == unique_extend(s, a + b),
    decreases b.len(),
{
    if b.len() == 0 {
        assert(a + b =~= a);
    } else {
        lemma_unique_extend_append(s, a, b.drop_last());
        assert((a + b).drop_last() =~= a + b.drop_last());
        assert((a + b).last() == b.last());
    }
}

} // verus!
