//! Collecting discovered URLs: one entry per URL (after dropping tracking
//! parameters), feed metadata preferred, and the final ranking.
use vstd::prelude::*;

use crate::discover::prefix::{
    fits_scrub, is_prefix_root, matches_prefix, scrub_fits, scrub_tracking_params, scrubbed_url,
    spec_is_prefix_root, spec_matches_prefix,
};
use crate::discover::types::{DiscoverReport, DiscoveredUrl, DiscoverySource};
use crate::text::chars_eq;
use crate::weburl::{UrlView, WebUrl};

verus! {

broadcast use {vstd::seq_lib::group_to_multiset_ensures, vstd::multiset::group_multiset_axioms};

pub open spec fn opt_str(o: Option<String>) -> Option<Seq<char>> {
    match o {
        Some(s) => Some(s@),
        None => None,
    }
}

/// What the engine knows of one discovered URL.
pub struct FoundView {
    pub url: UrlView,
    pub title: Option<Seq<char>>,
    pub published: Option<Seq<char>>,
    pub source: DiscoverySource,
}

impl View for DiscoveredUrl {
    type V = FoundView;

    open spec fn view(&self) -> FoundView {
        FoundView {
            url: self.url@,
            title: opt_str(self.title),
            published: opt_str(self.published),
            source: self.source,
        }
    }
}

pub open spec fn views(s: Seq<DiscoveredUrl>) -> Seq<FoundView> {
    s.map_values(|d: DiscoveredUrl| d@)
}

// ---------------------------------------------------------------------------
// Ordering.

/// `a < b` in the order of `String::cmp` (code-point lexicographic, which is
/// the byte order of their UTF-8 forms).
pub open spec fn lex_lt(a: Seq<char>, b: Seq<char>) -> bool
    decreases a.len(),
{
    if a.len() == 0 {
        b.len() > 0
    } else if b.len() == 0 {
        false
    } else if a[0] != b[0] {
        a[0] < b[0]
    } else {
        lex_lt(a.drop_first(), b.drop_first())
    }
}

pub proof fn lemma_lex_irreflexive(a: Seq<char>)
    ensures
        !lex_lt(a, a),
    decreases a.len(),
{
    if a.len() > 0 {
        lemma_lex_irreflexive(a.drop_first());
    }
}

pub proof fn lemma_lex_total(a: Seq<char>, b: Seq<char>)
    ensures
        a != b ==> lex_lt(a, b) || lex_lt(b, a),
        !(lex_lt(a, b) && lex_lt(b, a)),
    decreases a.len(),
{
    if a.len() > 0 && b.len() > 0 && a[0] == b[0] {
        lemma_lex_total(a.drop_first(), b.drop_first());
        if a != b {
            assert(a =~= seq![a[0]] + a.drop_first());
            assert(b =~= seq![b[0]] + b.drop_first());
        }
    } else if a.len() == 0 && b.len() == 0 {
        assert(a =~= b);
    }
}

pub proof fn lemma_lex_transitive(a: Seq<char>, b: Seq<char>, c: Seq<char>)
    requires
        lex_lt(a, b),
        lex_lt(b, c),
    ensures
        lex_lt(a, c),
    decreases a.len(),
{
    if a.len() > 0 && b.len() > 0 && c.len() > 0 && a[0] == b[0] && b[0] == c[0] {
        lemma_lex_transitive(a.drop_first(), b.drop_first(), c.drop_first());
    }
}

/// Ranking of discovered URLs: richer sources first; then undated entries,
/// then dated ones newest first (by the published string); ties by URL.
pub open spec fn precedes(a: FoundView, b: FoundView) -> bool {
    if a.source.spec_rank() != b.source.spec_rank() {
        a.source.spec_rank() > b.source.spec_rank()
    } else {
        match (a.published, b.published) {
            (None, Some(_)) => true,
            (Some(_), None) => false,
            (Some(pa), Some(pb)) => if pa != pb {
                lex_lt(pb, pa)
            } else {
                lex_lt(a.url.href, b.url.href)
            },
            (None, None) => lex_lt(a.url.href, b.url.href),
        }
    }
}

pub proof fn lemma_precedes_total(a: FoundView, b: FoundView)
    requires
        a.url.href != b.url.href,
    ensures
        precedes(a, b) || precedes(b, a),
        !(precedes(a, b) && precedes(b, a)),
{
    lemma_lex_total(a.url.href, b.url.href);
    if a.published is Some && b.published is Some {
        lemma_lex_total(a.published->0, b.published->0);
    }
}

pub proof fn lemma_precedes_irreflexive(a: FoundView)
    ensures
        !precedes(a, a),
{
    lemma_lex_irreflexive(a.url.href);
}

pub proof fn lemma_precedes_transitive(a: FoundView, b: FoundView, c: FoundView)
    requires
        precedes(a, b),
        precedes(b, c),
    ensures
        precedes(a, c),
{
    lemma_lex_total(a.url.href, b.url.href);
    lemma_lex_total(b.url.href, c.url.href);
    lemma_lex_total(a.url.href, c.url.href);
    if a.published is Some && b.published is Some && c.published is Some {
        let (pa, pb, pc) = (a.published->0, b.published->0, c.published->0);
        lemma_lex_total(pa, pb);
        lemma_lex_total(pb, pc);
        lemma_lex_total(pa, pc);
        if pa != pb && pb != pc && a.source.spec_rank() == b.source.spec_rank()
            && b.source.spec_rank() == c.source.spec_rank() {
            lemma_lex_transitive(pc, pb, pa);
        }
    }
    if a.source.spec_rank() == b.source.spec_rank() && b.source.spec_rank()
        == c.source.spec_rank() && a.url.href != c.url.href {
        if lex_lt(a.url.href, b.url.href) && lex_lt(b.url.href, c.url.href) {
            lemma_lex_transitive(a.url.href, b.url.href, c.url.href);
        }
    }
}

pub open spec fn sorted_by_rank(s: Seq<FoundView>) -> bool {
    forall|i: int, j: int| 0 <= i < j < s.len() ==> precedes(s[i], s[j])
}

pub open spec fn distinct_urls(s: Seq<FoundView>) -> bool {
    forall|i: int, j: int| 0 <= i < j < s.len() ==> s[i].url.href != s[j].url.href
}

fn lex_less(a: &[char], b: &[char]) -> (r: bool)
    ensures
        r == lex_lt(a@, b@),
{
    let mut i: usize = 0;
    assert(a@.skip(0) =~= a@);
    assert(b@.skip(0) =~= b@);
    while i < a.len() && i < b.len() && a[i] == b[i]
        invariant
            i <= a@.len(),
            i <= b@.len(),
            lex_lt(a@, b@) == lex_lt(a@.skip(i as int), b@.skip(i as int)),
        decreases a.len() - i,
    {
        assert(a@.skip(i as int).drop_first() =~= a@.skip(i + 1));
        assert(b@.skip(i as int).drop_first() =~= b@.skip(i + 1));
        i = i + 1;
    }
    if i == a.len() {
        i < b.len()
    } else if i == b.len() {
        false
    } else {
        a[i] < b[i]
    }
}

fn opt_string_chars(o: &Option<String>) -> (r: Option<Vec<char>>)
    ensures
        match r {
            Some(v) => opt_str(*o) == Some(v@),
            None => o is None,
        },
{
    match o {
        Some(s) => Some(crate::text::chars_of(s.as_str())),
        None => None,
    }
}

fn precedes_exec(a: &DiscoveredUrl, b: &DiscoveredUrl) -> (r: bool)
    ensures
        r == precedes(a@, b@),
{
    let ra = a.source.rank();
    let rb = b.source.rank();
    if ra != rb {
        return ra > rb;
    }
    let pa = opt_string_chars(&a.published);
    let pb = opt_string_chars(&b.published);
    match (pa, pb) {
        (None, Some(_)) => true,
        (Some(_), None) => false,
        (Some(x), Some(y)) => {
            if !chars_eq(x.as_slice(), y.as_slice()) {
                lex_less(y.as_slice(), x.as_slice())
            } else {
                lex_less(a.url.href(), b.url.href())
            }
        },
        (None, None) => lex_less(a.url.href(), b.url.href()),
    }
}


proof fn lemma_distinct_no_duplicates(s: Seq<FoundView>)
    requires
        distinct_urls(s),
    ensures
        s.no_duplicates(),
{
    assert forall|i: int, j: int| 0 <= i < s.len() && 0 <= j < s.len() && i != j implies s[i] != s[j] by {
        if i < j {
        } else {
        }
    }
}

proof fn lemma_distinct_member_eq(s: Seq<FoundView>, a: FoundView, b: FoundView)
    requires
        distinct_urls(s),
        s.contains(a),
        s.contains(b),
        a.url.href == b.url.href,
    ensures
        a == b,
{
    let ia = choose|ia: int| 0 <= ia < s.len() && s[ia] == a;
    let ib = choose|ib: int| 0 <= ib < s.len() && s[ib] == b;
    if ia < ib {
    } else if ib < ia {
    }
}

/// Sorts distinct-URL entries into ranking order.
pub fn rank_entries(entries: Vec<DiscoveredUrl>) -> (r: Vec<DiscoveredUrl>)
    requires
        distinct_urls(views(entries@)),
    ensures
        sorted_by_rank(views(r@)),
        views(r@).to_multiset() == views(entries@).to_multiset(),
        r@.len() == entries@.len(),
{
    let ghost orig = views(entries@);
    let mut input = entries;
    let mut out: Vec<DiscoveredUrl> = Vec::new();
    while input.len() > 0
        invariant
            views(input@) == orig.take(input@.len() as int),
            input@.len() <= orig.len(),
            distinct_urls(orig),
            sorted_by_rank(views(out@)),
            views(out@).to_multiset().add(views(input@).to_multiset()) == orig.to_multiset(),
            out@.len() + input@.len() == orig.len(),
        decreases input.len(),
    {
        let ghost before_in = views(input@);
        let x = input.pop().unwrap();
        proof {
            assert(before_in =~= views(input@).push(x@));
            assert(views(input@) =~= orig.take(input@.len() as int));
            vstd::seq_lib::to_multiset_build(views(input@), x@);
        }
        let ghost xv = x@;
        // every entry already placed has a different URL than `x`
        proof {
            assert(views(out@).to_multiset().add(views(input@).to_multiset()).insert(xv) =~= orig.to_multiset());
            lemma_distinct_no_duplicates(orig);
            orig.lemma_multiset_has_no_duplicates();
            assert forall|k: int| 0 <= k < out@.len() implies views(out@)[k].url.href != xv.url.href by {
                let e = views(out@)[k];
                assert(views(out@).contains(e));
                assert(views(out@).to_multiset().count(e) > 0);
                assert(orig.to_multiset().count(e) > 0);
                assert(orig.to_multiset().count(xv) > 0);
                assert(orig.contains(e));
                assert(orig.contains(xv));
                if e.url.href == xv.url.href {
                    lemma_distinct_member_eq(orig, e, xv);
                    assert(orig.to_multiset().count(xv) >= 2);
                }
            }
        }
        let mut p: usize = 0;
        while p < out.len() && !precedes_exec(&x, &out[p])
            invariant
                p <= out@.len(),
                forall|k: int| 0 <= k < p ==> !precedes(xv, #[trigger] views(out@)[k]),
                x@ == xv,
            decreases out.len() - p,
        {
            p = p + 1;
        }
        let ghost old_out = views(out@);
        proof {
            assert forall|k: int| 0 <= k < p implies precedes(#[trigger] old_out[k], xv) by {
                lemma_precedes_total(old_out[k], xv);
            }
            assert forall|k: int| p <= k < old_out.len() implies precedes(xv, #[trigger] old_out[k]) by {
                if k > p {
                    lemma_precedes_transitive(xv, old_out[p as int], old_out[k]);
                }
            }
            vstd::seq_lib::to_multiset_insert(old_out, p as int, xv);
        }
        out.insert(p, x);
        proof {
            assert(views(out@) =~= old_out.insert(p as int, xv));
            let nv = views(out@);
            assert forall|i: int, j: int| 0 <= i < j < nv.len() implies precedes(nv[i], nv[j]) by {
                if j < p {
                } else if i < p && j == p {
                } else if i < p && j > p {
                    assert(nv[j] == old_out[j - 1]);
                } else if i == p {
                    assert(nv[j] == old_out[j - 1]);
                } else {
                    assert(nv[i] == old_out[i - 1]);
                    assert(nv[j] == old_out[j - 1]);
                }
            }
            assert(views(out@).to_multiset().add(views(input@).to_multiset()) =~= orig.to_multiset());
        }
    }
    proof {
        assert(views(input@).to_multiset() =~= vstd::multiset::Multiset::empty());
        assert(views(out@).to_multiset() =~= orig.to_multiset());
    }
    out
}

} // verus!

verus! {

/// Position of the entry with this URL serialization, if any.
pub open spec fn index_of_href(s: Seq<FoundView>, href: Seq<char>) -> int
    decreases s.len(),
{
    if s.len() == 0 {
        -1
    } else if s.last().url.href == href {
        s.len() - 1
    } else {
        index_of_href(s.drop_last(), href)
    }
}

/// `e` with tracking parameters dropped from its URL.
pub open spec fn scrubbed(e: FoundView) -> FoundView {
    FoundView { url: scrubbed_url(e.url), ..e }
}

/// The entry kept for a URL seen twice: the newcomer wins when its source
/// ranks higher, or when only it carries a title.
pub open spec fn preferred(existing: FoundView, incoming: FoundView) -> FoundView {
    if existing.source.spec_rank() < incoming.source.spec_rank() || (existing.title is None
        && incoming.title is Some) {
        incoming
    } else {
        existing
    }
}

/// The collection after taking in one entry (keyed by its scrubbed URL).
pub open spec fn inserted(s: Seq<FoundView>, e: FoundView) -> Seq<FoundView> {
    let x = scrubbed(e);
    let k = index_of_href(s, x.url.href);
    if k >= 0 {
        s.update(k, preferred(s[k], x))
    } else {
        s.push(x)
    }
}

/// Feed and sitemap entries are kept when they are under the prefix and
/// are not the prefix index itself.
pub open spec fn admits_listed(e: FoundView, prefix: UrlView) -> bool {
    spec_matches_prefix(e.url, prefix) && !spec_is_prefix_root(e.url, prefix)
        && scrub_fits(e.url)
}

/// Crawled entries are already under the prefix; the index is dropped.
pub open spec fn admits_crawled(e: FoundView, prefix: UrlView) -> bool {
    !spec_is_prefix_root(e.url, prefix) && scrub_fits(e.url)
}

pub open spec fn inserted_all(
    s: Seq<FoundView>,
    es: Seq<FoundView>,
    prefix: UrlView,
    crawled: bool,
) -> Seq<FoundView>
    decreases es.len(),
{
    if es.len() == 0 {
        s
    } else {
        let rest = inserted_all(s, es.drop_last(), prefix, crawled);
        let e = es.last();
        if (if crawled {
            admits_crawled(e, prefix)
        } else {
            admits_listed(e, prefix)
        }) {
            inserted(rest, e)
        } else {
            rest
        }
    }
}

proof fn lemma_index_of_href(s: Seq<FoundView>, href: Seq<char>)
    ensures
        -1 <= index_of_href(s, href) < s.len(),
        index_of_href(s, href) >= 0 ==> s[index_of_href(s, href)].url.href == href,
        index_of_href(s, href) < 0 ==> forall|i: int| 0 <= i < s.len() ==> s[i].url.href != href,
    decreases s.len(),
{
    if s.len() > 0 {
        lemma_index_of_href(s.drop_last(), href);
        assert forall|i: int| 0 <= i < s.len() - 1 implies s[i] == s.drop_last()[i] by {}
    }
}

proof fn lemma_inserted_distinct(s: Seq<FoundView>, e: FoundView)
    requires
        distinct_urls(s),
    ensures
        distinct_urls(inserted(s, e)),
{
    lemma_index_of_href(s, scrubbed(e).url.href);
}

/// URLs found so far, one entry per (scrubbed) URL.
pub struct UrlCollection {
    entries: Vec<DiscoveredUrl>,
    feed_hits: usize,
}

impl View for UrlCollection {
    type V = Seq<FoundView>;

    closed spec fn view(&self) -> Seq<FoundView> {
        views(self.entries@)
    }
}

impl UrlCollection {
    #[verifier::type_invariant]
    spec fn inv(self) -> bool {
        distinct_urls(views(self.entries@))
    }

    pub fn new() -> (r: UrlCollection)
        ensures
            r@ == Seq::<FoundView>::empty(),
            r.feed_hits() == 0,
    {
        let r = UrlCollection { entries: Vec::new(), feed_hits: 0 };
        assert(views(r.entries@) =~= Seq::<FoundView>::empty());
        r
    }

    /// How many URLs the feed step left in the collection.
    pub closed spec fn feed_hits(&self) -> nat {
        self.feed_hits as nat
    }

    pub fn len(&self) -> (r: usize)
        ensures
            r == self@.len(),
    {
        self.entries.len()
    }

    pub fn is_empty(&self) -> (r: bool)
        ensures
            r == (self@.len() == 0),
    {
        self.entries.len() == 0
    }

    /// Takes in one entry: tracking parameters are dropped from its URL,
    /// and a URL already present keeps the preferred of the two entries.
    pub fn insert_url(&mut self, entry: DiscoveredUrl)
        requires
            scrub_fits(entry.url@),
        ensures
            final(self)@ == inserted(old(self)@, entry@),
            final(self).feed_hits() == old(self).feed_hits(),
    {
        proof {
            use_type_invariant(&*self);
        }
        let mut entry = entry;
        let ghost e0 = entry@;
        scrub_tracking_params(&mut entry.url);
        let ghost x = entry@;
        assert(x == scrubbed(e0));
        let mut entries: Vec<DiscoveredUrl> = Vec::new();
        std::mem::swap(&mut entries, &mut self.entries);
        let ghost s = views(entries@);
        assert(s == old(self)@);
        let mut k: usize = 0;
        let mut found = false;
        while k < entries.len() && !found
            invariant
                k <= entries@.len(),
                s == views(entries@),
                forall|i: int| 0 <= i < k ==> s[i].url.href != x.url.href,
                found ==> k < entries@.len() && s[k as int].url.href == x.url.href,
                entry@ == x,
            decreases entries.len() - k + (if found { 0int } else { 1int }),
        {
            if chars_eq(entries[k].url.href(), entry.url.href()) {
                found = true;
            } else {
                k = k + 1;
            }
        }
        proof {
            lemma_index_of_href(s, x.url.href);
            if found {
                let j = index_of_href(s, x.url.href);
                if j != k {
                    assert(j >= 0);
                    if j < k {
                    } else {
                        assert(s[j].url.href == s[k as int].url.href);
                    }
                }
            }
            lemma_inserted_distinct(s, e0);
        }
        if found {
            let replace = entries[k].source.rank() < entry.source.rank() || (
            entries[k].title.is_none() && entry.title.is_some());
            assert(index_of_href(s, x.url.href) == k);
            assert(replace == (preferred(s[k as int], x) == x && (s[k as int].source.spec_rank() < x.source.spec_rank() || (s[k as int].title is None && x.title is Some))));
            if replace {
                entries.set(k, entry);
                assert(views(entries@) =~= s.update(k as int, x));
                assert(preferred(s[k as int], x) == x);
            } else {
                assert(s.update(k as int, s[k as int]) =~= s);
                assert(preferred(s[k as int], x) == s[k as int]);
            }
            assert(views(entries@) == inserted(s, e0));
        } else {
            assert(index_of_href(s, x.url.href) < 0);
            entries.push(entry);
            assert(views(entries@) =~= s.push(x));
            assert(views(entries@) == inserted(s, e0));
        }
        assert(distinct_urls(views(entries@)));
        self.entries = entries;
    }

    fn add_entries(&mut self, entries: Vec<DiscoveredUrl>, prefix: &WebUrl, crawled: bool)
        ensures
            final(self)@ == inserted_all(old(self)@, views(entries@), prefix@, crawled),
            final(self).feed_hits() == old(self).feed_hits(),
    {
        let ghost es = views(entries@);
        let ghost s0 = self@;
        let n = entries.len();
        let mut rest = entries;
        let mut i: usize = 0;
        assert(es.take(0) =~= Seq::<FoundView>::empty());
        assert(es.skip(0) =~= es);
        while rest.len() > 0
            invariant
                es.len() == n,
                i + rest@.len() == es.len(),
                views(rest@) == es.skip(i as int),
                self@ == inserted_all(s0, es.take(i as int), prefix@, crawled),
                self.feed_hits() == old(self).feed_hits(),
            decreases rest.len(),
        {
            let ghost before = rest@;
            let e = rest.remove(0);
            proof {
                assert(views(before)[0] == e@);
                assert(es.skip(i as int)[0] == e@);
                assert(rest@ =~= before.drop_first());
                assert(views(rest@) =~= views(before).drop_first());
                assert(views(rest@) =~= es.skip(i + 1));
                assert(es.take(i + 1).drop_last() =~= es.take(i as int));
                assert(es.take(i + 1).last() == e@);
            }
            let keep = if crawled {
                !is_prefix_root(&e.url, prefix)
            } else {
                matches_prefix(&e.url, prefix) && !is_prefix_root(&e.url, prefix)
            };
            if keep && fits_scrub(&e.url) {
                self.insert_url(e);
            }
            i = i + 1;
        }
        assert(es.take(i as int) =~= es);
    }

    /// Feed entries under the prefix (the prefix index itself excluded);
    /// afterwards the collection remembers how many URLs the feeds gave.
    pub fn add_feed_entries(&mut self, entries: Vec<DiscoveredUrl>, prefix: &WebUrl)
        ensures
            final(self)@ == inserted_all(old(self)@, views(entries@), prefix@, false),
            final(self).feed_hits() == final(self)@.len(),
    {
        self.add_entries(entries, prefix, false);
        proof {
            use_type_invariant(&*self);
        }
        self.feed_hits = self.entries.len();
    }

    /// Sitemap entries under the prefix (the prefix index itself excluded).
    pub fn add_sitemap_entries(&mut self, entries: Vec<DiscoveredUrl>, prefix: &WebUrl)
        ensures
            final(self)@ == inserted_all(old(self)@, views(entries@), prefix@, false),
            final(self).feed_hits() == old(self).feed_hits(),
    {
        self.add_entries(entries, prefix, false)
    }

    /// Crawled pages (already under the prefix), the prefix index excluded.
    /// The crawl is the fallback: it runs only when feeds and sitemaps left
    /// the collection empty.
    pub fn add_crawled_entries(&mut self, entries: Vec<DiscoveredUrl>, prefix: &WebUrl)
        requires
            old(self)@.len() == 0,
        ensures
            final(self)@ == inserted_all(old(self)@, views(entries@), prefix@, true),
            final(self).feed_hits() == old(self).feed_hits(),
    {
        self.add_entries(entries, prefix, true)
    }

    /// Ranks the collected URLs, keeps at most `limit` of them, and names
    /// the source that discovery mainly relied on.
    pub fn finish(self, limit: Option<usize>, used_crawl: bool) -> (r: (
        Vec<DiscoveredUrl>,
        DiscoverySource,
    ))
        ensures
            exists|full: Seq<FoundView>|
                {
                    &&& sorted_by_rank(full)
                    &&& full.to_multiset() == self@.to_multiset()
                    &&& views(r.0@) == match limit {
                        Some(l) => if l < full.len() {
                            full.take(l as int)
                        } else {
                            full
                        },
                        None => full,
                    }
                },
            r.1 == primary_source(self.feed_hits(), views(r.0@), used_crawl),
    {
        proof {
            use_type_invariant(&self);
        }
        let feed_hits = self.feed_hits;
        let mut urls = rank_entries(self.entries);
        let ghost full = views(urls@);
        if let Some(l) = limit {
            if l < urls.len() {
                urls.truncate(l);
                assert(views(urls@) =~= full.take(l as int));
            }
        }
        let primary = pick_primary(feed_hits, &urls, used_crawl);
        (urls, primary)
    }
}

/// The source discovery mainly relied on: feeds when they gave anything,
/// else sitemaps when a kept URL came from one, else the crawl when it ran
/// or gave a URL, else the first URL's source, else none.
pub open spec fn primary_source(
    feed_hits: nat,
    urls: Seq<FoundView>,
    used_crawl: bool,
) -> DiscoverySource {
    if feed_hits > 0 {
        DiscoverySource::Feed
    } else if exists|i: int| 0 <= i < urls.len() && urls[i].source == DiscoverySource::Sitemap {
        DiscoverySource::Sitemap
    } else if used_crawl || exists|i: int|
        0 <= i < urls.len() && urls[i].source == DiscoverySource::Crawl {
        DiscoverySource::Crawl
    } else if urls.len() > 0 {
        urls[0].source
    } else {
        DiscoverySource::Unknown
    }
}

fn any_source(urls: &Vec<DiscoveredUrl>, source: DiscoverySource) -> (r: bool)
    ensures
        r == exists|i: int| 0 <= i < urls@.len() && views(urls@)[i].source == source,
{
    let mut i: usize = 0;
    while i < urls.len()
        invariant
            i <= urls@.len(),
            forall|j: int| 0 <= j < i ==> views(urls@)[j].source != source,
        decreases urls.len() - i,
    {
        if urls[i].source == source {
            assert(views(urls@)[i as int].source == source);
            return true;
        }
        i = i + 1;
    }
    false
}

fn pick_primary(feed_hits: usize, urls: &Vec<DiscoveredUrl>, used_crawl: bool) -> (r:
    DiscoverySource)
    ensures
        r == primary_source(feed_hits as nat, views(urls@), used_crawl),
{
    if feed_hits > 0 {
        DiscoverySource::Feed
    } else if any_source(urls, DiscoverySource::Sitemap) {
        DiscoverySource::Sitemap
    } else if used_crawl || any_source(urls, DiscoverySource::Crawl) {
        DiscoverySource::Crawl
    } else if urls.len() > 0 {
        urls[0].source
    } else {
        DiscoverySource::Unknown
    }
}

} // verus!

verus! {

/// In a collection without repeated URLs, the one entry with a URL is the
/// one found.
pub proof fn lemma_index_of_unique(s: Seq<FoundView>, href: Seq<char>, k: int)
    requires
        0 <= k < s.len(),
        s[k].url.href == href,
        forall|j: int| 0 <= j < s.len() && j != k ==> s[j].url.href != href,
    ensures
        index_of_href(s, href) == k,
    decreases s.len(),
{
    if k < s.len() - 1 {
        lemma_index_of_unique(s.drop_last(), href, k);
    }
}

/// Taking in the same entry twice leaves the collection as taking it in
/// once: each URL keeps one entry, and the entry kept does not change.
pub proof fn lemma_insert_idempotent(s: Seq<FoundView>, e: FoundView)
    requires
        distinct_urls(s),
    ensures
        inserted(inserted(s, e), e) == inserted(s, e),
{
    let x = scrubbed(e);
    let h = x.url.href;
    lemma_index_of_href(s, h);
    let k = index_of_href(s, h);
    let once = inserted(s, e);
    lemma_inserted_distinct(s, e);
    if k >= 0 {
        let p = preferred(s[k], x);
        assert(once == s.update(k, p));
        assert forall|j: int| 0 <= j < once.len() && j != k implies once[j].url.href != h by {
            assert(once[j] == s[j]);
            if j < k {
            } else {
            }
        }
        lemma_index_of_unique(once, h, k);
        assert(preferred(p, x) == p);
        assert(inserted(once, e) =~= once.update(k, p));
        assert(once.update(k, p) =~= once);
    } else {
        let n = s.len() as int;
        assert(once == s.push(x));
        assert forall|j: int| 0 <= j < once.len() && j != n implies once[j].url.href != h by {
            assert(once[j] == s[j]);
        }
        lemma_index_of_unique(once, h, n);
        assert(preferred(x, x) == x);
        assert(inserted(once, e) =~= once.update(n, x));
        assert(once.update(n, x) =~= once);
    }
}

/// A newcomer from a higher-ranked source always replaces the entry kept
/// for its URL (feed metadata wins over sitemap and crawl entries).
pub proof fn lemma_higher_rank_wins(existing: FoundView, incoming: FoundView)
    requires
        existing.source.spec_rank() < incoming.source.spec_rank(),
    ensures
        preferred(existing, incoming) == incoming,
{
}

} // verus!

verus! {

/// However many entries are taken in, from whichever step, the collection
/// holds one entry per URL.
pub proof fn lemma_collection_stays_distinct(
    s: Seq<FoundView>,
    es: Seq<FoundView>,
    prefix: UrlView,
    crawled: bool,
)
    requires
        distinct_urls(s),
    ensures
        distinct_urls(inserted_all(s, es, prefix, crawled)),
    decreases es.len(),
{
    if es.len() > 0 {
        lemma_collection_stays_distinct(s, es.drop_last(), prefix, crawled);
        lemma_inserted_distinct(inserted_all(s, es.drop_last(), prefix, crawled), es.last());
    }
}

} // verus!
