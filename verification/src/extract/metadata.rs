//! Merging the metadata of a page from feed hints, the page's own metadata
//! and the readable article.
use vstd::prelude::*;
use crate::html::opt_view;
use crate::text::{chars_of, string_of, trim, trimmed};

verus! {

/// Hints from an earlier discovery step (usually a feed entry).
#[derive(Debug, Clone)]
pub struct ArticleHints {
    pub title: Option<String>,
    pub author: Option<String>,
    pub published: Option<String>,
    pub excerpt: Option<String>,
}

impl Default for ArticleHints {
    fn default() -> (r: Self)
        ensures
            r.title is None && r.author is None && r.published is None && r.excerpt is None,
    {
        ArticleHints { title: None, author: None, published: None, excerpt: None }
    }
}

/// Fields that both a page's metadata (JSON-LD, OpenGraph, meta tags) and the
/// readable article carry.
#[derive(Debug, Clone)]
pub struct ReadableFields {
    pub title: String,
    pub byline: Option<String>,
    pub excerpt: Option<String>,
    pub site_name: Option<String>,
    pub published_time: Option<String>,
    pub image: Option<String>,
    pub lang: Option<String>,
    pub url: Option<String>,
}

pub struct FieldsView {
    pub title: Seq<char>,
    pub byline: Option<Seq<char>>,
    pub excerpt: Option<Seq<char>>,
    pub site_name: Option<Seq<char>>,
    pub published_time: Option<Seq<char>>,
    pub image: Option<Seq<char>>,
    pub lang: Option<Seq<char>>,
    pub url: Option<Seq<char>>,
}

impl View for ReadableFields {
    type V = FieldsView;

    open spec fn view(&self) -> FieldsView {
        FieldsView {
            title: self.title@,
            byline: opt_view(self.byline),
            excerpt: opt_view(self.excerpt),
            site_name: opt_view(self.site_name),
            published_time: opt_view(self.published_time),
            image: opt_view(self.image),
            lang: opt_view(self.lang),
            url: opt_view(self.url),
        }
    }
}

#[derive(Debug, Clone)]
pub struct PageMetadata {
    pub title: String,
    pub author: Option<String>,
    pub published: Option<String>,
    pub excerpt: Option<String>,
    pub lang: Option<String>,
    pub url: Option<String>,
    pub site_name: Option<String>,
    pub image: Option<String>,
}

/// The trimmed text, when it is not blank.
pub open spec fn filled(v: Seq<char>) -> Option<Seq<char>> {
    if trim(v).len() == 0 {
        None
    } else {
        Some(trim(v))
    }
}

pub open spec fn filled_opt(o: Option<Seq<char>>) -> Option<Seq<char>> {
    match o {
        Some(v) => filled(v),
        None => None,
    }
}

/// The first of three options that is present.
pub open spec fn first_some(
    a: Option<Seq<char>>,
    b: Option<Seq<char>>,
    c: Option<Seq<char>>,
) -> Option<Seq<char>> {
    if a is Some {
        a
    } else if b is Some {
        b
    } else {
        c
    }
}

pub open spec fn or_else(a: Option<Seq<char>>, b: Option<Seq<char>>) -> Option<Seq<char>> {
    if a is Some {
        a
    } else {
        b
    }
}

/// The merged title: the hint as given, else the first non-blank trimmed
/// title of the metadata and of the article, else "Untitled".
pub open spec fn merged_title(hint: Option<Seq<char>>, meta: Seq<char>, article: Seq<char>) -> Seq<
    char,
> {
    match first_some(hint, filled(meta), filled(article)) {
        Some(t) => t,
        None => "Untitled"@,
    }
}

/// `merge_metadata`'s result, with priority feed hints > page metadata > article.
pub open spec fn is_merged(
    m: PageMetadata,
    hints: ArticleHints,
    meta: FieldsView,
    article: FieldsView,
) -> bool {
    &&& m.title@ == merged_title(opt_view(hints.title), meta.title, article.title)
    &&& opt_view(m.author) == first_some(
        filled_opt(opt_view(hints.author)),
        filled_opt(meta.byline),
        filled_opt(article.byline),
    )
    &&& opt_view(m.published) == first_some(
        filled_opt(opt_view(hints.published)),
        filled_opt(meta.published_time),
        filled_opt(article.published_time),
    )
    &&& opt_view(m.excerpt) == first_some(
        filled_opt(opt_view(hints.excerpt)),
        filled_opt(meta.excerpt),
        filled_opt(article.excerpt),
    )
    &&& opt_view(m.lang) == or_else(meta.lang, article.lang)
    &&& opt_view(m.url) == or_else(meta.url, article.url)
    &&& opt_view(m.site_name) == or_else(meta.site_name, article.site_name)
    &&& opt_view(m.image) == or_else(meta.image, article.image)
}

/// A present text that is not all whitespace.
pub open spec fn non_blank(o: Option<Seq<char>>) -> bool {
    o matches Some(v) && trim(v).len() > 0
}

/// `r` is the first of `a`, `b`, `c` that is not blank, trimmed; none when
/// all three are blank or missing.
pub open spec fn first_non_blank(
    r: Option<Seq<char>>,
    a: Option<Seq<char>>,
    b: Option<Seq<char>>,
    c: Option<Seq<char>>,
) -> bool {
    &&& non_blank(a) ==> r == Some(trim(a->0))
    &&& !non_blank(a) && non_blank(b) ==> r == Some(trim(b->0))
    &&& !non_blank(a) && !non_blank(b) && non_blank(c) ==> r == Some(trim(c->0))
    &&& !non_blank(a) && !non_blank(b) && !non_blank(c) ==> r is None
}

/// Feed hints win: the merged author, published date and excerpt are the
/// feed hint when it is not blank (trimmed), else the page metadata's, else
/// the article body's; a given title hint is the title as it stands; the
/// language, URL, site name and image come from the page metadata before
/// the article body.
pub proof fn lemma_merge_priority(
    m: PageMetadata,
    hints: ArticleHints,
    meta: FieldsView,
    article: FieldsView,
)
    requires
        is_merged(m, hints, meta, article),
    ensures
        first_non_blank(opt_view(m.author), opt_view(hints.author), meta.byline, article.byline),
        first_non_blank(
            opt_view(m.published),
            opt_view(hints.published),
            meta.published_time,
            article.published_time,
        ),
        first_non_blank(opt_view(m.excerpt), opt_view(hints.excerpt), meta.excerpt, article.excerpt),
        hints.title matches Some(t) ==> m.title@ == t@,
        meta.lang is Some ==> opt_view(m.lang) == meta.lang,
        meta.lang is None ==> opt_view(m.lang) == article.lang,
        meta.url is Some ==> opt_view(m.url) == meta.url,
        meta.site_name is Some ==> opt_view(m.site_name) == meta.site_name,
        meta.image is Some ==> opt_view(m.image) == meta.image,
{
}

pub fn copy_opt(o: &Option<String>) -> (r: Option<String>)
    ensures
        opt_view(r) == opt_view(*o),
{
    match o {
        Some(s) => Some(s.clone()),
        None => None,
    }
}

/// The trimmed value when it is not blank.
pub fn non_empty(value: &str) -> (r: Option<String>)
    ensures
        opt_view(r) == filled(value@),
{
    let cs = chars_of(value);
    let t = trimmed(cs.as_slice());
    if t.len() == 0 {
        None
    } else {
        Some(string_of(t.as_slice()))
    }
}

fn filled_of(o: &Option<String>) -> (r: Option<String>)
    ensures
        opt_view(r) == filled_opt(opt_view(*o)),
{
    match o {
        Some(s) => non_empty(s.as_str()),
        None => None,
    }
}

/// The first value that is non-blank after trimming, trimmed.
pub fn first_owned(a: &Option<String>, b: &Option<String>, c: &Option<String>) -> (r: Option<
    String,
>)
    ensures
        opt_view(r) == first_some(
            filled_opt(opt_view(*a)),
            filled_opt(opt_view(*b)),
            filled_opt(opt_view(*c)),
        ),
{
    let fa = filled_of(a);
    if fa.is_some() {
        return fa;
    }
    let fb = filled_of(b);
    if fb.is_some() {
        return fb;
    }
    filled_of(c)
}

fn or_copy(a: &Option<String>, b: &Option<String>) -> (r: Option<String>)
    ensures
        opt_view(r) == or_else(opt_view(*a), opt_view(*b)),
{
    if a.is_some() {
        copy_opt(a)
    } else {
        copy_opt(b)
    }
}

/// Merge metadata with priority: feed hints > page metadata > article body.
pub fn merge_metadata(hints: &ArticleHints, meta: &ReadableFields, article: &ReadableFields) -> (r:
    PageMetadata)
    ensures
        is_merged(r, *hints, meta@, article@),
{
    let title = match &hints.title {
        Some(t) => t.clone(),
        None => match non_empty(meta.title.as_str()) {
            Some(t) => t,
            None => match non_empty(article.title.as_str()) {
                Some(t) => t,
                None => {
                    let u = "Untitled".to_owned();
                    proof {
                        reveal_strlit("Untitled");
                    }
                    u
                },
            },
        },
    };
    PageMetadata {
        title,
        author: first_owned(&hints.author, &meta.byline, &article.byline),
        published: first_owned(&hints.published, &meta.published_time, &article.published_time),
        excerpt: first_owned(&hints.excerpt, &meta.excerpt, &article.excerpt),
        lang: or_copy(&meta.lang, &article.lang),
        url: or_copy(&meta.url, &article.url),
        site_name: or_copy(&meta.site_name, &article.site_name),
        image: or_copy(&meta.image, &article.image),
    }
}

} // verus!
