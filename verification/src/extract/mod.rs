//! Readable-article extraction: readability, Markdown, word counts and the
//! quality verdict.
pub mod markdown;
pub mod metadata;
pub mod quality;

use vstd::prelude::*;
use crate::digest::{digest_chars, text_digest};
use crate::error::TidyError;
use crate::html::opt_view;
use crate::text::{chars_of, join, join_parts, split_words, string_of, words};
use self::markdown::{html_to_markdown, markdown_conversion};
use self::metadata::{
    copy_opt, merge_metadata, or_else, is_merged, ArticleHints, FieldsView, PageMetadata,
    ReadableFields,
};
use self::quality::{assess_quality, quality_of, ExtractionQuality};

verus! {

#[derive(Debug, Clone, Copy, PartialEq, Eq, Structural)]
pub enum QualityLabel {
    Passed,
    NeedsReview,
}

pub open spec fn label_of(q: ExtractionQuality) -> QualityLabel {
    match q {
        ExtractionQuality::Passed => QualityLabel::Passed,
        ExtractionQuality::NeedsReview => QualityLabel::NeedsReview,
    }
}

pub open spec fn label_text(l: QualityLabel) -> Seq<char> {
    match l {
        QualityLabel::Passed => "ok"@,
        QualityLabel::NeedsReview => "needs_review"@,
    }
}

impl QualityLabel {
    pub fn from_quality(value: ExtractionQuality) -> (r: QualityLabel)
        ensures
            r == label_of(value),
    {
        match value {
            ExtractionQuality::Passed => QualityLabel::Passed,
            ExtractionQuality::NeedsReview => QualityLabel::NeedsReview,
        }
    }

    pub fn as_str(&self) -> (r: &'static str)
        ensures
            r@ == label_text(*self),
    {
        match self {
            QualityLabel::Passed => {
                proof {
                    reveal_strlit("ok");
                }
                "ok"
            },
            QualityLabel::NeedsReview => {
                proof {
                    reveal_strlit("needs_review");
                }
                "needs_review"
            },
        }
    }
}

/// A readable article and what is known of it.
#[derive(Debug, Clone)]
pub struct ExtractedArticle {
    pub title: String,
    pub author: Option<String>,
    pub published: Option<String>,
    pub lang: Option<String>,
    pub excerpt: String,
    pub html: String,
    pub markdown: String,
    pub text: String,
    pub word_count: usize,
    pub reading_time: u32,
    pub quality: QualityLabel,
    pub canonical_url: Option<String>,
    pub site_name: Option<String>,
    pub image: Option<String>,
}

/// What the readability pass gives for a page: its metadata, the readable
/// article's own fields, the article's HTML and its plain text.
#[derive(Debug, Clone)]
pub struct ReadablePage {
    pub meta: ReadableFields,
    pub article: ReadableFields,
    pub content: String,
    pub text: String,
}

pub struct PageView {
    pub meta: FieldsView,
    pub article: FieldsView,
    pub content: Seq<char>,
    pub text: Seq<char>,
}

impl View for ReadablePage {
    type V = PageView;

    open spec fn view(&self) -> PageView {
        PageView { meta: self.meta@, article: self.article@, content: self.content@, text: self.text@ }
    }
}

/// The metadata `dom_smoothie` reads from a page (HTML and its URL), or the
/// error's message.
pub uninterp spec fn readability_meta(html: Seq<char>, url: Seq<char>) -> Result<FieldsView, Seq<char>>;

/// The readable article `dom_smoothie` extracts from a page: its fields, its
/// HTML and its text; or the error's message.
pub uninterp spec fn readability_article(html: Seq<char>, url: Seq<char>) -> Result<
    (FieldsView, Seq<char>, Seq<char>),
    Seq<char>,
>;

/// `dom_smoothie::Readability::new(html, Some(url), None)`, then
/// `get_article_metadata(parse_json_ld())`. Claimed: the outcome is a
/// function of the HTML and the URL.
#[verifier::external_body]
fn read_metadata(html: &str, url: &str) -> (r: Result<ReadableFields, String>)
    ensures
        match r {
            Ok(m) => readability_meta(html@, url@) == Ok::<FieldsView, Seq<char>>(m@),
            Err(e) => readability_meta(html@, url@) == Err::<FieldsView, Seq<char>>(e@),
        },
{
    let reader = dom_smoothie::Readability::new(html, Some(url), None).map_err(|e| e.to_string())?;
    let m = reader.get_article_metadata(reader.parse_json_ld());
    Ok(ReadableFields { title: m.title, byline: m.byline, excerpt: m.excerpt, site_name: m.site_name, published_time: m.published_time, image: m.image, lang: m.lang, url: m.url })
}

/// `dom_smoothie::Readability::new(html, Some(url), None)`, then `parse`.
/// Claimed: the outcome is a function of the HTML and the URL.
#[verifier::external_body]
fn read_article(html: &str, url: &str) -> (r: Result<(ReadableFields, String, String), String>)
    ensures
        match r {
            Ok((a, c, t)) => readability_article(html@, url@) == Ok::<(FieldsView, Seq<char>, Seq<char>), Seq<char>>((a@, c@, t@)),
            Err(e) => readability_article(html@, url@) == Err::<(FieldsView, Seq<char>, Seq<char>), Seq<char>>(e@),
        },
{
    let mut reader = dom_smoothie::Readability::new(html, Some(url), None).map_err(|e| e.to_string())?;
    let a = reader.parse().map_err(|e| e.to_string())?;
    Ok((ReadableFields { title: a.title, byline: a.byline, excerpt: a.excerpt, site_name: a.site_name, published_time: a.published_time, image: a.image, lang: a.lang, url: a.url }, a.content.to_string(), a.text_content.to_string()))
}

/// The readable page: metadata first, then the article.
pub open spec fn readability_outcome(html: Seq<char>, url: Seq<char>) -> Result<PageView, Seq<char>> {
    match readability_meta(html, url) {
        Err(e) => Err(e),
        Ok(meta) => match readability_article(html, url) {
            Err(e) => Err(e),
            Ok((article, content, text)) => Ok(PageView { meta, article, content, text }),
        },
    }
}

fn readable_page(html: &str, url: &str) -> (r: Result<ReadablePage, String>)
    ensures
        match r {
            Ok(p) => readability_outcome(html@, url@) == Ok::<PageView, Seq<char>>(p@),
            Err(e) => readability_outcome(html@, url@) == Err::<PageView, Seq<char>>(e@),
        },
{
    let meta = read_metadata(html, url)?;
    let (article, content, text) = read_article(html, url)?;
    Ok(ReadablePage { meta, article, content, text })
}

/// Whitespace-separated words in the text.
pub fn count_words(text: &str) -> (r: usize)
    ensures
        r == words(text@).len(),
{
    let cs = chars_of(text);
    let ws = split_words(cs.as_slice());
    ws.len()
}

/// Minutes at 200 words a minute, rounded up, at least one (saturating at
/// `u32::MAX`).
pub open spec fn reading_minutes(word_count: nat) -> int {
    let m = (word_count + 199) / 200;
    if m < 1 {
        1
    } else if m > u32::MAX {
        u32::MAX as int
    } else {
        m as int
    }
}

pub fn reading_time_minutes(word_count: usize) -> (r: u32)
    ensures
        r == reading_minutes(word_count as nat),
{
    let m: usize = word_count / 200 + if word_count % 200 == 0 { 0 } else { 1 };
    assert(m == (word_count + 199) / 200) by (nonlinear_arith)
        requires
            m == word_count / 200 + if word_count % 200 == 0 { 0int } else { 1int },
    ;
    if m < 1 {
        1
    } else if m > 0xffff_ffffusize {
        0xffff_ffffu32
    } else {
        m as u32
    }
}

/// The text with whitespace runs collapsed to single spaces, cut to
/// `max_chars` characters with an ellipsis when longer.
pub open spec fn excerpt_of(text: Seq<char>, max_chars: nat) -> Seq<char> {
    let collapsed = join(words(text), " "@);
    if collapsed.len() <= max_chars {
        collapsed
    } else {
        collapsed.take(if max_chars == 0 { 0 } else { max_chars - 1 }).push('…')
    }
}

pub fn make_excerpt(text: &str, max_chars: usize) -> (r: String)
    ensures
        r@ == excerpt_of(text@, max_chars as nat),
{
    let cs = chars_of(text);
    let ws = split_words(cs.as_slice());
    let space = chars_of(" ");
    proof {
        reveal_strlit(" ");
    }
    let collapsed = join_parts(ws.as_slice(), space.as_slice());
    if collapsed.len() <= max_chars {
        return string_of(collapsed.as_slice());
    }
    let keep: usize = if max_chars == 0 { 0 } else { max_chars - 1 };
    let mut out: Vec<char> = crate::text::slice_vec(collapsed.as_slice(), 0, keep);
    out.push('…');
    assert(out@ =~= collapsed@.take(keep as int).push('…'));
    string_of(out.as_slice())
}

/// `sha256:` and the hexadecimal digest of the Markdown's UTF-8 bytes.
pub open spec fn content_hash_of(markdown: Seq<char>) -> Seq<char> {
    "sha256:"@ + text_digest(markdown)
}

pub fn content_hash(markdown_body: &str) -> (r: String)
    ensures
        r@ == content_hash_of(markdown_body@),
{
    let mut out = chars_of("sha256:");
    proof {
        reveal_strlit("sha256:");
    }
    let d = digest_chars(markdown_body);
    crate::text::extend_vec(&mut out, d.as_slice());
    string_of(out.as_slice())
}

/// What `pulldown_cmark` renders from Markdown as HTML.
pub uninterp spec fn rendered_html(markdown: Seq<char>) -> Seq<char>;

/// `pulldown_cmark::Parser::new` and `pulldown_cmark::html::push_html` into
/// an empty string. Claimed: the HTML is a function of the Markdown alone.
#[verifier::external_body]
pub fn render_markdown_html(markdown: &str) -> (r: String)
    ensures
        r@ == rendered_html(markdown@),
{
    let parser = pulldown_cmark::Parser::new(markdown);
    let mut html = String::new();
    pulldown_cmark::html::push_html(&mut html, parser);
    html
}

/// `a` is what extraction assembles from the readable page, the page's
/// Markdown, the raw HTML and the hints.
pub open spec fn is_extraction(
    a: ExtractedArticle,
    hints: ArticleHints,
    page: PageView,
    markdown: Seq<char>,
    raw_html: Seq<char>,
) -> bool {
    &&& exists|m: PageMetadata|
        {
            &&& #[trigger] is_merged(m, hints, page.meta, page.article)
            &&& a.title@ == m.title@
            &&& opt_view(a.author) == opt_view(m.author)
            &&& opt_view(a.published) == opt_view(m.published)
            &&& opt_view(a.lang) == or_else(opt_view(m.lang), page.article.lang)
            &&& a.excerpt@ == match opt_view(m.excerpt) {
                Some(e) => e,
                None => excerpt_of(page.text, 200),
            }
            &&& opt_view(a.canonical_url) == or_else(opt_view(m.url), page.article.url)
            &&& opt_view(a.site_name) == or_else(opt_view(m.site_name), page.article.site_name)
            &&& opt_view(a.image) == or_else(opt_view(m.image), page.article.image)
        }
    &&& a.html@ == page.content
    &&& a.markdown@ == markdown
    &&& a.text@ == page.text
    &&& a.word_count == words(page.text).len()
    &&& a.reading_time == reading_minutes(a.word_count as nat)
    &&& a.quality == label_of(quality_of(raw_html, page.text, a.word_count as nat))
}

/// Assemble the extracted article from the readable page and its Markdown.
pub fn assemble_article(
    hints: &ArticleHints,
    page: &ReadablePage,
    markdown: String,
    raw_html: &str,
) -> (r: ExtractedArticle)
    ensures
        is_extraction(r, *hints, page@, markdown@, raw_html@),
{
    let merged = merge_metadata(hints, &page.meta, &page.article);
    let word_count = count_words(page.text.as_str());
    let quality = QualityLabel::from_quality(assess_quality(raw_html, page.text.as_str(), word_count));
    let excerpt = match &merged.excerpt {
        Some(e) => e.clone(),
        None => make_excerpt(page.text.as_str(), 200),
    };
    let lang = if merged.lang.is_some() { copy_opt(&merged.lang) } else { copy_opt(&page.article.lang) };
    let canonical_url = if merged.url.is_some() { copy_opt(&merged.url) } else { copy_opt(&page.article.url) };
    let site_name = if merged.site_name.is_some() {
        copy_opt(&merged.site_name)
    } else {
        copy_opt(&page.article.site_name)
    };
    let image = if merged.image.is_some() { copy_opt(&merged.image) } else { copy_opt(&page.article.image) };
    let a = ExtractedArticle {
        title: merged.title.clone(),
        author: copy_opt(&merged.author),
        published: copy_opt(&merged.published),
        lang,
        excerpt,
        html: page.content.clone(),
        markdown,
        text: page.text.clone(),
        word_count,
        reading_time: reading_time_minutes(word_count),
        quality,
        canonical_url,
        site_name,
        image,
    };
    assert(is_merged(merged, *hints, page.meta@, page.article@));
    a
}

/// Extract a readable article from raw HTML: readability, then Markdown of
/// the article's HTML, then assembly. Either outside step's failure is an
/// extraction error for the page.
pub fn extract_article(html: &str, page_url: &str, hints: &ArticleHints) -> (r: Result<
    ExtractedArticle,
    TidyError,
>)
    ensures
        match readability_outcome(html@, page_url@) {
            Err(msg) => r matches Err(TidyError::Extract { url, message }) && url@ == page_url@
                && message@ == msg,
            Ok(page) => match markdown_conversion(page.content) {
                Err(msg) => r matches Err(TidyError::Extract { url, message }) && url@ == page_url@
                    && message@ == msg,
                Ok(md) => r matches Ok(a) && is_extraction(a, *hints, page, md, html@),
            },
        },
{
    let page = match readable_page(html, page_url) {
        Ok(p) => p,
        Err(e) => return Err(TidyError::extract(page_url.to_owned(), e)),
    };
    let markdown = match html_to_markdown(page.content.as_str()) {
        Ok(md) => md,
        Err(e) => return Err(TidyError::extract(page_url.to_owned(), e)),
    };
    Ok(assemble_article(hints, &page, markdown, html))
}

} // verus!

verus! {

/// An excerpt never exceeds its limit of characters (a limit of at least
/// one; the ellipsis counts), and a text that fits is kept whole, its
/// whitespace collapsed.
pub proof fn lemma_excerpt_bounded(text: Seq<char>, max_chars: nat)
    requires
        max_chars >= 1,
    ensures
        excerpt_of(text, max_chars).len() <= max_chars,
        join(words(text), " "@).len() <= max_chars ==> excerpt_of(text, max_chars) == join(
            words(text),
            " "@,
        ),
{
}

/// Every article takes at least one minute to read.
pub proof fn lemma_reading_time_positive(word_count: nat)
    ensures
        1 <= reading_minutes(word_count) <= u32::MAX,
{
}

} // verus!
