//! The decisions of a fetch run: whether a fetched page is new, changed or
//! unchanged, the frontmatter written for it, and the run's report.
use vstd::prelude::*;
use crate::extract::ExtractedArticle;
use crate::fetch::writer::{
    article_path_of, write_article_file, ArticleFrontMatter, ExtractionInfo, FrontMatterHighlight,
    WriteOutcomeStatus,
};
use crate::html::opt_view;
use crate::extract::metadata::copy_opt;
use crate::text::{chars_eq, chars_of, concat_vec, string_of};

verus! {

#[derive(Debug, Clone, Copy, PartialEq, Eq, Structural)]
pub enum FetchStatus {
    Added,
    Updated,
    Skipped,
    Failed,
}

#[derive(Debug, Clone)]
pub struct FetchedArticleSummary {
    pub url: String,
    pub path: String,
    pub title: String,
    pub status: FetchStatus,
    pub quality: String,
}

/// What to do with a fetched page.
#[derive(Debug)]
pub enum ArticlePlan {
    /// The stored copy has the same content: report it as skipped.
    Skip(FetchedArticleSummary),
    /// Write the article with this frontmatter.
    Write(ArticleFrontMatter),
}

pub open spec fn strings_view(v: Seq<String>) -> Seq<Seq<char>> {
    v.map_values(|s: String| s@)
}

/// The frontmatter of a (re)fetched article: the extracted fields, the
/// fetch time, the source tag, and from the stored copy (if any) the reading
/// state, flags and highlights, with the revision bumped.
pub open spec fn is_new_frontmatter(
    fm: ArticleFrontMatter,
    url: Seq<char>,
    source_slug: Seq<char>,
    existing: Option<ArticleFrontMatter>,
    extracted: ExtractedArticle,
    hash: Seq<char>,
    now: Seq<char>,
) -> bool {
    &&& fm.title@ == extracted.title@
    &&& fm.url@ == url
    &&& fm.source@ == source_slug
    &&& opt_view(fm.author) == opt_view(extracted.author)
    &&& opt_view(fm.published) == opt_view(extracted.published)
    &&& fm.fetched@ == now
    &&& strings_view(fm.tags@) == seq!["source/"@ + source_slug]
    &&& fm.word_count == extracted.word_count as u32
    &&& fm.reading_time == extracted.reading_time
    &&& opt_view(fm.lang) == opt_view(extracted.lang)
    &&& fm.excerpt@ == extracted.excerpt@
    &&& fm.content_hash@ == hash
    &&& fm.extraction.engine@ == "dom_smoothie"@
    &&& fm.extraction.quality@ == crate::extract::label_text(extracted.quality)
    &&& match existing {
        Some(e) => {
            &&& fm.state@ == e.state@
            &&& fm.starred == e.starred
            &&& fm.archived == e.archived
            &&& fm.revision == e.revision + 1
            &&& fm.highlights@.len() == e.highlights@.len()
            &&& forall|i: int|
                0 <= i < e.highlights@.len() ==> same_highlight(
                    #[trigger] fm.highlights@[i],
                    e.highlights@[i],
                )
        },
        None => {
            &&& fm.state@ == "unread"@
            &&& !fm.starred
            &&& !fm.archived
            &&& fm.revision == 1
            &&& fm.highlights@.len() == 0
        },
    }
}

pub open spec fn same_highlight(a: FrontMatterHighlight, b: FrontMatterHighlight) -> bool {
    &&& a.id@ == b.id@
    &&& a.text@ == b.text@
    &&& opt_view(a.note) == opt_view(b.note)
    &&& a.prefix@ == b.prefix@
    &&& a.suffix@ == b.suffix@
    &&& a.created_at@ == b.created_at@
}

fn copy_highlight(h: &FrontMatterHighlight) -> (r: FrontMatterHighlight)
    ensures
        same_highlight(r, *h),
{
    FrontMatterHighlight {
        id: h.id.clone(),
        text: h.text.clone(),
        note: copy_opt(&h.note),
        prefix: h.prefix.clone(),
        suffix: h.suffix.clone(),
        created_at: h.created_at.clone(),
    }
}

fn copy_highlights(v: &Vec<FrontMatterHighlight>) -> (r: Vec<FrontMatterHighlight>)
    ensures
        r@.len() == v@.len(),
        forall|i: int| 0 <= i < v@.len() ==> same_highlight(#[trigger] r@[i], v@[i]),
{
    let mut out: Vec<FrontMatterHighlight> = Vec::new();
    let mut i: usize = 0;
    while i < v.len()
        invariant
            i <= v@.len(),
            out@.len() == i,
            forall|j: int| 0 <= j < i ==> same_highlight(#[trigger] out@[j], v@[j]),
        decreases v.len() - i,
    {
        out.push(copy_highlight(&v[i]));
        i = i + 1;
    }
    out
}

/// Decide what to do with a fetched page. `record_path` is the path the index
/// holds for the URL; `existing` the frontmatter of the stored copy.
pub fn plan_article(
    url: &str,
    source_slug: &str,
    stem: &str,
    record_path: Option<&str>,
    existing: Option<&ArticleFrontMatter>,
    extracted: &ExtractedArticle,
    hash: &str,
    now: &str,
) -> (r: ArticlePlan)
    requires
        existing matches Some(e) ==> (e.content_hash@ != hash@ ==> e.revision < u32::MAX),
    ensures
        match r {
            ArticlePlan::Skip(s) => existing matches Some(e) && e.content_hash@ == hash@
                && s.url@ == url@ && s.path@ == match record_path {
                Some(p) => p@,
                None => article_path_of(source_slug@, stem@, url@, None),
            } && s.title@ == e.title@ && s.status == FetchStatus::Skipped && s.quality@
                == e.extraction.quality@,
            ArticlePlan::Write(fm) => !(existing matches Some(e) && e.content_hash@ == hash@)
                && is_new_frontmatter(
                fm,
                url@,
                source_slug@,
                match existing {
                    Some(e) => Some(*e),
                    None => None,
                },
                *extracted,
                hash@,
                now@,
            ),
        },
{
    if let Some(e) = existing {
        if chars_eq(chars_of(e.content_hash.as_str()).as_slice(), chars_of(hash).as_slice()) {
            let path = match record_path {
                Some(p) => p.to_owned(),
                None => write_article_file(source_slug, stem, url, None),
            };
            return ArticlePlan::Skip(
                FetchedArticleSummary {
                    url: url.to_owned(),
                    path,
                    title: e.title.clone(),
                    status: FetchStatus::Skipped,
                    quality: e.extraction.quality.clone(),
                },
            );
        }
    }
    let tag_head = chars_of("source/");
    proof {
        reveal_strlit("source/");
        reveal_strlit("dom_smoothie");
        reveal_strlit("unread");
    }
    let tag = string_of(concat_vec(tag_head.as_slice(), chars_of(source_slug).as_slice()).as_slice());
    let tags = vec![tag];
    assert(strings_view(tags@) =~= seq!["source/"@ + source_slug@]);
    let (state, starred, archived, revision, highlights) = match existing {
        Some(e) => (e.state.clone(), e.starred, e.archived, e.revision + 1, copy_highlights(&e.highlights)),
        None => ("unread".to_owned(), false, false, 1u32, Vec::new()),
    };
    let fm = ArticleFrontMatter {
        title: extracted.title.clone(),
        url: url.to_owned(),
        source: source_slug.to_owned(),
        author: copy_opt(&extracted.author),
        published: copy_opt(&extracted.published),
        fetched: now.to_owned(),
        tags,
        word_count: extracted.word_count as u32,
        reading_time: extracted.reading_time,
        lang: copy_opt(&extracted.lang),
        excerpt: extracted.excerpt.clone(),
        state,
        starred,
        archived,
        highlights,
        content_hash: hash.to_owned(),
        revision,
        extraction: ExtractionInfo {
            engine: "dom_smoothie".to_owned(),
            quality: extracted.quality.as_str().to_owned(),
        },
    };
    ArticlePlan::Write(fm)
}

pub open spec fn status_of(s: WriteOutcomeStatus) -> FetchStatus {
    match s {
        WriteOutcomeStatus::Created => FetchStatus::Added,
        WriteOutcomeStatus::Updated => FetchStatus::Updated,
        WriteOutcomeStatus::Unchanged => FetchStatus::Skipped,
    }
}

/// The summary of a written article: created files are added, rewritten ones
/// updated, identical ones skipped.
pub fn written_summary(
    url: &str,
    relative_path: &str,
    frontmatter: &ArticleFrontMatter,
    outcome: WriteOutcomeStatus,
) -> (r: FetchedArticleSummary)
    ensures
        r.url@ == url@,
        r.path@ == relative_path@,
        r.title@ == frontmatter.title@,
        r.status == status_of(outcome),
        r.quality@ == frontmatter.extraction.quality@,
{
    let status = match outcome {
        WriteOutcomeStatus::Created => FetchStatus::Added,
        WriteOutcomeStatus::Updated => FetchStatus::Updated,
        WriteOutcomeStatus::Unchanged => FetchStatus::Skipped,
    };
    FetchedArticleSummary {
        url: url.to_owned(),
        path: relative_path.to_owned(),
        title: frontmatter.title.clone(),
        status,
        quality: frontmatter.extraction.quality.clone(),
    }
}

/// The report of a fetch run.
#[derive(Debug, Clone)]
pub struct FetchReport {
    pub source_id: i64,
    pub source_slug: String,
    pub discovered: usize,
    pub added: usize,
    pub updated: usize,
    pub skipped: usize,
    pub failed: usize,
    pub needs_review: usize,
    pub articles: Vec<FetchedArticleSummary>,
    pub warnings: Vec<String>,
}

pub open spec fn count_status(s: Seq<FetchedArticleSummary>, st: FetchStatus) -> nat
    decreases s.len(),
{
    if s.len() == 0 {
        0
    } else {
        count_status(s.drop_last(), st) + if s.last().status == st { 1nat } else { 0nat }
    }
}

pub open spec fn count_review(s: Seq<FetchedArticleSummary>) -> nat
    decreases s.len(),
{
    if s.len() == 0 {
        0
    } else {
        count_review(s.drop_last()) + if s.last().quality@ == "needs_review"@ { 1nat } else { 0nat }
    }
}

impl FetchReport {
    /// Every counter is the number of listed articles of its kind.
    pub open spec fn wf(self) -> bool {
        &&& self.added == count_status(self.articles@, FetchStatus::Added)
        &&& self.updated == count_status(self.articles@, FetchStatus::Updated)
        &&& self.skipped == count_status(self.articles@, FetchStatus::Skipped)
        &&& self.failed == count_status(self.articles@, FetchStatus::Failed)
        &&& self.needs_review == count_review(self.articles@)
    }

    /// A report with nothing fetched yet.
    pub fn start(source_id: i64, source_slug: String, discovered: usize, warnings: Vec<String>) -> (r:
        FetchReport)
        ensures
            r.wf(),
            r.source_id == source_id,
            r.source_slug@ == source_slug@,
            r.discovered == discovered,
            r.articles@.len() == 0,
            r.warnings@ == warnings@,
    {
        FetchReport {
            source_id,
            source_slug,
            discovered,
            added: 0,
            updated: 0,
            skipped: 0,
            failed: 0,
            needs_review: 0,
            articles: Vec::new(),
            warnings,
        }
    }

    /// Count and list a page that was fetched.
    pub fn record(&mut self, summary: FetchedArticleSummary)
        requires
            old(self).wf(),
            old(self).articles@.len() < usize::MAX,
        ensures
            final(self).wf(),
            final(self).articles@ == old(self).articles@.push(summary),
            final(self).warnings@ == old(self).warnings@,
            final(self).source_id == old(self).source_id,
            final(self).source_slug == old(self).source_slug,
            final(self).discovered == old(self).discovered,
    {
        let ghost before = self.articles@;
        proof {
            lemma_counts_bounded(before);
        }
        match summary.status {
            FetchStatus::Added => self.added = self.added + 1,
            FetchStatus::Updated => self.updated = self.updated + 1,
            FetchStatus::Skipped => self.skipped = self.skipped + 1,
            FetchStatus::Failed => self.failed = self.failed + 1,
        }
        let review = chars_of("needs_review");
        proof {
            reveal_strlit("needs_review");
        }
        if chars_eq(chars_of(summary.quality.as_str()).as_slice(), review.as_slice()) {
            self.needs_review = self.needs_review + 1;
        }
        self.articles.push(summary);
        assert(self.articles@.drop_last() =~= before);
    }

    /// Count and list a page whose fetch failed, with a warning
    /// `<url>: <error>`.
    pub fn record_failure(&mut self, url: String, title: Option<String>, error: String)
        requires
            old(self).wf(),
            old(self).articles@.len() < usize::MAX,
        ensures
            final(self).wf(),
            final(self).articles@.len() == old(self).articles@.len() + 1,
            final(self).articles@.drop_last() == old(self).articles@,
            final(self).articles@.last().url@ == url@,
            final(self).articles@.last().path@.len() == 0,
            final(self).articles@.last().title@ == match title {
                Some(t) => t@,
                None => url@,
            },
            final(self).articles@.last().status == FetchStatus::Failed,
            final(self).articles@.last().quality@ == "needs_review"@,
            final(self).warnings@.len() == old(self).warnings@.len() + 1,
            final(self).warnings@.drop_last() == old(self).warnings@,
            final(self).warnings@.last()@ == url@ + ": "@ + error@,
            final(self).source_id == old(self).source_id,
            final(self).source_slug == old(self).source_slug,
            final(self).discovered == old(self).discovered,
    {
        let sep = chars_of(": ");
        proof {
            reveal_strlit(": ");
            reveal_strlit("needs_review");
        }
        let w1 = concat_vec(chars_of(url.as_str()).as_slice(), sep.as_slice());
        let w2 = concat_vec(w1.as_slice(), chars_of(error.as_str()).as_slice());
        let warning = string_of(w2.as_slice());
        let ghost before = self.warnings@;
        self.warnings.push(warning);
        assert(self.warnings@.drop_last() =~= before);
        let shown = match title {
            Some(t) => t,
            None => url.clone(),
        };
        let summary = FetchedArticleSummary {
            url,
            path: String::new(),
            title: shown,
            status: FetchStatus::Failed,
            quality: "needs_review".to_owned(),
        };
        self.record(summary);
    }
}

/// No counter exceeds the number of articles.
pub proof fn lemma_counts_bounded(s: Seq<FetchedArticleSummary>)
    ensures
        count_status(s, FetchStatus::Added) <= s.len(),
        count_status(s, FetchStatus::Updated) <= s.len(),
        count_status(s, FetchStatus::Skipped) <= s.len(),
        count_status(s, FetchStatus::Failed) <= s.len(),
        count_review(s) <= s.len(),
    decreases s.len(),
{
    if s.len() > 0 {
        lemma_counts_bounded(s.drop_last());
    }
}

/// Every listed article is counted exactly once among added, updated,
/// skipped and failed.
pub proof fn lemma_report_totals(r: FetchReport)
    requires
        r.wf(),
    ensures
        r.added + r.updated + r.skipped + r.failed == r.articles@.len(),
{
    lemma_status_partition(r.articles@);
}

pub proof fn lemma_status_partition(s: Seq<FetchedArticleSummary>)
    ensures
        count_status(s, FetchStatus::Added) + count_status(s, FetchStatus::Updated) + count_status(
            s,
            FetchStatus::Skipped,
        ) + count_status(s, FetchStatus::Failed) == s.len(),
    decreases s.len(),
{
    if s.len() > 0 {
        lemma_status_partition(s.drop_last());
    }
}

/// How the fetch of one discovered URL ended.
pub enum ArticleOutcome {
    /// The page was fetched and handled.
    Fetched(FetchedArticleSummary),
    /// The page could not be fetched or handled.
    Failed { url: String, title: Option<String>, error: String },
}

/// The listed article of an outcome.
pub open spec fn lists_outcome(a: FetchedArticleSummary, o: ArticleOutcome) -> bool {
    match o {
        ArticleOutcome::Fetched(s) => a == s,
        ArticleOutcome::Failed { url, title, .. } => {
            &&& a.url@ == url@
            &&& a.path@.len() == 0
            &&& a.title@ == match title {
                Some(t) => t@,
                None => url@,
            }
            &&& a.status == FetchStatus::Failed
            &&& a.quality@ == "needs_review"@
        },
    }
}

/// The warnings of the failed outcomes, in order: `<url>: <error>`.
pub open spec fn failure_warnings(os: Seq<ArticleOutcome>) -> Seq<Seq<char>>
    decreases os.len(),
{
    if os.len() == 0 {
        Seq::empty()
    } else {
        let rest = failure_warnings(os.drop_last());
        match os.last() {
            ArticleOutcome::Failed { url, error, .. } => rest.push(url@ + ": "@ + error@),
            ArticleOutcome::Fetched(_) => rest,
        }
    }
}

pub open spec fn texts_view(v: Seq<String>) -> Seq<Seq<char>> {
    v.map_values(|s: String| s@)
}

/// The report of a run with one outcome per discovered URL, in order: every
/// discovered URL is listed once, and counted once among added, updated,
/// skipped and failed.
pub fn tally(source_id: i64, source_slug: String, warnings: Vec<String>, outcomes: Vec<ArticleOutcome>) -> (r:
    FetchReport)
    requires
        outcomes@.len() < usize::MAX,
    ensures
        r.wf(),
        r.source_id == source_id,
        r.source_slug@ == source_slug@,
        r.discovered == outcomes@.len(),
        r.articles@.len() == outcomes@.len(),
        forall|i: int| 0 <= i < outcomes@.len() ==> lists_outcome(#[trigger] r.articles@[i], outcomes@[i]),
        r.added + r.updated + r.skipped + r.failed == r.discovered,
        texts_view(r.warnings@) == texts_view(warnings@) + failure_warnings(outcomes@),
{
    let ghost all = outcomes@;
    let ghost w0 = texts_view(warnings@);
    let mut report = FetchReport::start(source_id, source_slug, outcomes.len(), warnings);
    let mut rest = outcomes;
    let ghost mut k: int = 0;
    assert(rest@ =~= all.skip(0));
    assert(texts_view(report.warnings@) =~= w0 + failure_warnings(all.take(0))) by {
        assert(all.take(0) =~= Seq::<ArticleOutcome>::empty());
    }
    while rest.len() > 0
        invariant
            0 <= k <= all.len(),
            all.len() < usize::MAX,
            rest@ == all.skip(k),
            report.wf(),
            report.source_id == source_id,
            report.source_slug@ == source_slug@,
            report.discovered == all.len(),
            report.articles@.len() == k,
            forall|i: int| 0 <= i < k ==> lists_outcome(#[trigger] report.articles@[i], all[i]),
            texts_view(report.warnings@) == w0 + failure_warnings(all.take(k)),
        decreases rest.len(),
    {
        let ghost before = rest@;
        let ghost arts = report.articles@;
        let ghost ws = report.warnings@;
        let o = rest.remove(0);
        proof {
            assert(before.len() == all.len() - k);
            assert(all.skip(k)[0] == all[k]);
            assert(o == all[k]);
            assert(all.take(k + 1).drop_last() =~= all.take(k));
            assert(all.take(k + 1).last() == all[k]);
        }
        match o {
            ArticleOutcome::Fetched(summary) => {
                report.record(summary);
                proof {
                    assert(texts_view(report.warnings@) =~= texts_view(ws));
                }
            },
            ArticleOutcome::Failed { url, title, error } => {
                report.record_failure(url, title, error);
                proof {
                    assert(texts_view(report.warnings@) =~= texts_view(ws).push(report.warnings@.last()@));
                }
            },
        }
        proof {
            assert forall|i: int| 0 <= i < k + 1 implies lists_outcome(#[trigger] report.articles@[i], all[i]) by {
                if i < k {
                    assert(report.articles@[i] == arts[i]);
                }
            }
            k = k + 1;
            assert(rest@ =~= all.skip(k));
        }
    }
    assert(all.take(all.len() as int) =~= all);
    proof {
        lemma_report_totals(report);
    }
    report
}

} // verus!
