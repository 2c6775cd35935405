//! Rebuilding the index from the Markdown files of the vault: which source a
//! file belongs to, the record it becomes, and the report of a run.
use vstd::prelude::*;
use crate::discover::prefix::{parse_prefix, prefix_candidate};
use crate::error::TidyError;
use crate::extract::metadata::copy_opt;
use crate::fetch::slug::{source_slug, source_slug_of};
use crate::fetch::writer::ArticleFrontMatter;
use crate::html::opt_view;
use crate::index::{ArticleRecord, SourceRow};
use crate::text::{chars_eq, chars_of, concat_vec, has_prefix, starts_with, string_of};
use crate::weburl::{parse_url_str, url_parse_result};

verus! {

#[derive(Debug, Clone)]
pub struct BackupReport {
    pub destination: String,
    pub copied_files: usize,
}

#[derive(Debug, Clone)]
pub struct ReindexReport {
    pub scanned: usize,
    pub upserted: usize,
    pub skipped: usize,
    pub failed: usize,
    pub warnings: Vec<String>,
}

/// What became of one Markdown file.
#[derive(Debug, Clone)]
pub enum ReindexOutcome {
    /// Indexed from its frontmatter.
    Upserted,
    /// It has no frontmatter.
    Skipped,
    /// It could not be indexed; the warning names the file and the error.
    Failed(String),
}

pub open spec fn count_outcomes(s: Seq<ReindexOutcome>, kind: int) -> nat
    decreases s.len(),
{
    if s.len() == 0 {
        0
    } else {
        count_outcomes(s.drop_last(), kind) + if match s.last() {
            ReindexOutcome::Upserted => kind == 0,
            ReindexOutcome::Skipped => kind == 1,
            ReindexOutcome::Failed(_) => kind == 2,
        } {
            1nat
        } else {
            0nat
        }
    }
}

pub open spec fn failure_warnings(s: Seq<ReindexOutcome>) -> Seq<Seq<char>>
    decreases s.len(),
{
    if s.len() == 0 {
        Seq::empty()
    } else {
        match s.last() {
            ReindexOutcome::Failed(w) => failure_warnings(s.drop_last()).push(w@),
            _ => failure_warnings(s.drop_last()),
        }
    }
}

proof fn lemma_count_bounded(s: Seq<ReindexOutcome>, kind: int)
    ensures
        count_outcomes(s, kind) <= s.len(),
    decreases s.len(),
{
    if s.len() > 0 {
        lemma_count_bounded(s.drop_last(), kind);
    }
}

/// Tally the files of a reindex run, in the order they were scanned.
pub fn reindex_vault(outcomes: Vec<ReindexOutcome>) -> (r: ReindexReport)
    ensures
        r.scanned == outcomes@.len(),
        r.upserted == count_outcomes(outcomes@, 0),
        r.skipped == count_outcomes(outcomes@, 1),
        r.failed == count_outcomes(outcomes@, 2),
        r.warnings@.map_values(|w: String| w@) == failure_warnings(outcomes@),
{
    let mut report = ReindexReport { scanned: 0, upserted: 0, skipped: 0, failed: 0, warnings: Vec::new() };
    let mut i: usize = 0;
    while i < outcomes.len()
        invariant
            i <= outcomes@.len(),
            report.scanned == i,
            report.upserted == count_outcomes(outcomes@.take(i as int), 0),
            report.skipped == count_outcomes(outcomes@.take(i as int), 1),
            report.failed == count_outcomes(outcomes@.take(i as int), 2),
            report.warnings@.map_values(|w: String| w@) == failure_warnings(outcomes@.take(i as int)),
        decreases outcomes.len() - i,
    {
        let ghost t = outcomes@.take(i + 1);
        assert(t.drop_last() =~= outcomes@.take(i as int));
        proof {
            lemma_count_bounded(outcomes@.take(i as int), 0);
            lemma_count_bounded(outcomes@.take(i as int), 1);
            lemma_count_bounded(outcomes@.take(i as int), 2);
        }
        report.scanned = report.scanned + 1;
        match &outcomes[i] {
            ReindexOutcome::Upserted => report.upserted = report.upserted + 1,
            ReindexOutcome::Skipped => report.skipped = report.skipped + 1,
            ReindexOutcome::Failed(w) => {
                report.failed = report.failed + 1;
                let ghost before = report.warnings@;
                report.warnings.push(w.clone());
                assert(report.warnings@.map_values(|w: String| w@) =~= before.map_values(
                    |w: String| w@,
                ).push(w@));
            },
        }
        i = i + 1;
    }
    assert(outcomes@.take(outcomes@.len() as int) =~= outcomes@);
    report
}

/// The slug of a stored source prefix: parsed as a URL, else as a
/// user-supplied prefix, else the prefix itself.
pub open spec fn slug_for_prefix(prefix: Seq<char>) -> Seq<char> {
    match url_parse_result(prefix) {
        Some(u) => source_slug_of(u),
        None => match url_parse_result(prefix_candidate(prefix)) {
            Some(u) => if u.host is Some {
                source_slug_of(u)
            } else {
                prefix
            },
            None => prefix,
        },
    }
}

pub fn source_slug_for_prefix(prefix: &str) -> (r: String)
    ensures
        r@ == slug_for_prefix(prefix@),
{
    match parse_url_str(prefix) {
        Ok(u) => source_slug(&u),
        Err(_) => match parse_prefix(prefix) {
            Ok(u) => source_slug(&u),
            Err(_) => prefix.to_owned(),
        },
    }
}

/// A source claims a file when its slug is the file's frontmatter source, or
/// when the file lies under `Sources/<frontmatter source>/`.
pub open spec fn claims(source: SourceRow, fm_source: Seq<char>, relative: Seq<char>) -> bool {
    slug_for_prefix(source.url_prefix@) == fm_source || starts_with(
        relative,
        "Sources/"@ + fm_source + "/"@,
    )
}

/// The first source that claims the file; an error naming the frontmatter
/// source when none does.
pub fn match_source(sources: &[SourceRow], fm_source: &str, relative: &str) -> (r: Result<
    usize,
    TidyError,
>)
    ensures
        match r {
            Ok(i) => i < sources@.len() && claims(sources@[i as int], fm_source@, relative@)
                && forall|j: int| 0 <= j < i ==> !claims(#[trigger] sources@[j], fm_source@, relative@),
            Err(TidyError::Message(m)) => (forall|j: int|
                0 <= j < sources@.len() ==> !claims(#[trigger] sources@[j], fm_source@, relative@))
                && m@ == "no source matched frontmatter source `"@ + fm_source@ + "`"@,
            Err(_) => false,
        },
{
    proof {
        reveal_strlit("Sources/");
        reveal_strlit("/");
        reveal_strlit("no source matched frontmatter source `");
        reveal_strlit("`");
    }
    let fm = chars_of(fm_source);
    let rel = chars_of(relative);
    let dir0 = concat_vec(chars_of("Sources/").as_slice(), fm.as_slice());
    let dir = concat_vec(dir0.as_slice(), chars_of("/").as_slice());
    assert(dir@ =~= "Sources/"@ + fm_source@ + "/"@);
    let under = has_prefix(rel.as_slice(), dir.as_slice());
    let mut i: usize = 0;
    while i < sources.len()
        invariant
            i <= sources@.len(),
            under == starts_with(relative@, "Sources/"@ + fm_source@ + "/"@),
            fm@ == fm_source@,
            forall|j: int| 0 <= j < i ==> !claims(#[trigger] sources@[j], fm_source@, relative@),
        decreases sources.len() - i,
    {
        let slug = source_slug_for_prefix(sources[i].url_prefix.as_str());
        if chars_eq(chars_of(slug.as_str()).as_slice(), fm.as_slice()) || under {
            return Ok(i);
        }
        i = i + 1;
    }
    let m0 = concat_vec(chars_of("no source matched frontmatter source `").as_slice(), fm.as_slice());
    let m = concat_vec(m0.as_slice(), chars_of("`").as_slice());
    Err(TidyError::Message(string_of(m.as_slice())))
}

pub open spec fn strings_view(v: Seq<String>) -> Seq<Seq<char>> {
    v.map_values(|s: String| s@)
}

fn copy_strings(v: &Vec<String>) -> (r: Vec<String>)
    ensures
        strings_view(r@) == strings_view(v@),
{
    let mut out: Vec<String> = Vec::new();
    let mut i: usize = 0;
    while i < v.len()
        invariant
            i <= v@.len(),
            strings_view(out@) == strings_view(v@.take(i as int)),
        decreases v.len() - i,
    {
        let ghost before = out@;
        let c = v[i].clone();
        assert(c@ == v@[i as int]@);
        out.push(c);
        assert(strings_view(out@) =~= strings_view(before).push(c@));
        assert(strings_view(v@.take(i + 1)) =~= strings_view(v@.take(i as int)).push(v@[i as int]@));
        assert(strings_view(out@) =~= strings_view(v@.take(i + 1)));
        i = i + 1;
    }
    assert(v@.take(v@.len() as int) =~= v@);
    out
}

/// The index record of a Markdown file, from its frontmatter and body.
pub fn record_from_frontmatter(
    source_id: i64,
    relative: String,
    fm: &ArticleFrontMatter,
    body: String,
    rendered_html: String,
) -> (r: ArticleRecord)
    ensures
        r.source_id == source_id,
        r.url@ == fm.url@,
        r.canonical_url is None,
        r.path@ == relative@,
        r.title@ == fm.title@,
        opt_view(r.author) == opt_view(fm.author),
        opt_view(r.published_at) == opt_view(fm.published),
        r.fetched_at@ == fm.fetched@,
        r.word_count == fm.word_count as i64,
        r.excerpt@ == fm.excerpt@,
        r.body@ == body@,
        r.rendered_html@ == rendered_html@,
        r.content_hash@ == fm.content_hash@,
        r.state@ == fm.state@,
        r.starred == fm.starred,
        r.archived == fm.archived,
        r.revision == fm.revision as i64,
        r.quality@ == fm.extraction.quality@,
        strings_view(r.tags@) == strings_view(fm.tags@),
{
    ArticleRecord {
        source_id,
        url: fm.url.clone(),
        canonical_url: None,
        path: relative,
        title: fm.title.clone(),
        author: copy_opt(&fm.author),
        published_at: copy_opt(&fm.published),
        fetched_at: fm.fetched.clone(),
        word_count: fm.word_count as i64,
        excerpt: fm.excerpt.clone(),
        body,
        rendered_html,
        content_hash: fm.content_hash.clone(),
        state: fm.state.clone(),
        starred: fm.starred,
        archived: fm.archived,
        revision: fm.revision as i64,
        quality: fm.extraction.quality.clone(),
        tags: copy_strings(&fm.tags),
    }
}

} // verus!
