//! The records and rows of the vault index. The index itself (SQLite) is
//! driven from outside the library; these are the values that pass to and
//! from it.
use vstd::prelude::*;
use crate::overrides::SourceOverrides;

verus! {

#[derive(Debug, Clone)]
pub struct SourceRecord {
    pub url_prefix: String,
    pub title: String,
    pub feed_url: Option<String>,
    pub discovery_mode: String,
    pub interval_minutes: i64,
    pub backfill_policy: String,
    pub enabled: bool,
}

#[derive(Debug, Clone)]
pub struct SourceRow {
    pub id: i64,
    pub url_prefix: String,
    pub title: String,
    pub feed_url: Option<String>,
    pub backfill_policy: String,
    pub interval_minutes: i64,
    pub last_fetch_at: Option<String>,
    pub enabled: bool,
    pub article_count: i64,
    pub unread_count: i64,
    pub overrides: SourceOverrides,
}

#[derive(Debug, Clone)]
pub struct FetchRunRow {
    pub id: i64,
    pub source_id: i64,
    pub source_title: String,
    pub started_at: String,
    pub finished_at: Option<String>,
    pub status: String,
    pub discovered: i64,
    pub added: i64,
    pub updated: i64,
    pub skipped: i64,
    pub failed: i64,
}

#[derive(Debug, Clone)]
pub struct ArticleRecord {
    pub source_id: i64,
    pub url: String,
    pub canonical_url: Option<String>,
    pub path: String,
    pub title: String,
    pub author: Option<String>,
    pub published_at: Option<String>,
    pub fetched_at: String,
    pub word_count: i64,
    pub excerpt: String,
    pub body: String,
    pub rendered_html: String,
    pub content_hash: String,
    pub state: String,
    pub starred: bool,
    pub archived: bool,
    pub revision: i64,
    pub quality: String,
    pub tags: Vec<String>,
}

#[derive(Debug, Clone)]
pub struct ArticleRow {
    pub id: i64,
    pub path: String,
    pub content_hash: String,
    pub revision: i64,
}

#[derive(Debug, Clone, Copy, PartialEq, Eq, Structural)]
pub enum ArticleFilter {
    Inbox,
    Unread,
    Starred,
    Archived,
    All,
    Review,
}

#[derive(Debug, Clone)]
pub struct ArticleListItem {
    pub id: i64,
    pub source_id: i64,
    pub source_title: String,
    pub url: String,
    pub path: String,
    pub title: String,
    pub author: Option<String>,
    pub published_at: Option<String>,
    pub fetched_at: String,
    pub word_count: i64,
    pub reading_time: u32,
    pub excerpt: String,
    pub state: String,
    pub starred: bool,
    pub archived: bool,
    pub quality: String,
}

#[derive(Debug, Clone, PartialEq, Eq)]
pub struct HighlightRow {
    pub id: String,
    pub article_id: i64,
    pub text: String,
    pub note: Option<String>,
    pub prefix: String,
    pub suffix: String,
    pub created_at: String,
}

/// Minutes at 200 words a minute for a stored word count, rounded up, at
/// least one (saturating at `u32::MAX`).
pub open spec fn stored_reading_minutes(word_count: int) -> int {
    if word_count <= 0 {
        1
    } else {
        crate::extract::reading_minutes(word_count as nat)
    }
}

pub fn reading_time(word_count: i64) -> (r: u32)
    ensures
        r == stored_reading_minutes(word_count as int),
{
    if word_count <= 0 {
        1
    } else {
        let w: u64 = word_count as u64;
        let m: u64 = w / 200 + if w % 200 == 0 { 0 } else { 1 };
        assert(m == (w + 199) / 200) by (nonlinear_arith)
            requires
                m == w / 200 + if w % 200 == 0 { 0int } else { 1int },
        ;
        if m < 1 {
            1
        } else if m > 0xffff_ffffu64 {
            0xffff_ffffu32
        } else {
            m as u32
        }
    }
}

} // verus!
