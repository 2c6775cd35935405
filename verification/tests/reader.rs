use tidy_core::error::{TidyError, VaultError};
use tidy_core::fetch::writer::FrontMatterHighlight;
use tidy_core::highlights::{
    from_frontmatter, highlight_fields, normalize_note, quote_context, to_frontmatter,
    HighlightInput,
};
use tidy_core::http::{
    classify_response, conditional_headers, HttpCache,
    limiter_sizes, origin_key, pacing_delay, response_text, CacheEntry, HttpClientConfig,
    ResponseStep,
};
use tidy_core::index::{reading_time, ArticleFilter, SourceRow};
use tidy_core::maintenance::{
    match_source, reindex_vault, source_slug_for_prefix, ReindexOutcome,
};
use tidy_core::overrides::SourceOverrides;
use tidy_core::robots::parse_robots;
use tidy_core::scheduler::{next_fetch_at, source_due_checked, source_is_due, Instant};
use tidy_core::search::{
    article_query_sql, prepare_fts_query, ArticleQuery, SmartViewFilter, SqlParam,
};
use tidy_core::state::{article_flags_sql, ArticleStatePatch};
use tidy_core::vault::{join_path, Vault};
use tidy_core::weburl::parse_url_str;

#[test]
fn quote_context_finds_surroundings() {
    let body = "alpha beta gamma delta epsilon";
    let (prefix, suffix) = quote_context(body, "gamma");
    assert!(prefix.ends_with("beta "));
    assert!(suffix.starts_with(" delta"));
}

#[test]
fn quote_context_keeps_at_most_32_bytes_each_side() {
    let body = format!("{}X{}", "a".repeat(40), "b".repeat(40));
    let (p, s) = quote_context(&body, "X");
    assert_eq!(p, "a".repeat(32));
    assert_eq!(s, "b".repeat(32));
    let (p, s) = quote_context("abc", "zzz");
    assert!(p.is_empty() && s.is_empty());
}

#[test]
fn quote_context_handles_multibyte_text() {
    let (p, s) = quote_context("héllo wörld ünïcode", "wörld");
    assert_eq!(p, "héllo ");
    assert_eq!(s, " ünïcode");
    let (p, s) = quote_context("naïve", "");
    assert!(p.is_empty());
    assert_eq!(s, "naïve");
}

#[test]
fn fts_terms_are_quoted_without_inner_quotes() {
    let q = prepare_fts_query("a\"b\"c \"d e\"").unwrap();
    for term in q.split(" OR ") {
        assert!(term.len() >= 2 && term.starts_with('"') && term.ends_with('"'));
        assert!(!term[1..term.len() - 1].contains('"'));
    }
    assert_eq!(q, "\"abc\" OR \"d\" OR \"e\"");
}

#[test]
fn highlight_round_trips_through_frontmatter() {
    let item = FrontMatterHighlight {
        id: "hl1".to_string(),
        text: "Body".to_string(),
        note: Some("note".to_string()),
        prefix: "pre".to_string(),
        suffix: "suf".to_string(),
        created_at: "2026-07-27T00:00:00Z".to_string(),
    };
    let row = from_frontmatter(9, &item);
    assert_eq!(row.article_id, 9);
    let back = to_frontmatter(&row);
    assert_eq!(from_frontmatter(9, &back), row);
}

#[test]
fn highlight_fields_trim_and_find_context() {
    let input = HighlightInput { text: "  gamma ".to_string(), note: Some("  ".to_string()), prefix: None, suffix: None };
    let (text, note, prefix, suffix) = highlight_fields("alpha beta gamma delta", input).unwrap();
    assert_eq!(text, "gamma");
    assert_eq!(note, None);
    assert_eq!(prefix, "alpha beta ");
    assert_eq!(suffix, " delta");
    let blank = HighlightInput { text: "   ".to_string(), note: None, prefix: None, suffix: None };
    match highlight_fields("x", blank) {
        Err(TidyError::Message(m)) => assert_eq!(m, "highlight text is required"),
        _ => panic!("expected an error"),
    }
    assert_eq!(normalize_note(Some(" keep ".to_string())).as_deref(), Some("keep"));
}

#[test]
fn fts_query_or_tokens() {
    assert_eq!(prepare_fts_query("hello world").as_deref(), Some("\"hello\" OR \"world\""));
    assert_eq!(prepare_fts_query("   ").as_deref(), None);
}

#[test]
fn fts_query_strips_quotes() {
    assert_eq!(prepare_fts_query("\"rust\" a\"b \"\"").as_deref(), Some("\"rust\" OR \"ab\""));
}

#[test]
fn filters_convert_both_ways() {
    for f in [
        SmartViewFilter::Inbox,
        SmartViewFilter::Unread,
        SmartViewFilter::Starred,
        SmartViewFilter::Archived,
        SmartViewFilter::All,
        SmartViewFilter::Review,
    ] {
        assert_eq!(SmartViewFilter::from_article_filter(f.to_article_filter()), f);
    }
    assert_eq!(SmartViewFilter::Review.to_article_filter(), ArticleFilter::Review);
}

#[test]
fn article_query_builds_sql_and_params() {
    let q = ArticleQuery { filter: ArticleFilter::Starred, source_id: Some(3), tag: Some(" rust ".to_string()), search: None, limit: Some(10) };
    let (sql, params) = article_query_sql(&q);
    assert!(sql.contains("FROM articles a\n"));
    assert!(sql.contains(" AND a.starred = 1 AND a.archived = 0 AND a.source_id = ?"));
    assert!(sql.ends_with(" ORDER BY COALESCE(a.published_at, a.fetched_at) DESC, a.id DESC LIMIT ?"));
    assert_eq!(params.len(), 3);
    assert!(matches!(&params[1], SqlParam::Text(t) if t == "rust"));
    let s = ArticleQuery { search: Some("hi".to_string()), ..ArticleQuery::default() };
    let (sql, params) = article_query_sql(&s);
    assert!(sql.contains("FROM articles_fts fts\nJOIN articles a ON a.id = fts.rowid\n"));
    assert!(sql.ends_with(" ORDER BY bm25(fts)"));
    assert!(matches!(&params[0], SqlParam::Text(t) if t == "\"hi\""));
}

fn sample(last: Option<&str>, interval: i64, enabled: bool) -> SourceRow {
    SourceRow {
        id: 1,
        url_prefix: "https://example.com/".into(),
        title: "Example".into(),
        feed_url: None,
        backfill_policy: "recent".into(),
        interval_minutes: interval,
        last_fetch_at: last.map(str::to_owned),
        enabled,
        article_count: 0,
        unread_count: 0,
        overrides: SourceOverrides::default(),
    }
}

fn now() -> (chrono::DateTime<chrono::Utc>, Instant) {
    let now = chrono::Utc::now();
    (now, Instant { secs: now.timestamp(), nanos: now.timestamp_subsec_nanos() })
}

#[test]
fn never_fetched_is_due() {
    let (_, now) = now();
    assert!(source_is_due(&sample(None, 60, true), now));
}

#[test]
fn disabled_is_never_due() {
    let (_, now) = now();
    assert!(!source_is_due(&sample(None, 60, false), now));
}

#[test]
fn recent_fetch_not_due() {
    let (at, now) = now();
    let last = (at - chrono::Duration::minutes(10)).to_rfc3339();
    assert!(!source_is_due(&sample(Some(&last), 60, true), now));
}

#[test]
fn elapsed_interval_is_due() {
    let (at, now) = now();
    let last = (at - chrono::Duration::minutes(90)).to_rfc3339();
    assert!(source_is_due(&sample(Some(&last), 60, true), now));
}

#[test]
fn unreadable_last_fetch_is_due_and_overflow_is_reported() {
    let (_, now) = now();
    assert!(source_is_due(&sample(Some("yesterday"), 60, true), now));
    assert_eq!(source_due_checked(&sample(Some("2026-01-01T00:00:00Z"), i64::MAX, true), now), None);
    assert_eq!(source_due_checked(&sample(Some("2000-01-01T00:00:00Z"), 0, true), now), Some(true));
}

#[test]
fn next_fetch_adds_the_interval() {
    let row = sample(Some("2026-01-01T00:00:00Z"), 90, true);
    assert_eq!(next_fetch_at(&row, "now".to_string()).as_deref(), Some("2026-01-01T01:30:00+00:00"));
    assert_eq!(next_fetch_at(&sample(None, 90, true), "now".to_string()).as_deref(), Some("now"));
    assert_eq!(next_fetch_at(&sample(None, 90, false), "now".to_string()), None);
    assert_eq!(next_fetch_at(&sample(Some("bad"), 90, true), "now".to_string()), None);
}

#[test]
fn parses_sitemaps_and_disallows() {
    let txt = br#"
User-agent: *
Disallow: /private
Sitemap: https://example.com/sitemap.xml
"#;
    let rules = parse_robots(txt).unwrap();
    assert_eq!(rules.sitemaps(), &["https://example.com/sitemap.xml".to_string()]);
    assert!(!rules.allowed("https://example.com/private/x"));
    assert!(rules.allowed("https://example.com/blog/x"));
}

#[test]
fn vault_paths() {
    match Vault::open("/tmp/x".to_string(), false) {
        Err(VaultError::NotDirectory(p)) => assert_eq!(p, "/tmp/x"),
        _ => panic!("expected NotDirectory"),
    }
    let v = Vault::open("/tmp/vault".to_string(), true).unwrap();
    assert_eq!(v.root(), "/tmp/vault");
    assert_eq!(v.database_path(), "/tmp/vault/.tidy/index.db");
    assert_eq!(join_path("/tmp/", "a"), "/tmp/a");
    assert_eq!(join_path("", "a"), "a");
}

#[test]
fn reindex_tally_and_source_matching() {
    let r = reindex_vault(vec![
        ReindexOutcome::Upserted,
        ReindexOutcome::Skipped,
        ReindexOutcome::Failed("f: bad".to_string()),
        ReindexOutcome::Upserted,
    ]);
    assert_eq!((r.scanned, r.upserted, r.skipped, r.failed), (4, 2, 1, 1));
    assert_eq!(r.warnings, vec!["f: bad".to_string()]);
    assert_eq!(source_slug_for_prefix("https://Example.com/blog/"), "example-com-blog");
    assert_eq!(source_slug_for_prefix("example.com/blog"), "example-com-blog");
    let sources = vec![sample(None, 60, true), {
        let mut s = sample(None, 60, true);
        s.url_prefix = "https://example.com/blog/".to_string();
        s
    }];
    assert_eq!(match_source(&sources, "example-com-blog", "Sources/x/a.md").unwrap(), 1);
    assert_eq!(match_source(&sources, "zzz", "Sources/zzz/a.md").unwrap(), 0);
    match match_source(&sources, "zzz", "Sources/other/a.md") {
        Err(TidyError::Message(m)) => assert_eq!(m, "no source matched frontmatter source `zzz`"),
        _ => panic!("expected an error"),
    }
}

#[test]
fn state_patch_sql() {
    assert!(article_flags_sql(5, &ArticleStatePatch::default(), "t").is_none());
    let patch = ArticleStatePatch { state: Some("read".to_string()), starred: None, archived: Some(true) };
    let (sql, params) = article_flags_sql(5, &patch, "t").unwrap();
    assert_eq!(sql, "UPDATE articles SET state = ?, archived = ?, updated_at = ? WHERE id = ?");
    assert_eq!(params.len(), 4);
    assert!(matches!(params[1], SqlParam::Int(1)));
    assert!(matches!(params[3], SqlParam::Int(5)));
}

#[test]
fn http_decisions() {
    let cfg = HttpClientConfig::default();
    assert_eq!(limiter_sizes(&cfg), (2, 6));
    let u = parse_url_str("https://example.com/a?b").unwrap();
    assert_eq!(origin_key(&u), "https://example.com");
    let url = parse_url_str("https://example.com/").unwrap();
    let key = HttpCache::key(&url);
    assert_eq!(key, "0f115db062b7c0dd030b16878c99dea5c354b49dc37b38eb8846179c7783e9d7");
    let cache = HttpCache::new("/c".to_string());
    assert_eq!(cache.root(), "/c");
    assert_eq!(cache.meta_path(&url), format!("/c/{key}.json"));
    assert_eq!(HttpCache::new("/c/".to_string()).body_path(&url), format!("/c/{key}.bin"));
    let entry = CacheEntry { url: "u".into(), content_type: None, etag: Some("\"e\"".into()), last_modified: None, body: vec![] };
    assert_eq!(conditional_headers(Some(&entry)), vec![("if-none-match".to_string(), "\"e\"".to_string())]);
    assert!(conditional_headers(None).is_empty());
    assert!(matches!(classify_response(&u, 304, "304 Not Modified", true), ResponseStep::UseCached));
    assert!(matches!(classify_response(&u, 200, "200 OK", false), ResponseStep::Accept));
    match classify_response(&u, 304, "304 Not Modified", false) {
        ResponseStep::Fail(TidyError::Http { message, .. }) => assert_eq!(message, "unexpected status 304 Not Modified"),
        _ => panic!("expected a failure"),
    }
    assert!(response_text(&u, vec![0xff]).is_err());
    assert_eq!(response_text(&u, b"hi".to_vec()).unwrap(), "hi");
    assert_eq!(pacing_delay(10, 4), 6);
    assert_eq!(pacing_delay(4, 10), 0);
}

#[test]
fn stored_reading_time() {
    assert_eq!(reading_time(-5), 1);
    assert_eq!(reading_time(401), 3);
}

#[test]
fn overrides_emptiness() {
    let mut o = SourceOverrides::default();
    assert!(o.is_empty());
    o.max_pages = Some(40);
    assert!(!o.is_empty());
}

#[test]
fn robots_location_is_on_the_origin() {
    assert_eq!(tidy_core::robots::robots_url("https://example.com/a/b?c").unwrap(), "https://example.com/robots.txt");
}

#[test]
fn due_stays_due_later() {
    let row = sample(Some("2000-01-01T00:00:00Z"), 60, true);
    let t = Instant { secs: 946_688_400, nanos: 0 }; // 2000-01-01T01:00:00Z
    assert!(source_is_due(&row, t));
    assert!(source_is_due(&row, Instant { secs: t.secs + 1, nanos: 0 }));
    assert!(!source_is_due(&row, Instant { secs: t.secs - 1, nanos: 999_999_999 }));
}

#[test]
fn slugs_are_directory_safe() {
    let u = parse_url_str("https://EXAMPLE.com/--Weird Path/ünïcode/").unwrap();
    let slug = tidy_core::fetch::slug::source_slug(&u);
    assert!(!slug.is_empty() && slug.len() <= 80);
    assert!(slug.chars().all(|c| c.is_ascii_lowercase() || c.is_ascii_digit() || c == '-' || c == '_'));
    assert!(!slug.starts_with('-') && !slug.ends_with('-'));
}
