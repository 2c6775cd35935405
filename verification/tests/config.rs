use tidy_core::discover::steps::{crawl_limits, index_depth_warning, prefix_redirect, sitemap_failure_warning};
use tidy_core::discover::types::CrawlLimits;
use tidy_core::index::{ArticleFilter, SourceRow};
use tidy_core::overrides::SourceOverrides;
use tidy_core::scheduler::{due_sources, Instant};
use tidy_core::search::{article_list_sql, smart_view_identity, tag_list_sql, SqlParam};
use tidy_core::settings::{parse_reader_from_toml, parse_u32};
use tidy_core::weburl::parse_url_str;

#[test]
fn reader_settings_from_config() {
    let text = "# Tidy vault configuration\nschema_version = 1\n\n[reader]\ntheme = \"system\"\nfont = 'sans'\nfont_size = 18\nline_height = 1.7\nmeasure = wide\n[other]\ntheme = \"x\"\n";
    let r = parse_reader_from_toml(text);
    assert_eq!(r.theme, "system");
    assert_eq!(r.font, "sans");
    assert_eq!(r.font_size, 18);
    assert_eq!(r.line_heights, vec!["1.7".to_string()]);
    assert_eq!(r.measure, "wide");
}

#[test]
fn reader_settings_defaults_and_bad_numbers() {
    let r = parse_reader_from_toml("theme = \"ignored\"\n[reader]\nfont_size = big\nfont_size = 99999999999\n");
    assert_eq!(r.theme, "paper");
    assert_eq!(r.font, "serif");
    assert_eq!(r.font_size, 20);
    assert!(r.line_heights.is_empty());
    assert_eq!(r.measure, "narrow");
}

#[test]
fn unsigned_parsing_follows_from_str() {
    let p = |s: &str| parse_u32(&s.chars().collect::<Vec<char>>());
    assert_eq!(p("42"), Some(42));
    assert_eq!(p("+7"), Some(7));
    assert_eq!(p("+"), None);
    assert_eq!(p(""), None);
    assert_eq!(p("-1"), None);
    assert_eq!(p("4294967295"), Some(u32::MAX));
    assert_eq!(p("4294967296"), None);
}

#[test]
fn list_and_tag_sql() {
    let (sql, params) = article_list_sql(ArticleFilter::Archived, None, Some(5));
    assert!(sql.ends_with("WHERE 1 = 1\n             AND a.archived = 1 ORDER BY COALESCE(a.published_at, a.fetched_at) DESC, a.id DESC LIMIT ?"));
    assert_eq!(params.len(), 1);
    let (sql, params) = tag_list_sql(Some("source/"), 10);
    assert!(sql.contains(" AND tag LIKE ?"));
    assert!(matches!(&params[0], SqlParam::Text(t) if t == "source/%"));
    assert!(matches!(params[1], SqlParam::Int(10)));
    let (sql, params) = tag_list_sql(Some(""), 10);
    assert!(!sql.contains("LIKE"));
    assert_eq!(params.len(), 1);
}

#[test]
fn smart_view_names_and_ids() {
    assert!(smart_view_identity(None, "   ").is_err());
    let (id, name) = smart_view_identity(Some("  "), " Reading ").unwrap();
    assert_eq!(id, None);
    assert_eq!(name, "Reading");
    let (id, _) = smart_view_identity(Some(" sv1 "), "x").unwrap();
    assert_eq!(id.as_deref(), Some("sv1"));
}

#[test]
fn discovery_step_decisions() {
    let a = parse_url_str("https://example.com/blog/").unwrap();
    let b = parse_url_str("https://example.com/blog").unwrap();
    let c = parse_url_str("https://www.example.com/blog/").unwrap();
    assert_eq!(prefix_redirect(&a, &b), None);
    assert_eq!(
        prefix_redirect(&a, &c).as_deref(),
        Some("prefix redirected: https://example.com/blog/ → https://www.example.com/blog/")
    );
    assert_eq!(sitemap_failure_warning(&a, "HTTP error: unexpected status 404 Not Found"), None);
    assert_eq!(sitemap_failure_warning(&a, "boom").as_deref(), Some("sitemap https://example.com/blog/: boom"));
    let l = crawl_limits(CrawlLimits::default(), Some(0));
    assert_eq!((l.max_depth, l.page_cap), (2, 1));
    assert_eq!(crawl_limits(CrawlLimits::default(), None).page_cap, 200);
    assert_eq!(index_depth_warning(&a, 1, 3), None);
    assert_eq!(
        index_depth_warning(&a, 3, 3).as_deref(),
        Some("sitemap index depth cap reached at https://example.com/blog/")
    );
}

fn row(id: i64, last: Option<&str>, enabled: bool) -> SourceRow {
    SourceRow {
        id,
        url_prefix: "https://example.com/".into(),
        title: "Example".into(),
        feed_url: None,
        backfill_policy: "recent".into(),
        interval_minutes: 60,
        last_fetch_at: last.map(str::to_owned),
        enabled,
        article_count: 0,
        unread_count: 0,
        overrides: SourceOverrides::default(),
    }
}

#[test]
fn due_sources_keep_order_and_skip_disabled() {
    let now = Instant { secs: 1_767_225_600, nanos: 0 }; // 2026-01-01T00:00:00Z
    let due = due_sources(
        vec![row(1, None, true), row(2, None, false), row(3, Some("2025-12-31T23:30:00Z"), true), row(4, Some("2025-12-31T22:00:00Z"), true)],
        now,
    )
    .unwrap();
    let ids: Vec<i64> = due.iter().map(|s| s.id).collect();
    assert_eq!(ids, vec![1, 4]);
}
