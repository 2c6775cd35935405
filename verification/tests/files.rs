use tidy_core::error::TidyError;
use tidy_core::extract::{ExtractedArticle, QualityLabel};
use tidy_core::fetch::images::{
    extension_for, find_markdown_image, image_file_stem, image_references, image_target,
    rewrite_images, sanitize_filename,
};
use tidy_core::fetch::run::{
    plan_article, tally, written_summary, ArticleOutcome, ArticlePlan, FetchReport, FetchStatus,
    FetchedArticleSummary,
};
use tidy_core::fetch::slug::{article_stem, parse_date_prefix, short_hash, source_slug};
use tidy_core::fetch::writer::{
    parse_frontmatter, render_document, strip_frontmatter_body, write_article_file, write_status,
    ArticleFrontMatter, ExtractionInfo, FrontMatterHighlight, WriteOutcomeStatus,
};
use tidy_core::weburl::parse_url_str;

#[test]
fn builds_source_and_article_slugs() {
    let prefix = parse_url_str("https://Example.com/blog/posts").unwrap();
    assert_eq!(source_slug(&prefix), "example-com-blog-posts");

    let url = parse_url_str("https://example.com/blog/hello-world").unwrap();
    let stem = article_stem("Hello World!", &url, Some("2026-03-14T09:00:00Z"));
    assert_eq!(stem, "2026-03-14-hello-world");
}

#[test]
fn finds_image_syntax() {
    let input = "hello ![Alt text](https://cdn.example/a.png) world";
    let found = find_markdown_image(input).unwrap();
    assert_eq!(&input[found.url_start..found.url_end], "https://cdn.example/a.png");
}

#[test]
fn image_match_positions_and_misses() {
    let input = "x ![a] y ![b](u) z";
    let m = find_markdown_image(input).unwrap();
    assert_eq!(&input[m.start..m.end], "![b](u)");
    assert_eq!(&input[m.start + 2..m.alt_end], "b");
    assert_eq!(&input[m.url_start..m.url_end], "u");
    assert!(find_markdown_image("no images ![here").is_none());
    assert!(find_markdown_image("![alt](unterminated").is_none());
}

#[test]
fn slugs_fall_back_and_truncate() {
    let root = parse_url_str("https://example.com/").unwrap();
    assert_eq!(source_slug(&root), "example-com");
    let url = parse_url_str("https://example.com/blog/some-post").unwrap();
    assert_eq!(article_stem("???", &url, None), "1970-01-01-blog-some-post");
    let long = "word ".repeat(40);
    let stem = article_stem(&long, &url, Some("not a date"));
    assert_eq!(stem.chars().count(), "1970-01-01-".len() + 80);
    let bare = parse_url_str("https://example.com/").unwrap();
    let hashed = article_stem("", &bare, None);
    assert_eq!(hashed, format!("1970-01-01-{}", short_hash("https://example.com/")));
}

#[test]
fn date_prefix_needs_dashes_at_four_and_seven() {
    assert_eq!(parse_date_prefix(" 2026-01-02T00:00:00Z").as_deref(), Some("2026-01-02"));
    assert_eq!(parse_date_prefix("20260102T000000"), None);
    assert_eq!(parse_date_prefix("2026-01"), None);
}

#[test]
fn date_prefix_needs_digits_around_the_dashes() {
    assert_eq!(parse_date_prefix("ab:c-de-fg"), None);
    assert_eq!(parse_date_prefix("2026-0x-02"), None);
    assert_eq!(parse_date_prefix("2026-12-31 later"), Some("2026-12-31".to_string()));
    let url = tidy_core::weburl::parse_url_str("https://example.com/a").unwrap();
    let stem = article_stem("Hello", &url, Some("ab:c-de-fg"));
    assert_eq!(stem, "1970-01-01-hello");
}

#[test]
fn short_hash_is_eight_hex_digits_of_sha256() {
    assert_eq!(short_hash("abc"), "ba7816bf");
}

#[test]
fn document_roundtrip_gives_back_yaml_and_body() {
    let doc = render_document("---\ntitle: Hello\nrevision: 1\n\n", "Body text\n\n");
    assert_eq!(doc, "---\ntitle: Hello\nrevision: 1\n---\n\nBody text\n");
    let yaml = parse_frontmatter(&doc).unwrap().unwrap();
    assert_eq!(yaml, "\ntitle: Hello\nrevision: 1");
    assert_eq!(strip_frontmatter_body(&doc), "\nBody text\n");
}

#[test]
fn frontmatter_absent_or_unterminated() {
    assert!(matches!(parse_frontmatter("# just markdown"), Ok(None)));
    match parse_frontmatter("---\ntitle: x\nno end") {
        Err(TidyError::Message(m)) => assert_eq!(m, "unterminated frontmatter"),
        _ => panic!("expected an error"),
    }
    assert_eq!(strip_frontmatter_body("plain"), "plain");
    assert_eq!(strip_frontmatter_body("---\nno end"), "---\nno end");
}

#[test]
fn article_path_avoids_other_urls_files() {
    assert_eq!(write_article_file("src", "2026-01-02-a", "https://e.com/a", None), "Sources/src/2026-01-02-a.md");
    assert_eq!(
        write_article_file("src", "2026-01-02-a", "https://e.com/a", Some("https://e.com/a")),
        "Sources/src/2026-01-02-a.md"
    );
    let other = write_article_file("src", "2026-01-02-a", "https://e.com/a", Some("https://e.com/b"));
    assert_eq!(other, format!("Sources/src/2026-01-02-a-{}.md", short_hash("https://e.com/a")));
}

#[test]
fn write_status_cases() {
    assert_eq!(write_status(None, "x"), WriteOutcomeStatus::Created);
    assert_eq!(write_status(Some("x"), "x"), WriteOutcomeStatus::Unchanged);
    assert_eq!(write_status(Some("y"), "x"), WriteOutcomeStatus::Updated);
}

#[test]
fn image_names_and_extensions() {
    let u = parse_url_str("https://cdn.example/img/Photo.JPEG").unwrap();
    assert_eq!(extension_for(&u, None), "jpg");
    assert_eq!(extension_for(&u, Some("image/PNG; charset=x")), "png");
    assert_eq!(extension_for(&u, Some("text/html")), "jpg");
    let v = parse_url_str("https://cdn.example/img/file").unwrap();
    assert_eq!(extension_for(&v, None), "bin");
    assert_eq!(sanitize_filename("a b/c.png"), "a-b-c.png");
    let h = short_hash("https://cdn.example/img/Photo.JPEG");
    assert_eq!(image_file_stem("Photo.JPEG", 0, "https://cdn.example/img/Photo.JPEG"), format!("Photo-{h}"));
    assert_eq!(image_file_stem("", 3, "https://cdn.example/img/Photo.JPEG"), format!("image-3-{h}"));
    assert_eq!(image_file_stem(".png", 0, "https://cdn.example/img/Photo.JPEG"), format!(".png-{h}"));
    assert_eq!(image_file_stem("..", 0, "https://cdn.example/img/Photo.JPEG"), format!("image-{h}"));
}

#[test]
fn image_targets_resolve_and_refuse() {
    let page = parse_url_str("https://example.com/blog/post").unwrap();
    assert_eq!(image_target(&page, " img/a.png ").unwrap().as_str(), "https://example.com/blog/img/a.png");
    match image_target(&page, "data:image/png;base64,xx") {
        Err(TidyError::Message(m)) => assert_eq!(m, "skip data URI"),
        _ => panic!("expected a refusal"),
    }
    match image_target(&page, "ftp://example.com/a.png") {
        Err(TidyError::Message(m)) => assert_eq!(m, "unsupported image scheme"),
        _ => panic!("expected a refusal"),
    }
}

fn extracted() -> ExtractedArticle {
    ExtractedArticle {
        title: "Title".to_string(),
        author: Some("Ada".to_string()),
        published: None,
        lang: None,
        excerpt: "Ex".to_string(),
        html: String::new(),
        markdown: "Body".to_string(),
        text: "Body".to_string(),
        word_count: 70_000_000_000,
        reading_time: 3,
        quality: QualityLabel::NeedsReview,
        canonical_url: None,
        site_name: None,
        image: None,
    }
}

fn stored(hash: &str) -> ArticleFrontMatter {
    ArticleFrontMatter {
        title: "Old".to_string(),
        url: "https://e.com/a".to_string(),
        source: "src".to_string(),
        author: None,
        published: None,
        fetched: "2026-01-01T00:00:00+00:00".to_string(),
        tags: vec![],
        word_count: 1,
        reading_time: 1,
        lang: None,
        excerpt: String::new(),
        state: "read".to_string(),
        starred: true,
        archived: false,
        highlights: vec![FrontMatterHighlight {
            id: "hl1".to_string(),
            text: "Body".to_string(),
            note: None,
            prefix: String::new(),
            suffix: String::new(),
            created_at: "2026-01-02T00:00:00+00:00".to_string(),
        }],
        content_hash: hash.to_string(),
        revision: 4,
        extraction: ExtractionInfo { engine: "dom_smoothie".to_string(), quality: "ok".to_string() },
    }
}

#[test]
fn unchanged_content_is_skipped() {
    let e = stored("sha256:same");
    match plan_article("https://e.com/a", "src", "stem", None, Some(&e), &extracted(), "sha256:same", "now") {
        ArticlePlan::Skip(s) => {
            assert_eq!(s.path, "Sources/src/stem.md");
            assert_eq!(s.title, "Old");
            assert_eq!(s.status, FetchStatus::Skipped);
            assert_eq!(s.quality, "ok");
        }
        ArticlePlan::Write(_) => panic!("expected a skip"),
    }
}

#[test]
fn changed_content_bumps_revision_and_keeps_reader_state() {
    let e = stored("sha256:old");
    match plan_article("https://e.com/a", "src", "stem", Some("Sources/src/x.md"), Some(&e), &extracted(), "sha256:new", "now") {
        ArticlePlan::Write(fm) => {
            assert_eq!(fm.revision, 5);
            assert_eq!(fm.state, "read");
            assert!(fm.starred);
            assert_eq!(fm.highlights.len(), 1);
            assert_eq!(fm.tags, vec!["source/src".to_string()]);
            assert_eq!(fm.word_count, 70_000_000_000u64 as u32);
            assert_eq!(fm.extraction.quality, "needs_review");
            assert_eq!(fm.content_hash, "sha256:new");
        }
        ArticlePlan::Skip(_) => panic!("expected a write"),
    }
    match plan_article("https://e.com/a", "src", "stem", None, None, &extracted(), "sha256:new", "now") {
        ArticlePlan::Write(fm) => {
            assert_eq!(fm.revision, 1);
            assert_eq!(fm.state, "unread");
            assert!(!fm.starred && !fm.archived);
            assert!(fm.highlights.is_empty());
        }
        ArticlePlan::Skip(_) => panic!("expected a write"),
    }
}

#[test]
fn report_counts_every_article_once() {
    let mut r = FetchReport::start(7, "src".to_string(), 3, vec!["w".to_string()]);
    let fm = stored("h");
    r.record(written_summary("https://e.com/a", "Sources/src/a.md", &fm, WriteOutcomeStatus::Created));
    r.record(FetchedArticleSummary {
        url: "https://e.com/b".to_string(),
        path: "p".to_string(),
        title: "b".to_string(),
        status: FetchStatus::Skipped,
        quality: "needs_review".to_string(),
    });
    r.record_failure("https://e.com/c".to_string(), None, "boom".to_string());
    assert_eq!((r.added, r.updated, r.skipped, r.failed, r.needs_review), (1, 0, 1, 1, 2));
    assert_eq!(r.articles.len(), 3);
    assert_eq!(r.articles[2].title, "https://e.com/c");
    assert_eq!(r.warnings, vec!["w".to_string(), "https://e.com/c: boom".to_string()]);
    assert_eq!(written_summary("u", "p", &fm, WriteOutcomeStatus::Unchanged).status, FetchStatus::Skipped);
    assert_eq!(written_summary("u", "p", &fm, WriteOutcomeStatus::Updated).status, FetchStatus::Updated);
}

#[test]
fn tally_lists_every_discovered_url_once() {
    let fm = stored("h");
    let outcomes = vec![
        ArticleOutcome::Fetched(written_summary("https://e.com/a", "Sources/src/a.md", &fm, WriteOutcomeStatus::Updated)),
        ArticleOutcome::Failed { url: "https://e.com/b".to_string(), title: Some("B".to_string()), error: "timeout".to_string() },
        ArticleOutcome::Fetched(written_summary("https://e.com/c", "Sources/src/c.md", &fm, WriteOutcomeStatus::Unchanged)),
    ];
    let r = tally(9, "src".to_string(), vec!["first".to_string()], outcomes);
    assert_eq!(r.discovered, 3);
    assert_eq!(r.articles.len(), 3);
    assert_eq!((r.added, r.updated, r.skipped, r.failed), (0, 1, 1, 1));
    assert_eq!(r.added + r.updated + r.skipped + r.failed, r.discovered);
    assert_eq!(r.articles[1].title, "B");
    assert_eq!(r.warnings, vec!["first".to_string(), "https://e.com/b: timeout".to_string()]);
    let empty = tally(1, "s".to_string(), Vec::new(), Vec::new());
    assert_eq!((empty.discovered, empty.articles.len()), (0, 0));
}

#[test]
fn image_references_and_rewrite() {
    let md = "a ![one](x.png) b ![two](y.png) c ![bad] ![é](z.png)";
    let refs = image_references(md);
    assert_eq!(
        refs,
        vec![
            ("one".to_string(), "x.png".to_string()),
            ("two".to_string(), "y.png".to_string()),
            ("é".to_string(), "z.png".to_string()),
        ]
    );
    let out = rewrite_images(md, &[Some("../l/x.png".to_string()), None, Some("L".to_string())]);
    assert_eq!(out, "a ![one](../l/x.png) b ![two](y.png) c ![bad] ![é](L)");
    assert_eq!(rewrite_images("no images", &[]), "no images");
}
