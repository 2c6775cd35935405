use tidy_core::extract::markdown::html_to_markdown;
use tidy_core::extract::metadata::{merge_metadata, ArticleHints, ReadableFields};
use tidy_core::extract::quality::{assess_quality, ExtractionQuality};
use tidy_core::extract::{
    content_hash, count_words, extract_article, make_excerpt, reading_time_minutes,
    render_markdown_html, QualityLabel,
};

#[test]
fn flags_thin_content() {
    assert_eq!(assess_quality("<html></html>", "too short", 2), ExtractionQuality::NeedsReview);
}

#[test]
fn preserves_fenced_code_language() {
    let html = r#"<pre><code class="language-rust">fn main() {}</code></pre>"#;
    let md = html_to_markdown(html).unwrap();
    assert!(md.contains("```rust") || md.contains("fn main"), "unexpected markdown: {md}");
}

#[test]
fn keeps_tables() {
    let html = r#"
          <table>
            <tr><th>A</th><th>B</th></tr>
            <tr><td>1</td><td>2</td></tr>
          </table>
        "#;
    let md = html_to_markdown(html).unwrap();
    assert!(md.contains('|') || md.contains("A"), "unexpected: {md}");
}

#[test]
fn extracts_basic_article() {
    let html = r#"
        <html lang="en"><head>
          <title>Hello World — Example Blog</title>
          <meta property="og:title" content="Hello World">
          <meta name="author" content="Ada Lovelace">
          <script type="application/ld+json">
            {"@type":"Article","headline":"Hello World","datePublished":"2026-01-02T00:00:00Z"}
          </script>
        </head><body>
          <article>
            <h1>Hello World</h1>
            <p>This is a substantial enough paragraph for readability to keep around while testing extraction quality gates and markdown conversion for Tidy.</p>
            <p>A second paragraph keeps the word count comfortably above the review threshold used by the extractor.</p>
            <pre><code class="language-rust">fn main() {}</code></pre>
          </article>
        </body></html>
        "#;
    let article =
        extract_article(html, "https://example.com/blog/hello-world", &ArticleHints::default()).unwrap();
    assert!(article.title.to_lowercase().contains("hello"));
    assert!(article.word_count > 20);
    assert!(article.markdown.contains("```") || article.markdown.contains("fn main"));
    assert_eq!(article.quality, QualityLabel::Passed);
}

#[test]
fn quality_gate_cases() {
    let words = "word ".repeat(50);
    assert_eq!(assess_quality("<html></html>", &words, 50), ExtractionQuality::Passed);
    assert_eq!(
        assess_quality("<html></html>", "Please ENABLE JavaScript to continue", 50),
        ExtractionQuality::NeedsReview
    );
    assert_eq!(assess_quality("<div id=\"root\"></div>", &words, 50), ExtractionQuality::NeedsReview);
    assert_eq!(assess_quality("<div id=\"root\"></div><article>", &words, 50), ExtractionQuality::Passed);
    assert_eq!(assess_quality("<div id=\"root\"></div>", &words, 80), ExtractionQuality::Passed);
    assert_eq!(QualityLabel::from_quality(ExtractionQuality::NeedsReview).as_str(), "needs_review");
    assert_eq!(QualityLabel::Passed.as_str(), "ok");
}

#[test]
fn counts_whitespace_separated_words() {
    assert_eq!(count_words(""), 0);
    assert_eq!(count_words("  one\ttwo\n three  "), 3);
    assert_eq!(count_words("a\u{3000}b"), 2);
}

#[test]
fn reading_time_rounds_up_with_minimum_one() {
    assert_eq!(reading_time_minutes(0), 1);
    assert_eq!(reading_time_minutes(1), 1);
    assert_eq!(reading_time_minutes(200), 1);
    assert_eq!(reading_time_minutes(201), 2);
    assert_eq!(reading_time_minutes(1000), 5);
}

#[test]
fn excerpt_collapses_whitespace_and_cuts_with_ellipsis() {
    assert_eq!(make_excerpt("  a   b\nc ", 10), "a b c");
    assert_eq!(make_excerpt("abcdef", 4), "abc…");
    assert_eq!(make_excerpt("abcdef", 6), "abcdef");
    assert_eq!(make_excerpt("abc", 0), "…");
}

#[test]
fn content_hash_is_prefixed_sha256_hex() {
    assert_eq!(
        content_hash(""),
        "sha256:e3b0c44298fc1c149afbf4c8996fb92427ae41e4649b934ca495991b7852b855"
    );
    assert_eq!(
        content_hash("abc"),
        "sha256:ba7816bf8f01cfea414140de5dae2223b00361a396177a9cb410ff61f20015ad"
    );
}

#[test]
fn renders_markdown_paragraph() {
    assert_eq!(render_markdown_html("Hello *world*"), "<p>Hello <em>world</em></p>\n");
}

fn fields(title: &str, byline: Option<&str>) -> ReadableFields {
    ReadableFields {
        title: title.to_string(),
        byline: byline.map(|s| s.to_string()),
        excerpt: None,
        site_name: None,
        published_time: Some("2026-01-01".to_string()),
        image: None,
        lang: Some("en".to_string()),
        url: None,
    }
}

#[test]
fn merge_prefers_hints_then_meta_then_article() {
    let hints = ArticleHints { title: None, author: Some("   ".to_string()), published: None, excerpt: None };
    let meta = fields("  Meta Title ", None);
    let article = fields("Article Title", Some(" Ada "));
    let m = merge_metadata(&hints, &meta, &article);
    assert_eq!(m.title, "Meta Title");
    assert_eq!(m.author.as_deref(), Some("Ada"));
    assert_eq!(m.published.as_deref(), Some("2026-01-01"));
    assert_eq!(m.lang.as_deref(), Some("en"));
    let untitled = merge_metadata(&ArticleHints::default(), &fields(" ", None), &fields("", None));
    assert_eq!(untitled.title, "Untitled");
    let hinted = ArticleHints { title: Some("Feed".to_string()), author: None, published: None, excerpt: None };
    assert_eq!(merge_metadata(&hinted, &meta, &article).title, "Feed");
}

#[test]
fn extraction_error_names_the_page() {
    match extract_article("", "https://example.com/x", &ArticleHints::default()) {
        Ok(_) => {}
        Err(tidy_core::error::TidyError::Extract { url, .. }) => assert_eq!(url, "https://example.com/x"),
        Err(other) => panic!("unexpected error {other:?}"),
    }
}

#[test]
fn word_counts_add_up_across_whitespace() {
    let cases = [("", ""), ("alpha beta", "gamma"), (" lead ", "trail "), ("a\tb", "\nc d e")];
    for (a, b) in cases {
        assert_eq!(count_words(&format!("{a} {b}")), count_words(a) + count_words(b));
    }
    assert_eq!(count_words(" hello \t world\n"), 2);
}
