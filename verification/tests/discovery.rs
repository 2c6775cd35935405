use tidy_core::discover::collect::UrlCollection;
use tidy_core::discover::crawl::{extract_links, extract_title, looks_like_article, CrawlState};
use tidy_core::discover::feeds::{extract_alternate_feeds, parse_feed_entries};
use tidy_core::discover::prefix::{is_prefix_root, matches_prefix, normalize_prefix, parse_prefix};
use tidy_core::discover::steps::{crawl_needed, feed_step, FeedOutcome, FeedStep};
use tidy_core::discover::sitemap::{parse_sitemap_body, sitemap_from_events, SitemapBody};
use tidy_core::discover::sources::{
    feed_candidates, origin_url, sitemap_candidates, sitemap_looks_related,
};
use tidy_core::discover::types::{DiscoveredUrl, DiscoverySource};
use tidy_core::error::TidyError;
use tidy_core::weburl::{parse_url_str, WebUrl};
use tidy_core::xml::XmlEvent;

fn url(s: &str) -> WebUrl {
    parse_url_str(s).unwrap()
}

#[test]
fn extracts_same_document_links() {
    let html = r#"<a href="/blog/one">One</a><a href="https://other.com/x">x</a>"#;
    let base = url("https://example.com/blog/");
    let links = extract_links(&base, html);
    assert!(links.iter().any(|u| u.as_str() == "https://example.com/blog/one"));
}

#[test]
fn article_heuristic_filters_indexes() {
    let prefix = url("https://example.com/blog/");
    assert!(!looks_like_article(&url("https://example.com/blog/"), &prefix));
    assert!(looks_like_article(&url("https://example.com/blog/hello-world"), &prefix));
    assert!(!looks_like_article(&url("https://example.com/blog/tag/rust"), &prefix));
}

#[test]
fn extracts_alternate_link_feeds() {
    let html = r#"
            <html><head>
              <link rel="alternate" type="application/rss+xml" href="/blog/rss.xml">
              <link rel="stylesheet" href="/style.css">
            </head></html>
        "#;
    let base = url("https://example.com/blog/");
    let feeds = extract_alternate_feeds(&base, html);
    assert_eq!(feeds.len(), 1);
    assert_eq!(feeds[0].as_str(), "https://example.com/blog/rss.xml");
}

#[test]
fn parses_atom_fixture() {
    let atom = br#"<?xml version="1.0" encoding="utf-8"?>
        <feed xmlns="http://www.w3.org/2005/Atom">
          <title>Example</title>
          <entry>
            <title>Hello</title>
            <link href="https://example.com/blog/hello"/>
            <updated>2026-01-02T00:00:00Z</updated>
          </entry>
        </feed>"#;
    let feed_url = url("https://example.com/blog/atom.xml");
    let entries = parse_feed_entries(&feed_url, atom).unwrap();
    assert_eq!(entries.len(), 1);
    assert_eq!(entries[0].url.as_str(), "https://example.com/blog/hello");
    assert_eq!(entries[0].title.as_deref(), Some("Hello"));
}

#[test]
fn prefix_matching_is_path_aware() {
    let prefix = normalize_prefix(&url("https://example.com/blog")).unwrap();
    assert!(matches_prefix(&url("https://example.com/blog/hello"), &prefix));
    assert!(matches_prefix(&url("https://example.com/blog"), &prefix));
    assert!(!matches_prefix(&url("https://example.com/blogger/x"), &prefix));
    assert!(!matches_prefix(&url("https://other.com/blog/x"), &prefix));
    assert!(is_prefix_root(&url("https://example.com/blog"), &prefix));
    assert!(!is_prefix_root(&url("https://example.com/blog/hello"), &prefix));
}

#[test]
fn parses_urlset() {
    let xml = br#"<?xml version="1.0" encoding="UTF-8"?>
        <urlset xmlns="http://www.sitemaps.org/schemas/sitemap/0.9">
          <url><loc>https://example.com/blog/a</loc></url>
          <url><loc>https://example.com/blog/b</loc></url>
        </urlset>"#;
    let base = url("https://example.com/sitemap.xml");
    match parse_sitemap_body(&base, xml).unwrap() {
        SitemapBody::UrlSet(urls) => {
            assert_eq!(urls.len(), 2);
            assert_eq!(urls[0].as_str(), "https://example.com/blog/a");
        }
        SitemapBody::Index(_) => panic!("expected urlset"),
    }
}

#[test]
fn parses_sitemap_index() {
    let xml = br#"<?xml version="1.0" encoding="UTF-8"?>
        <sitemapindex xmlns="http://www.sitemaps.org/schemas/sitemap/0.9">
          <sitemap><loc>https://example.com/post-sitemap.xml</loc></sitemap>
        </sitemapindex>"#;
    let base = url("https://example.com/sitemap_index.xml");
    match parse_sitemap_body(&base, xml).unwrap() {
        SitemapBody::Index(urls) => {
            assert_eq!(urls.len(), 1);
        }
        SitemapBody::UrlSet(_) => panic!("expected index"),
    }
}

#[test]
fn sitemap_without_root_is_an_error_naming_the_sitemap() {
    let base = url("https://example.com/sitemap.xml");
    match parse_sitemap_body(&base, b"<html><body>nope</body></html>") {
        Err(TidyError::Sitemap { url, .. }) => assert_eq!(url, "https://example.com/sitemap.xml"),
        _ => panic!("expected a sitemap error"),
    }
}

#[test]
fn feed_parse_error_names_the_feed() {
    let feed_url = url("https://example.com/feed");
    match parse_feed_entries(&feed_url, b"not a feed at all") {
        Err(TidyError::Feed { url, message }) => {
            assert_eq!(url, "https://example.com/feed");
            assert!(!message.is_empty());
        }
        _ => panic!("expected a feed error"),
    }
}

#[test]
fn feed_entry_prefers_alternate_link_and_published_time() {
    let atom = br#"<?xml version="1.0" encoding="utf-8"?>
        <feed xmlns="http://www.w3.org/2005/Atom">
          <title>Example</title>
          <entry>
            <title>Two</title>
            <link rel="enclosure" href="https://example.com/blog/two.mp3"/>
            <link rel="alternate" href="/blog/two"/>
            <published>2026-02-03T04:05:06Z</published>
            <updated>2026-03-01T00:00:00Z</updated>
          </entry>
        </feed>"#;
    let feed_url = url("https://example.com/blog/atom.xml");
    let entries = parse_feed_entries(&feed_url, atom).unwrap();
    assert_eq!(entries.len(), 1);
    assert_eq!(entries[0].url.as_str(), "https://example.com/blog/two");
    assert_eq!(entries[0].published.as_deref(), Some("2026-02-03T04:05:06+00:00"));
    assert_eq!(entries[0].source, DiscoverySource::Feed);
}

#[test]
fn parse_prefix_adds_https_and_rejects_hostless() {
    let u = parse_prefix("  example.com/blog ").unwrap();
    assert_eq!(u.as_str(), "https://example.com/blog");
    assert!(matches!(parse_prefix("http://"), Err(_)));
}

#[test]
fn normalize_prefix_drops_query_and_adds_slash() {
    let n = normalize_prefix(&url("https://example.com/blog?x=1#top")).unwrap();
    assert_eq!(n.as_str(), "https://example.com/blog/");
    let doc = normalize_prefix(&url("https://example.com/blog/index.html")).unwrap();
    assert_eq!(doc.as_str(), "https://example.com/blog/index.html");
}

#[test]
fn extracts_page_title() {
    assert_eq!(extract_title("<html><head><title> Hi there </title></head></html>"), Some("Hi there".to_string()));
    assert_eq!(extract_title("<html><head></head></html>"), None);
}

#[test]
fn origin_drops_path_query_and_fragment() {
    let o = origin_url(&url("https://example.com/blog/x?y=1#z"));
    assert_eq!(o.as_str(), "https://example.com/");
}

#[test]
fn feed_candidates_list_each_url_once_alternates_first() {
    let prefix = url("https://example.com/");
    let alternates = vec![url("https://example.com/feed"), url("https://example.com/custom.xml")];
    let c = feed_candidates(&prefix, alternates);
    assert_eq!(c[0].as_str(), "https://example.com/feed");
    assert_eq!(c[1].as_str(), "https://example.com/custom.xml");
    // the prefix is the origin, so every common path appears once
    assert_eq!(c.len(), 11);
    let mut hrefs: Vec<String> = c.iter().map(|u| u.as_str()).collect();
    hrefs.sort();
    hrefs.dedup();
    assert_eq!(hrefs.len(), 11);
}

#[test]
fn sitemap_candidates_probe_common_paths_without_robots() {
    let prefix = url("https://example.com/blog/");
    let c = sitemap_candidates(&prefix, None);
    let hrefs: Vec<String> = c.iter().map(|u| u.as_str()).collect();
    assert_eq!(
        hrefs,
        vec![
            "https://example.com/sitemap.xml",
            "https://example.com/blog/sitemap.xml",
            "https://example.com/sitemap_index.xml",
            "https://example.com/blog/sitemap_index.xml",
            "https://example.com/sitemap-index.xml",
            "https://example.com/blog/sitemap-index.xml",
        ]
    );
}

#[test]
fn sitemap_candidates_prefer_related_robots_entries() {
    let prefix = url("https://example.com/blog/");
    let robots = vec![
        "https://example.com/pages.xml".to_string(),
        "https://example.com/blog-sitemap.xml".to_string(),
        "https://example.com/a.xml".to_string(),
        "https://example.com/b.xml".to_string(),
    ];
    let c = sitemap_candidates(&prefix, Some(robots));
    let hrefs: Vec<String> = c.iter().map(|u| u.as_str()).collect();
    assert_eq!(
        hrefs,
        vec![
            "https://example.com/blog-sitemap.xml",
            "https://example.com/pages.xml",
            "https://example.com/a.xml",
            "https://example.com/sitemap.xml",
        ]
    );
}

#[test]
fn related_sitemaps_share_host_and_a_path_word() {
    let prefix = url("https://example.com/blog/");
    assert!(sitemap_looks_related(&url("https://example.com/post-sitemap.xml"), &prefix));
    assert!(!sitemap_looks_related(&url("https://example.com/pages.xml"), &prefix));
    assert!(!sitemap_looks_related(&url("https://other.com/blog.xml"), &prefix));
    assert!(sitemap_looks_related(&url("https://example.com/pages.xml"), &url("https://example.com/")));
}

fn found(u: &str, title: Option<&str>, published: Option<&str>, source: DiscoverySource) -> DiscoveredUrl {
    DiscoveredUrl {
        url: url(u),
        title: title.map(|t| t.to_string()),
        published: published.map(|p| p.to_string()),
        source,
    }
}

#[test]
fn collection_keeps_one_entry_per_url_and_prefers_feed() {
    let prefix = normalize_prefix(&url("https://example.com/blog/")).unwrap();
    let mut c = UrlCollection::new();
    c.add_feed_entries(vec![found("https://example.com/blog/a", Some("A"), Some("2026-01-01"), DiscoverySource::Feed)], &prefix);
    c.add_sitemap_entries(vec![found("https://example.com/blog/a?utm_source=x", None, None, DiscoverySource::Sitemap)], &prefix);
    assert_eq!(c.len(), 1);
    let (urls, primary) = c.finish(None, false);
    assert_eq!(urls.len(), 1);
    assert_eq!(urls[0].url.as_str(), "https://example.com/blog/a");
    assert_eq!(urls[0].source, DiscoverySource::Feed);
    assert_eq!(urls[0].title.as_deref(), Some("A"));
    assert_eq!(primary, DiscoverySource::Feed);
}

#[test]
fn collection_ranks_feed_first_and_newest_first() {
    let prefix = normalize_prefix(&url("https://example.com/blog/")).unwrap();
    let mut c = UrlCollection::new();
    c.add_feed_entries(
        vec![
            found("https://example.com/blog/old", None, Some("2025-01-01"), DiscoverySource::Feed),
            found("https://example.com/blog/new", None, Some("2026-01-01"), DiscoverySource::Feed),
        ],
        &prefix,
    );
    c.add_sitemap_entries(vec![found("https://example.com/blog/s", None, None, DiscoverySource::Sitemap)], &prefix);
    c.add_sitemap_entries(vec![found("https://other.com/blog/x", None, None, DiscoverySource::Sitemap)], &prefix);
    let (urls, primary) = c.finish(Some(2), false);
    let hrefs: Vec<String> = urls.iter().map(|d| d.url.as_str()).collect();
    assert_eq!(hrefs, vec!["https://example.com/blog/new", "https://example.com/blog/old"]);
    assert_eq!(primary, DiscoverySource::Feed);
}

#[test]
fn tracking_parameters_are_dropped() {
    use_scrub();
}

fn use_scrub() {
    let mut u = url("https://example.com/a?utm_source=x&b=1&fbclid=z");
    tidy_core::discover::prefix::scrub_tracking_params(&mut u);
    assert_eq!(u.as_str(), "https://example.com/a?b=1");
    let mut only = url("https://example.com/a?utm_medium=m");
    tidy_core::discover::prefix::scrub_tracking_params(&mut only);
    assert_eq!(only.as_str(), "https://example.com/a");
    let mut mixed = url("https://e.com/a?UTM_Campaign=c&q=caf%C3%A9+bar&x=a*b~c#top");
    tidy_core::discover::prefix::scrub_tracking_params(&mut mixed);
    assert_eq!(mixed.as_str(), "https://e.com/a?q=caf%C3%A9+bar&x=a*b%7Ec#top");
    let mut plain = url("https://e.com/a?utm_source=x&id=3");
    tidy_core::discover::prefix::scrub_tracking_params(&mut plain);
    assert_eq!(plain.as_str(), "https://e.com/a?id=3");
    let mut untouched = url("https://e.com/a#frag");
    tidy_core::discover::prefix::scrub_tracking_params(&mut untouched);
    assert_eq!(untouched.as_str(), "https://e.com/a#frag");
}

#[test]
fn inserting_twice_keeps_one_entry() {
    let prefix = normalize_prefix(&url("https://example.com/blog/")).unwrap();
    let mut c = UrlCollection::new();
    let e = || found("https://example.com/blog/a", Some("A"), None, DiscoverySource::Sitemap);
    c.add_sitemap_entries(vec![e(), e()], &prefix);
    assert_eq!(c.len(), 1);
}

#[test]
fn crawl_requests_each_page_once() {
    let prefix = url("https://example.com/blog/");
    let mut state = CrawlState::new(&prefix, tidy_core::discover::types::CrawlLimits::default());
    let (first, depth) = state.next_request().unwrap();
    assert_eq!(first.as_str(), "https://example.com/blog/");
    assert_eq!(depth, 0);
    let body = br#"<a href="/blog/">self</a><a href="/blog/post-one">one</a><a href="/blog/post-one#x">dup</a>"#.to_vec();
    state.on_allowed();
    state.on_page(&first, 0, Some("text/html".to_string()), body);
    let (second, depth) = state.next_request().unwrap();
    assert_eq!(second.as_str(), "https://example.com/blog/post-one");
    assert_eq!(depth, 1);
    state.on_allowed();
    state.on_page(&second, 1, Some("text/html".to_string()), b"<title>One</title>".to_vec());
    assert!(state.next_request().is_none());
    let (found, _warnings) = state.finish();
    assert_eq!(found.len(), 1);
    assert_eq!(found[0].title.as_deref(), Some("One"));
}

#[test]
fn crawl_answers_the_pending_request() {
    let prefix = url("https://example.com/blog/");
    let mut state = CrawlState::new(&prefix, tidy_core::discover::types::CrawlLimits::default());
    let (first, _) = state.next_request().unwrap();
    state.on_allowed();
    let body = br#"<a href="/blog/a">a</a><a href="/blog/b">b</a>"#.to_vec();
    state.on_page(&first, 0, None, body);
    let (a, _) = state.next_request().unwrap();
    state.on_blocked(&a);
    let (b, _) = state.next_request().unwrap();
    state.on_allowed();
    state.on_fetch_error(&b, "timeout");
    assert!(state.next_request().is_none());
    let (found, warnings) = state.finish();
    assert!(found.is_empty());
    assert_eq!(
        warnings,
        vec![
            "robots blocked crawl of https://example.com/blog/a".to_string(),
            "crawl fetch https://example.com/blog/b: timeout".to_string(),
        ]
    );
}

#[test]
fn crawl_entries_go_into_an_empty_collection() {
    let prefix = normalize_prefix(&url("https://example.com/blog/")).unwrap();
    let mut c = UrlCollection::new();
    assert!(crawl_needed(&c));
    c.add_crawled_entries(vec![found("https://example.com/blog/x", None, None, DiscoverySource::Crawl)], &prefix);
    assert_eq!(c.len(), 1);
    assert!(!crawl_needed(&c));
}

fn start(name: &str) -> XmlEvent {
    XmlEvent::Start(name.as_bytes().to_vec())
}

fn end(name: &str) -> XmlEvent {
    XmlEvent::End(name.as_bytes().to_vec())
}

fn text(t: &str) -> XmlEvent {
    XmlEvent::Text(Ok(t.to_string()))
}

fn sitemap_message(r: Result<SitemapBody, TidyError>) -> String {
    match r {
        Err(TidyError::Sitemap { url, message }) => {
            assert_eq!(url, "https://example.com/sitemap.xml");
            message
        }
        _ => panic!("expected a sitemap error"),
    }
}

#[test]
fn sitemap_events_give_urls_in_order() {
    let base = url("https://example.com/sitemap.xml");
    let events = vec![
        start("urlset"),
        start("url"),
        start("loc"),
        text(" /blog/a "),
        end("loc"),
        end("url"),
        start("url"),
        start("{http://www.sitemaps.org/schemas/sitemap/0.9}LOC"),
        text("https://example.com/blog/b?x=1&y=2"),
        end("{http://www.sitemaps.org/schemas/sitemap/0.9}loc"),
        end("url"),
        end("urlset"),
        XmlEvent::Eof,
        start("loc"),
        text("https://example.com/ignored"),
    ];
    match sitemap_from_events(&base, events, None).unwrap() {
        SitemapBody::UrlSet(urls) => {
            let got: Vec<String> = urls.iter().map(|u| u.as_str()).collect();
            assert_eq!(got, vec!["https://example.com/blog/a", "https://example.com/blog/b?x=1&y=2"]);
        }
        SitemapBody::Index(_) => panic!("expected a url set"),
    }
    let index = vec![start("sitemapindex"), start("loc"), text("https://example.com/s1.xml"), end("loc"), XmlEvent::Eof];
    match sitemap_from_events(&base, index, None).unwrap() {
        SitemapBody::Index(urls) => assert_eq!(urls.len(), 1),
        SitemapBody::UrlSet(_) => panic!("expected an index"),
    }
}

#[test]
fn sitemap_events_errors() {
    let base = url("https://example.com/sitemap.xml");
    let bad_text = vec![start("urlset"), start("loc"), XmlEvent::Text(Err("bad text".into())), XmlEvent::Eof];
    assert_eq!(sitemap_message(sitemap_from_events(&base, bad_text, Some("later".into()))), "bad text");
    let outside = vec![start("urlset"), XmlEvent::Text(Err("ignored".into())), end("urlset"), XmlEvent::Eof];
    assert!(matches!(sitemap_from_events(&base, outside, None), Ok(SitemapBody::UrlSet(v)) if v.is_empty()));
    let cut = vec![start("urlset"), start("loc")];
    assert_eq!(sitemap_message(sitemap_from_events(&base, cut, Some("reader failed".into()))), "reader failed");
    let cut = vec![start("urlset")];
    assert_eq!(sitemap_message(sitemap_from_events(&base, cut, None)), "unterminated sitemap document");
    let nothing = vec![start("html"), XmlEvent::Other, XmlEvent::Eof];
    assert_eq!(sitemap_message(sitemap_from_events(&base, nothing, None)), "unrecognized sitemap document");
    let empty_set = vec![start("urlset"), end("urlset"), XmlEvent::Eof];
    assert!(matches!(sitemap_from_events(&base, empty_set, None), Ok(SitemapBody::UrlSet(v)) if v.is_empty()));
}

#[test]
fn feed_step_stops_at_first_feed_with_entries() {
    let prefix = url("https://example.com/blog/");
    let feed = url("https://example.com/blog/feed");
    let mut found = UrlCollection::new();
    match feed_step(&mut found, &prefix, &feed, FeedOutcome::Entries(Vec::new())) {
        FeedStep::Next(w) => assert_eq!(w, "empty feed at https://example.com/blog/feed"),
        FeedStep::Found => panic!("an empty feed does not end the feed step"),
    }
    match feed_step(&mut found, &prefix, &feed, FeedOutcome::ParseFailed("bad".into())) {
        FeedStep::Next(w) => assert_eq!(w, "feed parse https://example.com/blog/feed: bad"),
        FeedStep::Found => panic!("a parse failure does not end the feed step"),
    }
    match feed_step(&mut found, &prefix, &feed, FeedOutcome::FetchFailed("down".into())) {
        FeedStep::Next(w) => assert_eq!(w, "feed fetch https://example.com/blog/feed: down"),
        FeedStep::Found => panic!("a fetch failure does not end the feed step"),
    }
    assert!(crawl_needed(&found));
    let entry = DiscoveredUrl {
        url: url("https://example.com/blog/post?utm_source=x"),
        title: Some("Post".into()),
        published: None,
        source: DiscoverySource::Feed,
    };
    assert!(matches!(feed_step(&mut found, &prefix, &feed, FeedOutcome::Entries(vec![entry])), FeedStep::Found));
    assert_eq!(found.len(), 1);
    assert!(!crawl_needed(&found));
}

#[test]
fn sitemap_body_unescapes_loc_and_reports_bad_entities() {
    let base = url("https://example.com/sitemap.xml");
    let xml = b"<urlset><url><loc>https://example.com/a?x=1&amp;y=2</loc></url></urlset>";
    match parse_sitemap_body(&base, xml).unwrap() {
        SitemapBody::UrlSet(urls) => assert_eq!(urls[0].as_str(), "https://example.com/a?x=1&y=2"),
        SitemapBody::Index(_) => panic!("expected a url set"),
    }
    let bad = b"<urlset><url><loc>https://example.com/&bogus;</loc></url></urlset>";
    assert!(matches!(parse_sitemap_body(&base, bad), Err(TidyError::Sitemap { .. })));
}

#[test]
fn normalizing_twice_changes_nothing() {
    for raw in ["https://example.com/blog", "https://example.com/blog/?page=2#top", "https://example.com", "https://example.com/feed.xml"] {
        let once = normalize_prefix(&url(raw)).unwrap();
        let twice = normalize_prefix(&once).unwrap();
        assert_eq!(once.as_str(), twice.as_str());
        assert!(once.path().last() == Some(&'/') || once.path().contains(&'.'));
    }
}
