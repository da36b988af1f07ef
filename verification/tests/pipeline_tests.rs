use feedreader::model::{EntryFilter, Feed, Ordering};
use feedreader::refresh::{apply_feed_outcome, FetchFailure, FetchOutcome};
use feedreader::source::{normalize, RawEntry};
use feedreader::store::DB;
use feedreader::text::first_href;

/// Parses a document the way the shell around the library does before it
/// hands the result to the verified refresh logic.
fn parse_document(bytes: &[u8]) -> Option<Vec<RawEntry>> {
    let feed = feed_rs::parser::parse(bytes).ok()?;
    Some(
        feed.entries
            .into_iter()
            .map(|e| RawEntry {
                id: e.id,
                title: e.title.map(|t| t.content),
                links: e.links.into_iter().map(|l| l.href).collect(),
                summary: e.summary.map(|s| s.content),
                published: e.published.map(|d| d.timestamp()),
                updated: e.updated.map(|d| d.timestamp()),
            })
            .collect(),
    )
}

fn rss_with_one_item(title: &str, guid: &str, description: &str) -> Vec<u8> {
    format!(
        "<rss version=\"2.0\"><channel>\
         <title>Example</title>\
         <link>https://example.com</link>\
         <description>d</description>\
         <item>\
         <title>{}</title>\
         <link>https://example.com/post</link>\
         <guid>{}</guid>\
         <description>{}</description>\
         </item>\
         </channel></rss>",
        title, guid, description
    )
    .into_bytes()
}

fn raw(upstream_id: &str) -> RawEntry {
    RawEntry {
        id: upstream_id.to_string(),
        title: None,
        links: Vec::new(),
        summary: None,
        published: None,
        updated: None,
    }
}

#[test]
fn end_to_end_one_refresh_stores_the_entry() {
    let mut db = DB::new();
    let feed = Feed::new(
        "Example".to_string(),
        "https://example.com".to_string(),
        "https://example.com/rss".to_string(),
        "tech".to_string(),
    );
    let feed_id = feed.id.clone();
    let feed_name = feed.name.clone();
    db.add_feeds(vec![feed]);

    let body = rss_with_one_item("Cool Post", "abc", "nothing here");
    let n = apply_feed_outcome(
        &mut db,
        &feed_id,
        &feed_name,
        FetchOutcome::Document(parse_document(&body)),
    );
    assert_eq!(n, 1);

    let entries = db.get_entries(EntryFilter::All, Ordering::Ascending);
    assert_eq!(entries.len(), 1);
    assert_eq!(entries[0].title, "Cool Post");
    assert_ne!(entries[0].id, "abc", "the id must be derived, not the raw upstream id");
    assert_eq!(entries[0].id, "YWJj");
    assert_eq!(entries[0].feed, "Example");
    assert_eq!(entries[0].content_link, "https://example.com/post");

    let feeds = db.get_feeds();
    assert!(feeds[0].fetch_error.is_none());
    assert!(feeds[0].last_fetched.is_some());
}

#[test]
fn per_feed_isolation_on_refresh() {
    let mut db = DB::new();
    let failing = Feed::new(
        "Failing".to_string(),
        "https://bad.example".to_string(),
        "https://bad.example/rss".to_string(),
        "c".to_string(),
    );
    let healthy = Feed::new(
        "Healthy".to_string(),
        "https://good.example".to_string(),
        "https://good.example/rss".to_string(),
        "c".to_string(),
    );
    let failing_id = failing.id.clone();
    let healthy_id = healthy.id.clone();
    db.add_feeds(vec![failing, healthy]);

    let n = apply_feed_outcome(
        &mut db,
        &failing_id,
        &"Failing".to_string(),
        FetchOutcome::Failed(FetchFailure::Network),
    );
    assert_eq!(n, 0);

    let body = rss_with_one_item("Survivor", "xyz", "d");
    let n = apply_feed_outcome(
        &mut db,
        &healthy_id,
        &"Healthy".to_string(),
        FetchOutcome::Document(parse_document(&body)),
    );
    assert_eq!(n, 1);

    let feeds = db.get_feeds();
    let failed = feeds.iter().find(|f| f.id == failing_id).unwrap();
    let ok = feeds.iter().find(|f| f.id == healthy_id).unwrap();
    assert_eq!(failed.fetch_error.as_deref(), Some("couldn't get response"));
    assert!(ok.fetch_error.is_none());

    let entries = db.get_entries(EntryFilter::All, Ordering::Ascending);
    assert_eq!(entries.len(), 1);
    assert_eq!(entries[0].title, "Survivor");
    assert_eq!(entries[0].feed, "Healthy");
}

#[test]
fn http_and_body_failures_record_their_messages() {
    let mut db = DB::new();
    let feed = Feed::new(
        "N".to_string(),
        "https://a.example".to_string(),
        "https://a.example/rss".to_string(),
        "c".to_string(),
    );
    let id = feed.id.clone();
    db.add_feeds(vec![feed]);

    apply_feed_outcome(
        &mut db,
        &id,
        &"N".to_string(),
        FetchOutcome::Failed(FetchFailure::HttpStatus),
    );
    assert_eq!(
        db.get_feeds()[0].fetch_error.as_deref(),
        Some("response code not ok")
    );

    apply_feed_outcome(
        &mut db,
        &id,
        &"N".to_string(),
        FetchOutcome::Failed(FetchFailure::Body),
    );
    assert_eq!(
        db.get_feeds()[0].fetch_error.as_deref(),
        Some("couldn't get bytes")
    );
}

#[test]
fn malformed_document_records_parse_failure() {
    let mut db = DB::new();
    let feed = Feed::new(
        "N".to_string(),
        "https://a.example".to_string(),
        "https://a.example/rss".to_string(),
        "c".to_string(),
    );
    let id = feed.id.clone();
    db.add_feeds(vec![feed]);

    let n = apply_feed_outcome(
        &mut db,
        &id,
        &"N".to_string(),
        FetchOutcome::Document(parse_document(b"this is not a feed")),
    );
    assert_eq!(n, 0);
    assert_eq!(
        db.get_feeds()[0].fetch_error.as_deref(),
        Some("couldn't parse feed")
    );
    assert!(db.get_entries(EntryFilter::All, Ordering::Ascending).is_empty());
}

#[test]
fn refresh_is_idempotent_across_cycles() {
    let mut db = DB::new();
    let feed = Feed::new(
        "Example".to_string(),
        "https://example.com".to_string(),
        "https://example.com/rss".to_string(),
        "c".to_string(),
    );
    let id = feed.id.clone();
    db.add_feeds(vec![feed]);

    let body = rss_with_one_item("Cool Post", "abc", "d");
    apply_feed_outcome(
        &mut db,
        &id,
        &"Example".to_string(),
        FetchOutcome::Document(parse_document(&body)),
    );
    // mark it read, then fetch the same document again
    db.mark_entry_read("YWJj".to_string(), EntryFilter::All, Ordering::Ascending);
    apply_feed_outcome(
        &mut db,
        &id,
        &"Example".to_string(),
        FetchOutcome::Document(parse_document(&body)),
    );

    let entries = db.get_entries(EntryFilter::All, Ordering::Ascending);
    assert_eq!(entries.len(), 1);
    assert!(entries[0].read, "a re-fetch must not reset the read flag");
}

#[test]
fn comments_link_is_scanned_from_summary_html() {
    let mut db = DB::new();
    let feed = Feed::new(
        "Example".to_string(),
        "https://example.com".to_string(),
        "https://example.com/rss".to_string(),
        "c".to_string(),
    );
    let id = feed.id.clone();
    db.add_feeds(vec![feed]);

    let body = rss_with_one_item(
        "With Comments",
        "abc",
        "read &lt;a href=\"https://example.com/comments\"&gt;the comments&lt;/a&gt;",
    );
    apply_feed_outcome(
        &mut db,
        &id,
        &"Example".to_string(),
        FetchOutcome::Document(parse_document(&body)),
    );

    let entries = db.get_entries(EntryFilter::All, Ordering::Ascending);
    assert_eq!(entries[0].comments_link, "https://example.com/comments");
}

#[test]
fn first_href_takes_the_first_terminated_value() {
    assert_eq!(
        first_href("<a href=\"https://x.example/a\">x</a> <a href=\"https://x.example/b\">y</a>"),
        "https://x.example/a"
    );
    assert_eq!(first_href("no links at all"), "");
    assert_eq!(first_href(""), "");
    assert_eq!(first_href("broken href=\"unterminated"), "");
    assert_eq!(first_href("href=\"\""), "");
}

#[test]
fn normalize_defaults_absent_fields_to_empty() {
    let e = normalize(&raw("abc"), &"My Feed".to_string());
    assert_eq!(e.id, "YWJj");
    assert_eq!(e.title, "");
    assert_eq!(e.content_link, "");
    assert_eq!(e.comments_link, "");
    assert_eq!(e.published, None);
    assert!(!e.read);
    assert!(!e.starred);
    assert_eq!(e.feed, "My Feed");
}

#[test]
fn normalize_prefers_published_and_falls_back_to_updated() {
    let mut r = raw("abc");
    r.published = Some(100);
    r.updated = Some(200);
    assert_eq!(normalize(&r, &"f".to_string()).published, Some(100));

    let mut r = raw("abc");
    r.updated = Some(200);
    assert_eq!(normalize(&r, &"f".to_string()).published, Some(200));
}

#[test]
fn normalize_takes_the_first_link_and_scans_the_summary() {
    let mut r = raw("abc");
    r.title = Some("A Title".to_string());
    r.links = vec![
        "https://first.example".to_string(),
        "https://second.example".to_string(),
    ];
    r.summary = Some("<p><a href=\"https://c.example\">c</a></p>".to_string());
    let e = normalize(&r, &"f".to_string());
    assert_eq!(e.title, "A Title");
    assert_eq!(e.content_link, "https://first.example");
    assert_eq!(e.comments_link, "https://c.example");
}
