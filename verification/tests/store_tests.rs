use feedreader::model::{display_some, Entry, EntryFilter, Feed, Ordering};
use feedreader::store::DB;

fn entry(upstream_id: &str, title: &str, published: Option<i64>) -> Entry {
    Entry::new(
        upstream_id,
        title.to_string(),
        String::new(),
        String::new(),
        published,
    )
}

#[test]
fn addfeedform_toform() {
    let feed = Feed::new(
        "Martin Fowler".to_string(),
        "https://martinfowler.com".to_string(),
        "https://martinfowler.com/feed.atom".to_string(),
        "tech".to_string(),
    );

    assert_eq!(feed.name, "Martin Fowler");
    assert_eq!(feed.feed_url, "https://martinfowler.com/feed.atom");
}

#[test]
fn feed_id_is_derived_from_url() {
    let feed = Feed::new(
        "n".to_string(),
        "s".to_string(),
        "abc".to_string(),
        "c".to_string(),
    );
    // URL-safe base64 of "abc", not the URL itself
    assert_eq!(feed.id, "YWJj");
    assert_ne!(feed.id, "abc");
    assert!(feed.last_fetched.is_none());
    assert!(feed.fetch_error.is_none());
}

#[test]
fn entry_id_is_derived_from_upstream_id() {
    let e = entry("abc", "t", None);
    assert_eq!(e.id, "YWJj");
    assert_ne!(e.id, "abc");
    assert!(!e.read);
    assert!(!e.starred);
    assert_eq!(e.feed, "");
    assert_eq!(e.robust_link, "");
}

#[test]
fn add_feeds_same_url_overwrites_metadata() {
    let mut db = DB::new();
    let first = Feed::new(
        "Old Name".to_string(),
        "https://a.example".to_string(),
        "https://a.example/rss".to_string(),
        "old".to_string(),
    );
    let second = Feed::new(
        "New Name".to_string(),
        "https://a.example".to_string(),
        "https://a.example/rss".to_string(),
        "new".to_string(),
    );
    db.add_feeds(vec![first]);
    db.add_feeds(vec![second]);

    let feeds = db.get_feeds();
    assert_eq!(feeds.len(), 1);
    assert_eq!(feeds[0].name, "New Name");
    assert_eq!(feeds[0].category, "new");
}

#[test]
fn add_entries_same_upstream_id_is_ignored() {
    let mut db = DB::new();
    db.add_entries(vec![entry("abc", "first title", Some(10))]);

    // flip the stored entry's read flag so we can see that a re-ingest
    // leaves it alone
    let stored_id = db.get_entries(EntryFilter::All, Ordering::Ascending)[0]
        .id
        .clone();
    db.mark_entry_read(stored_id, EntryFilter::All, Ordering::Ascending);

    db.add_entries(vec![entry("abc", "second title", Some(20))]);

    let entries = db.get_entries(EntryFilter::All, Ordering::Ascending);
    assert_eq!(entries.len(), 1);
    assert_eq!(entries[0].title, "first title");
    assert_eq!(entries[0].published, Some(10));
    assert!(entries[0].read, "second ingest must not reset the read flag");
}

#[test]
fn filter_correctness() {
    let mut db = DB::new();
    db.add_entries(vec![
        entry("one", "read one", Some(1)),
        entry("two", "unread one", Some(2)),
        entry("three", "starred one", Some(3)),
    ]);
    let read_id = "b25l".to_string(); // base64 of "one"
    let starred_id = "dGhyZWU=".to_string(); // base64 of "three"
    db.mark_entry_read(read_id, EntryFilter::All, Ordering::Ascending);
    db.mark_entry_starred(starred_id, EntryFilter::All, Ordering::Ascending);

    let unread = db.get_entries(EntryFilter::Unread, Ordering::Ascending);
    let titles: Vec<&str> = unread.iter().map(|e| e.title.as_str()).collect();
    assert_eq!(titles, vec!["unread one", "starred one"]);

    let starred = db.get_entries(EntryFilter::Starred, Ordering::Ascending);
    assert_eq!(starred.len(), 1);
    assert_eq!(starred[0].title, "starred one");

    let all = db.get_entries(EntryFilter::All, Ordering::Ascending);
    assert_eq!(all.len(), 3);
}

#[test]
fn ordering_correctness() {
    let mut db = DB::new();
    db.add_entries(vec![
        entry("b", "middle", Some(200)),
        entry("a", "oldest", Some(100)),
        entry("c", "newest", Some(300)),
    ]);

    let asc = db.get_entries(EntryFilter::All, Ordering::Ascending);
    let titles: Vec<&str> = asc.iter().map(|e| e.title.as_str()).collect();
    assert_eq!(titles, vec!["oldest", "middle", "newest"]);

    let desc = db.get_entries(EntryFilter::All, Ordering::Descending);
    let titles: Vec<&str> = desc.iter().map(|e| e.title.as_str()).collect();
    assert_eq!(titles, vec!["newest", "middle", "oldest"]);
}

#[test]
fn absent_published_sorts_first_ascending_last_descending() {
    let mut db = DB::new();
    db.add_entries(vec![
        entry("a", "dated", Some(100)),
        entry("b", "undated", None),
    ]);

    let asc = db.get_entries(EntryFilter::All, Ordering::Ascending);
    assert_eq!(asc[0].title, "undated");
    assert_eq!(asc[1].title, "dated");

    let desc = db.get_entries(EntryFilter::All, Ordering::Descending);
    assert_eq!(desc[0].title, "dated");
    assert_eq!(desc[1].title, "undated");
}

#[test]
fn mark_entry_read_toggles_not_sets() {
    let mut db = DB::new();
    db.add_entries(vec![entry("abc", "t", None)]);
    let id = "YWJj".to_string();

    db.mark_entry_read(id.clone(), EntryFilter::All, Ordering::Ascending);
    assert!(db.get_entries(EntryFilter::All, Ordering::Ascending)[0].read);

    db.mark_entry_read(id, EntryFilter::All, Ordering::Ascending);
    assert!(!db.get_entries(EntryFilter::All, Ordering::Ascending)[0].read);
}

#[test]
fn mark_entry_starred_toggles_not_sets() {
    let mut db = DB::new();
    db.add_entries(vec![entry("abc", "t", None)]);
    let id = "YWJj".to_string();

    db.mark_entry_starred(id.clone(), EntryFilter::All, Ordering::Ascending);
    assert!(db.get_entries(EntryFilter::All, Ordering::Ascending)[0].starred);

    db.mark_entry_starred(id, EntryFilter::All, Ordering::Ascending);
    assert!(!db.get_entries(EntryFilter::All, Ordering::Ascending)[0].starred);
}

#[test]
fn mark_entry_with_unknown_id_is_a_no_op_and_still_queries() {
    let mut db = DB::new();
    db.add_entries(vec![entry("abc", "t", None)]);

    let returned = db.mark_entry_read(
        "no such id".to_string(),
        EntryFilter::All,
        Ordering::Ascending,
    );
    assert_eq!(returned.len(), 1);
    assert!(!returned[0].read);
}

#[test]
fn get_unread_and_starred_match_their_filters() {
    let mut db = DB::new();
    db.add_entries(vec![
        entry("a", "plain", Some(1)),
        entry("b", "shiny", Some(2)),
    ]);
    db.mark_entry_starred("Yg==".to_string(), EntryFilter::All, Ordering::Ascending); // "b"

    let unread = db.get_unread_entries();
    assert_eq!(unread.len(), 2);
    assert_eq!(unread[0].title, "plain");

    let starred = db.get_starred_entries();
    assert_eq!(starred.len(), 1);
    assert_eq!(starred[0].title, "shiny");
}

#[test]
fn remove_feed_keeps_other_feeds_and_all_entries() {
    let mut db = DB::new();
    let keep = Feed::new(
        "Keep".to_string(),
        "https://keep.example".to_string(),
        "https://keep.example/rss".to_string(),
        "c".to_string(),
    );
    let gone = Feed::new(
        "Gone".to_string(),
        "https://gone.example".to_string(),
        "https://gone.example/rss".to_string(),
        "c".to_string(),
    );
    let gone_id = gone.id.clone();
    db.add_feeds(vec![keep, gone]);

    let mut tagged = entry("abc", "orphan", None);
    tagged.feed = "Gone".to_string();
    db.add_entries(vec![tagged]);

    db.remove_feed(gone_id.clone());

    let feeds = db.get_feeds();
    assert_eq!(feeds.len(), 1);
    assert!(feeds.iter().all(|f| f.id != gone_id));

    let entries = db.get_entries(EntryFilter::All, Ordering::Ascending);
    assert_eq!(entries.len(), 1);
    assert_eq!(entries[0].feed, "Gone");
}

#[test]
fn update_feed_status_records_error_and_time() {
    let mut db = DB::new();
    let feed = Feed::new(
        "N".to_string(),
        "https://a.example".to_string(),
        "https://a.example/rss".to_string(),
        "c".to_string(),
    );
    let id = feed.id.clone();
    db.add_feeds(vec![feed]);

    db.update_feed_status(id.clone(), Some("boom".to_string()));
    let feeds = db.get_feeds();
    assert_eq!(feeds[0].fetch_error.as_deref(), Some("boom"));
    assert!(feeds[0].last_fetched.is_some());

    db.update_feed_status(id, None);
    let feeds = db.get_feeds();
    assert!(feeds[0].fetch_error.is_none());
    assert!(feeds[0].last_fetched.is_some());
}

#[test]
fn update_feed_status_with_unknown_id_changes_nothing() {
    let mut db = DB::new();
    let feed = Feed::new(
        "N".to_string(),
        "https://a.example".to_string(),
        "https://a.example/rss".to_string(),
        "c".to_string(),
    );
    db.add_feeds(vec![feed]);

    db.update_feed_status("unknown".to_string(), Some("boom".to_string()));
    let feeds = db.get_feeds();
    assert_eq!(feeds.len(), 1);
    assert!(feeds[0].fetch_error.is_none());
    assert!(feeds[0].last_fetched.is_none());
}

#[test]
fn empty_batches_change_nothing() {
    let mut db = DB::new();
    db.add_feeds(vec![]);
    db.add_entries(vec![]);
    assert!(db.get_feeds().is_empty());
    assert!(db.get_entries(EntryFilter::All, Ordering::Ascending).is_empty());
}

#[test]
fn entries_with_equal_published_times_are_all_returned() {
    let mut db = DB::new();
    db.add_entries(vec![
        entry("a", "tied one", Some(100)),
        entry("b", "tied two", Some(100)),
    ]);
    let all = db.get_entries(EntryFilter::All, Ordering::Ascending);
    assert_eq!(all.len(), 2);
    let mut titles: Vec<&str> = all.iter().map(|e| e.title.as_str()).collect();
    titles.sort();
    assert_eq!(titles, vec!["tied one", "tied two"]);
}

#[test]
fn ordering_from_str_is_lenient() {
    assert_eq!(Ordering::from_str("ASC"), Ordering::Ascending);
    assert_eq!(Ordering::from_str("DESC"), Ordering::Descending);
    assert_eq!(Ordering::from_str("sideways"), Ordering::Ascending);
    assert_eq!(Ordering::from_str(""), Ordering::Ascending);
}

#[test]
fn entry_filter_from_str_is_lenient() {
    assert_eq!(EntryFilter::from_str("unread"), EntryFilter::Unread);
    assert_eq!(EntryFilter::from_str("starred"), EntryFilter::Starred);
    assert_eq!(EntryFilter::from_str("everything"), EntryFilter::All);
    assert_eq!(EntryFilter::from_str(""), EntryFilter::All);
}

#[test]
fn display_some_shows_value_or_nothing() {
    assert_eq!(display_some(&Some("hello".to_string())), "hello");
    assert_eq!(display_some(&None), "");
}
