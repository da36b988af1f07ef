//! The data model: feeds, entries, and the query parameters (filter and
//! ordering) that clients select entries with.

use vstd::prelude::*;

verus! {

use crate::ids::base64_url_encode;
use crate::ids::base64_url_of;
use crate::text::str_eq;

/// Sort direction for entry queries, by publication time.
#[derive(Clone, Copy, Debug, PartialEq, Eq)]
pub enum Ordering {
    Ascending,
    Descending,
}

impl Ordering {
    /// Lenient parse: `"DESC"` selects descending order; anything else,
    /// `"ASC"` included, defaults to ascending. Unknown input is never an
    /// error.
    pub fn from_str(s: &str) -> (o: Ordering)
        ensures
            o is Descending <==> s@ == "DESC"@,
    {
        if str_eq(s, "DESC") {
            Ordering::Descending
        } else {
            Ordering::Ascending
        }
    }
}

/// Which entries a query returns: all of them, only unread ones, or only
/// starred ones.
#[derive(Clone, Copy, Debug, PartialEq, Eq)]
pub enum EntryFilter {
    Unread,
    Starred,
    All,
}

impl EntryFilter {
    /// Lenient parse: `"unread"` and `"starred"` select those filters;
    /// anything else defaults to returning all entries. Unknown input is
    /// never an error.
    pub fn from_str(s: &str) -> (f: EntryFilter)
        ensures
            f is Unread <==> s@ == "unread"@,
            f is Starred <==> s@ == "starred"@,
    {
        proof {
            reveal_strlit("unread");
            reveal_strlit("starred");
            assert("unread"@.len() == 6);
            assert("starred"@.len() == 7);
        }
        if str_eq(s, "unread") {
            EntryFilter::Unread
        } else if str_eq(s, "starred") {
            EntryFilter::Starred
        } else {
            EntryFilter::All
        }
    }
}

/// A subscribed syndication source, with the status of its last fetch.
#[derive(Debug, PartialEq)]
pub struct Feed {
    pub id: String,
    pub name: String,
    pub site_url: String,
    pub feed_url: String,
    pub last_fetched: Option<i64>,
    pub fetch_error: Option<String>,
    pub category: String,
}

/// The mathematical value of a [`Feed`]: its strings as character sequences
/// and its optional fetch timestamp as an unbounded integer.
pub struct FeedView {
    pub id: Seq<char>,
    pub name: Seq<char>,
    pub site_url: Seq<char>,
    pub feed_url: Seq<char>,
    pub last_fetched: Option<int>,
    pub fetch_error: Option<Seq<char>>,
    pub category: Seq<char>,
}

impl View for Feed {
    type V = FeedView;

    open spec fn view(&self) -> FeedView {
        FeedView {
            id: self.id@,
            name: self.name@,
            site_url: self.site_url@,
            feed_url: self.feed_url@,
            last_fetched: match self.last_fetched {
                Some(t) => Some(t as int),
                None => None,
            },
            fetch_error: match self.fetch_error {
                Some(ref e) => Some(e@),
                None => None,
            },
            category: self.category@,
        }
    }
}

impl Clone for Feed {
    fn clone(&self) -> (r: Self)
        ensures
            r@ == self@,
    {
        Feed {
            id: self.id.clone(),
            name: self.name.clone(),
            site_url: self.site_url.clone(),
            feed_url: self.feed_url.clone(),
            last_fetched: self.last_fetched,
            fetch_error: match self.fetch_error {
                Some(ref e) => Some(e.clone()),
                None => None,
            },
            category: self.category.clone(),
        }
    }
}

impl Feed {
    /// A freshly added feed: its id is derived from the feed URL, and it has
    /// not been fetched yet.
    pub fn new(name: String, site_url: String, feed_url: String, category: String) -> (f: Feed)
        ensures
            f@.id == base64_url_of(feed_url@),
            f@.name == name@,
            f@.site_url == site_url@,
            f@.feed_url == feed_url@,
            f@.category == category@,
            f@.last_fetched is None,
            f@.fetch_error is None,
    {
        let id = base64_url_encode(feed_url.as_str());
        Feed { id, name, site_url, feed_url, last_fetched: None, fetch_error: None, category }
    }
}

/// One syndicated item ingested from a feed. Absent links are the empty
/// string; the publication time is absent when the upstream item carried
/// neither a published nor an updated time.
#[derive(Debug, PartialEq)]
pub struct Entry {
    pub id: String,
    pub title: String,
    pub content_link: String,
    pub comments_link: String,
    pub robust_link: String,
    pub published: Option<i64>,
    pub read: bool,
    pub starred: bool,
    pub feed: String,
}

/// The mathematical value of an [`Entry`].
pub struct EntryView {
    pub id: Seq<char>,
    pub title: Seq<char>,
    pub content_link: Seq<char>,
    pub comments_link: Seq<char>,
    pub robust_link: Seq<char>,
    pub published: Option<int>,
    pub read: bool,
    pub starred: bool,
    pub feed: Seq<char>,
}

impl View for Entry {
    type V = EntryView;

    open spec fn view(&self) -> EntryView {
        EntryView {
            id: self.id@,
            title: self.title@,
            content_link: self.content_link@,
            comments_link: self.comments_link@,
            robust_link: self.robust_link@,
            published: match self.published {
                Some(t) => Some(t as int),
                None => None,
            },
            read: self.read,
            starred: self.starred,
            feed: self.feed@,
        }
    }
}

impl Clone for Entry {
    fn clone(&self) -> (r: Self)
        ensures
            r@ == self@,
    {
        Entry {
            id: self.id.clone(),
            title: self.title.clone(),
            content_link: self.content_link.clone(),
            comments_link: self.comments_link.clone(),
            robust_link: self.robust_link.clone(),
            published: self.published,
            read: self.read,
            starred: self.starred,
            feed: self.feed.clone(),
        }
    }
}

impl Entry {
    /// A freshly normalized entry: its id is derived from the upstream item's
    /// native id, it is neither read nor starred, and it is not yet tagged
    /// with an owning feed.
    pub fn new(
        id: &str,
        title: String,
        content_link: String,
        comments_link: String,
        published: Option<i64>,
    ) -> (e: Entry)
        ensures
            e@.id == base64_url_of(id@),
            e@.title == title@,
            e@.content_link == content_link@,
            e@.comments_link == comments_link@,
            e@.robust_link == Seq::<char>::empty(),
            e@.published == match published {
                Some(t) => Some(t as int),
                None => None::<int>,
            },
            e@.read == false,
            e@.starred == false,
            e@.feed == Seq::<char>::empty(),
    {
        Entry {
            id: base64_url_encode(id),
            title,
            content_link,
            comments_link,
            robust_link: String::new(),
            published,
            read: false,
            starred: false,
            feed: String::new(),
        }
    }
}

/// Renders an optional value for display: the value itself when present, the
/// empty string when absent.
pub fn display_some(value: &Option<String>) -> (r: String)
    ensures
        r@ == match value {
            Some(v) => v@,
            None => Seq::<char>::empty(),
        },
{
    match value {
        Some(v) => v.clone(),
        None => String::new(),
    }
}

} // verus!
