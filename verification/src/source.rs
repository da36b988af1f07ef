//! The entry normalizer, and the raw-entry values it consumes.
//!
//! The shell around the library parses a fetched document with an outside
//! feed parser and hands in raw entries: plain values holding exactly what
//! normalization reads. (The parse itself cannot stand behind a trusted item
//! here: the library's functions must not panic, and the outside parser can
//! panic on hostile numeric fields deep inside a document, on inputs no
//! precondition could describe.) Normalization into the canonical [`Entry`]
//! is verified here, for every raw entry the parser could ever deliver.

use vstd::prelude::*;

verus! {

use crate::ids::base64_url_of;
use crate::model::Entry;
use crate::model::EntryView;
use crate::text::first_href;
use crate::text::first_href_value;

/// One entry as the feed parser delivered it, before normalization: the
/// upstream id, the optional title and summary, the link list, and the
/// optional published and updated times as seconds since the Unix epoch.
#[derive(Debug)]
pub struct RawEntry {
    pub id: String,
    pub title: Option<String>,
    pub links: Vec<String>,
    pub summary: Option<String>,
    pub published: Option<i64>,
    pub updated: Option<i64>,
}

/// The mathematical value of a [`RawEntry`].
pub struct RawEntryView {
    pub id: Seq<char>,
    pub title: Option<Seq<char>>,
    pub links: Seq<Seq<char>>,
    pub summary: Option<Seq<char>>,
    pub published: Option<int>,
    pub updated: Option<int>,
}

impl View for RawEntry {
    type V = RawEntryView;

    open spec fn view(&self) -> RawEntryView {
        RawEntryView {
            id: self.id@,
            title: match self.title {
                Some(ref t) => Some(t@),
                None => None,
            },
            links: self.links.deep_view(),
            summary: match self.summary {
                Some(ref s) => Some(s@),
                None => None,
            },
            published: match self.published {
                Some(t) => Some(t as int),
                None => None,
            },
            updated: match self.updated {
                Some(t) => Some(t as int),
                None => None,
            },
        }
    }
}

/// What normalization makes of a raw entry: the id is re-derived from the
/// upstream id, the title and first link default to empty, the comments link
/// is the first `href="..."` value in the summary, the publication time
/// falls back from published to updated, and the flags start cleared.
pub open spec fn normalized_entry(raw: RawEntryView, feed_name: Seq<char>) -> EntryView {
    EntryView {
        id: base64_url_of(raw.id),
        title: match raw.title {
            Some(t) => t,
            None => Seq::empty(),
        },
        content_link: if raw.links.len() > 0 {
            raw.links[0]
        } else {
            Seq::empty()
        },
        comments_link: match raw.summary {
            Some(s) => first_href_value(s),
            None => Seq::empty(),
        },
        robust_link: Seq::empty(),
        published: if raw.published is Some {
            raw.published
        } else {
            raw.updated
        },
        read: false,
        starred: false,
        feed: feed_name,
    }
}

/// The mathematical values of a sequence of raw entries.
pub open spec fn raw_views(v: Seq<RawEntry>) -> Seq<RawEntryView> {
    v.map_values(|r: RawEntry| r@)
}

/// The normalization of a whole batch of raw entries for one feed.
pub open spec fn normalized_views(rs: Seq<RawEntryView>, feed_name: Seq<char>) -> Seq<EntryView> {
    rs.map_values(|r: RawEntryView| normalized_entry(r, feed_name))
}

/// Converts a raw parsed entry into the canonical [`Entry`], owned by the
/// feed of the given display name.
pub fn normalize(raw: &RawEntry, feed_name: &String) -> (e: Entry)
    ensures
        e@ == normalized_entry(raw@, feed_name@),
{
    let title = match &raw.title {
        Some(t) => t.clone(),
        None => String::new(),
    };
    let content_link = if raw.links.len() > 0 {
        raw.links[0].clone()
    } else {
        String::new()
    };
    let comments_link = match &raw.summary {
        Some(s) => first_href(s.as_str()),
        None => String::new(),
    };
    let published = if raw.published.is_some() {
        raw.published
    } else {
        raw.updated
    };
    let mut e = Entry::new(raw.id.as_str(), title, content_link, comments_link, published);
    e.feed = feed_name.clone();
    e
}

} // verus!
