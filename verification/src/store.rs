//! The store: feeds and entries, with exact upsert, dedup, status and query
//! semantics.
//!
//! The store owns its data outright and serializes access through ordinary
//! ownership; a caller that shares it between tasks wraps it in a lock, so
//! concurrent callers never observe a partial batch. Feeds are keyed by id
//! (insert or replace); entries are keyed by id (insert or ignore, so the
//! first write of an item wins and its read/starred state is never
//! overwritten by a later fetch).

use vstd::prelude::*;

verus! {

use crate::clock::now_timestamp;
use crate::model::Entry;
use crate::model::EntryFilter;
use crate::model::EntryView;
use crate::model::Feed;
use crate::model::FeedView;
use crate::model::Ordering;
use crate::text::str_eq;
use vstd::seq_lib::to_multiset_build;
use vstd::seq_lib::to_multiset_insert;

/// The mathematical values of a sequence of feeds.
pub open spec fn views_of_feeds(v: Seq<Feed>) -> Seq<FeedView> {
    v.map_values(|f: Feed| f@)
}

/// The mathematical values of a sequence of entries.
pub open spec fn views_of_entries(v: Seq<Entry>) -> Seq<EntryView> {
    v.map_values(|e: Entry| e@)
}

/// Whether some feed in the sequence bears the given id.
pub open spec fn feed_id_taken(feeds: Seq<FeedView>, id: Seq<char>) -> bool {
    exists|i: int| 0 <= i < feeds.len() && feeds[i].id == id
}

/// The index of the feed bearing the given id (meaningful when ids are
/// unique and the id is taken).
pub open spec fn feed_index_of(feeds: Seq<FeedView>, id: Seq<char>) -> int {
    choose|i: int| 0 <= i < feeds.len() && feeds[i].id == id
}

/// No two feeds share an id.
pub open spec fn unique_feed_ids(feeds: Seq<FeedView>) -> bool {
    forall|i: int, j: int| 0 <= i < j < feeds.len() ==> feeds[i].id != feeds[j].id
}

/// Whether some entry in the sequence bears the given id.
pub open spec fn entry_id_taken(entries: Seq<EntryView>, id: Seq<char>) -> bool {
    exists|i: int| 0 <= i < entries.len() && entries[i].id == id
}

/// No two entries share an id.
pub open spec fn unique_entry_ids(entries: Seq<EntryView>) -> bool {
    forall|i: int, j: int| 0 <= i < j < entries.len() ==> entries[i].id != entries[j].id
}

/// Insert-or-replace of one feed, keyed by id: a feed with the same id is
/// replaced in place, any other feed is appended.
pub open spec fn upsert_feed(feeds: Seq<FeedView>, f: FeedView) -> Seq<FeedView> {
    if feed_id_taken(feeds, f.id) {
        feeds.update(feed_index_of(feeds, f.id), f)
    } else {
        feeds.push(f)
    }
}

/// One batch of feed upserts, applied left to right.
pub open spec fn upsert_feeds(feeds: Seq<FeedView>, fs: Seq<FeedView>) -> Seq<FeedView>
    decreases fs.len(),
{
    if fs.len() == 0 {
        feeds
    } else {
        upsert_feeds(upsert_feed(feeds, fs[0]), fs.drop_first())
    }
}

/// Folding one more feed onto a batch upserts it after the batch.
proof fn lemma_upsert_feeds_push(feeds: Seq<FeedView>, fs: Seq<FeedView>, f: FeedView)
    ensures
        upsert_feeds(feeds, fs.push(f)) == upsert_feed(upsert_feeds(feeds, fs), f),
    decreases fs.len(),
{
    if fs.len() == 0 {
        assert(fs.push(f)[0] == f);
        assert(fs.push(f).drop_first() =~= Seq::<FeedView>::empty());
        assert(upsert_feeds(upsert_feed(feeds, f), Seq::<FeedView>::empty()) == upsert_feed(
            feeds,
            f,
        ));
        assert(upsert_feeds(feeds, fs) == feeds);
    } else {
        assert(fs.push(f)[0] == fs[0]);
        assert(fs.push(f).drop_first() =~= fs.drop_first().push(f));
        lemma_upsert_feeds_push(upsert_feed(feeds, fs[0]), fs.drop_first(), f);
    }
}

/// The feeds with the given id removed (and the others kept in order).
pub open spec fn remove_feed_by_id(feeds: Seq<FeedView>, id: Seq<char>) -> Seq<FeedView> {
    feeds.filter(|f: FeedView| f.id != id)
}

/// The feeds with the fetch status of the feed bearing the given id set: its
/// error message replaced and its last-fetched time refreshed. Feeds with
/// other ids are untouched; an unknown id changes nothing.
pub open spec fn set_feed_status(
    feeds: Seq<FeedView>,
    id: Seq<char>,
    err: Option<Seq<char>>,
    ts: int,
) -> Seq<FeedView> {
    Seq::new(
        feeds.len(),
        |i: int|
            if feeds[i].id == id {
                (FeedView { last_fetched: Some(ts), fetch_error: err, ..feeds[i] })
            } else {
                feeds[i]
            },
    )
}

/// Insert-or-ignore of one entry, keyed by id: an entry whose id is already
/// present is dropped, so the stored row (and its read/starred state) stays
/// as it is.
pub open spec fn insert_entry(entries: Seq<EntryView>, e: EntryView) -> Seq<EntryView> {
    if entry_id_taken(entries, e.id) {
        entries
    } else {
        entries.push(e)
    }
}

/// One batch of entry inserts, applied left to right.
pub open spec fn insert_entries(entries: Seq<EntryView>, es: Seq<EntryView>) -> Seq<EntryView>
    decreases es.len(),
{
    if es.len() == 0 {
        entries
    } else {
        insert_entries(insert_entry(entries, es[0]), es.drop_first())
    }
}

/// Folding one more entry onto a batch inserts it after the batch.
proof fn lemma_insert_entries_push(entries: Seq<EntryView>, es: Seq<EntryView>, e: EntryView)
    ensures
        insert_entries(entries, es.push(e)) == insert_entry(insert_entries(entries, es), e),
    decreases es.len(),
{
    if es.len() == 0 {
        assert(es.push(e)[0] == e);
        assert(es.push(e).drop_first() =~= Seq::<EntryView>::empty());
        assert(insert_entries(insert_entry(entries, e), Seq::<EntryView>::empty()) == insert_entry(
            entries,
            e,
        ));
        assert(insert_entries(entries, es) == entries);
    } else {
        assert(es.push(e)[0] == es[0]);
        assert(es.push(e).drop_first() =~= es.drop_first().push(e));
        lemma_insert_entries_push(insert_entry(entries, es[0]), es.drop_first(), e);
    }
}

/// The entries with the read flag of the entry bearing the given id
/// flipped; other entries, and every other field, are untouched. An unknown
/// id changes nothing.
pub open spec fn flip_read(entries: Seq<EntryView>, id: Seq<char>) -> Seq<EntryView> {
    Seq::new(
        entries.len(),
        |i: int|
            if entries[i].id == id {
                (EntryView { read: !entries[i].read, ..entries[i] })
            } else {
                entries[i]
            },
    )
}

/// The entries with the starred flag of the entry bearing the given id
/// flipped, symmetrically to [`flip_read`].
pub open spec fn flip_starred(entries: Seq<EntryView>, id: Seq<char>) -> Seq<EntryView> {
    Seq::new(
        entries.len(),
        |i: int|
            if entries[i].id == id {
                (EntryView { starred: !entries[i].starred, ..entries[i] })
            } else {
                entries[i]
            },
    )
}

/// Whether an entry passes a filter: every entry passes `All`, unread
/// entries pass `Unread`, starred entries pass `Starred`.
pub open spec fn matches_filter(e: EntryView, f: EntryFilter) -> bool {
    match f {
        EntryFilter::All => true,
        EntryFilter::Unread => !e.read,
        EntryFilter::Starred => e.starred,
    }
}

/// The entries that pass the filter, in storage order.
pub open spec fn filtered_entries(entries: Seq<EntryView>, f: EntryFilter) -> Seq<EntryView> {
    entries.filter(|e: EntryView| matches_filter(e, f))
}

/// The query order on entries, by publication time. An absent time is the
/// extreme in both directions: ascending order puts entries without a time
/// first, descending order puts them last, so the two orders are exact
/// reverses of each other.
pub open spec fn published_le(ord: Ordering, a: EntryView, b: EntryView) -> bool {
    match ord {
        Ordering::Ascending => match (a.published, b.published) {
            (Option::None, _) => true,
            (Option::Some(_), Option::None) => false,
            (Option::Some(x), Option::Some(y)) => x <= y,
        },
        Ordering::Descending => match (a.published, b.published) {
            (Option::None, Option::Some(_)) => false,
            (Option::None, Option::None) => true,
            (Option::Some(_), Option::None) => true,
            (Option::Some(x), Option::Some(y)) => x >= y,
        },
    }
}

/// Whether a sequence of entries is sorted for the given direction.
pub open spec fn sorted_by_published(ord: Ordering, s: Seq<EntryView>) -> bool {
    forall|i: int, j: int| 0 <= i < j < s.len() ==> published_le(ord, s[i], s[j])
}

/// The mathematical value of an optional error message.
pub open spec fn view_of_message(m: Option<String>) -> Option<Seq<char>> {
    match m {
        Some(s) => Some(s@),
        None => None,
    }
}

/// The query order is total: of any two entries, one comes no later than the
/// other.
proof fn lemma_published_le_total(ord: Ordering, a: EntryView, b: EntryView)
    ensures
        published_le(ord, a, b) || published_le(ord, b, a),
{
}

/// The query order is transitive.
proof fn lemma_published_le_trans(ord: Ordering, a: EntryView, b: EntryView, c: EntryView)
    requires
        published_le(ord, a, b),
        published_le(ord, b, c),
    ensures
        published_le(ord, a, c),
{
}

/// Filtering a sequence extended by one element keeps the element exactly
/// when it satisfies the predicate.
proof fn lemma_filter_push<A>(s: Seq<A>, pred: spec_fn(A) -> bool, x: A)
    ensures
        s.push(x).filter(pred) == if pred(x) {
            s.filter(pred).push(x)
        } else {
            s.filter(pred)
        },
{
    reveal(Seq::filter);
    assert(s.push(x).drop_last() =~= s);
}

/// Removing the feeds that bear one id keeps the remaining ids unique.
proof fn lemma_remove_feed_unique(feeds: Seq<FeedView>, id: Seq<char>)
    requires
        unique_feed_ids(feeds),
    ensures
        unique_feed_ids(remove_feed_by_id(feeds, id)),
    decreases feeds.len(),
{
    reveal(Seq::filter);
    let pred = |f: FeedView| f.id != id;
    let kept = feeds.filter(pred);
    if feeds.len() > 0 {
        let rest = feeds.drop_last();
        assert(unique_feed_ids(rest));
        lemma_remove_feed_unique(rest, id);
        let keptrest = rest.filter(pred);
        assert forall|i: int, j: int| 0 <= i < j < kept.len() implies kept[i].id != kept[j].id by {
            if j < keptrest.len() {
                assert(kept[i] == keptrest[i]);
                assert(kept[j] == keptrest[j]);
            } else {
                assert(pred(feeds.last()) && kept[j] == feeds.last());
                assert(kept[i] == keptrest[i]);
                assert(keptrest.contains(keptrest[i]));
                rest.lemma_filter_contains_rev(pred, keptrest[i]);
                let p = choose|p: int| 0 <= p < rest.len() && rest[p] == keptrest[i];
                assert(feeds[p] == keptrest[i]);
                assert(feeds[p].id != feeds[feeds.len() - 1].id);
            }
        }
    }
}

/// The store, as the mathematics sees it: the feeds and the entries it
/// holds, in order.
pub struct DBView {
    pub feeds: Seq<FeedView>,
    pub entries: Seq<EntryView>,
}

/// The store. It holds the feed rows and entry rows, both keyed by their
/// derived ids.
pub struct DB {
    feeds: Vec<Feed>,
    entries: Vec<Entry>,
}

impl View for DB {
    type V = DBView;

    closed spec fn view(&self) -> DBView {
        DBView {
            feeds: views_of_feeds(self.feeds@),
            entries: views_of_entries(self.entries@),
        }
    }
}

impl DB {
    /// The store's invariant: feed ids and entry ids are unique.
    pub open spec fn wf(self) -> bool {
        unique_feed_ids(self@.feeds) && unique_entry_ids(self@.entries)
    }

    /// A fresh, empty store.
    pub fn new() -> (db: DB)
        ensures
            db@.feeds == Seq::<FeedView>::empty(),
            db@.entries == Seq::<EntryView>::empty(),
            db.wf(),
    {
        let db = DB { feeds: Vec::new(), entries: Vec::new() };
        proof {
            assert(db@.feeds =~= Seq::<FeedView>::empty());
            assert(db@.entries =~= Seq::<EntryView>::empty());
        }
        db
    }

    /// The index of the feed with the given id, if any.
    fn find_feed_index(&self, id: &String) -> (r: Option<usize>)
        ensures
            match r {
                Some(i) => 0 <= i < self@.feeds.len() && self@.feeds[i as int].id == id@,
                None => !feed_id_taken(self@.feeds, id@),
            },
    {
        let n = self.feeds.len();
        let mut i: usize = 0;
        while i < n
            invariant
                i <= n,
                n == self.feeds.len(),
                forall|j: int| 0 <= j < i ==> self@.feeds[j].id != id@,
            decreases n - i,
        {
            if str_eq(self.feeds[i].id.as_str(), id.as_str()) {
                return Some(i);
            }
            i = i + 1;
        }
        None
    }

    /// Insert-or-replace of one feed, keyed by id.
    fn upsert_one(&mut self, f: Feed)
        requires
            unique_feed_ids(old(self)@.feeds),
        ensures
            final(self)@.feeds == upsert_feed(old(self)@.feeds, f@),
            final(self)@.entries == old(self)@.entries,
            unique_feed_ids(final(self)@.feeds),
    {
        let found = self.find_feed_index(&f.id);
        match found {
            Some(i) => {
                proof {
                    let gi = feed_index_of(self@.feeds, f@.id);
                    assert(feed_id_taken(self@.feeds, f@.id));
                    assert(0 <= gi < self@.feeds.len() && self@.feeds[gi].id == f@.id);
                    assert(gi == i);
                }
                let _ = self.feeds.remove(i);
                self.feeds.insert(i, f);
                proof {
                    assert(self@.feeds =~= upsert_feed(old(self)@.feeds, f@));
                    assert(self@.entries =~= old(self)@.entries);
                }
            },
            None => {
                self.feeds.push(f);
                proof {
                    assert(self@.feeds =~= upsert_feed(old(self)@.feeds, f@));
                    assert(self@.entries =~= old(self)@.entries);
                }
            },
        }
    }

    /// Upserts a batch of feeds, left to right, keyed by id: re-adding a
    /// feed URL overwrites that feed's metadata instead of duplicating the
    /// row.
    pub fn add_feeds(&mut self, feeds: Vec<Feed>)
        requires
            old(self).wf(),
        ensures
            final(self)@.feeds == upsert_feeds(old(self)@.feeds, views_of_feeds(feeds@)),
            final(self)@.entries == old(self)@.entries,
            final(self).wf(),
    {
        let ghost orig: DBView = self@;
        let n = feeds.len();
        let mut k: usize = 0;
        while k < n
            invariant
                k <= n,
                n == feeds.len(),
                self@.feeds == upsert_feeds(orig.feeds, views_of_feeds(feeds@.take(k as int))),
                self@.entries == orig.entries,
                unique_feed_ids(self@.feeds),
                unique_entry_ids(self@.entries),
            decreases n - k,
        {
            let f = feeds[k].clone();
            proof {
                assert(feeds@.take(k + 1) =~= feeds@.take(k as int).push(feeds@[k as int]));
                assert(views_of_feeds(feeds@.take(k as int).push(feeds@[k as int])) =~= views_of_feeds(
                    feeds@.take(k as int),
                ).push(feeds@[k as int]@));
                lemma_upsert_feeds_push(
                    orig.feeds,
                    views_of_feeds(feeds@.take(k as int)),
                    feeds@[k as int]@,
                );
            }
            self.upsert_one(f);
            k = k + 1;
        }
        proof {
            assert(feeds@.take(n as int) =~= feeds@);
        }
    }

    /// All feeds, in storage order.
    pub fn get_feeds(&self) -> (r: Vec<Feed>)
        ensures
            views_of_feeds(r@) == self@.feeds,
    {
        let n = self.feeds.len();
        let mut r: Vec<Feed> = Vec::new();
        let mut i: usize = 0;
        while i < n
            invariant
                i <= n,
                n == self.feeds.len(),
                views_of_feeds(r@) == self@.feeds.take(i as int),
            decreases n - i,
        {
            let f = self.feeds[i].clone();
            proof {
                assert(f@ == self@.feeds[i as int]);
            }
            let ghost prev = r@;
            r.push(f);
            proof {
                assert(views_of_feeds(r@) =~= views_of_feeds(prev).push(self@.feeds[i as int]));
                assert(self@.feeds.take(i + 1) =~= self@.feeds.take(i as int).push(
                    self@.feeds[i as int],
                ));
            }
            i = i + 1;
        }
        proof {
            assert(self@.feeds.take(n as int) =~= self@.feeds);
        }
        r
    }

    /// Deletes the feed with the given id; entries are untouched, and an
    /// unknown id deletes nothing.
    pub fn remove_feed(&mut self, id: String)
        requires
            old(self).wf(),
        ensures
            final(self)@.feeds == remove_feed_by_id(old(self)@.feeds, id@),
            final(self)@.entries == old(self)@.entries,
            final(self).wf(),
    {
        let ghost orig: DBView = self@;
        let n = self.feeds.len();
        let mut kept: Vec<Feed> = Vec::new();
        let mut i: usize = 0;
        while i < n
            invariant
                i <= n,
                n == self.feeds.len(),
                self@ == orig,
                views_of_feeds(kept@) == orig.feeds.take(i as int).filter(
                    |f: FeedView| f.id != id@,
                ),
            decreases n - i,
        {
            proof {
                lemma_filter_push(
                    orig.feeds.take(i as int),
                    |f: FeedView| f.id != id@,
                    orig.feeds[i as int],
                );
                assert(orig.feeds.take(i + 1) =~= orig.feeds.take(i as int).push(
                    orig.feeds[i as int],
                ));
            }
            if !str_eq(self.feeds[i].id.as_str(), id.as_str()) {
                let f = self.feeds[i].clone();
                kept.push(f);
            }
            proof {
                assert(views_of_feeds(kept@) =~= orig.feeds.take(i + 1).filter(
                    |f: FeedView| f.id != id@,
                ));
            }
            i = i + 1;
        }
        proof {
            assert(orig.feeds.take(n as int) =~= orig.feeds);
        }
        self.feeds = kept;
        proof {
            lemma_remove_feed_unique(orig.feeds, id@);
        }
    }

    /// Records the outcome of a fetch on the feed with the given id: the
    /// error message is stored (or cleared, on success) and the feed's
    /// last-fetched time is set to now. An unknown id changes nothing, and
    /// in particular does not fail.
    pub fn update_feed_status(&mut self, id: String, error: Option<String>)
        requires
            old(self).wf(),
        ensures
            exists|ts: int|
                final(self)@.feeds == set_feed_status(
                    old(self)@.feeds,
                    id@,
                    view_of_message(error),
                    ts,
                ),
            final(self)@.entries == old(self)@.entries,
            final(self).wf(),
    {
        let ts = now_timestamp();
        let found = self.find_feed_index(&id);
        match found {
            Some(i) => {
                self.feeds[i].last_fetched = Some(ts);
                self.feeds[i].fetch_error = error;
                proof {
                    assert(self@.feeds =~= set_feed_status(
                        old(self)@.feeds,
                        id@,
                        view_of_message(error),
                        ts as int,
                    ));
                }
            },
            None => {
                proof {
                    assert(self@.feeds =~= set_feed_status(
                        old(self)@.feeds,
                        id@,
                        view_of_message(error),
                        ts as int,
                    ));
                }
            },
        }
    }
}

/// Whether an entry passes a filter, decided at run time.
fn matches_filter_exec(e: &Entry, f: EntryFilter) -> (r: bool)
    ensures
        r == matches_filter(e@, f),
{
    match f {
        EntryFilter::All => true,
        EntryFilter::Unread => !e.read,
        EntryFilter::Starred => e.starred,
    }
}

/// The query order on entries, decided at run time.
fn published_le_exec(ord: Ordering, a: &Entry, b: &Entry) -> (r: bool)
    ensures
        r == published_le(ord, a@, b@),
{
    match ord {
        Ordering::Ascending => match (a.published, b.published) {
            (None, _) => true,
            (Some(_), None) => false,
            (Some(x), Some(y)) => x <= y,
        },
        Ordering::Descending => match (a.published, b.published) {
            (None, Some(_)) => false,
            (None, None) => true,
            (Some(_), None) => true,
            (Some(x), Some(y)) => x >= y,
        },
    }
}

/// Inserts one entry into a sorted sequence, keeping it sorted; equal keys
/// land after the ones already there, so the sort is stable.
fn insert_sorted(ord: Ordering, out: &mut Vec<Entry>, e: Entry)
    requires
        sorted_by_published(ord, views_of_entries(old(out)@)),
    ensures
        views_of_entries(final(out)@).to_multiset() == views_of_entries(
            old(out)@,
        ).to_multiset().insert(e@),
        sorted_by_published(ord, views_of_entries(final(out)@)),
{
    let ghost prev = views_of_entries(out@);
    let n = out.len();
    let mut j: usize = 0;
    while j < n && published_le_exec(ord, &out[j], &e)
        invariant
            j <= n,
            n == out.len(),
            views_of_entries(out@) == prev,
            forall|k: int| 0 <= k < j ==> published_le(ord, prev[k], e@),
        decreases n - j,
    {
        j = j + 1;
    }
    proof {
        if j < n {
            lemma_published_le_total(ord, prev[j as int], e@);
            assert(published_le(ord, e@, prev[j as int]));
        }
    }
    out.insert(j, e);
    proof {
        let cur = views_of_entries(out@);
        assert(cur =~= prev.insert(j as int, e@));
        to_multiset_insert(prev, j as int, e@);
        prev.insert_ensures(j as int, e@);
        assert forall|p: int, q: int| 0 <= p < q < cur.len() implies published_le(
            ord,
            cur[p],
            cur[q],
        ) by {
            if q < j {
                assert(cur[p] == prev[p]);
                assert(cur[q] == prev[q]);
            } else if q == j {
                assert(cur[p] == prev[p]);
                assert(cur[q] == e@);
            } else {
                assert(cur[q] == prev[q - 1]);
                if p < j {
                    assert(cur[p] == prev[p]);
                    assert(published_le(ord, prev[p], prev[q - 1]));
                } else if p == j {
                    assert(cur[p] == e@);
                    assert(published_le(ord, e@, prev[j as int]));
                    if j < q - 1 {
                        lemma_published_le_trans(ord, e@, prev[j as int], prev[q - 1]);
                    }
                } else {
                    assert(cur[p] == prev[p - 1]);
                    assert(published_le(ord, prev[p - 1], prev[q - 1]));
                }
            }
        }
    }
}

/// Sorts entries by publication time for the given direction, keeping the
/// storage order of entries whose keys tie.
fn sort_entries(ord: Ordering, input: Vec<Entry>) -> (r: Vec<Entry>)
    ensures
        views_of_entries(r@).to_multiset() == views_of_entries(input@).to_multiset(),
        sorted_by_published(ord, views_of_entries(r@)),
{
    let n = input.len();
    let mut out: Vec<Entry> = Vec::new();
    let mut i: usize = 0;
    proof {
        assert(views_of_entries(out@) =~= Seq::<EntryView>::empty());
        assert(views_of_entries(input@.take(0)) =~= Seq::<EntryView>::empty());
    }
    while i < n
        invariant
            i <= n,
            n == input.len(),
            views_of_entries(out@).to_multiset() == views_of_entries(
                input@.take(i as int),
            ).to_multiset(),
            sorted_by_published(ord, views_of_entries(out@)),
        decreases n - i,
    {
        let e = input[i].clone();
        proof {
            assert(e@ == views_of_entries(input@)[i as int]);
            assert(input@.take(i + 1) =~= input@.take(i as int).push(input@[i as int]));
            assert(views_of_entries(input@.take(i + 1)) =~= views_of_entries(
                input@.take(i as int),
            ).push(e@));
            to_multiset_build(views_of_entries(input@.take(i as int)), e@);
        }
        insert_sorted(ord, &mut out, e);
        i = i + 1;
    }
    proof {
        assert(input@.take(n as int) =~= input@);
    }
    out
}

impl DB {
    /// The index of the entry with the given id, if any.
    fn find_entry_index(&self, id: &String) -> (r: Option<usize>)
        ensures
            match r {
                Some(i) => 0 <= i < self@.entries.len() && self@.entries[i as int].id == id@,
                None => !entry_id_taken(self@.entries, id@),
            },
    {
        let n = self.entries.len();
        let mut i: usize = 0;
        while i < n
            invariant
                i <= n,
                n == self.entries.len(),
                forall|j: int| 0 <= j < i ==> self@.entries[j].id != id@,
            decreases n - i,
        {
            if str_eq(self.entries[i].id.as_str(), id.as_str()) {
                return Some(i);
            }
            i = i + 1;
        }
        None
    }

    /// Whether some stored entry bears the given id.
    fn has_entry(&self, id: &String) -> (r: bool)
        ensures
            r == entry_id_taken(self@.entries, id@),
    {
        let n = self.entries.len();
        let mut i: usize = 0;
        while i < n
            invariant
                i <= n,
                n == self.entries.len(),
                forall|j: int| 0 <= j < i ==> self@.entries[j].id != id@,
            decreases n - i,
        {
            if str_eq(self.entries[i].id.as_str(), id.as_str()) {
                proof {
                    assert(self@.entries[i as int].id == id@);
                }
                return true;
            }
            i = i + 1;
        }
        false
    }

    /// Insert-or-ignore of one entry, keyed by id.
    fn insert_one_entry(&mut self, e: Entry)
        requires
            unique_entry_ids(old(self)@.entries),
        ensures
            final(self)@.entries == insert_entry(old(self)@.entries, e@),
            final(self)@.feeds == old(self)@.feeds,
            unique_entry_ids(final(self)@.entries),
    {
        if !self.has_entry(&e.id) {
            self.entries.push(e);
            proof {
                assert(self@.entries =~= insert_entry(old(self)@.entries, e@));
                assert(self@.feeds =~= old(self)@.feeds);
            }
        } else {
            proof {
                assert(self@.entries =~= insert_entry(old(self)@.entries, e@));
            }
        }
    }

    /// Inserts a batch of entries, left to right, keyed by id, ignoring
    /// every entry whose id is already stored: re-ingesting the same
    /// upstream items never duplicates a row and never touches the stored
    /// read/starred state. This is the pipeline's idempotence guarantee.
    pub fn add_entries(&mut self, entries: Vec<Entry>)
        requires
            old(self).wf(),
        ensures
            final(self)@.entries == insert_entries(old(self)@.entries, views_of_entries(entries@)),
            final(self)@.feeds == old(self)@.feeds,
            final(self).wf(),
    {
        let ghost orig: DBView = self@;
        let n = entries.len();
        let mut k: usize = 0;
        while k < n
            invariant
                k <= n,
                n == entries.len(),
                self@.entries == insert_entries(
                    orig.entries,
                    views_of_entries(entries@.take(k as int)),
                ),
                self@.feeds == orig.feeds,
                unique_entry_ids(self@.entries),
                unique_feed_ids(self@.feeds),
            decreases n - k,
        {
            let e = entries[k].clone();
            proof {
                assert(entries@.take(k + 1) =~= entries@.take(k as int).push(entries@[k as int]));
                assert(views_of_entries(entries@.take(k as int).push(entries@[k as int]))
                    =~= views_of_entries(entries@.take(k as int)).push(entries@[k as int]@));
                lemma_insert_entries_push(
                    orig.entries,
                    views_of_entries(entries@.take(k as int)),
                    entries@[k as int]@,
                );
            }
            self.insert_one_entry(e);
            k = k + 1;
        }
        proof {
            assert(entries@.take(n as int) =~= entries@);
        }
    }

    /// The entries that pass the filter, sorted by publication time in the
    /// given direction (and exactly those entries: the result is a
    /// permutation of the stored entries that match).
    pub fn get_entries(&self, filter: EntryFilter, ordering: Ordering) -> (r: Vec<Entry>)
        ensures
            views_of_entries(r@).to_multiset() == filtered_entries(
                self@.entries,
                filter,
            ).to_multiset(),
            sorted_by_published(ordering, views_of_entries(r@)),
    {
        let n = self.entries.len();
        let mut picked: Vec<Entry> = Vec::new();
        let mut i: usize = 0;
        while i < n
            invariant
                i <= n,
                n == self.entries.len(),
                views_of_entries(picked@) == filtered_entries(self@.entries.take(i as int), filter),
            decreases n - i,
        {
            proof {
                lemma_filter_push(
                    self@.entries.take(i as int),
                    |e: EntryView| matches_filter(e, filter),
                    self@.entries[i as int],
                );
                assert(self@.entries.take(i + 1) =~= self@.entries.take(i as int).push(
                    self@.entries[i as int],
                ));
            }
            if matches_filter_exec(&self.entries[i], filter) {
                let e = self.entries[i].clone();
                proof {
                    assert(e@ == self@.entries[i as int]);
                }
                let ghost prevp = views_of_entries(picked@);
                picked.push(e);
                proof {
                    assert(views_of_entries(picked@) =~= prevp.push(self@.entries[i as int]));
                }
            }
            i = i + 1;
        }
        proof {
            assert(self@.entries.take(n as int) =~= self@.entries);
        }
        sort_entries(ordering, picked)
    }

    /// The unread entries, oldest first: `get_entries(Unread, Ascending)`.
    pub fn get_unread_entries(&self) -> (r: Vec<Entry>)
        ensures
            views_of_entries(r@).to_multiset() == filtered_entries(
                self@.entries,
                EntryFilter::Unread,
            ).to_multiset(),
            sorted_by_published(Ordering::Ascending, views_of_entries(r@)),
    {
        self.get_entries(EntryFilter::Unread, Ordering::Ascending)
    }

    /// The starred entries, oldest first: `get_entries(Starred, Ascending)`.
    pub fn get_starred_entries(&self) -> (r: Vec<Entry>)
        ensures
            views_of_entries(r@).to_multiset() == filtered_entries(
                self@.entries,
                EntryFilter::Starred,
            ).to_multiset(),
            sorted_by_published(Ordering::Ascending, views_of_entries(r@)),
    {
        self.get_entries(EntryFilter::Starred, Ordering::Ascending)
    }

    /// Flips (negates, never merely sets) the read flag of the entry with
    /// the given id, then returns the filtered, ordered entries. An unknown
    /// id flips nothing, and the query still answers.
    pub fn mark_entry_read(&mut self, entry_id: String, filter: EntryFilter, ordering: Ordering)
        -> (r: Vec<Entry>)
        requires
            old(self).wf(),
        ensures
            final(self)@.entries == flip_read(old(self)@.entries, entry_id@),
            final(self)@.feeds == old(self)@.feeds,
            final(self).wf(),
            views_of_entries(r@).to_multiset() == filtered_entries(
                final(self)@.entries,
                filter,
            ).to_multiset(),
            sorted_by_published(ordering, views_of_entries(r@)),
    {
        let ghost orig: DBView = self@;
        let found = self.find_entry_index(&entry_id);
        match found {
            Some(i) => {
                let cur = self.entries[i].read;
                self.entries[i].read = !cur;
                proof {
                    assert(self@.entries =~= flip_read(orig.entries, entry_id@));
                }
            },
            None => {
                proof {
                    assert(self@.entries =~= flip_read(orig.entries, entry_id@));
                }
            },
        }
        proof {
            assert(forall|j: int|
                0 <= j < self@.entries.len() ==> self@.entries[j].id == orig.entries[j].id);
        }
        self.get_entries(filter, ordering)
    }

    /// Flips the starred flag of the entry with the given id, then returns
    /// the filtered, ordered entries, symmetrically to [`Self::mark_entry_read`].
    pub fn mark_entry_starred(&mut self, entry_id: String, filter: EntryFilter, ordering: Ordering)
        -> (r: Vec<Entry>)
        requires
            old(self).wf(),
        ensures
            final(self)@.entries == flip_starred(old(self)@.entries, entry_id@),
            final(self)@.feeds == old(self)@.feeds,
            final(self).wf(),
            views_of_entries(r@).to_multiset() == filtered_entries(
                final(self)@.entries,
                filter,
            ).to_multiset(),
            sorted_by_published(ordering, views_of_entries(r@)),
    {
        let ghost orig: DBView = self@;
        let found = self.find_entry_index(&entry_id);
        match found {
            Some(i) => {
                let cur = self.entries[i].starred;
                self.entries[i].starred = !cur;
                proof {
                    assert(self@.entries =~= flip_starred(orig.entries, entry_id@));
                }
            },
            None => {
                proof {
                    assert(self@.entries =~= flip_starred(orig.entries, entry_id@));
                }
            },
        }
        proof {
            assert(forall|j: int|
                0 <= j < self@.entries.len() ==> self@.entries[j].id == orig.entries[j].id);
        }
        self.get_entries(filter, ordering)
    }
}

/// The application state handed to request handlers: the shared store.
pub struct AppState {
    pub db: DB,
}

} // verus!
