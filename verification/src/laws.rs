//! The laws the store obeys, stated over the same spec functions that the
//! operations' contracts use, and proved once and for all.

use vstd::prelude::*;

verus! {

use crate::model::EntryFilter;
use crate::model::EntryView;
use crate::model::FeedView;
use crate::model::Ordering;
use crate::refresh::refresh_failure_step;
use crate::refresh::refresh_success_step;
use crate::source::normalized_entry;
use crate::source::normalized_views;
use crate::source::RawEntryView;
use crate::store::entry_id_taken;
use crate::store::feed_id_taken;
use crate::store::feed_index_of;
use crate::store::filtered_entries;
use crate::store::flip_read;
use crate::store::flip_starred;
use crate::store::insert_entries;
use crate::store::insert_entry;
use crate::store::matches_filter;
use crate::store::published_le;
use crate::store::remove_feed_by_id;
use crate::store::set_feed_status;
use crate::store::sorted_by_published;
use crate::store::unique_feed_ids;
use crate::store::upsert_feed;
use crate::store::upsert_feeds;
use crate::store::DBView;
use vstd::multiset::Multiset;
use vstd::seq_lib::group_to_multiset_ensures;

/// A singleton batch inserts (or ignores) exactly its one entry.
proof fn lemma_insert_entries_singleton(entries: Seq<EntryView>, e: EntryView)
    ensures
        insert_entries(entries, seq![e]) == insert_entry(entries, e),
{
    assert(seq![e][0] == e);
    assert(seq![e].drop_first() =~= Seq::<EntryView>::empty());
    assert(insert_entries(insert_entry(entries, e), Seq::<EntryView>::empty()) == insert_entry(
        entries,
        e,
    ));
}

/// A singleton batch upserts exactly its one feed.
proof fn lemma_upsert_feeds_singleton(feeds: Seq<FeedView>, f: FeedView)
    ensures
        upsert_feeds(feeds, seq![f]) == upsert_feed(feeds, f),
{
    assert(seq![f][0] == f);
    assert(seq![f].drop_first() =~= Seq::<FeedView>::empty());
    assert(upsert_feeds(upsert_feed(feeds, f), Seq::<FeedView>::empty()) == upsert_feed(feeds, f));
}

/// Law: entry ingestion is idempotent. Adding an entry and then adding it
/// again — any entry carrying the same derived id, whatever its other fields
/// — leaves the store exactly as after the first add: no duplicate row, and
/// the stored read/starred state untouched. When the id was fresh, the store
/// holds exactly one entry with that id afterwards.
pub proof fn law_add_entries_idempotent(entries: Seq<EntryView>, e: EntryView, e2: EntryView)
    requires
        e2.id == e.id,
    ensures
        insert_entries(insert_entries(entries, seq![e]), seq![e2]) == insert_entries(
            entries,
            seq![e],
        ),
        !entry_id_taken(entries, e.id) ==> insert_entries(entries, seq![e]) == entries.push(e),
        !entry_id_taken(entries, e.id) ==> forall|j: int|
            0 <= j < entries.push(e).len() && (#[trigger] entries.push(e)[j].id) == e.id ==> j
                == entries.len(),
{
    lemma_insert_entries_singleton(entries, e);
    let s1 = insert_entry(entries, e);
    lemma_insert_entries_singleton(s1, e2);
    if entry_id_taken(entries, e.id) {
        assert(s1 == entries);
        assert(entry_id_taken(s1, e2.id));
    } else {
        assert(s1 == entries.push(e));
        assert(s1[s1.len() - 1] == e);
        assert(entry_id_taken(s1, e2.id));
        let w = s1.len() - 1;
        assert forall|j: int| 0 <= j < s1.len() && s1[j].id == e.id implies j == w by {
            if j < entries.len() {
                assert(entries[j] == s1[j]);
                assert(entry_id_taken(entries, e.id));
            }
        }
    }
}

/// An upsert keeps feed ids unique, and afterwards the upserted id is taken.
pub proof fn lemma_upsert_feed_unique(feeds: Seq<FeedView>, f: FeedView)
    requires
        unique_feed_ids(feeds),
    ensures
        unique_feed_ids(upsert_feed(feeds, f)),
        feed_id_taken(upsert_feed(feeds, f), f.id),
{
    let s = upsert_feed(feeds, f);
    if feed_id_taken(feeds, f.id) {
        let i = feed_index_of(feeds, f.id);
        assert(0 <= i < feeds.len() && feeds[i].id == f.id);
        assert(s[i] == f);
    } else {
        assert(s[feeds.len() as int] == f);
    }
}

/// Law: adding a feed is idempotent up to metadata. Upserting a feed and
/// then upserting another feed derived from the same feed URL (hence the
/// same id) yields a store with no extra row — the second upsert fully
/// overwrites the first's metadata, and exactly one feed bears that id.
pub proof fn law_add_feeds_idempotent(feeds: Seq<FeedView>, f: FeedView, g: FeedView)
    requires
        unique_feed_ids(feeds),
        g.id == f.id,
    ensures
        ({
            let s1 = upsert_feeds(feeds, seq![f]);
            let s2 = upsert_feeds(s1, seq![g]);
            let i = feed_index_of(s1, g.id);
            &&& s2.len() == s1.len()
            &&& 0 <= i < s2.len()
            &&& s2[i] == g
            &&& forall|j: int| 0 <= j < s2.len() && (#[trigger] s2[j].id) == g.id ==> j == i
        }),
{
    lemma_upsert_feeds_singleton(feeds, f);
    let s1 = upsert_feed(feeds, f);
    lemma_upsert_feed_unique(feeds, f);
    lemma_upsert_feeds_singleton(s1, g);
    let s2 = upsert_feed(s1, g);
    lemma_upsert_feed_unique(s1, g);
    assert(feed_id_taken(s1, g.id));
    let i = feed_index_of(s1, g.id);
    assert(0 <= i < s1.len() && s1[i].id == g.id);
    assert(s2 == s1.update(i, g));
    assert(s2[i] == g);
    assert forall|j: int| 0 <= j < s2.len() && s2[j].id == g.id implies j == i by {
        if j != i {
            assert(s2[j] == s1[j]);
        }
    }
}

/// Law: filtering is exact. The filtered entries hold each entry that passes
/// the filter exactly as often as the store does, and no entry that fails
/// it. Together with `get_entries`' permutation contract this pins the query
/// result down to order.
pub proof fn law_filter_exact(entries: Seq<EntryView>, f: EntryFilter, e: EntryView)
    ensures
        filtered_entries(entries, f).to_multiset().count(e) == if matches_filter(e, f) {
            entries.to_multiset().count(e)
        } else {
            0
        },
    decreases entries.len(),
{
    broadcast use group_to_multiset_ensures;

    reveal(Seq::filter);
    let pred = |x: EntryView| matches_filter(x, f);
    if entries.len() == 0 {
        assert(entries.filter(pred).to_multiset() =~= Multiset::<EntryView>::empty());
        assert(entries.to_multiset() =~= Multiset::<EntryView>::empty());
    } else {
        let rest = entries.drop_last();
        let last = entries.last();
        law_filter_exact(rest, f, e);
        assert(entries =~= rest.push(last));
        assert(entries.to_multiset() =~= rest.to_multiset().insert(last));
        if pred(last) {
            assert(entries.filter(pred) == rest.filter(pred).push(last));
            assert(entries.filter(pred).to_multiset() =~= rest.filter(pred).to_multiset().insert(
                last,
            ));
        }
    }
}

/// The two orders agree with each other only on equal keys: an entry that
/// sorts both no-later and no-earlier than another has the same publication
/// time.
pub proof fn lemma_published_le_antisym(ord: Ordering, a: EntryView, b: EntryView)
    requires
        published_le(ord, a, b),
        published_le(ord, b, a),
    ensures
        a.published == b.published,
{
}

/// Law: ordering is exact. A sorted permutation of entries whose publication
/// times are pairwise distinct is unique: any two sorted sequences holding
/// the same entries are equal, element for element. So for stored times
/// t1 < t2 < t3, the ascending query returns them in exactly that order and
/// the descending query in exactly the reverse.
pub proof fn law_ordering_unique(ord: Ordering, s1: Seq<EntryView>, s2: Seq<EntryView>)
    requires
        sorted_by_published(ord, s1),
        sorted_by_published(ord, s2),
        s1.to_multiset() == s2.to_multiset(),
        forall|i: int, j: int|
            0 <= i < j < s1.len() ==> s1[i].published != s1[j].published,
    ensures
        s1 == s2,
    decreases s1.len(),
{
    broadcast use group_to_multiset_ensures;

    if s1.len() == 0 {
        assert(s2.to_multiset().len() == 0);
        assert(s1 =~= s2);
    } else {
        assert(s1.to_multiset().len() == s1.len());
        assert(s2.to_multiset().len() == s2.len());
        assert(s1.contains(s1[0]));
        assert(s1.to_multiset().count(s1[0]) > 0);
        assert(s2.to_multiset().count(s1[0]) > 0);
        assert(s2.contains(s1[0]));
        let j = choose|j: int| 0 <= j < s2.len() && s2[j] == s1[0];
        assert(s2.contains(s2[0]));
        assert(s2.to_multiset().count(s2[0]) > 0);
        assert(s1.to_multiset().count(s2[0]) > 0);
        assert(s1.contains(s2[0]));
        let k = choose|k: int| 0 <= k < s1.len() && s1[k] == s2[0];
        assert(published_le(ord, s2[0], s1[0]));
        assert(published_le(ord, s1[0], s2[0]));
        lemma_published_le_antisym(ord, s1[0], s2[0]);
        if s1[0] != s2[0] {
            assert(k != 0);
            assert(s1[0].published != s1[k].published);
            assert(false);
        }
        let t1 = s1.drop_first();
        let t2 = s2.drop_first();
        assert(s1.remove(0) =~= t1);
        assert(s2.remove(0) =~= t2);
        assert(t1.to_multiset() =~= s1.to_multiset().remove(s1[0]));
        assert(t2.to_multiset() =~= s2.to_multiset().remove(s2[0]));
        assert(t1.to_multiset() == t2.to_multiset());
        assert(sorted_by_published(ord, t1));
        assert(sorted_by_published(ord, t2));
        assert(forall|i: int, j: int|
            0 <= i < j < t1.len() ==> t1[i].published != t1[j].published);
        law_ordering_unique(ord, t1, t2);
        assert forall|i: int| 1 <= i < s1.len() implies s1[i] == s2[i] by {
            assert(s1[i] == t1[i - 1]);
            assert(s2[i] == t2[i - 1]);
        }
        assert(s1 =~= s2);
    }
}

/// Law: toggling is negation, not setting. Flipping an entry's read flag and
/// flipping it again restores the store exactly; likewise for the starred
/// flag.
pub proof fn law_toggle_involutive(entries: Seq<EntryView>, id: Seq<char>)
    ensures
        flip_read(flip_read(entries, id), id) == entries,
        flip_starred(flip_starred(entries, id), id) == entries,
{
    assert(flip_read(flip_read(entries, id), id) =~= entries);
    assert(flip_starred(flip_starred(entries, id), id) =~= entries);
}

/// After an insert-or-ignore batch, every id that was stored stays stored,
/// and every id of the batch is stored.
pub proof fn lemma_insert_entries_ids(entries: Seq<EntryView>, es: Seq<EntryView>)
    ensures
        forall|id: Seq<char>|
            entry_id_taken(entries, id) ==> entry_id_taken(insert_entries(entries, es), id),
        forall|k: int|
            0 <= k < es.len() ==> entry_id_taken(insert_entries(entries, es), es[k].id),
    decreases es.len(),
{
    if es.len() > 0 {
        let mid = insert_entry(entries, es[0]);
        lemma_insert_entries_ids(mid, es.drop_first());
        assert forall|id: Seq<char>| entry_id_taken(entries, id) implies entry_id_taken(
            mid,
            id,
        ) by {
            let w = choose|w: int| 0 <= w < entries.len() && entries[w].id == id;
            assert(mid[w].id == id);
        }
        assert(entry_id_taken(mid, es[0].id)) by {
            if entry_id_taken(entries, es[0].id) {
            } else {
                assert(mid[mid.len() - 1].id == es[0].id);
            }
        }
        assert forall|k: int|
            0 <= k < es.len() implies entry_id_taken(insert_entries(entries, es), es[k].id) by {
            if k == 0 {
                assert(entry_id_taken(insert_entries(mid, es.drop_first()), es[0].id));
            } else {
                assert(es.drop_first()[k - 1] == es[k]);
            }
        }
    }
}

/// Law: failures stay on their feed. When one feed's refresh fails and
/// another's succeeds in the same cycle, the failed feed ends the cycle with
/// its error message recorded, the successful feed ends it with its error
/// cleared, and every entry the successful fetch carried is present in the
/// store — the first feed's failure cost the second feed nothing.
pub proof fn law_per_feed_isolation(
    s0: DBView,
    s1: DBView,
    s2: DBView,
    id1: Seq<char>,
    msg: Seq<char>,
    id2: Seq<char>,
    name2: Seq<char>,
    rs: Seq<RawEntryView>,
)
    requires
        id1 != id2,
        feed_id_taken(s0.feeds, id1),
        feed_id_taken(s0.feeds, id2),
        refresh_failure_step(s0, s1, id1, msg),
        refresh_success_step(s1, s2, id2, name2, rs),
    ensures
        exists|i: int|
            0 <= i < s2.feeds.len() && s2.feeds[i].id == id1 && s2.feeds[i].fetch_error == Some(
                msg,
            ),
        exists|i: int|
            0 <= i < s2.feeds.len() && s2.feeds[i].id == id2 && s2.feeds[i].fetch_error
                is None,
        forall|k: int|
            0 <= k < rs.len() ==> entry_id_taken(s2.entries, normalized_entry(rs[k], name2).id),
{
    let ts1 = choose|ts: int| s1.feeds == set_feed_status(s0.feeds, id1, Some(msg), ts);
    let ts2 = choose|ts: int| s2.feeds == set_feed_status(s1.feeds, id2, None, ts);
    let i1 = choose|i: int| 0 <= i < s0.feeds.len() && s0.feeds[i].id == id1;
    let i2 = choose|i: int| 0 <= i < s0.feeds.len() && s0.feeds[i].id == id2;
    assert(s1.feeds[i1].id == id1 && s1.feeds[i1].fetch_error == Some(msg));
    assert(s2.feeds[i1].id == id1 && s2.feeds[i1].fetch_error == Some(msg));
    assert(s1.feeds[i2].id == id2);
    assert(s2.feeds[i2].id == id2 && s2.feeds[i2].fetch_error is None);
    lemma_insert_entries_ids(s1.entries, normalized_views(rs, name2));
    assert forall|k: int|
        0 <= k < rs.len() implies entry_id_taken(
        s2.entries,
        normalized_entry(rs[k], name2).id,
    ) by {
        assert(normalized_views(rs, name2)[k] == normalized_entry(rs[k], name2));
    }
}

/// Law: removing a feed removes exactly that feed. No feed in the remainder
/// bears the removed id, every other feed survives, and (by
/// `remove_feed`'s contract) the entries are untouched, so entries once
/// tagged with the removed feed's name stay queryable.
pub proof fn law_removed_feed_absent(feeds: Seq<FeedView>, id: Seq<char>)
    ensures
        forall|i: int|
            0 <= i < remove_feed_by_id(feeds, id).len() ==> remove_feed_by_id(feeds, id)[i].id
                != id,
        forall|i: int|
            0 <= i < feeds.len() && feeds[i].id != id ==> remove_feed_by_id(feeds, id).contains(
                feeds[i],
            ),
{
    let pred = |f: FeedView| f.id != id;
    assert forall|i: int|
        0 <= i < remove_feed_by_id(feeds, id).len() implies remove_feed_by_id(feeds, id)[i].id
        != id by {
        feeds.lemma_filter_pred(pred, i);
    }
    assert forall|i: int|
        0 <= i < feeds.len() && feeds[i].id != id implies remove_feed_by_id(feeds, id).contains(
        feeds[i],
    ) by {
        feeds.lemma_filter_contains(pred, i);
    }
}

} // verus!
