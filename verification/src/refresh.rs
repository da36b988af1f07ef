//! The decisions a refresh cycle makes about one feed.
//!
//! The scheduler itself — a timer, an HTTP client, a shutdown signal, the
//! document parser — lives outside the library. For each feed it hands in
//! the classified outcome of fetching and parsing, and the functions here
//! make every decision that follows: record the failure on that feed alone,
//! or normalize and ingest the parsed entries and clear the feed's error. A
//! failure on one feed never touches another feed's rows, which is the
//! pipeline's partial-failure guarantee.

use vstd::prelude::*;

verus! {

use crate::model::Entry;
use crate::source::normalize;
use crate::source::normalized_views;
use crate::source::raw_views;
use crate::source::RawEntry;
use crate::source::RawEntryView;
use crate::store::insert_entries;
use crate::store::set_feed_status;
use crate::store::views_of_entries;
use crate::store::DBView;
use crate::store::DB;

/// How a fetch failed before a document was in hand: the request itself
/// failed, the response status was not OK, or the body could not be read.
#[derive(Clone, Copy, Debug, PartialEq, Eq)]
pub enum FetchFailure {
    Network,
    HttpStatus,
    Body,
}

/// The classified outcome of fetching one feed's URL and parsing the
/// document: a transport failure, or the parsed raw entries — `None` when
/// the document was malformed, so that a parse failure is reported, never
/// fatal.
#[derive(Debug)]
pub enum FetchOutcome {
    Failed(FetchFailure),
    Document(Option<Vec<RawEntry>>),
}

/// The message recorded on a feed for each kind of fetch failure.
pub open spec fn failure_message(k: FetchFailure) -> Seq<char> {
    match k {
        FetchFailure::Network => "couldn't get response"@,
        FetchFailure::HttpStatus => "response code not ok"@,
        FetchFailure::Body => "couldn't get bytes"@,
    }
}

/// The message recorded on a feed whose document did not parse.
pub open spec fn parse_failure_message() -> Seq<char> {
    "couldn't parse feed"@
}

fn failure_message_exec(k: FetchFailure) -> (r: String)
    ensures
        r@ == failure_message(k),
{
    match k {
        FetchFailure::Network => "couldn't get response".to_owned(),
        FetchFailure::HttpStatus => "response code not ok".to_owned(),
        FetchFailure::Body => "couldn't get bytes".to_owned(),
    }
}

/// A failed refresh of one feed: the message lands on that feed's status,
/// and nothing else changes — in particular, no entry row.
pub open spec fn refresh_failure_step(
    pre: DBView,
    post: DBView,
    id: Seq<char>,
    msg: Seq<char>,
) -> bool {
    &&& post.entries == pre.entries
    &&& exists|ts: int| post.feeds == set_feed_status(pre.feeds, id, Some(msg), ts)
}

/// A successful refresh of one feed: its parsed entries are normalized under
/// the feed's name and ingested insert-or-ignore, and the feed's error is
/// cleared — only after the entries are stored.
pub open spec fn refresh_success_step(
    pre: DBView,
    post: DBView,
    id: Seq<char>,
    name: Seq<char>,
    rs: Seq<RawEntryView>,
) -> bool {
    &&& post.entries == insert_entries(pre.entries, normalized_views(rs, name))
    &&& exists|ts: int| post.feeds == set_feed_status(pre.feeds, id, None, ts)
}

/// Ingests the result of parsing one feed's document: a malformed document
/// (`None`) is recorded as that feed's fetch error; parsed entries are
/// normalized, inserted (ignoring known ids), and counted, and the feed's
/// error is cleared. Returns how many entries the document carried.
pub fn apply_parsed(
    db: &mut DB,
    feed_id: &String,
    feed_name: &String,
    parsed: Option<Vec<RawEntry>>,
) -> (n: usize)
    requires
        old(db).wf(),
    ensures
        final(db).wf(),
        match parsed {
            None => refresh_failure_step(old(db)@, final(db)@, feed_id@, parse_failure_message())
                && n == 0,
            Some(raws) => refresh_success_step(
                old(db)@,
                final(db)@,
                feed_id@,
                feed_name@,
                raw_views(raws@),
            ) && n == raws@.len(),
        },
{
    match parsed {
        None => {
            db.update_feed_status(feed_id.clone(), Some("couldn't parse feed".to_owned()));
            0
        },
        Some(raws) => {
            let m = raws.len();
            let mut es: Vec<Entry> = Vec::new();
            let mut i: usize = 0;
            proof {
                assert(views_of_entries(es@) =~= normalized_views(
                    raw_views(raws@.take(0)),
                    feed_name@,
                ));
            }
            while i < m
                invariant
                    i <= m,
                    m == raws.len(),
                    views_of_entries(es@) == normalized_views(
                        raw_views(raws@.take(i as int)),
                        feed_name@,
                    ),
                decreases m - i,
            {
                let e = normalize(&raws[i], feed_name);
                let ghost prev = views_of_entries(es@);
                es.push(e);
                proof {
                    assert(raws@.take(i + 1) =~= raws@.take(i as int).push(raws@[i as int]));
                    assert(views_of_entries(es@) =~= prev.push(e@));
                    assert(normalized_views(raw_views(raws@.take(i + 1)), feed_name@) =~= prev.push(
                        e@,
                    ));
                }
                i = i + 1;
            }
            proof {
                assert(raws@.take(m as int) =~= raws@);
            }
            db.add_entries(es);
            db.update_feed_status(feed_id.clone(), None);
            m
        },
    }
}

/// Processes the outcome of one feed's refresh: a classified transport
/// failure is recorded on that feed; a document's parse result is ingested
/// by [`apply_parsed`]. Whatever came back, no other feed and no stored
/// entry flag is touched. Returns how many entries the fetch carried.
pub fn apply_feed_outcome(
    db: &mut DB,
    feed_id: &String,
    feed_name: &String,
    outcome: FetchOutcome,
) -> (n: usize)
    requires
        old(db).wf(),
    ensures
        final(db).wf(),
        match outcome {
            FetchOutcome::Failed(k) => refresh_failure_step(
                old(db)@,
                final(db)@,
                feed_id@,
                failure_message(k),
            ) && n == 0,
            FetchOutcome::Document(parsed) => match parsed {
                None => refresh_failure_step(
                    old(db)@,
                    final(db)@,
                    feed_id@,
                    parse_failure_message(),
                ) && n == 0,
                Some(raws) => refresh_success_step(
                    old(db)@,
                    final(db)@,
                    feed_id@,
                    feed_name@,
                    raw_views(raws@),
                ) && n == raws@.len(),
            },
        },
{
    match outcome {
        FetchOutcome::Failed(k) => {
            db.update_feed_status(feed_id.clone(), Some(failure_message_exec(k)));
            0
        },
        FetchOutcome::Document(parsed) => apply_parsed(db, feed_id, feed_name, parsed),
    }
}

} // verus!
