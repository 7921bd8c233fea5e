//! The timeline of one conversation: rows newest first, found by id.
//!
//! The functions here are stated over `Seq<MessageRow>`, the view of a
//! `Vec<MessageItem>`.

use crate::message::{clone_rows, MessageItem, MessageRow};
use crate::seqs::{any_where, first_where, lemma_first_where_is};
use crate::status::DeliveryStatus;
use crate::text::same_text;
use vstd::prelude::*;

verus! {

/// Rows whose id is `id`.
pub open spec fn with_id(id: Seq<char>) -> spec_fn(MessageRow) -> bool {
    |m: MessageRow| m.message_id == id
}

/// Rows strictly older than `timestamp_micros`.
pub open spec fn older_than(timestamp_micros: i64) -> spec_fn(MessageRow) -> bool {
    |m: MessageRow| m.timestamp_micros < timestamp_micros
}

/// Index of the first row with id `id`, or the length when there is none.
pub open spec fn index_of_id(t: Seq<MessageRow>, id: Seq<char>) -> int {
    first_where(t, with_id(id))
}

/// Whether some row has id `id`.
pub open spec fn has_id(t: Seq<MessageRow>, id: Seq<char>) -> bool {
    any_where(t, with_id(id))
}

/// Where a row of the given time goes in a newest-first timeline: behind
/// every row at least as new, in front of the first older one.
pub open spec fn slot_for(t: Seq<MessageRow>, timestamp_micros: i64) -> int {
    first_where(t, older_than(timestamp_micros))
}

/// No two rows share an id.
pub open spec fn unique_ids(t: Seq<MessageRow>) -> bool {
    forall|i: int, j: int|
        0 <= i < j < t.len() ==> (#[trigger] t[i]).message_id != (#[trigger] t[j]).message_id
}

/// Rows stand in descending order of time.
pub open spec fn newest_first(t: Seq<MessageRow>) -> bool {
    forall|i: int, j: int|
        0 <= i <= j < t.len() ==> (#[trigger] t[i]).timestamp_micros >= (
        #[trigger] t[j]).timestamp_micros
}

/// A row that exists only locally: a send in flight or a failed one.
pub open spec fn is_local_only(m: MessageRow) -> bool {
    m.status == DeliveryStatus::Sending || m.status == DeliveryStatus::Failed
}

/// Rows that a refresh with candidate `c` leaves in place: those the server
/// still lists and those that exist only locally.
pub open spec fn survives(c: Seq<MessageRow>) -> spec_fn(MessageRow) -> bool {
    |m: MessageRow| has_id(c, m.message_id) || is_local_only(m)
}

/// The timeline without the rows that the candidate no longer lists.
pub open spec fn retain_known(t: Seq<MessageRow>, c: Seq<MessageRow>) -> Seq<MessageRow> {
    t.filter(survives(c))
}

/// A row after a refresh has confirmed it: status and body come from the
/// candidate, everything else stays.
pub open spec fn refreshed_row(old_row: MessageRow, fresh: MessageRow) -> MessageRow {
    MessageRow { status: fresh.status, body: fresh.body, ..old_row }
}

/// The timeline after taking in one candidate row: the first row with its id
/// is refreshed, or, when there is none, the row is inserted at its place.
pub open spec fn absorb(t: Seq<MessageRow>, fresh: MessageRow) -> Seq<MessageRow> {
    let at = index_of_id(t, fresh.message_id);
    if at < t.len() {
        t.update(at, refreshed_row(t[at], fresh))
    } else {
        t.insert(slot_for(t, fresh.timestamp_micros), fresh)
    }
}

/// The timeline after taking in the candidate rows one by one, first to last.
pub open spec fn absorb_all(t: Seq<MessageRow>, c: Seq<MessageRow>) -> Seq<MessageRow>
    decreases c.len(),
{
    if c.len() == 0 {
        t
    } else {
        absorb_all(absorb(t, c[0]), c.drop_first())
    }
}

/// The visible timeline after a refresh delivered the candidate `c`.
///
/// An empty timeline is replaced by the candidate. Otherwise the refresh is a
/// diff: rows the server dropped leave unless they are local only, rows in
/// both are refreshed, rows only in the candidate are inserted in order.
pub open spec fn reconciled(t: Seq<MessageRow>, c: Seq<MessageRow>) -> Seq<MessageRow> {
    if t.len() == 0 {
        c
    } else {
        absorb_all(retain_known(t, c), c)
    }
}

/// A candidate row is settled in a timeline when the first row with its id
/// already carries its status and body.
pub open spec fn settled(t: Seq<MessageRow>, fresh: MessageRow) -> bool {
    let at = index_of_id(t, fresh.message_id);
    at < t.len() && t[at].status == fresh.status && t[at].body == fresh.body
}

/// Index of the first row with id `id`.
pub fn find_by_id(rows: &Vec<MessageItem>, id: &str) -> (found: Option<usize>)
    ensures
        match found {
            Some(i) => i < rows.len() && i == index_of_id(rows.deep_view(), id@),
            None => !has_id(rows.deep_view(), id@),
        },
{
    let mut i: usize = 0;
    while i < rows.len()
        invariant
            i <= rows.len(),
            forall|j: int| 0 <= j < i ==> !with_id(id@)(#[trigger] rows.deep_view()[j]),
        decreases rows.len() - i,
    {
        if same_text(rows[i].message_id.as_str(), id) {
            proof {
                assert(with_id(id@)(rows.deep_view()[i as int]));
                lemma_first_where_is(rows.deep_view(), with_id(id@), i as int);
            }
            return Some(i);
        }
        i += 1;
    }
    proof {
        lemma_first_where_is(rows.deep_view(), with_id(id@), rows.len() as int);
    }
    None
}

/// The place for a row of the given time.
pub fn insertion_slot(rows: &Vec<MessageItem>, timestamp_micros: i64) -> (at: usize)
    ensures
        at == slot_for(rows.deep_view(), timestamp_micros),
        at <= rows.len(),
{
    let mut i: usize = 0;
    while i < rows.len()
        invariant
            i <= rows.len(),
            forall|j: int|
                0 <= j < i ==> !older_than(timestamp_micros)(#[trigger] rows.deep_view()[j]),
        decreases rows.len() - i,
    {
        if rows[i].timestamp_micros < timestamp_micros {
            proof {
                assert(older_than(timestamp_micros)(rows.deep_view()[i as int]));
                lemma_first_where_is(rows.deep_view(), older_than(timestamp_micros), i as int);
            }
            return i;
        }
        i += 1;
    }
    proof {
        lemma_first_where_is(
            rows.deep_view(),
            older_than(timestamp_micros),
            rows.len() as int,
        );
    }
    i
}

/// Inserts `item` at its place by time and returns the index it got.
pub fn insert_in_order(rows: &mut Vec<MessageItem>, item: MessageItem) -> (at: usize)
    ensures
        at == slot_for(old(rows).deep_view(), item.timestamp_micros),
        final(rows).deep_view() == old(rows).deep_view().insert(at as int, item@),
{
    let at = insertion_slot(rows, item.timestamp_micros);
    let ghost row = item@;
    rows.insert(at, item);
    assert(rows.deep_view() =~= old(rows).deep_view().insert(at as int, row));
    at
}

/// Removes the rows that `candidate` no longer lists, except local-only ones.
pub fn drop_stale(rows: &mut Vec<MessageItem>, candidate: &Vec<MessageItem>)
    ensures
        final(rows).deep_view() == retain_known(old(rows).deep_view(), candidate.deep_view()),
{
    let ghost before = rows.deep_view();
    let ghost keep = survives(candidate.deep_view());
    let mut kept: Vec<MessageItem> = Vec::new();
    let mut i: usize = 0;
    proof {
        reveal(Seq::filter);
        assert(before.take(0).filter(keep) =~= Seq::<MessageRow>::empty());
        assert(kept.deep_view() =~= Seq::<MessageRow>::empty());
    }
    while i < rows.len()
        invariant
            i <= rows.len(),
            rows.deep_view() == before,
            keep == survives(candidate.deep_view()),
            kept.deep_view() == before.take(i as int).filter(keep),
        decreases rows.len() - i,
    {
        let stays = rows[i].status.is_local_only() || find_by_id(
            candidate,
            rows[i].message_id.as_str(),
        ).is_some();
        let ghost prior = kept.deep_view();
        proof {
            assert(stays == keep(before[i as int]));
            assert(before.take(i as int + 1) =~= before.take(i as int).push(before[i as int]));
            before.take(i as int).lemma_filter_push(before[i as int], keep);
        }
        if stays {
            kept.push(rows[i].clone());
            assert(kept.deep_view() =~= prior.push(before[i as int]));
        }
        i += 1;
    }
    assert(before.take(rows.len() as int) =~= before);
    *rows = kept;
}

/// Takes in one candidate row: refreshes the first row with its id, or
/// inserts a copy at its place.
pub fn absorb_row(rows: &mut Vec<MessageItem>, fresh: &MessageItem)
    ensures
        final(rows).deep_view() == absorb(old(rows).deep_view(), fresh@),
{
    match find_by_id(rows, fresh.message_id.as_str()) {
        Some(at) => {
            rows[at].status = fresh.status;
            rows[at].body = fresh.body.clone();
            assert(rows.deep_view() =~= absorb(old(rows).deep_view(), fresh@));
        },
        None => {
            let _ = insert_in_order(rows, fresh.clone());
        },
    }
}

/// Brings the visible timeline up to date with a refresh result.
pub fn reconcile(rows: &mut Vec<MessageItem>, candidate: &Vec<MessageItem>)
    ensures
        final(rows).deep_view() == reconciled(old(rows).deep_view(), candidate.deep_view()),
{
    if rows.len() == 0 {
        *rows = clone_rows(candidate);
        return ;
    }
    drop_stale(rows, candidate);
    let ghost start = rows.deep_view();
    let ghost c = candidate.deep_view();
    let mut k: usize = 0;
    assert(c.skip(0) =~= c);
    while k < candidate.len()
        invariant
            k <= candidate.len(),
            c == candidate.deep_view(),
            absorb_all(rows.deep_view(), c.skip(k as int)) == absorb_all(start, c),
        decreases candidate.len() - k,
    {
        absorb_row(rows, &candidate[k]);
        proof {
            assert(c.skip(k as int)[0] == c[k as int]);
            assert(c.skip(k as int).drop_first() =~= c.skip(k as int + 1));
        }
        k += 1;
    }
}

} // verus!
