//! What holds of the canonical conversation collection however it is
//! updated.

use crate::conversation_list::{
    canonical, distinct_conversations, for_conversation, less_recent, lists, most_recent_first,
    placed, row_of, sorted_by_recency, upserted, with_preview, ConversationRow,
};
use crate::seqs::{first_where, lemma_any_where, lemma_first_where, lemma_first_where_is};
use vstd::prelude::*;

verus! {

/// The canonical collection after a run of events, applied first to last.
pub open spec fn upserted_all(all: Seq<ConversationRow>, events: Seq<ConversationRow>) -> Seq<
    ConversationRow,
>
    decreases events.len(),
{
    if events.len() == 0 {
        all
    } else {
        upserted(upserted_all(all, events.drop_last()), events.last())
    }
}

proof fn lemma_placed(sorted: Seq<ConversationRow>, row: ConversationRow)
    ensures
        placed(sorted, row).len() == sorted.len() + 1,
        most_recent_first(sorted) ==> most_recent_first(placed(sorted, row)),
        forall|id: Seq<char>|
            lists(placed(sorted, row), id) <==> (lists(sorted, id) || row.conversation_id == id),
        distinct_conversations(sorted) && !lists(sorted, row.conversation_id)
            ==> distinct_conversations(placed(sorted, row)),
        placed(sorted, row).to_multiset() == sorted.to_multiset().insert(row),
{
    let older = less_recent(row.last_message_timestamp);
    let q = first_where(sorted, older);
    let u = placed(sorted, row);
    lemma_first_where(sorted, older);
    vstd::seq_lib::to_multiset_insert(sorted, q, row);
    if most_recent_first(sorted) {
        assert forall|i: int, j: int| 0 <= i <= j < u.len() implies (
        #[trigger] u[i]).last_message_timestamp >= (#[trigger] u[j]).last_message_timestamp by {
            let oi = if i < q { i } else { i - 1 };
            let oj = if j < q { j } else { j - 1 };
            if i == q && j == q {
            } else if i == q {
                assert(u[j] == sorted[oj]);
                assert(older(sorted[q]));
                assert(sorted[q].last_message_timestamp >= sorted[oj].last_message_timestamp);
            } else if j == q {
                assert(u[i] == sorted[oi]);
                assert(!older(sorted[oi]));
            } else {
                assert(u[i] == sorted[oi]);
                assert(u[j] == sorted[oj]);
            }
        }
    }
    assert forall|id: Seq<char>|
        lists(u, id) <==> (lists(sorted, id) || row.conversation_id == id) by {
        let p = for_conversation(id);
        lemma_any_where(u, p);
        lemma_any_where(sorted, p);
        if lists(sorted, id) {
            let w = choose|w: int| 0 <= w < sorted.len() && p(#[trigger] sorted[w]);
            let w2 = if w < q { w } else { w + 1 };
            assert(u[w2] == sorted[w]);
            assert(p(u[w2]));
        }
        if row.conversation_id == id {
            assert(p(u[q]));
        }
        if lists(u, id) {
            let w = choose|w: int| 0 <= w < u.len() && p(#[trigger] u[w]);
            if w < q {
                assert(u[w] == sorted[w]);
                assert(p(sorted[w]));
            } else if w > q {
                assert(u[w] == sorted[w - 1]);
                assert(p(sorted[w - 1]));
            }
        }
    }
    if distinct_conversations(sorted) && !lists(sorted, row.conversation_id) {
        let p = for_conversation(row.conversation_id);
        lemma_first_where(sorted, p);
        assert forall|i: int, j: int| 0 <= i < j < u.len() implies (
        #[trigger] u[i]).conversation_id != (#[trigger] u[j]).conversation_id by {
            let oi = if i < q { i } else { i - 1 };
            let oj = if j < q { j } else { j - 1 };
            if i == q {
                assert(u[j] == sorted[oj]);
                assert(!p(sorted[oj]));
            } else if j == q {
                assert(u[i] == sorted[oi]);
                assert(!p(sorted[oi]));
            } else {
                assert(u[i] == sorted[oi]);
                assert(u[j] == sorted[oj]);
            }
        }
    }
}

proof fn lemma_lists_drop_last(s: Seq<ConversationRow>, id: Seq<char>)
    requires
        s.len() > 0,
    ensures
        lists(s, id) <==> (lists(s.drop_last(), id) || s.last().conversation_id == id),
{
    let p = for_conversation(id);
    let t = s.drop_last();
    lemma_any_where(s, p);
    lemma_any_where(t, p);
    if lists(t, id) {
        let w = choose|w: int| 0 <= w < t.len() && p(#[trigger] t[w]);
        assert(s[w] == t[w]);
        assert(p(s[w]));
    }
    if s.last().conversation_id == id {
        assert(p(s[s.len() - 1]));
    }
    if lists(s, id) {
        let w = choose|w: int| 0 <= w < s.len() && p(#[trigger] s[w]);
        if w < t.len() {
            assert(t[w] == s[w]);
            assert(p(t[w]));
        }
    }
}

/// Sorting yields the same rows, most recent first: nothing is lost, added
/// or doubled, and distinct conversations stay distinct.
pub proof fn lemma_sorted_by_recency(s: Seq<ConversationRow>)
    ensures
        sorted_by_recency(s).len() == s.len(),
        most_recent_first(sorted_by_recency(s)),
        sorted_by_recency(s).to_multiset() == s.to_multiset(),
        forall|id: Seq<char>| lists(sorted_by_recency(s), id) <==> lists(s, id),
        distinct_conversations(s) ==> distinct_conversations(sorted_by_recency(s)),
    decreases s.len(),
{
    if s.len() == 0 {
        assert(s =~= Seq::<ConversationRow>::empty());
        assert forall|id: Seq<char>| lists(sorted_by_recency(s), id) <==> lists(s, id) by {}
    } else {
        let t = s.drop_last();
        let st = sorted_by_recency(t);
        lemma_sorted_by_recency(t);
        lemma_placed(st, s.last());
        assert(t.push(s.last()) =~= s);
        vstd::seq_lib::to_multiset_build(t, s.last());
        assert forall|id: Seq<char>| lists(sorted_by_recency(s), id) <==> lists(s, id) by {
            lemma_lists_drop_last(s, id);
        }
        if distinct_conversations(s) {
            assert forall|i: int, j: int| 0 <= i < j < t.len() implies (
            #[trigger] t[i]).conversation_id != (#[trigger] t[j]).conversation_id by {
                assert(t[i] == s[i] && t[j] == s[j]);
            }
            let p = for_conversation(s.last().conversation_id);
            lemma_any_where(t, p);
            if lists(t, s.last().conversation_id) {
                let w = choose|w: int| 0 <= w < t.len() && p(#[trigger] t[w]);
                assert(t[w] == s[w]);
                assert(s[w].conversation_id == s[s.len() - 1].conversation_id);
            }
        }
    }
}

/// Sorting a collection that is already most recent first leaves every row
/// where it is: rows of equal time are never exchanged.
pub proof fn lemma_sorted_is_settled(s: Seq<ConversationRow>)
    requires
        most_recent_first(s),
    ensures
        sorted_by_recency(s) == s,
    decreases s.len(),
{
    if s.len() == 0 {
        assert(s =~= Seq::<ConversationRow>::empty());
    } else {
        let t = s.drop_last();
        assert forall|i: int, j: int| 0 <= i <= j < t.len() implies (
        #[trigger] t[i]).last_message_timestamp >= (#[trigger] t[j]).last_message_timestamp by {
            assert(t[i] == s[i] && t[j] == s[j]);
        }
        lemma_sorted_is_settled(t);
        let older = less_recent(s.last().last_message_timestamp);
        assert forall|j: int| 0 <= j < t.len() implies !older(#[trigger] t[j]) by {
            assert(t[j] == s[j]);
            assert(s[j].last_message_timestamp >= s[s.len() - 1].last_message_timestamp);
        }
        lemma_first_where_is(t, older, t.len() as int);
        assert(t.insert(t.len() as int, s.last()) =~= s);
    }
}

/// Rows whose last message has the time `timestamp`.
pub open spec fn of_time(timestamp: i64) -> spec_fn(ConversationRow) -> bool {
    |r: ConversationRow| r.last_message_timestamp == timestamp
}

proof fn lemma_placed_is_stable(sorted: Seq<ConversationRow>, row: ConversationRow, timestamp: i64)
    requires
        most_recent_first(sorted),
    ensures
        placed(sorted, row).filter(of_time(timestamp)) == if row.last_message_timestamp
            == timestamp {
            sorted.filter(of_time(timestamp)).push(row)
        } else {
            sorted.filter(of_time(timestamp))
        },
{
    let same = of_time(timestamp);
    let older = less_recent(row.last_message_timestamp);
    let q = first_where(sorted, older);
    lemma_first_where(sorted, older);
    let front = sorted.subrange(0, q);
    let back = sorted.subrange(q, sorted.len() as int);
    assert(front + back =~= sorted);
    assert(placed(sorted, row) =~= front.push(row) + back);
    Seq::filter_distributes_over_add(front, back, same);
    Seq::filter_distributes_over_add(front.push(row), back, same);
    front.lemma_filter_push(row, same);
    if row.last_message_timestamp == timestamp {
        assert forall|i: int| 0 <= i < back.len() implies !same(#[trigger] back[i]) by {
            assert(back[i] == sorted[q + i]);
            assert(older(sorted[q]));
            assert(sorted[q].last_message_timestamp >= sorted[q + i].last_message_timestamp);
        }
        back.lemma_all_neg_filter_empty(same);
        assert(front.filter(same) + back.filter(same) =~= front.filter(same));
        assert(front.filter(same).push(row) + back.filter(same) =~= front.filter(same).push(row));
    }
}

/// Sorting is stable: the rows of any one time stand in the sorted
/// collection in the order in which they stood before.
pub proof fn lemma_sort_is_stable(s: Seq<ConversationRow>, timestamp: i64)
    ensures
        sorted_by_recency(s).filter(of_time(timestamp)) == s.filter(of_time(timestamp)),
    decreases s.len(),
{
    let same = of_time(timestamp);
    if s.len() == 0 {
        assert(s =~= Seq::<ConversationRow>::empty());
    } else {
        let t = s.drop_last();
        lemma_sort_is_stable(t, timestamp);
        lemma_sorted_by_recency(t);
        lemma_placed_is_stable(sorted_by_recency(t), s.last(), timestamp);
        t.lemma_filter_push(s.last(), same);
        assert(t.push(s.last()) =~= s);
    }
}

/// An event leaves the canonical collection most recent first, and a
/// collection without duplicates without duplicates.
pub proof fn lemma_upsert_keeps_canonical(all: Seq<ConversationRow>, event: ConversationRow)
    ensures
        most_recent_first(upserted(all, event)),
        distinct_conversations(all) ==> distinct_conversations(upserted(all, event)),
        lists(upserted(all, event), event.conversation_id),
{
    let p = for_conversation(event.conversation_id);
    let at = row_of(all, event.conversation_id);
    lemma_first_where(all, p);
    if at < all.len() {
        let row = ConversationRow {
            name: event.name,
            preview: event.preview,
            unread: event.unread,
            last_message_timestamp: event.last_message_timestamp,
            last_message_time: event.last_message_time,
            is_group_chat: event.is_group_chat,
            ..all[at]
        };
        let u = all.update(at, row);
        lemma_sorted_by_recency(u);
        assert(p(u[at]));
        lemma_any_where(u, p);
        assert(lists(sorted_by_recency(u), event.conversation_id) <==> lists(
            u,
            event.conversation_id,
        ));
        if distinct_conversations(all) {
            assert forall|i: int, j: int| 0 <= i < j < u.len() implies (
            #[trigger] u[i]).conversation_id != (#[trigger] u[j]).conversation_id by {
                assert(u[i].conversation_id == all[i].conversation_id);
                assert(u[j].conversation_id == all[j].conversation_id);
            }
        }
    } else {
        let u = all.push(event);
        lemma_sorted_by_recency(u);
        assert(p(u[all.len() as int]));
        lemma_any_where(u, p);
        assert(lists(sorted_by_recency(u), event.conversation_id) <==> lists(
            u,
            event.conversation_id,
        ));
        if distinct_conversations(all) {
            assert forall|i: int, j: int| 0 <= i < j < u.len() implies (
            #[trigger] u[i]).conversation_id != (#[trigger] u[j]).conversation_id by {
                assert(u[i] == all[i]);
                if j < all.len() {
                    assert(u[j] == all[j]);
                } else {
                    assert(!p(all[i]));
                }
            }
        }
    }
}

/// After any run of events, applied to a canonical collection, the
/// collection is canonical: sorted most recent first, one row per
/// conversation.
pub proof fn lemma_upserts_keep_canonical(all: Seq<ConversationRow>, events: Seq<ConversationRow>)
    requires
        canonical(all),
    ensures
        canonical(upserted_all(all, events)),
    decreases events.len(),
{
    if events.len() > 0 {
        lemma_upserts_keep_canonical(all, events.drop_last());
        lemma_upsert_keeps_canonical(upserted_all(all, events.drop_last()), events.last());
    }
}

/// A preview update older than the row it addresses changes nothing, and
/// any preview update leaves a canonical collection canonical.
pub proof fn lemma_preview_update(
    all: Seq<ConversationRow>,
    conversation_id: Seq<char>,
    preview: Seq<char>,
    timestamp_micros: i64,
    last_message_time: Seq<char>,
)
    ensures
        lists(all, conversation_id) && timestamp_micros < all[row_of(
            all,
            conversation_id,
        )].last_message_timestamp ==> with_preview(
            all,
            conversation_id,
            preview,
            timestamp_micros,
            last_message_time,
        ) == all,
        canonical(all) ==> canonical(
            with_preview(all, conversation_id, preview, timestamp_micros, last_message_time),
        ),
{
    let at = row_of(all, conversation_id);
    lemma_first_where(all, for_conversation(conversation_id));
    if at < all.len() && timestamp_micros >= all[at].last_message_timestamp {
        let u = all.update(
            at,
            ConversationRow {
                preview,
                last_message_timestamp: timestamp_micros,
                last_message_time,
                ..all[at]
            },
        );
        lemma_sorted_by_recency(u);
        if distinct_conversations(all) {
            assert forall|i: int, j: int| 0 <= i < j < u.len() implies (
            #[trigger] u[i]).conversation_id != (#[trigger] u[j]).conversation_id by {
                assert(u[i].conversation_id == all[i].conversation_id);
                assert(u[j].conversation_id == all[j].conversation_id);
            }
        }
    }
}

} // verus!
