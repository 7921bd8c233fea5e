//! What holds of optimistic rows and their confirmation.

use crate::message::MessageRow;
use crate::message_list::{
    after_event, confirmed_row, event_target, incoming_row, outgoing_text_row, upload_index,
    upload_of, with_failed, without_id, without_upload,
};
use crate::uploads::with_upload;
use crate::seqs::{first_where, lemma_first_where, lemma_first_where_is};
use crate::status::{delivery_status, DeliveryStatus};
use crate::text::is_blank;
use crate::timeline::{
    has_id, index_of_id, newest_first, older_than, slot_for, unique_ids, with_id,
};
use vstd::prelude::*;

verus! {

/// A row sent under the provisional id `provisional_id` and then confirmed
/// by an event that carries that id and the server's id `server_id` is one
/// row under the server's id: the row count is that after the send, the row
/// stands where it stood, no other row has the server's id, and none has
/// the provisional id any more.
///
/// The timeline must not hold the server's id already, nor the provisional
/// id before the send.
pub proof fn lemma_confirmation_keeps_one_row(
    t: Seq<MessageRow>,
    body: Seq<char>,
    provisional_id: Seq<char>,
    now_micros: i64,
    from_me: bool,
    participant_id: Seq<char>,
    event_body: Seq<char>,
    transport_type: i64,
    server_id: Seq<char>,
    timestamp_micros: i64,
    status_code: i32,
    is_media: bool,
)
    requires
        unique_ids(t),
        provisional_id.len() > 0,
        server_id.len() > 0,
        !has_id(t, provisional_id),
        !has_id(t, server_id),
    ensures
        ({
            let sent = t.insert(0, outgoing_text_row(body, provisional_id, now_micros));
            let done = after_event(
                sent,
                from_me,
                participant_id,
                event_body,
                transport_type,
                server_id,
                provisional_id,
                timestamp_micros,
                status_code,
                is_media,
            );
            &&& done.len() == sent.len()
            &&& done[0] == confirmed_row(
                sent[0],
                delivery_status(status_code, from_me),
                server_id,
            )
            &&& done[0].message_id == server_id
            &&& forall|i: int| 0 < i < done.len() ==> #[trigger] done[i] == t[i - 1]
            &&& forall|i: int| 0 < i < done.len() ==> (#[trigger] done[i]).message_id != server_id
            &&& server_id != provisional_id ==> !has_id(done, provisional_id)
            &&& unique_ids(done)
        }),
{
    let sent = t.insert(0, outgoing_text_row(body, provisional_id, now_micros));
    let target = event_target(server_id, provisional_id);
    assert(target(sent[0]));
    lemma_first_where_is(sent, target, 0);
    let done = after_event(
        sent,
        from_me,
        participant_id,
        event_body,
        transport_type,
        server_id,
        provisional_id,
        timestamp_micros,
        status_code,
        is_media,
    );
    lemma_first_where(t, with_id(server_id));
    lemma_first_where(t, with_id(provisional_id));
    assert forall|i: int| 0 < i < done.len() implies #[trigger] done[i] == t[i - 1] by {
        assert(sent[i] == t[i - 1]);
    }
    assert forall|i: int| 0 < i < done.len() implies (#[trigger] done[i]).message_id
        != server_id by {
        assert(done[i] == t[i - 1]);
        assert(!with_id(server_id)(t[i - 1]));
    }
    if server_id != provisional_id {
        let p = with_id(provisional_id);
        assert forall|j: int| 0 <= j < done.len() implies !p(#[trigger] done[j]) by {
            if j > 0 {
                assert(done[j] == t[j - 1]);
                assert(!p(t[j - 1]));
            }
        }
        lemma_first_where_is(done, p, done.len() as int);
    }
    assert forall|i: int, j: int| 0 <= i < j < done.len() implies (#[trigger] done[i]).message_id
        != (#[trigger] done[j]).message_id by {
        assert(done[j] == t[j - 1]);
        if i == 0 {
            assert(!with_id(server_id)(t[j - 1]));
        } else {
            assert(done[i] == t[i - 1]);
        }
    }
}

/// An event keeps a newest-first timeline newest first. It keeps ids
/// distinct where the id it carries is new to the timeline, or is the id of
/// the row it confirms.
pub proof fn lemma_event_keeps_order(
    t: Seq<MessageRow>,
    from_me: bool,
    participant_id: Seq<char>,
    body: Seq<char>,
    transport_type: i64,
    message_id: Seq<char>,
    tmp_id: Seq<char>,
    timestamp_micros: i64,
    status_code: i32,
    is_media: bool,
)
    ensures
        ({
            let done = after_event(
                t,
                from_me,
                participant_id,
                body,
                transport_type,
                message_id,
                tmp_id,
                timestamp_micros,
                status_code,
                is_media,
            );
            let at = first_where(t, event_target(message_id, tmp_id));
            &&& newest_first(t) ==> newest_first(done)
            &&& unique_ids(t) && (!has_id(t, message_id) || (at < t.len() && t[at].message_id
                == message_id)) ==> unique_ids(done)
        }),
{
    let target = event_target(message_id, tmp_id);
    let at = first_where(t, target);
    lemma_first_where(t, target);
    lemma_first_where(t, with_id(message_id));
    lemma_first_where(t, with_id(tmp_id));
    let done = after_event(
        t,
        from_me,
        participant_id,
        body,
        transport_type,
        message_id,
        tmp_id,
        timestamp_micros,
        status_code,
        is_media,
    );
    let row = incoming_row(
        from_me,
        participant_id,
        body,
        transport_type,
        message_id,
        timestamp_micros,
        status_code,
        is_media,
    );
    if at < t.len() {
        if unique_ids(t) && (!has_id(t, message_id) || t[at].message_id == message_id) {
            assert forall|i: int, j: int| 0 <= i < j < done.len() implies (
            #[trigger] done[i]).message_id != (#[trigger] done[j]).message_id by {
                if i != at {
                    assert(done[i] == t[i]);
                    assert(!has_id(t, message_id) ==> !with_id(message_id)(t[i]));
                }
                if j != at {
                    assert(done[j] == t[j]);
                    assert(!has_id(t, message_id) ==> !with_id(message_id)(t[j]));
                }
            }
        }
    } else if !(is_blank(body) && !is_media) {
        let older = older_than(timestamp_micros);
        let q = slot_for(t, timestamp_micros);
        lemma_first_where(t, older);
        if newest_first(t) {
            assert forall|i: int, j: int| 0 <= i <= j < done.len() implies (
            #[trigger] done[i]).timestamp_micros >= (#[trigger] done[j]).timestamp_micros by {
                let oi = if i < q { i } else { i - 1 };
                let oj = if j < q { j } else { j - 1 };
                if i == q && j == q {
                } else if i == q {
                    assert(done[j] == t[oj]);
                    assert(older(t[q]));
                    assert(t[q].timestamp_micros >= t[oj].timestamp_micros);
                } else if j == q {
                    assert(done[i] == t[oi]);
                    assert(!older(t[oi]));
                } else {
                    assert(done[i] == t[oi]);
                    assert(done[j] == t[oj]);
                }
            }
        }
        if unique_ids(t) && !has_id(t, message_id) {
            assert forall|i: int, j: int| 0 <= i < j < done.len() implies (
            #[trigger] done[i]).message_id != (#[trigger] done[j]).message_id by {
                let oi = if i < q { i } else { i - 1 };
                let oj = if j < q { j } else { j - 1 };
                if i == q {
                    assert(done[j] == t[oj]);
                    assert(!with_id(message_id)(t[oj]));
                } else if j == q {
                    assert(done[i] == t[oi]);
                    assert(!with_id(message_id)(t[oi]));
                } else {
                    assert(done[i] == t[oi]);
                    assert(done[j] == t[oj]);
                }
            }
        }
    }
}

/// An event that carries the server's id `server_id` and the provisional id
/// `provisional_id` confirms the one row that carries the provisional id:
/// that row takes the server's id where it stands, with its body and time
/// as they were; every other row stays as it is and where it is; no row
/// carries the provisional id any more, and one row alone the server's.
///
/// The timeline must hold no id twice and must not hold the server's id
/// already.
pub proof fn lemma_event_confirms_provisional_row(
    t: Seq<MessageRow>,
    from_me: bool,
    participant_id: Seq<char>,
    body: Seq<char>,
    transport_type: i64,
    server_id: Seq<char>,
    provisional_id: Seq<char>,
    timestamp_micros: i64,
    status_code: i32,
    is_media: bool,
)
    requires
        unique_ids(t),
        provisional_id.len() > 0,
        server_id.len() > 0,
        has_id(t, provisional_id),
        !has_id(t, server_id),
    ensures
        ({
            let at = index_of_id(t, provisional_id);
            let done = after_event(
                t,
                from_me,
                participant_id,
                body,
                transport_type,
                server_id,
                provisional_id,
                timestamp_micros,
                status_code,
                is_media,
            );
            &&& 0 <= at < t.len()
            &&& first_where(t, event_target(server_id, provisional_id)) == at
            &&& done.len() == t.len()
            &&& done[at] == confirmed_row(t[at], delivery_status(status_code, from_me), server_id)
            &&& done[at].message_id == server_id
            &&& done[at].body == t[at].body
            &&& done[at].timestamp_micros == t[at].timestamp_micros
            &&& forall|i: int| 0 <= i < t.len() && i != at ==> #[trigger] done[i] == t[i]
            &&& forall|i: int|
                0 <= i < t.len() && i != at ==> (#[trigger] done[i]).message_id != server_id
            &&& server_id != provisional_id ==> !has_id(done, provisional_id)
            &&& unique_ids(done)
        }),
{
    let target = event_target(server_id, provisional_id);
    let named = with_id(provisional_id);
    let at = index_of_id(t, provisional_id);
    lemma_first_where(t, named);
    lemma_first_where(t, with_id(server_id));
    assert(target(t[at]));
    assert forall|j: int| 0 <= j < at implies !target(#[trigger] t[j]) by {
        assert(!named(t[j]));
        assert(!with_id(server_id)(t[j]));
    }
    lemma_first_where_is(t, target, at);
    let done = after_event(
        t,
        from_me,
        participant_id,
        body,
        transport_type,
        server_id,
        provisional_id,
        timestamp_micros,
        status_code,
        is_media,
    );
    assert forall|i: int| 0 <= i < t.len() && i != at implies (#[trigger] done[i]).message_id
        != server_id by {
        assert(done[i] == t[i]);
        assert(!with_id(server_id)(t[i]));
    }
    if server_id != provisional_id {
        assert forall|j: int| 0 <= j < done.len() implies !named(#[trigger] done[j]) by {
            if j != at {
                assert(done[j] == t[j]);
                assert(t[j].message_id != t[at].message_id);
            }
        }
        lemma_first_where_is(done, named, done.len() as int);
    }
    assert forall|i: int, j: int| 0 <= i < j < done.len() implies (#[trigger] done[i]).message_id
        != (#[trigger] done[j]).message_id by {
        if i != at {
            assert(done[i] == t[i]);
            assert(!with_id(server_id)(t[i]));
        }
        if j != at {
            assert(done[j] == t[j]);
            assert(!with_id(server_id)(t[j]));
        }
    }
}

/// Deleting a message from a timeline that holds no id twice removes its
/// row outright: no row carries the id afterwards, the timeline is one row
/// shorter, and the other rows keep their content and their order.
pub proof fn lemma_delete_removes_the_row(t: Seq<MessageRow>, id: Seq<char>)
    requires
        unique_ids(t),
        has_id(t, id),
    ensures
        ({
            let at = index_of_id(t, id);
            let left = without_id(t, id);
            &&& left.len() == t.len() - 1
            &&& !has_id(left, id)
            &&& forall|i: int| 0 <= i < at ==> #[trigger] left[i] == t[i]
            &&& forall|i: int| at <= i < left.len() ==> #[trigger] left[i] == t[i + 1]
            &&& unique_ids(left)
        }),
{
    let named = with_id(id);
    let at = index_of_id(t, id);
    let left = without_id(t, id);
    lemma_first_where(t, named);
    assert forall|j: int| 0 <= j < left.len() implies !named(#[trigger] left[j]) by {
        let o = if j < at { j } else { j + 1 };
        assert(left[j] == t[o]);
        assert(t[o].message_id != t[at].message_id);
    }
    lemma_first_where_is(left, named, left.len() as int);
    assert forall|i: int, j: int| 0 <= i < j < left.len() implies (#[trigger] left[i]).message_id
        != (#[trigger] left[j]).message_id by {
        let oi = if i < at { i } else { i + 1 };
        let oj = if j < at { j } else { j + 1 };
        assert(left[i] == t[oi]);
        assert(left[j] == t[oj]);
    }
}

/// No upload is registered twice.
pub open spec fn no_repeats(uploads: Seq<Seq<char>>) -> bool {
    forall|i: int, j: int|
        0 <= i < j < uploads.len() ==> !equal(#[trigger] uploads[i], #[trigger] uploads[j])
}

/// Registering an upload and taking one off the register keep the register
/// free of repeats; an upload taken off is on it no more, and the others
/// stay.
pub proof fn lemma_upload_register(uploads: Seq<Seq<char>>, id: Seq<char>)
    requires
        no_repeats(uploads),
    ensures
        no_repeats(with_upload(uploads, id)),
        upload_index(with_upload(uploads, id), id) < with_upload(uploads, id).len(),
        no_repeats(without_upload(uploads, id)),
        upload_index(without_upload(uploads, id), id) >= without_upload(uploads, id).len(),
        forall|other: Seq<char>|
            other != id ==> (#[trigger] without_upload(uploads, id).contains(other)
                <==> uploads.contains(other)),
{
    let p = upload_of(id);
    let at = upload_index(uploads, id);
    lemma_first_where(uploads, p);
    let more = with_upload(uploads, id);
    let less = without_upload(uploads, id);
    if at >= uploads.len() {
        assert forall|i: int, j: int| 0 <= i < j < more.len() implies !equal(
            #[trigger] more[i],
            #[trigger] more[j],
        ) by {
            assert(more[i] == uploads[i]);
            if j < uploads.len() {
                assert(more[j] == uploads[j]);
            } else {
                assert(!p(uploads[i]));
            }
        }
        assert forall|j: int| 0 <= j < uploads.len() implies !p(#[trigger] more[j]) by {
            assert(more[j] == uploads[j]);
        }
        assert(p(more[uploads.len() as int]));
        lemma_first_where_is(more, p, uploads.len() as int);
    } else {
        assert forall|i: int, j: int| 0 <= i < j < less.len() implies !equal(
            #[trigger] less[i],
            #[trigger] less[j],
        ) by {
            let oi = if i < at { i } else { i + 1 };
            let oj = if j < at { j } else { j + 1 };
            assert(less[i] == uploads[oi]);
            assert(less[j] == uploads[oj]);
        }
        assert forall|j: int| 0 <= j < less.len() implies !p(#[trigger] less[j]) by {
            let o = if j < at { j } else { j + 1 };
            assert(less[j] == uploads[o]);
            assert(uploads[o] != uploads[at]);
        }
        lemma_first_where_is(less, p, less.len() as int);
        assert forall|other: Seq<char>| other != id implies (#[trigger] less.contains(other)
            <==> uploads.contains(other)) by {
            if less.contains(other) {
                let j = choose|j: int| 0 <= j < less.len() && less[j] == other;
                let o = if j < at { j } else { j + 1 };
                assert(uploads[o] == other);
            }
            if uploads.contains(other) {
                let o = choose|o: int| 0 <= o < uploads.len() && uploads[o] == other;
                let j = if o < at { o } else { o - 1 };
                assert(less[j] == other);
            }
        }
    }
}

/// An upload that is cancelled by deleting its row leaves no trace: once
/// the row is deleted and the upload has ended, the timeline and the
/// register of uploads are as they were before the send. The row is gone,
/// not marked as failed.
///
/// The provisional id must be new to the timeline and to the register.
pub proof fn lemma_cancelled_upload_leaves_no_trace(
    t: Seq<MessageRow>,
    uploads: Seq<Seq<char>>,
    row: MessageRow,
)
    requires
        !has_id(t, row.message_id),
        upload_index(uploads, row.message_id) >= uploads.len(),
    ensures
        ({
            let id = row.message_id;
            let sent = t.insert(0, row);
            let registered = with_upload(uploads, id);
            // the deletion finds the row and the upload
            &&& index_of_id(sent, id) == 0
            &&& upload_index(registered, id) < registered.len()
            // and undoes the send
            &&& without_id(sent, id) == t
            &&& without_upload(registered, id) == uploads
            // the end of the cancelled upload finds nothing left to change
            &&& without_upload(uploads, id) == uploads
            &&& with_failed(t, id) == t
        }),
{
    let id = row.message_id;
    let sent = t.insert(0, row);
    let registered = with_upload(uploads, id);
    let named = with_id(id);
    let p = upload_of(id);
    assert(named(sent[0]));
    lemma_first_where_is(sent, named, 0);
    assert(sent.remove(0) =~= t);
    lemma_first_where(uploads, p);
    lemma_first_where(t, named);
    assert forall|j: int| 0 <= j < uploads.len() implies !p(#[trigger] registered[j]) by {
        assert(registered[j] == uploads[j]);
    }
    assert(p(registered[uploads.len() as int]));
    lemma_first_where_is(registered, p, uploads.len() as int);
    assert(registered.remove(uploads.len() as int) =~= uploads);
}

/// Deleting an optimistic row that was put at the head of the timeline
/// gives back the timeline as it was: the row is gone, not marked failed,
/// and no other row has changed.
pub proof fn lemma_delete_undoes_optimistic_row(t: Seq<MessageRow>, row: MessageRow)
    ensures
        without_id(t.insert(0, row), row.message_id) == t,
        !has_id(t, row.message_id) ==> !has_id(without_id(t.insert(0, row), row.message_id), row.message_id),
{
    let sent = t.insert(0, row);
    let p = with_id(row.message_id);
    assert(p(sent[0]));
    lemma_first_where_is(sent, p, 0);
    assert(sent.remove(0) =~= t);
}

/// Marking a send as failed touches the row of that send and no other, and
/// changes nothing when the row is gone.
pub proof fn lemma_failure_marks_one_row(t: Seq<MessageRow>, id: Seq<char>)
    ensures
        with_failed(t, id).len() == t.len(),
        !has_id(t, id) ==> with_failed(t, id) == t,
        forall|i: int|
            0 <= i < t.len() && i != index_of_id(t, id) ==> #[trigger] with_failed(t, id)[i]
                == t[i],
        has_id(t, id) ==> with_failed(t, id)[index_of_id(t, id)].status
            == DeliveryStatus::Failed,
{
    lemma_first_where(t, with_id(id));
}

} // verus!
