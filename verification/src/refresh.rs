//! From a fetched page of messages to the candidate timeline of a refresh.

use crate::message::{MessageItem, MessageRow, UploadProgress};
use crate::message_list::authored_by_me;
use crate::seqs::lemma_first_where_is;
use crate::status::{delivery_status, is_info_code, is_info_status, DeliveryStatus};
use crate::text::same_text;
use crate::text_map::TextMap;
use crate::timeline::{older_than, slot_for};
use crate::wire::{
    body_of, extract_message_body, extract_message_id, extract_message_media, id_of, media_of,
    message_status_code, participant_id, participant_id_of, status_code_of, Message, MessageView,
    Participant, ParticipantView,
};
use vstd::prelude::*;

verus! {

/// A media payload that has to be fetched for a row.
#[derive(Debug, PartialEq, Eq)]
pub struct MediaDownload {
    pub message_id: String,
    pub media_id: String,
    pub decryption_key: Vec<u8>,
    pub mime_type: String,
}

/// The mathematical value of a `MediaDownload`.
pub struct MediaDownloadView {
    pub message_id: Seq<char>,
    pub media_id: Seq<char>,
    pub decryption_key: Seq<u8>,
    pub mime_type: Seq<char>,
}

impl View for MediaDownload {
    type V = MediaDownloadView;

    open spec fn view(&self) -> MediaDownloadView {
        MediaDownloadView {
            message_id: self.message_id@,
            media_id: self.media_id@,
            decryption_key: self.decryption_key@,
            mime_type: self.mime_type@,
        }
    }
}

impl DeepView for MediaDownload {
    type V = MediaDownloadView;

    open spec fn deep_view(&self) -> MediaDownloadView {
        self@
    }
}

/// A participant whose avatar is wanted: the participant id and the
/// identifier by which the avatar is asked for.
#[derive(Debug, PartialEq, Eq)]
pub struct AvatarRequest {
    pub participant_id: String,
    pub identifier: String,
}

impl View for AvatarRequest {
    type V = (Seq<char>, Seq<char>);

    open spec fn view(&self) -> (Seq<char>, Seq<char>) {
        (self.participant_id@, self.identifier@)
    }
}

impl DeepView for AvatarRequest {
    type V = (Seq<char>, Seq<char>);

    open spec fn deep_view(&self) -> (Seq<char>, Seq<char>) {
        self@
    }
}

/// What a refresh of one conversation has computed.
#[derive(Debug)]
pub struct RefreshPlan {
    /// The candidate timeline, newest first.
    pub messages: Vec<MessageItem>,
    /// The local user's participant id; empty when it is not known.
    pub me_participant_id: String,
    /// The media that the rows refer to, in the order of the page.
    pub media_downloads: Vec<MediaDownload>,
    /// The avatar identifiers that are not resolved yet, each once.
    pub identifiers_to_fetch: Vec<String>,
    /// The other participants with the identifiers of their avatars.
    pub avatar_identifiers: Vec<AvatarRequest>,
    /// The message to report as read: the last of the candidate.
    pub mark_read: Option<String>,
}

/// The local user's participant id: that of the last participant marked as
/// the local user; empty when none is.
pub open spec fn me_id_of(participants: Seq<ParticipantView>) -> Seq<char>
    decreases participants.len(),
{
    if participants.len() == 0 {
        Seq::empty()
    } else if participants.last().is_me {
        participant_id_of(participants.last())
    } else {
        me_id_of(participants.drop_last())
    }
}

/// What a participant's avatar is asked for by: the contact id, or the
/// participant id where there is no contact id.
pub open spec fn avatar_identifier_of(participant: ParticipantView) -> Seq<char> {
    if participant.contact_id.len() > 0 {
        participant.contact_id
    } else {
        participant_id_of(participant)
    }
}

/// The avatar requests of a conversation: one for each participant other
/// than the local user that has an identifier.
pub open spec fn avatar_requests(participants: Seq<ParticipantView>) -> Seq<
    (Seq<char>, Seq<char>),
>
    decreases participants.len(),
{
    if participants.len() == 0 {
        Seq::empty()
    } else {
        let rest = avatar_requests(participants.drop_last());
        let p = participants.last();
        if !p.is_me && avatar_identifier_of(p).len() > 0 {
            rest.push((participant_id_of(p), avatar_identifier_of(p)))
        } else {
            rest
        }
    }
}

/// The avatar addresses already known, by participant id. Of two requests
/// for one participant the later one counts.
pub open spec fn known_avatars(
    requests: Seq<(Seq<char>, Seq<char>)>,
    avatars: Map<Seq<char>, Seq<char>>,
) -> Map<Seq<char>, Seq<char>>
    decreases requests.len(),
{
    if requests.len() == 0 {
        Map::empty()
    } else {
        let rest = known_avatars(requests.drop_last(), avatars);
        let r = requests.last();
        if avatars.dom().contains(r.1) {
            rest.insert(r.0, avatars[r.1])
        } else {
            rest
        }
    }
}

/// The identifiers among `requests` that `avatars` does not resolve, each
/// once, in the order of their first request.
pub open spec fn missing_identifiers(
    requests: Seq<(Seq<char>, Seq<char>)>,
    avatars: Map<Seq<char>, Seq<char>>,
) -> Seq<Seq<char>>
    decreases requests.len(),
{
    if requests.len() == 0 {
        Seq::empty()
    } else {
        let rest = missing_identifiers(requests.drop_last(), avatars);
        let r = requests.last();
        if !avatars.dom().contains(r.1) && !rest.contains(r.1) {
            rest.push(r.1)
        } else {
            rest
        }
    }
}

/// The row that a fetched message becomes; none for a message with
/// neither text nor media.
pub open spec fn row_of_message(
    message: MessageView,
    me_participant_id: Seq<char>,
    avatars_by_participant: Map<Seq<char>, Seq<char>>,
) -> Option<MessageRow> {
    let body = body_of(message.message_info);
    let media = media_of(message.message_info);
    if body.len() == 0 && media is None {
        None
    } else {
        let from_me = authored_by_me(me_participant_id, message.participant_id);
        Some(
            MessageRow {
                body,
                from_me,
                transport_type: message.transport_type,
                timestamp_micros: message.timestamp,
                message_id: id_of(message),
                status: delivery_status(status_code_of(message), from_me),
                media_url: Seq::empty(),
                is_media: media is Some,
                avatar_url: if !from_me && message.participant_id.len() > 0
                    && avatars_by_participant.dom().contains(message.participant_id) {
                    avatars_by_participant[message.participant_id]
                } else {
                    Seq::empty()
                },
                is_info: is_info_code(status_code_of(message)),
                participant_id: message.participant_id,
                mime_type: match media {
                    Some(m) => m.mime_type,
                    None => Seq::empty(),
                },
                thumbnail_url: Seq::empty(),
                upload_progress: UploadProgress::Complete,
            },
        )
    }
}

/// The rows of a page of messages, in the order of the page.
pub open spec fn rows_of(
    messages: Seq<MessageView>,
    me_participant_id: Seq<char>,
    avatars_by_participant: Map<Seq<char>, Seq<char>>,
) -> Seq<MessageRow>
    decreases messages.len(),
{
    if messages.len() == 0 {
        Seq::empty()
    } else {
        let rest = rows_of(messages.drop_last(), me_participant_id, avatars_by_participant);
        match row_of_message(messages.last(), me_participant_id, avatars_by_participant) {
            Some(row) => rest.push(row),
            None => rest,
        }
    }
}

/// The media to fetch for a page of messages, in the order of the page.
pub open spec fn downloads_of(messages: Seq<MessageView>) -> Seq<MediaDownloadView>
    decreases messages.len(),
{
    if messages.len() == 0 {
        Seq::empty()
    } else {
        let rest = downloads_of(messages.drop_last());
        match media_of(messages.last().message_info) {
            Some(m) => rest.push(
                MediaDownloadView {
                    message_id: id_of(messages.last()),
                    media_id: m.media_id,
                    decryption_key: m.decryption_key,
                    mime_type: m.mime_type,
                },
            ),
            None => rest,
        }
    }
}

/// The rows of `rows` newest first. Rows of equal time keep the order they
/// have in `rows`.
pub open spec fn newest_first_order(rows: Seq<MessageRow>) -> Seq<MessageRow>
    decreases rows.len(),
{
    if rows.len() == 0 {
        Seq::empty()
    } else {
        let sorted = newest_first_order(rows.drop_last());
        sorted.insert(slot_for(sorted, rows.last().timestamp_micros), rows.last())
    }
}

/// The message to report as read: the last row of the candidate, if it has
/// an id.
pub open spec fn read_marker(candidate: Seq<MessageRow>) -> Option<Seq<char>> {
    if candidate.len() > 0 && candidate.last().message_id.len() > 0 {
        Some(candidate.last().message_id)
    } else {
        None
    }
}

/// Whether `texts` holds `text`.
pub fn holds_text(texts: &Vec<String>, text: &str) -> (found: bool)
    ensures
        found == texts.deep_view().contains(text@),
{
    let mut i: usize = 0;
    while i < texts.len()
        invariant
            i <= texts.len(),
            forall|j: int| 0 <= j < i ==> texts.deep_view()[j] != text@,
        decreases texts.len() - i,
    {
        if same_text(texts[i].as_str(), text) {
            assert(texts.deep_view()[i as int] == text@);
            return true;
        }
        i += 1;
    }
    false
}

/// Sorts rows newest first; rows of equal time keep their order.
pub fn sort_newest_first(rows: &mut Vec<MessageItem>)
    ensures
        final(rows).deep_view() == newest_first_order(old(rows).deep_view()),
{
    let ghost all = rows.deep_view();
    let mut source: Vec<MessageItem> = Vec::new();
    core::mem::swap(rows, &mut source);
    let mut k: usize = 0;
    let total = source.len();
    assert(rows.deep_view() =~= newest_first_order(all.take(0)));
    assert(source.deep_view() =~= all.skip(0));
    while source.len() > 0
        invariant
            k <= total,
            total == all.len(),
            source.len() == total - k,
            source.deep_view() == all.skip(k as int),
            rows.deep_view() == newest_first_order(all.take(k as int)),
        decreases source.len(),
    {
        let ghost rest = source.deep_view();
        let ghost done = rows.deep_view();
        let item = source.remove(0);
        assert(source.deep_view() =~= rest.remove(0));
        assert(rest.remove(0) =~= all.skip(k as int + 1));
        let ghost p = older_than(item.timestamp_micros);
        let mut at: usize = 0;
        while at < rows.len() && rows[at].timestamp_micros >= item.timestamp_micros
            invariant
                at <= rows.len(),
                rows.deep_view() == done,
                p == older_than(item.timestamp_micros),
                forall|j: int| 0 <= j < at ==> !p(#[trigger] done[j]),
            decreases rows.len() - at,
        {
            at += 1;
        }
        proof {
            if at < rows.len() {
                assert(p(done[at as int]));
            }
            lemma_first_where_is(done, p, at as int);
            assert(all.take(k as int + 1).drop_last() =~= all.take(k as int));
            assert(all.take(k as int + 1).last() == all[k as int]);
            assert(rest[0] == all[k as int]);
        }
        let ghost row = item@;
        rows.insert(at, item);
        assert(rows.deep_view() =~= done.insert(at as int, row));
        k += 1;
    }
    assert(all.take(total as int) =~= all);
}

/// The local user's participant id and the avatar requests of the others.
pub fn survey_participants(participants: &Vec<Participant>) -> (found: (String, Vec<AvatarRequest>))
    ensures
        found.0@ == me_id_of(participants.deep_view()),
        found.1.deep_view() == avatar_requests(participants.deep_view()),
{
    let ghost all = participants.deep_view();
    let mut me = String::new();
    let mut requests: Vec<AvatarRequest> = Vec::new();
    let mut i: usize = 0;
    assert(requests.deep_view() =~= avatar_requests(all.take(0)));
    while i < participants.len()
        invariant
            i <= participants.len(),
            all == participants.deep_view(),
            me@ == me_id_of(all.take(i as int)),
            requests.deep_view() == avatar_requests(all.take(i as int)),
        decreases participants.len() - i,
    {
        let p = &participants[i];
        proof {
            assert(all.take(i as int + 1).drop_last() =~= all.take(i as int));
            assert(all.take(i as int + 1).last() == all[i as int]);
            assert(p@ == all[i as int]);
        }
        let pid = participant_id(p);
        if p.is_me {
            me = pid;
        } else {
            let identifier = if !p.contact_id.is_empty() {
                p.contact_id.clone()
            } else {
                pid.clone()
            };
            if !identifier.is_empty() {
                let ghost prior = requests.deep_view();
                requests.push(AvatarRequest { participant_id: pid, identifier });
                assert(requests.deep_view() =~= prior.push(
                    (participant_id_of(all[i as int]), avatar_identifier_of(all[i as int])),
                ));
            }
        }
        i += 1;
    }
    assert(all.take(participants.len() as int) =~= all);
    (me, requests)
}

/// Splits the avatar requests into the addresses already known, by
/// participant id, and the identifiers still to fetch.
pub fn resolve_requests(requests: &Vec<AvatarRequest>, avatars: &TextMap) -> (found: (
    TextMap,
    Vec<String>,
))
    ensures
        found.0@ == known_avatars(requests.deep_view(), avatars@),
        found.1.deep_view() == missing_identifiers(requests.deep_view(), avatars@),
{
    let ghost all = requests.deep_view();
    let mut known = TextMap::new();
    let mut missing: Vec<String> = Vec::new();
    let mut i: usize = 0;
    assert(missing.deep_view() =~= missing_identifiers(all.take(0), avatars@));
    while i < requests.len()
        invariant
            i <= requests.len(),
            all == requests.deep_view(),
            known@ == known_avatars(all.take(i as int), avatars@),
            missing.deep_view() == missing_identifiers(all.take(i as int), avatars@),
        decreases requests.len() - i,
    {
        let r = &requests[i];
        proof {
            assert(all.take(i as int + 1).drop_last() =~= all.take(i as int));
            assert(all.take(i as int + 1).last() == all[i as int]);
            assert(r@ == all[i as int]);
        }
        match avatars.get(r.identifier.as_str()) {
            Some(url) => {
                known.insert(r.participant_id.clone(), url.clone());
            },
            None => {
                if !holds_text(&missing, r.identifier.as_str()) {
                    let ghost prior = missing.deep_view();
                    missing.push(r.identifier.clone());
                    assert(missing.deep_view() =~= prior.push(all[i as int].1));
                }
            },
        }
        i += 1;
    }
    assert(all.take(requests.len() as int) =~= all);
    (known, missing)
}

/// The candidate rows and the media downloads of a page of messages.
pub fn rows_of_page(messages: &Vec<Message>, me_participant_id: &str, avatars_by_participant: &TextMap) -> (found:
    (Vec<MessageItem>, Vec<MediaDownload>))
    ensures
        found.0.deep_view() == rows_of(
            messages.deep_view(),
            me_participant_id@,
            avatars_by_participant@,
        ),
        found.1.deep_view() == downloads_of(messages.deep_view()),
{
    let ghost all = messages.deep_view();
    let ghost me = me_participant_id@;
    let ghost by = avatars_by_participant@;
    let mut rows: Vec<MessageItem> = Vec::new();
    let mut downloads: Vec<MediaDownload> = Vec::new();
    let mut i: usize = 0;
    assert(rows.deep_view() =~= rows_of(all.take(0), me, by));
    assert(downloads.deep_view() =~= downloads_of(all.take(0)));
    while i < messages.len()
        invariant
            i <= messages.len(),
            all == messages.deep_view(),
            me == me_participant_id@,
            by == avatars_by_participant@,
            rows.deep_view() == rows_of(all.take(i as int), me, by),
            downloads.deep_view() == downloads_of(all.take(i as int)),
        decreases messages.len() - i,
    {
        let message = &messages[i];
        proof {
            assert(all.take(i as int + 1).drop_last() =~= all.take(i as int));
            assert(all.take(i as int + 1).last() == all[i as int]);
            assert(message@ == all[i as int]);
        }
        let body = extract_message_body(message);
        let media = extract_message_media(message);
        if !(body.is_empty() && media.is_none()) {
            let from_me = !me_participant_id.is_empty() && same_text(
                message.participant_id.as_str(),
                me_participant_id,
            );
            let status_code = message_status_code(message);
            let message_id = extract_message_id(message);
            let is_media = media.is_some();
            let mime_type = match media {
                Some(m) => {
                    let mime = m.mime_type.clone();
                    let ghost prior = downloads.deep_view();
                    downloads.push(
                        MediaDownload {
                            message_id: message_id.clone(),
                            media_id: m.media_id,
                            decryption_key: m.decryption_key,
                            mime_type: m.mime_type,
                        },
                    );
                    assert(downloads.deep_view() =~= prior.push(
                        MediaDownloadView {
                            message_id: id_of(all[i as int]),
                            media_id: media_of(all[i as int].message_info)->0.media_id,
                            decryption_key: media_of(all[i as int].message_info)->0.decryption_key,
                            mime_type: media_of(all[i as int].message_info)->0.mime_type,
                        },
                    ));
                    mime
                },
                None => String::new(),
            };
            let mut avatar_url = String::new();
            if !from_me && !message.participant_id.is_empty() {
                match avatars_by_participant.get(message.participant_id.as_str()) {
                    Some(url) => {
                        avatar_url = url.clone();
                    },
                    None => {},
                }
            }
            let item = MessageItem {
                body,
                from_me,
                transport_type: message.transport_type,
                timestamp_micros: message.timestamp,
                message_id,
                status: DeliveryStatus::from_code(status_code, from_me),
                media_url: String::new(),
                is_media,
                avatar_url,
                is_info: is_info_status(status_code),
                participant_id: message.participant_id.clone(),
                mime_type,
                thumbnail_url: String::new(),
                upload_progress: UploadProgress::Complete,
            };
            let ghost prior = rows.deep_view();
            let ghost row = item@;
            rows.push(item);
            assert(rows.deep_view() =~= prior.push(row));
            assert(Some(row) == row_of_message(all[i as int], me, by));
        }
        i += 1;
    }
    assert(all.take(messages.len() as int) =~= all);
    (rows, downloads)
}

/// Computes what a refresh publishes, from the fetched page of messages,
/// the participants of the conversation and the avatars resolved so far.
pub fn plan_refresh(messages: &Vec<Message>, participants: &Vec<Participant>, avatars: &TextMap) -> (plan:
    RefreshPlan)
    ensures
        ({
            let me = me_id_of(participants.deep_view());
            let requests = avatar_requests(participants.deep_view());
            let candidate = newest_first_order(
                rows_of(messages.deep_view(), me, known_avatars(requests, avatars@)),
            );
            &&& plan.me_participant_id@ == me
            &&& plan.avatar_identifiers.deep_view() == requests
            &&& plan.identifiers_to_fetch.deep_view() == missing_identifiers(requests, avatars@)
            &&& plan.messages.deep_view() == candidate
            &&& plan.media_downloads.deep_view() == downloads_of(messages.deep_view())
            &&& match plan.mark_read {
                Some(id) => read_marker(candidate) == Some(id@),
                None => read_marker(candidate) is None,
            }
        }),
{
    let (me_participant_id, avatar_identifiers) = survey_participants(participants);
    let (known, identifiers_to_fetch) = resolve_requests(&avatar_identifiers, avatars);
    let (mut rows, media_downloads) = rows_of_page(messages, me_participant_id.as_str(), &known);
    sort_newest_first(&mut rows);
    let mark_read = if rows.len() > 0 && !rows[rows.len() - 1].message_id.is_empty() {
        assert(rows.deep_view().last() == rows[rows.len() - 1]@);
        Some(rows[rows.len() - 1].message_id.clone())
    } else {
        None
    };
    RefreshPlan {
        messages: rows,
        me_participant_id,
        media_downloads,
        identifiers_to_fetch,
        avatar_identifiers,
        mark_read,
    }
}

} // verus!
