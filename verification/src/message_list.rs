//! The message timeline of the visible conversation, with its optimistic
//! rows, and the cache of the timelines seen before.

use crate::auth::{auth_failure_text, is_auth_error};
use crate::cache::{
    entry_index, holds, stored, well_formed, CachedTimelineView, ConversationCache,
};
use crate::clock::now_micros;
use crate::ids::new_provisional_id;
use crate::message::{clone_rows, MessageItem, MessageRow, UploadProgress};
use crate::seqs::{first_where, lemma_first_where_is};
use crate::status::{delivery_status, is_info_code, is_info_status, DeliveryStatus};
use crate::text::{is_blank, lemma_trimmed_empty_iff_blank, same_text, trim, trimmed};
use crate::timeline::{
    find_by_id, has_id, index_of_id, insert_in_order, reconcile, reconciled, slot_for,
};
use vstd::prelude::*;

verus! {

/// The transport type given to rows that are created locally.
pub const LOCAL_TRANSPORT_TYPE: i64 = 4;

/// State of the message list: the visible timeline and what belongs to it.
#[derive(Debug)]
pub struct MessageListRust {
    /// True while the first load of a conversation is under way.
    pub loading: bool,
    /// The visible timeline, newest row first.
    pub messages: Vec<MessageItem>,
    /// The conversation on display; empty when there is none.
    pub selected_conversation_id: String,
    /// The local user's participant id in that conversation.
    pub me_participant_id: String,
    /// Timelines of recently viewed conversations.
    pub cache: ConversationCache,
    /// Provisional ids of the uploads that can still be cancelled.
    pub upload_cancellations: Vec<String>,
}

/// The message list as the view addresses it.
pub type MessageList = MessageListRust;

/// The mathematical value of a `MessageListRust`.
pub struct MessageListState {
    pub loading: bool,
    pub messages: Seq<MessageRow>,
    pub selected_conversation_id: Seq<char>,
    pub me_participant_id: Seq<char>,
    pub cache: Seq<CachedTimelineView>,
    pub upload_cancellations: Seq<Seq<char>>,
}

impl View for MessageListRust {
    type V = MessageListState;

    open spec fn view(&self) -> MessageListState {
        MessageListState {
            loading: self.loading,
            messages: self.messages.deep_view(),
            selected_conversation_id: self.selected_conversation_id@,
            me_participant_id: self.me_participant_id@,
            cache: self.cache@,
            upload_cancellations: self.upload_cancellations.deep_view(),
        }
    }
}

/// How a request to show a conversation was taken up.
#[derive(Clone, Copy, Debug, PartialEq, Eq, Structural)]
pub enum LoadStart {
    /// No conversation was named; nothing changed.
    Ignored,
    /// The cached timeline is on display while the refresh runs.
    Cached,
    /// Nothing was cached: the timeline is empty and the list is loading.
    Fetching,
}

/// What an event did to the visible timeline.
#[derive(Clone, Copy, Debug, PartialEq, Eq, Structural)]
pub enum EventOutcome {
    /// The event belongs to another conversation; nothing changed.
    Ignored,
    /// The row at this index was confirmed.
    Updated(usize),
    /// The event matched no row and had nothing to show.
    Dropped,
    /// A new row was inserted at this index.
    Inserted(usize),
}

/// A text message that is to be sent.
#[derive(Debug, PartialEq, Eq)]
pub struct OutgoingText {
    pub conversation_id: String,
    pub provisional_id: String,
    pub body: String,
}

/// A typing indicator that is to be sent.
#[derive(Debug, PartialEq, Eq)]
pub struct TypingUpdate {
    pub conversation_id: String,
    pub typing: bool,
}

/// What a deletion did.
#[derive(Clone, Copy, Debug, PartialEq, Eq, Structural)]
pub struct DeleteOutcome {
    /// Index of the row that was removed, if the id was on display.
    pub removed: Option<usize>,
    /// True when an upload with this id was in flight and has to stop.
    pub cancel_upload: bool,
}

/// What the failure of a send calls for.
#[derive(Clone, Copy, Debug, PartialEq, Eq, Structural)]
pub struct SendFailure {
    /// Index of the row that was marked as failed, if it is still on display.
    pub failed_row: Option<usize>,
    /// True when the credentials were rejected: the session has to be
    /// cleared and the shell told.
    pub authentication_failed: bool,
}

/// The local user's own rows: the participant id is known and matches.
pub open spec fn authored_by_me(me_participant_id: Seq<char>, participant_id: Seq<char>) -> bool {
    me_participant_id.len() > 0 && participant_id == me_participant_id
}

/// Rows that an event with these ids speaks of.
pub open spec fn event_target(message_id: Seq<char>, tmp_id: Seq<char>) -> spec_fn(
    MessageRow,
) -> bool {
    |m: MessageRow|
        (message_id.len() > 0 && m.message_id == message_id) || (tmp_id.len() > 0 && m.message_id
            == tmp_id)
}

/// A row after an event confirmed it: the status is the event's, and the
/// server's id replaces the provisional one.
pub open spec fn confirmed_row(
    old_row: MessageRow,
    status: DeliveryStatus,
    message_id: Seq<char>,
) -> MessageRow {
    MessageRow {
        status,
        message_id: if message_id.len() > 0 {
            message_id
        } else {
            old_row.message_id
        },
        ..old_row
    }
}

/// The row for a message that an event announced.
pub open spec fn incoming_row(
    from_me: bool,
    participant_id: Seq<char>,
    body: Seq<char>,
    transport_type: i64,
    message_id: Seq<char>,
    timestamp_micros: i64,
    status_code: i32,
    is_media: bool,
) -> MessageRow {
    MessageRow {
        body,
        from_me,
        transport_type,
        timestamp_micros,
        message_id,
        status: delivery_status(status_code, from_me),
        media_url: Seq::empty(),
        is_media,
        avatar_url: Seq::empty(),
        is_info: is_info_code(status_code),
        participant_id,
        mime_type: Seq::empty(),
        thumbnail_url: Seq::empty(),
        upload_progress: UploadProgress::Complete,
    }
}

/// The timeline after a live event.
///
/// The first row whose id is the event's server id or provisional id is
/// confirmed. When no row matches, an event with a body or with media is
/// inserted at its place by time, and any other is dropped.
pub open spec fn after_event(
    t: Seq<MessageRow>,
    from_me: bool,
    participant_id: Seq<char>,
    body: Seq<char>,
    transport_type: i64,
    message_id: Seq<char>,
    tmp_id: Seq<char>,
    timestamp_micros: i64,
    status_code: i32,
    is_media: bool,
) -> Seq<MessageRow> {
    let at = first_where(t, event_target(message_id, tmp_id));
    if at < t.len() {
        t.update(at, confirmed_row(t[at], delivery_status(status_code, from_me), message_id))
    } else if is_blank(body) && !is_media {
        t
    } else {
        t.insert(
            slot_for(t, timestamp_micros),
            incoming_row(
                from_me,
                participant_id,
                body,
                transport_type,
                message_id,
                timestamp_micros,
                status_code,
                is_media,
            ),
        )
    }
}

/// The optimistic row of a text message that is being sent.
pub open spec fn outgoing_text_row(
    body: Seq<char>,
    provisional_id: Seq<char>,
    now_micros: i64,
) -> MessageRow {
    MessageRow {
        body,
        from_me: true,
        transport_type: LOCAL_TRANSPORT_TYPE,
        timestamp_micros: now_micros,
        message_id: provisional_id,
        status: DeliveryStatus::Sending,
        media_url: Seq::empty(),
        is_media: false,
        avatar_url: Seq::empty(),
        is_info: false,
        participant_id: Seq::empty(),
        mime_type: Seq::empty(),
        thumbnail_url: Seq::empty(),
        upload_progress: UploadProgress::Complete,
    }
}

/// A timeline where the first row with id `id`, if any, is marked failed.
pub open spec fn with_failed(t: Seq<MessageRow>, id: Seq<char>) -> Seq<MessageRow> {
    let at = index_of_id(t, id);
    if at < t.len() {
        t.update(at, MessageRow { status: DeliveryStatus::Failed, ..t[at] })
    } else {
        t
    }
}

/// A timeline without the first row with id `id`.
pub open spec fn without_id(t: Seq<MessageRow>, id: Seq<char>) -> Seq<MessageRow> {
    let at = index_of_id(t, id);
    if at < t.len() {
        t.remove(at)
    } else {
        t
    }
}

/// The cache entry that mirrors a timeline.
pub open spec fn snapshot(
    conversation_id: Seq<char>,
    messages: Seq<MessageRow>,
    me_participant_id: Seq<char>,
) -> CachedTimelineView {
    CachedTimelineView { conversation_id, messages, me_participant_id }
}

/// The uploads registered under the id `id`.
pub open spec fn upload_of(id: Seq<char>) -> spec_fn(Seq<char>) -> bool {
    |u: Seq<char>| u == id
}

/// Index of the first occurrence of `id` among the uploads in flight.
pub open spec fn upload_index(uploads: Seq<Seq<char>>, id: Seq<char>) -> int {
    first_where(uploads, upload_of(id))
}

/// The uploads in flight without the first occurrence of `id`.
pub open spec fn without_upload(uploads: Seq<Seq<char>>, id: Seq<char>) -> Seq<Seq<char>> {
    let at = upload_index(uploads, id);
    if at < uploads.len() {
        uploads.remove(at)
    } else {
        uploads
    }
}

/// A row count as the view takes it: the length, or `i32::MAX` for a list
/// too long to count.
pub open spec fn row_count_of(len: nat) -> i32 {
    if len <= i32::MAX {
        len as i32
    } else {
        i32::MAX
    }
}

/// Converts a length to the row count reported to the view.
pub fn clamp_row_count(len: usize) -> (n: i32)
    ensures
        n == row_count_of(len as nat),
{
    if len <= 0x7fff_ffff {
        len as i32
    } else {
        i32::MAX
    }
}

pub(crate) fn find_upload(uploads: &Vec<String>, id: &str) -> (found: Option<usize>)
    ensures
        match found {
            Some(i) => i < uploads.len() && i == upload_index(uploads.deep_view(), id@),
            None => upload_index(uploads.deep_view(), id@) >= uploads.len(),
        },
{
    let ghost p = upload_of(id@);
    let mut i: usize = 0;
    while i < uploads.len()
        invariant
            i <= uploads.len(),
            p == upload_of(id@),
            forall|j: int| 0 <= j < i ==> !p(#[trigger] uploads.deep_view()[j]),
        decreases uploads.len() - i,
    {
        if same_text(uploads[i].as_str(), id) {
            proof {
                assert(p(uploads.deep_view()[i as int]));
                lemma_first_where_is(uploads.deep_view(), p, i as int);
            }
            return Some(i);
        }
        i += 1;
    }
    proof {
        lemma_first_where_is(uploads.deep_view(), p, uploads.len() as int);
    }
    None
}

fn find_event_target(rows: &Vec<MessageItem>, message_id: &str, tmp_id: &str) -> (found: Option<
    usize,
>)
    ensures
        match found {
            Some(i) => i < rows.len() && i == first_where(
                rows.deep_view(),
                event_target(message_id@, tmp_id@),
            ),
            None => first_where(rows.deep_view(), event_target(message_id@, tmp_id@))
                >= rows.len(),
        },
{
    let ghost p = event_target(message_id@, tmp_id@);
    let by_id = !message_id.is_empty();
    let by_tmp = !tmp_id.is_empty();
    let mut i: usize = 0;
    while i < rows.len()
        invariant
            i <= rows.len(),
            p == event_target(message_id@, tmp_id@),
            by_id == (message_id@.len() > 0),
            by_tmp == (tmp_id@.len() > 0),
            forall|j: int| 0 <= j < i ==> !p(#[trigger] rows.deep_view()[j]),
        decreases rows.len() - i,
    {
        let hit = (by_id && same_text(rows[i].message_id.as_str(), message_id)) || (by_tmp
            && same_text(rows[i].message_id.as_str(), tmp_id));
        if hit {
            proof {
                assert(p(rows.deep_view()[i as int]));
                lemma_first_where_is(rows.deep_view(), p, i as int);
            }
            return Some(i);
        }
        i += 1;
    }
    proof {
        lemma_first_where_is(rows.deep_view(), p, rows.len() as int);
    }
    None
}

impl Default for MessageListRust {
    fn default() -> (list: Self)
        ensures
            !list@.loading,
            list@.messages.len() == 0,
            list@.selected_conversation_id.len() == 0,
            list@.me_participant_id.len() == 0,
            list@.cache.len() == 0,
            list@.upload_cancellations.len() == 0,
    {
        MessageListRust::new()
    }
}

impl MessageList {
    /// An empty list: no conversation selected, nothing cached.
    pub fn new() -> (list: Self)
        ensures
            !list@.loading,
            list@.messages.len() == 0,
            list@.selected_conversation_id.len() == 0,
            list@.me_participant_id.len() == 0,
            list@.cache.len() == 0,
            list@.upload_cancellations.len() == 0,
    {
        let list = MessageListRust {
            loading: false,
            messages: Vec::new(),
            selected_conversation_id: String::new(),
            me_participant_id: String::new(),
            cache: ConversationCache::new(),
            upload_cancellations: Vec::new(),
        };
        assert(list.messages.deep_view() =~= Seq::<MessageRow>::empty());
        assert(list.upload_cancellations.deep_view() =~= Seq::<Seq<char>>::empty());
        list
    }

    /// Number of rows on display.
    pub fn row_count(&self) -> (n: i32)
        ensures
            n == row_count_of(self@.messages.len()),
    {
        clamp_row_count(self.messages.len())
    }

    /// Makes `conversation_id` the visible conversation.
    ///
    /// A cached timeline goes on display at once, with the loading flag left
    /// as it was. Otherwise the timeline is emptied and the list is loading.
    /// In both cases a refresh has to follow. An empty id changes nothing.
    pub fn load(&mut self, conversation_id: &str) -> (start: LoadStart)
        ensures
            final(self)@.cache == old(self)@.cache,
            final(self)@.upload_cancellations == old(self)@.upload_cancellations,
            conversation_id@.len() == 0 ==> start == LoadStart::Ignored && final(self)@ == old(
                self,
            )@,
            conversation_id@.len() > 0 ==> final(self)@.selected_conversation_id
                == conversation_id@,
            conversation_id@.len() > 0 && holds(old(self)@.cache, conversation_id@) ==> {
                let entry = old(self)@.cache[entry_index(old(self)@.cache, conversation_id@)];
                &&& start == LoadStart::Cached
                &&& final(self)@.messages == entry.messages
                &&& final(self)@.me_participant_id == entry.me_participant_id
                &&& final(self)@.loading == old(self)@.loading
            },
            conversation_id@.len() > 0 && !holds(old(self)@.cache, conversation_id@) ==> {
                &&& start == LoadStart::Fetching
                &&& final(self)@.messages.len() == 0
                &&& final(self)@.me_participant_id.len() == 0
                &&& final(self)@.loading
            },
    {
        if conversation_id.is_empty() {
            return LoadStart::Ignored;
        }
        let start = match self.cache.get(conversation_id) {
            Some(entry) => {
                self.messages = clone_rows(&entry.messages);
                self.me_participant_id = entry.me_participant_id.clone();
                LoadStart::Cached
            },
            None => {
                self.messages = Vec::new();
                self.me_participant_id = String::new();
                self.loading = true;
                assert(self.messages.deep_view() =~= Seq::<MessageRow>::empty());
                LoadStart::Fetching
            },
        };
        self.selected_conversation_id = conversation_id.to_owned();
        start
    }

    /// Takes in the result of a refresh of `conversation_id`.
    ///
    /// For the visible conversation the timeline is reconciled with the
    /// candidate and the loading flag is cleared. In every case the cache
    /// entry of the conversation is refreshed or created.
    pub fn apply_refresh(
        &mut self,
        conversation_id: &str,
        candidate: Vec<MessageItem>,
        me_participant_id: String,
    ) -> (visible: bool)
        ensures
            visible == (old(self)@.selected_conversation_id == conversation_id@),
            final(self)@.selected_conversation_id == old(self)@.selected_conversation_id,
            final(self)@.upload_cancellations == old(self)@.upload_cancellations,
            visible ==> {
                &&& final(self)@.messages == reconciled(
                    old(self)@.messages,
                    candidate.deep_view(),
                )
                &&& final(self)@.me_participant_id == me_participant_id@
                &&& !final(self)@.loading
            },
            !visible ==> {
                &&& final(self)@.messages == old(self)@.messages
                &&& final(self)@.me_participant_id == old(self)@.me_participant_id
                &&& final(self)@.loading == old(self)@.loading
            },
            final(self)@.cache == stored(
                old(self)@.cache,
                old(self)@.selected_conversation_id,
                snapshot(
                    conversation_id@,
                    if visible {
                        final(self)@.messages
                    } else {
                        candidate.deep_view()
                    },
                    me_participant_id@,
                ),
            ),
            well_formed(final(self)@.cache),
    {
        let visible = same_text(self.selected_conversation_id.as_str(), conversation_id);
        if visible {
            reconcile(&mut self.messages, &candidate);
            self.loading = false;
            let _ = self.cache.remember(
                self.selected_conversation_id.as_str(),
                conversation_id,
                &self.messages,
                me_participant_id.as_str(),
            );
            self.me_participant_id = me_participant_id;
        } else {
            let _ = self.cache.remember(
                self.selected_conversation_id.as_str(),
                conversation_id,
                &candidate,
                me_participant_id.as_str(),
            );
        }
        visible
    }

    /// Takes note that a refresh failed, and says whether the failure was
    /// one of authentication.
    pub fn load_failed(&mut self, error: &str) -> (authentication_failed: bool)
        ensures
            authentication_failed == auth_failure_text(error@),
            final(self)@ == (MessageListState { loading: false, ..old(self)@ }),
    {
        self.loading = false;
        is_auth_error(error)
    }

    /// Applies a live event to the visible timeline.
    ///
    /// Events of other conversations are ignored. A row that the event
    /// matches by server id or provisional id is confirmed in place. An
    /// unmatched event with a body or with media becomes a new row at its
    /// place by time, and the cache entry of the conversation follows.
    pub fn handle_message_event(
        &mut self,
        conversation_id: &str,
        participant_id: &str,
        body: &str,
        transport_type: i64,
        message_id: &str,
        tmp_id: &str,
        timestamp_micros: i64,
        status_code: i32,
        is_media: bool,
    ) -> (outcome: EventOutcome)
        ensures
            final(self)@.loading == old(self)@.loading,
            final(self)@.selected_conversation_id == old(self)@.selected_conversation_id,
            final(self)@.me_participant_id == old(self)@.me_participant_id,
            final(self)@.upload_cancellations == old(self)@.upload_cancellations,
            well_formed(final(self)@.cache),
            conversation_id@.len() == 0 || conversation_id@ != old(
                self,
            )@.selected_conversation_id ==> outcome == EventOutcome::Ignored && final(self)@
                == old(self)@,
            conversation_id@.len() > 0 && conversation_id@ == old(
                self,
            )@.selected_conversation_id ==> {
                let t = old(self)@.messages;
                let from_me = authored_by_me(old(self)@.me_participant_id, participant_id@);
                let at = first_where(t, event_target(message_id@, tmp_id@));
                &&& final(self)@.messages == after_event(
                    t,
                    from_me,
                    participant_id@,
                    body@,
                    transport_type,
                    message_id@,
                    tmp_id@,
                    timestamp_micros,
                    status_code,
                    is_media,
                )
                &&& outcome == if at < t.len() {
                    EventOutcome::Updated(at as usize)
                } else if is_blank(body@) && !is_media {
                    EventOutcome::Dropped
                } else {
                    EventOutcome::Inserted(slot_for(t, timestamp_micros) as usize)
                }
                &&& final(self)@.cache == if outcome is Inserted {
                    stored(
                        old(self)@.cache,
                        conversation_id@,
                        snapshot(
                            conversation_id@,
                            final(self)@.messages,
                            old(self)@.me_participant_id,
                        ),
                    )
                } else {
                    old(self)@.cache
                }
            },
    {
        proof {
            use_type_invariant(&self.cache);
        }
        if conversation_id.is_empty() || !same_text(
            conversation_id,
            self.selected_conversation_id.as_str(),
        ) {
            return EventOutcome::Ignored;
        }
        let from_me = !self.me_participant_id.is_empty() && same_text(
            participant_id,
            self.me_participant_id.as_str(),
        );
        match find_event_target(&self.messages, message_id, tmp_id) {
            Some(at) => {
                self.messages[at].status = DeliveryStatus::from_code(status_code, from_me);
                if !message_id.is_empty() {
                    self.messages[at].message_id = message_id.to_owned();
                }
                assert(self.messages.deep_view() =~= old(self)@.messages.update(
                    at as int,
                    confirmed_row(
                        old(self)@.messages[at as int],
                        delivery_status(status_code, from_me),
                        message_id@,
                    ),
                ));
                EventOutcome::Updated(at)
            },
            None => {
                let shown = trim(body);
                proof {
                    lemma_trimmed_empty_iff_blank(body@);
                }
                if shown.is_empty() && !is_media {
                    return EventOutcome::Dropped;
                }
                let item = MessageItem {
                    body: body.to_owned(),
                    from_me,
                    transport_type,
                    timestamp_micros,
                    message_id: message_id.to_owned(),
                    status: DeliveryStatus::from_code(status_code, from_me),
                    media_url: String::new(),
                    is_media,
                    avatar_url: String::new(),
                    is_info: is_info_status(status_code),
                    participant_id: participant_id.to_owned(),
                    mime_type: String::new(),
                    thumbnail_url: String::new(),
                    upload_progress: UploadProgress::Complete,
                };
                let at = insert_in_order(&mut self.messages, item);
                let _ = self.cache.remember(
                    self.selected_conversation_id.as_str(),
                    self.selected_conversation_id.as_str(),
                    &self.messages,
                    self.me_participant_id.as_str(),
                );
                EventOutcome::Inserted(at)
            },
        }
    }

    /// Whether a text would be accepted for sending: it holds more than
    /// white space and a conversation is on display.
    pub fn accepts_text(&self, text: &str) -> (accepted: bool)
        ensures
            accepted == !(is_blank(text@) || self@.selected_conversation_id.len() == 0),
    {
        let body = trim(text);
        proof {
            lemma_trimmed_empty_iff_blank(text@);
        }
        !(body.is_empty() || self.selected_conversation_id.is_empty())
    }

    /// Puts the optimistic row of a text message at the head of the visible
    /// timeline and returns what has to be sent.
    ///
    /// A text of white space only, or the absence of a visible conversation,
    /// rejects the request and changes nothing.
    pub fn send_text(&mut self, text: &str, provisional_id: String, now_micros: i64) -> (request:
        Option<OutgoingText>)
        ensures
            final(self)@.loading == old(self)@.loading,
            final(self)@.selected_conversation_id == old(self)@.selected_conversation_id,
            final(self)@.me_participant_id == old(self)@.me_participant_id,
            final(self)@.cache == old(self)@.cache,
            final(self)@.upload_cancellations == old(self)@.upload_cancellations,
            request is None <==> is_blank(text@) || old(self)@.selected_conversation_id.len()
                == 0,
            request is None ==> final(self)@.messages == old(self)@.messages,
            request is Some ==> {
                &&& final(self)@.messages == old(self)@.messages.insert(
                    0,
                    outgoing_text_row(trimmed(text@), provisional_id@, now_micros),
                )
                &&& request->0.conversation_id@ == old(self)@.selected_conversation_id
                &&& request->0.provisional_id@ == provisional_id@
                &&& request->0.body@ == trimmed(text@)
            },
    {
        let body = trim(text);
        proof {
            lemma_trimmed_empty_iff_blank(text@);
        }
        if body.is_empty() || self.selected_conversation_id.is_empty() {
            return None;
        }
        let item = MessageItem {
            body: body.clone(),
            from_me: true,
            transport_type: LOCAL_TRANSPORT_TYPE,
            timestamp_micros: now_micros,
            message_id: provisional_id.clone(),
            status: DeliveryStatus::Sending,
            media_url: String::new(),
            is_media: false,
            avatar_url: String::new(),
            is_info: false,
            participant_id: String::new(),
            mime_type: String::new(),
            thumbnail_url: String::new(),
            upload_progress: UploadProgress::Complete,
        };
        let ghost row = item@;
        self.messages.insert(0, item);
        assert(self.messages.deep_view() =~= old(self)@.messages.insert(0, row));
        Some(
            OutgoingText {
                conversation_id: self.selected_conversation_id.clone(),
                provisional_id,
                body,
            },
        )
    }

    /// Sends a text message: draws a provisional id, reads the clock and
    /// puts the optimistic row at the head of the visible timeline.
    pub fn send_message(&mut self, text: &str) -> (request: Option<OutgoingText>)
        ensures
            final(self)@.loading == old(self)@.loading,
            final(self)@.selected_conversation_id == old(self)@.selected_conversation_id,
            final(self)@.me_participant_id == old(self)@.me_participant_id,
            final(self)@.cache == old(self)@.cache,
            final(self)@.upload_cancellations == old(self)@.upload_cancellations,
            request is None <==> is_blank(text@) || old(self)@.selected_conversation_id.len()
                == 0,
            request is None ==> final(self)@.messages == old(self)@.messages,
            request is Some ==> {
                &&& final(self)@.messages.len() == old(self)@.messages.len() + 1
                &&& final(self)@.messages == old(self)@.messages.insert(
                    0,
                    outgoing_text_row(
                        trimmed(text@),
                        request->0.provisional_id@,
                        final(self)@.messages[0].timestamp_micros,
                    ),
                )
                &&& request->0.conversation_id@ == old(self)@.selected_conversation_id
                &&& request->0.body@ == trimmed(text@)
                &&& request->0.provisional_id@.len() > 0
            },
    {
        let body = trim(text);
        proof {
            lemma_trimmed_empty_iff_blank(text@);
        }
        if body.is_empty() || self.selected_conversation_id.is_empty() {
            return None;
        }
        let provisional_id = new_provisional_id();
        let now = now_micros();
        self.send_text(text, provisional_id, now)
    }

    /// The conversation to tell that the user is typing, or has stopped:
    /// the visible one, if there is one.
    pub fn send_typing(&self, typing: bool) -> (update: Option<TypingUpdate>)
        ensures
            update is Some <==> self@.selected_conversation_id.len() > 0,
            update is Some ==> update->0.conversation_id@ == self@.selected_conversation_id
                && update->0.typing == typing,
    {
        if self.selected_conversation_id.is_empty() {
            return None;
        }
        Some(TypingUpdate { conversation_id: self.selected_conversation_id.clone(), typing })
    }

    /// Marks the row of a failed send as failed and says whether the
    /// failure was one of authentication.
    pub fn fail_send(&mut self, provisional_id: &str, error: &str) -> (failure: SendFailure)
        ensures
            final(self)@ == (MessageListState {
                messages: with_failed(old(self)@.messages, provisional_id@),
                ..old(self)@
            }),
            failure.authentication_failed == auth_failure_text(error@),
            failure.failed_row == if has_id(old(self)@.messages, provisional_id@) {
                Some(index_of_id(old(self)@.messages, provisional_id@) as usize)
            } else {
                None
            },
    {
        let failed_row = find_by_id(&self.messages, provisional_id);
        match failed_row {
            Some(at) => {
                self.messages[at].status = DeliveryStatus::Failed;
                assert(self.messages.deep_view() =~= with_failed(
                    old(self)@.messages,
                    provisional_id@,
                ));
            },
            None => {},
        }
        SendFailure { failed_row, authentication_failed: is_auth_error(error) }
    }

    /// Removes a message from the visible timeline and from the cache entry
    /// of the visible conversation, and stops its upload if one is running.
    pub fn delete_message(&mut self, message_id: &str) -> (outcome: DeleteOutcome)
        ensures
            final(self)@.loading == old(self)@.loading,
            final(self)@.selected_conversation_id == old(self)@.selected_conversation_id,
            final(self)@.me_participant_id == old(self)@.me_participant_id,
            final(self)@.messages == without_id(old(self)@.messages, message_id@),
            final(self)@.upload_cancellations == without_upload(
                old(self)@.upload_cancellations,
                message_id@,
            ),
            outcome.removed == if has_id(old(self)@.messages, message_id@) {
                Some(index_of_id(old(self)@.messages, message_id@) as usize)
            } else {
                None
            },
            outcome.cancel_upload == (upload_index(old(self)@.upload_cancellations, message_id@)
                < old(self)@.upload_cancellations.len()),
            final(self)@.cache == if outcome.removed is Some && old(
                self,
            )@.selected_conversation_id.len() > 0 {
                stored(
                    old(self)@.cache,
                    old(self)@.selected_conversation_id,
                    snapshot(
                        old(self)@.selected_conversation_id,
                        final(self)@.messages,
                        old(self)@.me_participant_id,
                    ),
                )
            } else {
                old(self)@.cache
            },
            well_formed(final(self)@.cache),
    {
        proof {
            use_type_invariant(&self.cache);
        }
        let removed = find_by_id(&self.messages, message_id);
        match removed {
            Some(at) => {
                let _ = self.messages.remove(at);
                assert(self.messages.deep_view() =~= old(self)@.messages.remove(at as int));
                if !self.selected_conversation_id.is_empty() {
                    let _ = self.cache.remember(
                        self.selected_conversation_id.as_str(),
                        self.selected_conversation_id.as_str(),
                        &self.messages,
                        self.me_participant_id.as_str(),
                    );
                }
            },
            None => {},
        }
        let cancel_upload = match find_upload(&self.upload_cancellations, message_id) {
            Some(at) => {
                let _ = self.upload_cancellations.remove(at);
                assert(self.upload_cancellations.deep_view() =~= old(
                    self,
                )@.upload_cancellations.remove(at as int));
                true
            },
            None => false,
        };
        DeleteOutcome { removed, cancel_upload }
    }
}

} // verus!
