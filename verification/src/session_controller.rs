//! The session: its controller as the shell sees it, the decisions of the
//! session loop, and the routing of decoded events.

use crate::codec::{encode_for_travel, travel_text};
use crate::text::joined;
use crate::wire::{
    body_of, build_preview, extract_message_body, extract_message_id, extract_message_media, id_of,
    media_of, message_status_code, preview_of, status_code_of, Conversation, ConversationView,
    Message, MessageView, UpdateEvent,
};
use vstd::prelude::*;

verus! {

/// Seconds between two liveness probes while the stream is open.
pub const HEARTBEAT_SECONDS: u64 = 30;

/// Seconds to wait before the stream is opened again.
pub const RECONNECT_DELAY_SECONDS: u64 = 2;

/// State of the session controller.
#[derive(Debug)]
pub struct SessionControllerRust {
    pub running: bool,
    pub status: String,
    /// Set by `stop`, read by the session loop at its check points, cleared
    /// only by `start`.
    pub should_stop: bool,
}

/// The session controller as the shell addresses it.
pub type SessionController = SessionControllerRust;

/// The mathematical value of a `SessionControllerRust`.
pub struct SessionState {
    pub running: bool,
    pub status: Seq<char>,
    pub should_stop: bool,
}

impl View for SessionControllerRust {
    type V = SessionState;

    open spec fn view(&self) -> SessionState {
        SessionState { running: self.running, status: self.status@, should_stop: self.should_stop }
    }
}

/// Why the inner loop over the stream ended.
#[derive(Clone, Copy, Debug, PartialEq, Eq, Structural)]
pub enum StreamEndReason {
    /// A stop was requested.
    Stopped,
    /// The stream ran dry or broke.
    StreamEnded,
}

/// Where the session loop stands.
#[derive(Clone, Copy, Debug, PartialEq, Eq, Structural)]
pub enum SessionPhase {
    Idle,
    /// The transport handle is being obtained.
    Starting,
    /// The stream is about to be opened.
    Connecting,
    Streaming,
    /// The stream ended; the loop waits before it opens another.
    Reconnecting,
    /// The loop ended because a stop was requested.
    Stopped,
    /// The loop ended on an error that no retry mends.
    Failed,
}

/// What happened to the session loop.
#[derive(Debug, PartialEq, Eq)]
pub enum SessionEvent {
    /// The controller asked for a session.
    Started,
    /// The transport handle is there.
    Ready,
    /// No transport handle could be obtained.
    SetupFailed(String),
    /// The stream is open.
    StreamOpened,
    /// The transport refused to open a stream.
    StreamRefused(String),
    /// The inner loop over the stream ended.
    StreamFinished(StreamEndReason),
    /// The wait before reconnecting is over.
    BackoffElapsed,
}

/// The mathematical value of a `SessionEvent`.
pub enum SessionEventView {
    Started,
    Ready,
    SetupFailed(Seq<char>),
    StreamOpened,
    StreamRefused(Seq<char>),
    StreamFinished(StreamEndReason),
    BackoffElapsed,
}

impl View for SessionEvent {
    type V = SessionEventView;

    open spec fn view(&self) -> SessionEventView {
        match self {
            SessionEvent::Started => SessionEventView::Started,
            SessionEvent::Ready => SessionEventView::Ready,
            SessionEvent::SetupFailed(e) => SessionEventView::SetupFailed(e@),
            SessionEvent::StreamOpened => SessionEventView::StreamOpened,
            SessionEvent::StreamRefused(e) => SessionEventView::StreamRefused(e@),
            SessionEvent::StreamFinished(r) => SessionEventView::StreamFinished(*r),
            SessionEvent::BackoffElapsed => SessionEventView::BackoffElapsed,
        }
    }
}

/// What the session loop has to do next.
#[derive(Debug, PartialEq, Eq)]
pub enum SessionAction {
    /// Obtain the transport handle.
    Prepare,
    /// Refresh the access token if it is due, keep the refreshed
    /// credentials, and open the stream.
    OpenStream,
    /// Send a liveness probe at once, then read the stream, with a probe
    /// every `HEARTBEAT_SECONDS`.
    ReadStream,
    /// Report the status, wait `RECONNECT_DELAY_SECONDS` and take a fresh
    /// session identifier.
    Backoff,
    /// End the loop and report the status.
    Finish,
    /// Nothing: the event does not belong to the phase.
    Nothing,
}

/// The status text while the session starts.
pub open spec fn starting_status() -> Seq<char> {
    "Starting session..."@
}

/// The status text after a stop was requested.
pub open spec fn stopping_status() -> Seq<char> {
    "Stopping..."@
}

/// The status text while the loop waits to reconnect.
pub open spec fn reconnecting_status() -> Seq<char> {
    "Reconnecting..."@
}

/// The status text after the loop ended without an error.
pub open spec fn ended_status() -> Seq<char> {
    "Session ended"@
}

/// The status text after the loop ended on `error`.
pub open spec fn error_status(error: Seq<char>) -> Seq<char> {
    "Session error: "@ + error
}

/// The phase after an event, and whether it is a step of the loop at all.
///
/// A stop request is honoured wherever the loop is about to open a stream:
/// once the handle is ready and after every backoff. While streaming it is
/// honoured by the inner loop, which reports `Stopped`. An error of the
/// setup or of opening the stream ends the loop for good.
pub open spec fn next_phase(
    phase: SessionPhase,
    event: SessionEventView,
    stop_requested: bool,
) -> SessionPhase {
    match (phase, event) {
        (SessionPhase::Idle, SessionEventView::Started) => SessionPhase::Starting,
        (SessionPhase::Starting, SessionEventView::Ready) => if stop_requested {
            SessionPhase::Stopped
        } else {
            SessionPhase::Connecting
        },
        (SessionPhase::Starting, SessionEventView::SetupFailed(_)) => SessionPhase::Failed,
        (SessionPhase::Connecting, SessionEventView::StreamOpened) => SessionPhase::Streaming,
        (SessionPhase::Connecting, SessionEventView::StreamRefused(_)) => SessionPhase::Failed,
        (SessionPhase::Streaming, SessionEventView::StreamFinished(reason)) => match reason {
            StreamEndReason::Stopped => SessionPhase::Stopped,
            StreamEndReason::StreamEnded => if stop_requested {
                SessionPhase::Stopped
            } else {
                SessionPhase::Reconnecting
            },
        },
        (SessionPhase::Reconnecting, SessionEventView::BackoffElapsed) => if stop_requested {
            SessionPhase::Stopped
        } else {
            SessionPhase::Connecting
        },
        _ => phase,
    }
}

/// The status that a step reports, if it reports one.
pub open spec fn step_status(
    phase: SessionPhase,
    event: SessionEventView,
    stop_requested: bool,
) -> Option<Seq<char>> {
    let next = next_phase(phase, event, stop_requested);
    if next == phase {
        None
    } else if next == SessionPhase::Stopped {
        Some(ended_status())
    } else if next == SessionPhase::Reconnecting {
        Some(reconnecting_status())
    } else {
        match event {
            SessionEventView::SetupFailed(error) => Some(error_status(error)),
            SessionEventView::StreamRefused(error) => Some(error_status(error)),
            _ => None,
        }
    }
}

/// One step of the session loop: the phase to enter and what to do there.
#[derive(Debug, PartialEq, Eq)]
pub struct SessionStep {
    pub phase: SessionPhase,
    pub action: SessionAction,
    /// The status to report, if the step has one.
    pub status: Option<String>,
}

/// What there is to do on entering `next` from `phase`.
pub open spec fn action_kind(phase: SessionPhase, next: SessionPhase) -> int {
    if next == phase {
        5
    } else {
        match next {
            SessionPhase::Starting => 0,
            SessionPhase::Connecting => 1,
            SessionPhase::Streaming => 2,
            SessionPhase::Reconnecting => 3,
            SessionPhase::Stopped => 4,
            SessionPhase::Failed => 4,
            SessionPhase::Idle => 5,
        }
    }
}

impl SessionAction {
    /// The number of the action: 0 prepare, 1 open the stream, 2 read the
    /// stream, 3 back off, 4 finish, 5 nothing.
    pub open spec fn kind(self) -> int {
        match self {
            SessionAction::Prepare => 0,
            SessionAction::OpenStream => 1,
            SessionAction::ReadStream => 2,
            SessionAction::Backoff => 3,
            SessionAction::Finish => 4,
            SessionAction::Nothing => 5,
        }
    }
}

/// Decides the next step of the session loop.
pub fn session_step(phase: SessionPhase, event: &SessionEvent, stop_requested: bool) -> (step:
    SessionStep)
    ensures
        step.phase == next_phase(phase, event@, stop_requested),
        step.action.kind() == action_kind(phase, step.phase),
        match step.status {
            Some(text) => step_status(phase, event@, stop_requested) == Some(text@),
            None => step_status(phase, event@, stop_requested) is None,
        },
{
    let stay = SessionStep { phase, action: SessionAction::Nothing, status: None };
    match phase {
        SessionPhase::Idle => match event {
            SessionEvent::Started => SessionStep {
                phase: SessionPhase::Starting,
                action: SessionAction::Prepare,
                status: None,
            },
            _ => stay,
        },
        SessionPhase::Starting => match event {
            SessionEvent::Ready => if stop_requested {
                stopped_step()
            } else {
                SessionStep {
                    phase: SessionPhase::Connecting,
                    action: SessionAction::OpenStream,
                    status: None,
                }
            },
            SessionEvent::SetupFailed(error) => failed_step(error.as_str()),
            _ => stay,
        },
        SessionPhase::Connecting => match event {
            SessionEvent::StreamOpened => SessionStep {
                phase: SessionPhase::Streaming,
                action: SessionAction::ReadStream,
                status: None,
            },
            SessionEvent::StreamRefused(error) => failed_step(error.as_str()),
            _ => stay,
        },
        SessionPhase::Streaming => match event {
            SessionEvent::StreamFinished(reason) => match reason {
                StreamEndReason::Stopped => stopped_step(),
                StreamEndReason::StreamEnded => if stop_requested {
                    stopped_step()
                } else {
                    SessionStep {
                        phase: SessionPhase::Reconnecting,
                        action: SessionAction::Backoff,
                        status: Some("Reconnecting...".to_owned()),
                    }
                },
            },
            _ => stay,
        },
        SessionPhase::Reconnecting => match event {
            SessionEvent::BackoffElapsed => if stop_requested {
                stopped_step()
            } else {
                SessionStep {
                    phase: SessionPhase::Connecting,
                    action: SessionAction::OpenStream,
                    status: None,
                }
            },
            _ => stay,
        },
        SessionPhase::Stopped => stay,
        SessionPhase::Failed => stay,
    }
}

fn stopped_step() -> (step: SessionStep)
    ensures
        step.phase == SessionPhase::Stopped,
        step.action.kind() == 4,
        step.status is Some && step.status->0@ == ended_status(),
{
    SessionStep {
        phase: SessionPhase::Stopped,
        action: SessionAction::Finish,
        status: Some("Session ended".to_owned()),
    }
}

fn failed_step(error: &str) -> (step: SessionStep)
    ensures
        step.phase == SessionPhase::Failed,
        step.action.kind() == 4,
        step.status is Some && step.status->0@ == error_status(error@),
{
    SessionStep {
        phase: SessionPhase::Failed,
        action: SessionAction::Finish,
        status: Some(joined("Session error: ", error)),
    }
}

/// Once the loop has stopped or failed, no event moves it: a failure is
/// never retried. And a requested stop never leads to another stream.
pub proof fn lemma_session_ends(phase: SessionPhase, event: SessionEventView, stop_requested: bool)
    ensures
        phase == SessionPhase::Stopped || phase == SessionPhase::Failed ==> next_phase(
            phase,
            event,
            stop_requested,
        ) == phase,
        stop_requested ==> next_phase(phase, event, stop_requested) != SessionPhase::Connecting
            && next_phase(phase, event, stop_requested) != SessionPhase::Reconnecting
            || next_phase(phase, event, stop_requested) == phase,
        next_phase(phase, event, stop_requested) == SessionPhase::Reconnecting && phase
            != SessionPhase::Reconnecting ==> phase == SessionPhase::Streaming && event
            == SessionEventView::StreamFinished(StreamEndReason::StreamEnded),
{
}

/// What one reading of the stream is.
#[derive(Clone, Copy, Debug, PartialEq, Eq, Structural)]
pub enum StreamItem {
    /// The stream has no more items.
    End,
    /// The stream reported an error.
    Error,
    /// A payload: the count of its acknowledgement, if it carries one,
    /// whether it carries data, and whether that data is a data event.
    Payload { ack_count: Option<i32>, has_data: bool, is_data_event: bool },
}

/// What to do with one reading of the stream.
#[derive(Clone, Copy, Debug, PartialEq, Eq, Structural)]
pub enum StreamVerdict {
    /// Leave the inner loop.
    Leave(StreamEndReason),
    /// Read on; the payload is passed over.
    Skip,
    /// Hand the payload to the transport; it holds nothing to decode.
    Process,
    /// Hand the payload to the transport, then decode and dispatch it.
    ProcessAndDecode,
}

/// The number of payloads still to pass over after a reading.
pub open spec fn skips_after(skip_count: i32, item: StreamItem) -> i32 {
    match item {
        StreamItem::Payload { ack_count, has_data, is_data_event } => {
            let announced = match ack_count {
                Some(count) => count,
                None => skip_count,
            };
            if has_data && announced > 0 {
                (announced - 1) as i32
            } else {
                announced
            }
        },
        _ => skip_count,
    }
}

/// The verdict on a reading.
///
/// A requested stop is seen before the reading is. The end of the stream
/// and an error both end the loop as `StreamEnded`. A payload without data
/// is passed over; so is one with data while payloads remain to be skipped;
/// any other is processed, and decoded if it is a data event.
pub open spec fn stream_verdict(skip_count: i32, stop_requested: bool, item: StreamItem) -> StreamVerdict {
    if stop_requested {
        StreamVerdict::Leave(StreamEndReason::Stopped)
    } else {
        match item {
            StreamItem::End => StreamVerdict::Leave(StreamEndReason::StreamEnded),
            StreamItem::Error => StreamVerdict::Leave(StreamEndReason::StreamEnded),
            StreamItem::Payload { ack_count, has_data, is_data_event } => {
                let announced = match ack_count {
                    Some(count) => count,
                    None => skip_count,
                };
                if !has_data || announced > 0 {
                    StreamVerdict::Skip
                } else if is_data_event {
                    StreamVerdict::ProcessAndDecode
                } else {
                    StreamVerdict::Process
                }
            },
        }
    }
}

/// The inner loop's memory between two readings.
#[derive(Clone, Copy, Debug, PartialEq, Eq, Structural)]
pub struct StreamCursor {
    /// Payloads still to pass over.
    pub skip_count: i32,
}

impl StreamCursor {
    /// The cursor at the start of a stream.
    pub fn new() -> (cursor: Self)
        ensures
            cursor.skip_count == 0,
    {
        StreamCursor { skip_count: 0 }
    }

    /// Judges one reading of the stream. The stop flag is looked at before
    /// the reading is made, so a reading that came in although a stop was
    /// requested leaves the cursor as it is.
    pub fn on_item(&mut self, stop_requested: bool, item: StreamItem) -> (verdict: StreamVerdict)
        ensures
            verdict == stream_verdict(old(self).skip_count, stop_requested, item),
            final(self).skip_count == if stop_requested {
                old(self).skip_count
            } else {
                skips_after(old(self).skip_count, item)
            },
    {
        if stop_requested {
            return StreamVerdict::Leave(StreamEndReason::Stopped);
        }
        match item {
            StreamItem::End => StreamVerdict::Leave(StreamEndReason::StreamEnded),
            StreamItem::Error => StreamVerdict::Leave(StreamEndReason::StreamEnded),
            StreamItem::Payload { ack_count, has_data, is_data_event } => {
                match ack_count {
                    Some(count) => {
                        self.skip_count = count;
                    },
                    None => {},
                }
                if !has_data {
                    return StreamVerdict::Skip;
                }
                if self.skip_count > 0 {
                    self.skip_count = self.skip_count - 1;
                    return StreamVerdict::Skip;
                }
                if is_data_event {
                    StreamVerdict::ProcessAndDecode
                } else {
                    StreamVerdict::Process
                }
            },
        }
    }
}

/// What is passed on for one message of a message event.
#[derive(Debug, PartialEq, Eq)]
pub struct MessageNotice {
    pub conversation_id: String,
    pub participant_id: String,
    pub body: String,
    pub transport_type: i64,
    pub message_id: String,
    pub tmp_id: String,
    pub timestamp_micros: i64,
    pub status_code: i32,
    pub is_media: bool,
    pub media_id: String,
    /// The key of the media in base64; empty without media.
    pub decryption_key: String,
    pub mime_type: String,
    pub media_width: i64,
    pub media_height: i64,
}

/// What is passed on for one conversation of a conversation event.
#[derive(Debug, PartialEq, Eq)]
pub struct ConversationNotice {
    pub conversation_id: String,
    pub name: String,
    pub preview: String,
    pub unread: bool,
    pub last_message_timestamp: i64,
    pub is_group_chat: bool,
}

/// One thing to do for a decoded event.
#[derive(Debug, PartialEq, Eq)]
pub enum Dispatch {
    /// Hand the message to the message list.
    MessageReceived(MessageNotice),
    /// Tell the server that the message with this id has arrived.
    Acknowledge(String),
    /// Hand the conversation to the conversation list.
    ConversationUpdated(ConversationNotice),
}

/// The mathematical value of a `MessageNotice`.
pub struct MessageNoticeView {
    pub conversation_id: Seq<char>,
    pub participant_id: Seq<char>,
    pub body: Seq<char>,
    pub transport_type: i64,
    pub message_id: Seq<char>,
    pub tmp_id: Seq<char>,
    pub timestamp_micros: i64,
    pub status_code: i32,
    pub is_media: bool,
    pub media_id: Seq<char>,
    pub decryption_key: Seq<char>,
    pub mime_type: Seq<char>,
    pub media_width: i64,
    pub media_height: i64,
}

/// The mathematical value of a `ConversationNotice`.
pub struct ConversationNoticeView {
    pub conversation_id: Seq<char>,
    pub name: Seq<char>,
    pub preview: Seq<char>,
    pub unread: bool,
    pub last_message_timestamp: i64,
    pub is_group_chat: bool,
}

/// The mathematical value of a `Dispatch`.
pub enum DispatchView {
    MessageReceived(MessageNoticeView),
    Acknowledge(Seq<char>),
    ConversationUpdated(ConversationNoticeView),
}

impl View for MessageNotice {
    type V = MessageNoticeView;

    open spec fn view(&self) -> MessageNoticeView {
        MessageNoticeView {
            conversation_id: self.conversation_id@,
            participant_id: self.participant_id@,
            body: self.body@,
            transport_type: self.transport_type,
            message_id: self.message_id@,
            tmp_id: self.tmp_id@,
            timestamp_micros: self.timestamp_micros,
            status_code: self.status_code,
            is_media: self.is_media,
            media_id: self.media_id@,
            decryption_key: self.decryption_key@,
            mime_type: self.mime_type@,
            media_width: self.media_width,
            media_height: self.media_height,
        }
    }
}

impl View for ConversationNotice {
    type V = ConversationNoticeView;

    open spec fn view(&self) -> ConversationNoticeView {
        ConversationNoticeView {
            conversation_id: self.conversation_id@,
            name: self.name@,
            preview: self.preview@,
            unread: self.unread,
            last_message_timestamp: self.last_message_timestamp,
            is_group_chat: self.is_group_chat,
        }
    }
}

impl View for Dispatch {
    type V = DispatchView;

    open spec fn view(&self) -> DispatchView {
        match self {
            Dispatch::MessageReceived(n) => DispatchView::MessageReceived(n@),
            Dispatch::Acknowledge(id) => DispatchView::Acknowledge(id@),
            Dispatch::ConversationUpdated(n) => DispatchView::ConversationUpdated(n@),
        }
    }
}

impl DeepView for Dispatch {
    type V = DispatchView;

    open spec fn deep_view(&self) -> DispatchView {
        self@
    }
}

/// The notice for a message.
pub open spec fn message_notice_of(message: MessageView) -> MessageNoticeView {
    let media = media_of(message.message_info);
    MessageNoticeView {
        conversation_id: message.conversation_id,
        participant_id: message.participant_id,
        body: body_of(message.message_info),
        transport_type: message.transport_type,
        message_id: id_of(message),
        tmp_id: message.tmp_id,
        timestamp_micros: message.timestamp,
        status_code: status_code_of(message),
        is_media: media is Some,
        media_id: match media {
            Some(m) => m.media_id,
            None => Seq::empty(),
        },
        decryption_key: match media {
            Some(m) => travel_text(m.decryption_key),
            None => Seq::empty(),
        },
        mime_type: match media {
            Some(m) => m.mime_type,
            None => Seq::empty(),
        },
        media_width: match media {
            Some(m) => m.width,
            None => 0,
        },
        media_height: match media {
            Some(m) => m.height,
            None => 0,
        },
    }
}

/// The notice for a conversation.
pub open spec fn conversation_notice_of(conversation: ConversationView) -> ConversationNoticeView {
    ConversationNoticeView {
        conversation_id: conversation.conversation_id,
        name: conversation.name,
        preview: preview_of(conversation),
        unread: conversation.unread,
        last_message_timestamp: conversation.last_message_timestamp,
        is_group_chat: conversation.is_group_chat,
    }
}

/// What there is to do for the messages of a message event: for each, in
/// order, its notice, followed by an acknowledgement if the server has
/// given it an id.
pub open spec fn message_dispatches(messages: Seq<MessageView>) -> Seq<DispatchView>
    decreases messages.len(),
{
    if messages.len() == 0 {
        Seq::empty()
    } else {
        let rest = message_dispatches(messages.drop_last()).push(
            DispatchView::MessageReceived(message_notice_of(messages.last())),
        );
        if messages.last().message_id.len() > 0 {
            rest.push(DispatchView::Acknowledge(messages.last().message_id))
        } else {
            rest
        }
    }
}

/// What there is to do for the conversations of a conversation event.
pub open spec fn conversation_dispatches(conversations: Seq<ConversationView>) -> Seq<DispatchView> {
    conversations.map_values(
        |c: ConversationView| DispatchView::ConversationUpdated(conversation_notice_of(c)),
    )
}

/// The notice for a message.
pub fn message_notice(message: &Message) -> (notice: MessageNotice)
    ensures
        notice@ == message_notice_of(message@),
{
    let media = extract_message_media(message);
    let is_media = media.is_some();
    let (media_id, decryption_key, mime_type, media_width, media_height) = match media {
        Some(m) => (
            m.media_id,
            encode_for_travel(m.decryption_key.as_slice()),
            m.mime_type,
            m.width,
            m.height,
        ),
        None => (String::new(), String::new(), String::new(), 0, 0),
    };
    MessageNotice {
        conversation_id: message.conversation_id.clone(),
        participant_id: message.participant_id.clone(),
        body: extract_message_body(message),
        transport_type: message.transport_type,
        message_id: extract_message_id(message),
        tmp_id: message.tmp_id.clone(),
        timestamp_micros: message.timestamp,
        status_code: message_status_code(message),
        is_media,
        media_id,
        decryption_key,
        mime_type,
        media_width,
        media_height,
    }
}

/// The notice for a conversation.
pub fn conversation_notice(conversation: &Conversation) -> (notice: ConversationNotice)
    ensures
        notice@ == conversation_notice_of(conversation@),
{
    ConversationNotice {
        conversation_id: conversation.conversation_id.clone(),
        name: conversation.name.clone(),
        preview: build_preview(conversation),
        unread: conversation.unread,
        last_message_timestamp: conversation.last_message_timestamp,
        is_group_chat: conversation.is_group_chat,
    }
}

/// Routes a decoded event: message events to the message list, with an
/// acknowledgement for each message that has a server id; conversation
/// events to the conversation list; every other event nowhere.
pub fn dispatch(event: &UpdateEvent) -> (todo: Vec<Dispatch>)
    ensures
        todo.deep_view() == match event {
            UpdateEvent::Messages(messages) => message_dispatches(messages.deep_view()),
            UpdateEvent::Conversations(conversations) => conversation_dispatches(
                conversations.deep_view(),
            ),
            UpdateEvent::Other => Seq::empty(),
        },
{
    let mut todo: Vec<Dispatch> = Vec::new();
    match event {
        UpdateEvent::Messages(messages) => {
            let ghost all = messages.deep_view();
            let mut i: usize = 0;
            assert(todo.deep_view() =~= message_dispatches(all.take(0)));
            while i < messages.len()
                invariant
                    i <= messages.len(),
                    all == messages.deep_view(),
                    todo.deep_view() == message_dispatches(all.take(i as int)),
                decreases messages.len() - i,
            {
                proof {
                    assert(all.take(i as int + 1).drop_last() =~= all.take(i as int));
                    assert(all.take(i as int + 1).last() == all[i as int]);
                    assert(messages[i as int]@ == all[i as int]);
                }
                let ghost before = todo.deep_view();
                let notice = message_notice(&messages[i]);
                let ghost n = notice@;
                todo.push(Dispatch::MessageReceived(notice));
                assert(todo.deep_view() =~= before.push(DispatchView::MessageReceived(n)));
                if !messages[i].message_id.is_empty() {
                    let ghost mid = todo.deep_view();
                    todo.push(Dispatch::Acknowledge(messages[i].message_id.clone()));
                    assert(todo.deep_view() =~= mid.push(
                        DispatchView::Acknowledge(all[i as int].message_id),
                    ));
                }
                i += 1;
            }
            assert(all.take(messages.len() as int) =~= all);
        },
        UpdateEvent::Conversations(conversations) => {
            let ghost all = conversations.deep_view();
            let mut i: usize = 0;
            while i < conversations.len()
                invariant
                    i <= conversations.len(),
                    all == conversations.deep_view(),
                    todo.len() == i,
                    forall|j: int|
                        0 <= j < i ==> todo.deep_view()[j] == DispatchView::ConversationUpdated(
                            conversation_notice_of(#[trigger] all[j]),
                        ),
                decreases conversations.len() - i,
            {
                let ghost before = todo.deep_view();
                let notice = conversation_notice(&conversations[i]);
                todo.push(Dispatch::ConversationUpdated(notice));
                proof {
                    assert forall|j: int| 0 <= j < i + 1 implies todo.deep_view()[j]
                        == DispatchView::ConversationUpdated(
                        conversation_notice_of(#[trigger] all[j]),
                    ) by {
                        if j < i {
                            assert(todo.deep_view()[j] == before[j]);
                        }
                    }
                }
                i += 1;
            }
            assert(todo.deep_view() =~= conversation_dispatches(all));
        },
        UpdateEvent::Other => {
            assert(todo.deep_view() =~= Seq::<DispatchView>::empty());
        },
    }
    todo
}

impl Default for SessionControllerRust {
    fn default() -> (controller: Self)
        ensures
            !controller@.running,
            controller@.status == "Idle"@,
            !controller@.should_stop,
    {
        SessionControllerRust::new()
    }
}

impl SessionController {
    /// A controller at rest.
    pub fn new() -> (controller: Self)
        ensures
            !controller@.running,
            controller@.status == "Idle"@,
            !controller@.should_stop,
    {
        SessionControllerRust { running: false, status: "Idle".to_owned(), should_stop: false }
    }

    /// Starts a session, unless one is running. Returns whether the session
    /// loop has to be launched.
    pub fn start(&mut self) -> (launch: bool)
        ensures
            launch == !old(self)@.running,
            !launch ==> final(self)@ == old(self)@,
            launch ==> final(self)@ == (SessionState {
                running: true,
                status: starting_status(),
                should_stop: false,
            }),
    {
        if self.running {
            return false;
        }
        self.running = true;
        self.status = "Starting session...".to_owned();
        self.should_stop = false;
        true
    }

    /// Requests the running session to stop. The loop ends at its next
    /// check point.
    pub fn stop(&mut self) -> (requested: bool)
        ensures
            requested == old(self)@.running,
            !requested ==> final(self)@ == old(self)@,
            requested ==> final(self)@ == (SessionState {
                running: false,
                status: stopping_status(),
                should_stop: true,
            }),
    {
        if !self.running {
            return false;
        }
        self.should_stop = true;
        self.running = false;
        self.status = "Stopping...".to_owned();
        true
    }

    /// Shows a status that the session loop reports.
    pub fn report(&mut self, status: &str)
        ensures
            final(self)@ == (SessionState { status: status@, ..old(self)@ }),
    {
        self.status = status.to_owned();
    }

    /// Takes note that the session loop has ended, with the status it
    /// reported last.
    pub fn finished(&mut self, status: &str)
        ensures
            final(self)@ == (SessionState { running: false, status: status@, ..old(self)@ }),
    {
        self.status = status.to_owned();
        self.running = false;
    }
}

} // verus!
