//! What the transport delivers, as plain data: messages, conversations and
//! the events that carry them. Decoding the wire format is not done here.

use crate::text::{is_blank, lemma_trimmed_empty_iff_blank, trim, trimmed};
use vstd::prelude::*;

verus! {

/// A media attachment of a message.
#[derive(Debug)]
pub struct MediaContent {
    pub media_id: String,
    pub thumbnail_media_id: String,
    pub decryption_key: Vec<u8>,
    pub thumbnail_decryption_key: Vec<u8>,
    pub mime_type: String,
    /// Width and height, where the transport gave them.
    pub dimensions: Option<(i64, i64)>,
}

/// One content block of a message.
#[derive(Debug)]
pub enum MessageData {
    Text(String),
    Media(MediaContent),
    /// A block of another kind, or an empty one.
    Other,
}

/// A message as the transport delivers it.
#[derive(Debug)]
pub struct Message {
    pub message_id: String,
    pub tmp_id: String,
    pub another_message_id: Option<String>,
    pub conversation_id: String,
    pub participant_id: String,
    pub transport_type: i64,
    pub timestamp: i64,
    /// The status code, where the message carries a status.
    pub status: Option<i32>,
    pub message_info: Vec<MessageData>,
}

/// A participant of a conversation.
#[derive(Debug)]
pub struct Participant {
    pub is_me: bool,
    pub participant_id: Option<String>,
    pub contact_id: String,
}

/// The latest message of a conversation, as far as the list shows it.
#[derive(Debug)]
pub struct LatestMessage {
    /// Non-zero when the local user wrote it.
    pub from_me: i32,
    pub display_name: String,
    pub display_content: String,
}

/// A conversation as the transport delivers it.
#[derive(Debug)]
pub struct Conversation {
    pub conversation_id: String,
    pub name: String,
    pub is_group_chat: bool,
    pub unread: bool,
    pub last_message_timestamp: i64,
    pub latest_message: Option<LatestMessage>,
    pub participants: Vec<Participant>,
}

/// A decoded event of the update stream.
#[derive(Debug)]
pub enum UpdateEvent {
    Messages(Vec<Message>),
    Conversations(Vec<Conversation>),
    /// Typing indicators, settings and whatever else the stream carries.
    Other,
}

/// The mathematical value of a `MediaContent`.
pub struct MediaContentView {
    pub media_id: Seq<char>,
    pub thumbnail_media_id: Seq<char>,
    pub decryption_key: Seq<u8>,
    pub thumbnail_decryption_key: Seq<u8>,
    pub mime_type: Seq<char>,
    pub dimensions: Option<(i64, i64)>,
}

/// The mathematical value of a `MessageData`.
pub enum MessageDataView {
    Text(Seq<char>),
    Media(MediaContentView),
    Other,
}

/// The mathematical value of a `Message`.
pub struct MessageView {
    pub message_id: Seq<char>,
    pub tmp_id: Seq<char>,
    pub another_message_id: Option<Seq<char>>,
    pub conversation_id: Seq<char>,
    pub participant_id: Seq<char>,
    pub transport_type: i64,
    pub timestamp: i64,
    pub status: Option<i32>,
    pub message_info: Seq<MessageDataView>,
}

/// The mathematical value of a `Participant`.
pub struct ParticipantView {
    pub is_me: bool,
    pub participant_id: Option<Seq<char>>,
    pub contact_id: Seq<char>,
}

/// The mathematical value of a `LatestMessage`.
pub struct LatestMessageView {
    pub from_me: i32,
    pub display_name: Seq<char>,
    pub display_content: Seq<char>,
}

/// The mathematical value of a `Conversation`.
pub struct ConversationView {
    pub conversation_id: Seq<char>,
    pub name: Seq<char>,
    pub is_group_chat: bool,
    pub unread: bool,
    pub last_message_timestamp: i64,
    pub latest_message: Option<LatestMessageView>,
    pub participants: Seq<ParticipantView>,
}

impl View for MediaContent {
    type V = MediaContentView;

    open spec fn view(&self) -> MediaContentView {
        MediaContentView {
            media_id: self.media_id@,
            thumbnail_media_id: self.thumbnail_media_id@,
            decryption_key: self.decryption_key@,
            thumbnail_decryption_key: self.thumbnail_decryption_key@,
            mime_type: self.mime_type@,
            dimensions: self.dimensions,
        }
    }
}

impl View for MessageData {
    type V = MessageDataView;

    open spec fn view(&self) -> MessageDataView {
        match self {
            MessageData::Text(s) => MessageDataView::Text(s@),
            MessageData::Media(m) => MessageDataView::Media(m@),
            MessageData::Other => MessageDataView::Other,
        }
    }
}

impl DeepView for MessageData {
    type V = MessageDataView;

    open spec fn deep_view(&self) -> MessageDataView {
        self@
    }
}

impl View for Message {
    type V = MessageView;

    open spec fn view(&self) -> MessageView {
        MessageView {
            message_id: self.message_id@,
            tmp_id: self.tmp_id@,
            another_message_id: match self.another_message_id {
                Some(id) => Some(id@),
                None => None,
            },
            conversation_id: self.conversation_id@,
            participant_id: self.participant_id@,
            transport_type: self.transport_type,
            timestamp: self.timestamp,
            status: self.status,
            message_info: self.message_info.deep_view(),
        }
    }
}

impl DeepView for Message {
    type V = MessageView;

    open spec fn deep_view(&self) -> MessageView {
        self@
    }
}

impl View for Participant {
    type V = ParticipantView;

    open spec fn view(&self) -> ParticipantView {
        ParticipantView {
            is_me: self.is_me,
            participant_id: match self.participant_id {
                Some(id) => Some(id@),
                None => None,
            },
            contact_id: self.contact_id@,
        }
    }
}

impl DeepView for Participant {
    type V = ParticipantView;

    open spec fn deep_view(&self) -> ParticipantView {
        self@
    }
}

impl View for LatestMessage {
    type V = LatestMessageView;

    open spec fn view(&self) -> LatestMessageView {
        LatestMessageView {
            from_me: self.from_me,
            display_name: self.display_name@,
            display_content: self.display_content@,
        }
    }
}

impl View for Conversation {
    type V = ConversationView;

    open spec fn view(&self) -> ConversationView {
        ConversationView {
            conversation_id: self.conversation_id@,
            name: self.name@,
            is_group_chat: self.is_group_chat,
            unread: self.unread,
            last_message_timestamp: self.last_message_timestamp,
            latest_message: match self.latest_message {
                Some(m) => Some(m@),
                None => None,
            },
            participants: self.participants.deep_view(),
        }
    }
}

impl DeepView for Conversation {
    type V = ConversationView;

    open spec fn deep_view(&self) -> ConversationView {
        self@
    }
}

/// The media of a message as the lists need it.
#[derive(Debug, PartialEq, Eq)]
pub struct MediaRef {
    pub media_id: String,
    pub decryption_key: Vec<u8>,
    pub mime_type: String,
    pub width: i64,
    pub height: i64,
}

/// The mathematical value of a `MediaRef`.
pub struct MediaRefView {
    pub media_id: Seq<char>,
    pub decryption_key: Seq<u8>,
    pub mime_type: Seq<char>,
    pub width: i64,
    pub height: i64,
}

impl View for MediaRef {
    type V = MediaRefView;

    open spec fn view(&self) -> MediaRefView {
        MediaRefView {
            media_id: self.media_id@,
            decryption_key: self.decryption_key@,
            mime_type: self.mime_type@,
            width: self.width,
            height: self.height,
        }
    }
}

/// The text of a message: its first text block that is not blank, trimmed;
/// empty when there is none.
pub open spec fn body_of(blocks: Seq<MessageDataView>) -> Seq<char>
    decreases blocks.len(),
{
    if blocks.len() == 0 {
        Seq::empty()
    } else {
        match blocks[0] {
            MessageDataView::Text(content) if !is_blank(content) => trimmed(content),
            _ => body_of(blocks.drop_first()),
        }
    }
}

/// What a media block refers to: the full-resolution id and key where they
/// are given, those of the thumbnail otherwise.
pub open spec fn media_ref_of(media: MediaContentView) -> MediaRefView {
    MediaRefView {
        media_id: if media.media_id.len() > 0 {
            media.media_id
        } else {
            media.thumbnail_media_id
        },
        decryption_key: if media.decryption_key.len() > 0 {
            media.decryption_key
        } else {
            media.thumbnail_decryption_key
        },
        mime_type: media.mime_type,
        width: match media.dimensions {
            Some(d) => d.0,
            None => 0,
        },
        height: match media.dimensions {
            Some(d) => d.1,
            None => 0,
        },
    }
}

/// The media of a message: that of its first media block.
pub open spec fn media_of(blocks: Seq<MessageDataView>) -> Option<MediaRefView>
    decreases blocks.len(),
{
    if blocks.len() == 0 {
        None
    } else {
        match blocks[0] {
            MessageDataView::Media(media) => Some(media_ref_of(media)),
            _ => media_of(blocks.drop_first()),
        }
    }
}

/// The id a message goes by: the server's id, else the provisional id,
/// else the alternative id, else nothing.
pub open spec fn id_of(message: MessageView) -> Seq<char> {
    if message.message_id.len() > 0 {
        message.message_id
    } else if message.tmp_id.len() > 0 {
        message.tmp_id
    } else {
        match message.another_message_id {
            Some(id) => id,
            None => Seq::empty(),
        }
    }
}

/// The status code of a message; 0 for a message without a status.
pub open spec fn status_code_of(message: MessageView) -> i32 {
    match message.status {
        Some(code) => code,
        None => 0,
    }
}

/// The preview line of a conversation.
///
/// It is empty without a latest message. Otherwise it is the trimmed
/// content of that message, or `Attachment` when that is empty, behind
/// `You: ` for the local user's own message or, in a group chat, behind the
/// author's name and `: `.
pub open spec fn preview_of(conversation: ConversationView) -> Seq<char> {
    match conversation.latest_message {
        None => Seq::empty(),
        Some(latest) => {
            let prefix = if latest.from_me != 0 {
                "You: "@
            } else if conversation.is_group_chat && latest.display_name.len() > 0 {
                latest.display_name + ": "@
            } else {
                Seq::empty()
            };
            let snippet = if trimmed(latest.display_content).len() == 0 {
                "Attachment"@
            } else {
                trimmed(latest.display_content)
            };
            prefix + snippet
        },
    }
}

/// The participant id of a participant; empty when it has none.
pub open spec fn participant_id_of(participant: ParticipantView) -> Seq<char> {
    match participant.participant_id {
        Some(id) => id,
        None => Seq::empty(),
    }
}

/// The text of a message.
pub fn extract_message_body(message: &Message) -> (body: String)
    ensures
        body@ == body_of(message@.message_info),
{
    let ghost blocks = message@.message_info;
    let mut i: usize = 0;
    assert(blocks.skip(0) =~= blocks);
    while i < message.message_info.len()
        invariant
            i <= message.message_info.len(),
            blocks == message.message_info.deep_view(),
            body_of(blocks) == body_of(blocks.skip(i as int)),
        decreases message.message_info.len() - i,
    {
        proof {
            assert(blocks.skip(i as int)[0] == blocks[i as int]);
            assert(blocks.skip(i as int).drop_first() =~= blocks.skip(i as int + 1));
        }
        match &message.message_info[i] {
            MessageData::Text(content) => {
                let text = trim(content.as_str());
                proof {
                    lemma_trimmed_empty_iff_blank(content@);
                }
                if !text.is_empty() {
                    return text;
                }
            },
            _ => {},
        }
        i += 1;
    }
    String::new()
}

/// The id a message goes by.
pub fn extract_message_id(message: &Message) -> (id: String)
    ensures
        id@ == id_of(message@),
{
    if !message.message_id.is_empty() {
        message.message_id.clone()
    } else if !message.tmp_id.is_empty() {
        message.tmp_id.clone()
    } else {
        match &message.another_message_id {
            Some(id) => id.clone(),
            None => String::new(),
        }
    }
}

/// A copy of a byte string.
pub fn clone_bytes(bytes: &Vec<u8>) -> (copy: Vec<u8>)
    ensures
        copy@ == bytes@,
{
    let mut copy: Vec<u8> = Vec::new();
    let mut i: usize = 0;
    while i < bytes.len()
        invariant
            i <= bytes.len(),
            copy@ == bytes@.take(i as int),
        decreases bytes.len() - i,
    {
        copy.push(bytes[i]);
        assert(bytes@.take(i as int + 1) =~= bytes@.take(i as int).push(bytes@[i as int]));
        i += 1;
    }
    assert(bytes@.take(bytes.len() as int) =~= bytes@);
    copy
}

/// The media of a message, if it has any.
pub fn extract_message_media(message: &Message) -> (media: Option<MediaRef>)
    ensures
        match media {
            Some(m) => media_of(message@.message_info) == Some(m@),
            None => media_of(message@.message_info) is None,
        },
{
    let ghost blocks = message@.message_info;
    let mut i: usize = 0;
    assert(blocks.skip(0) =~= blocks);
    while i < message.message_info.len()
        invariant
            i <= message.message_info.len(),
            blocks == message.message_info.deep_view(),
            media_of(blocks) == media_of(blocks.skip(i as int)),
        decreases message.message_info.len() - i,
    {
        proof {
            assert(blocks.skip(i as int)[0] == blocks[i as int]);
            assert(blocks.skip(i as int).drop_first() =~= blocks.skip(i as int + 1));
        }
        match &message.message_info[i] {
            MessageData::Media(media) => {
                let media_id = if !media.media_id.is_empty() {
                    media.media_id.clone()
                } else {
                    media.thumbnail_media_id.clone()
                };
                let decryption_key = if media.decryption_key.len() > 0 {
                    clone_bytes(&media.decryption_key)
                } else {
                    clone_bytes(&media.thumbnail_decryption_key)
                };
                let (width, height) = match media.dimensions {
                    Some(d) => (d.0, d.1),
                    None => (0, 0),
                };
                return Some(
                    MediaRef {
                        media_id,
                        decryption_key,
                        mime_type: media.mime_type.clone(),
                        width,
                        height,
                    },
                );
            },
            _ => {},
        }
        i += 1;
    }
    None
}

/// The status code of a message.
pub fn message_status_code(message: &Message) -> (code: i32)
    ensures
        code == status_code_of(message@),
{
    match message.status {
        Some(code) => code,
        None => 0,
    }
}

/// The preview line of a conversation.
pub fn build_preview(conversation: &Conversation) -> (preview: String)
    ensures
        preview@ == preview_of(conversation@),
{
    match &conversation.latest_message {
        None => String::new(),
        Some(latest) => {
            let mut preview = String::new();
            if latest.from_me != 0 {
                preview.append("You: ");
            } else if conversation.is_group_chat && !latest.display_name.is_empty() {
                preview.append(latest.display_name.as_str());
                preview.append(": ");
            }
            let snippet = trim(latest.display_content.as_str());
            if snippet.is_empty() {
                preview.append("Attachment");
            } else {
                preview.append(snippet.as_str());
            }
            assert(preview@ =~= preview_of(conversation@));
            preview
        },
    }
}

/// The participant id of a participant.
pub fn participant_id(participant: &Participant) -> (id: String)
    ensures
        id@ == participant_id_of(participant@),
{
    match &participant.participant_id {
        Some(id) => id.clone(),
        None => String::new(),
    }
}

} // verus!
