//! One row of a conversation's timeline.

use crate::status::DeliveryStatus;
use vstd::prelude::*;

verus! {

/// How much of a media payload has been handed to the server.
#[derive(Clone, Copy, Debug, PartialEq, Eq, Structural)]
pub enum UploadProgress {
    /// Nothing is being uploaded: the row is complete.
    Complete,
    /// `uploaded` of `total` bytes are out. A total of zero counts as no
    /// progress.
    Partial { uploaded: u64, total: u64 },
}

/// A message as the timeline shows it.
#[derive(Debug)]
pub struct MessageItem {
    pub body: String,
    pub from_me: bool,
    pub transport_type: i64,
    pub timestamp_micros: i64,
    /// The server's id, or the provisional id while the server has not
    /// assigned one.
    pub message_id: String,
    pub status: DeliveryStatus,
    pub media_url: String,
    pub is_media: bool,
    pub avatar_url: String,
    pub is_info: bool,
    pub participant_id: String,
    pub mime_type: String,
    pub thumbnail_url: String,
    pub upload_progress: UploadProgress,
}

/// The mathematical value of a `MessageItem`.
pub struct MessageRow {
    pub body: Seq<char>,
    pub from_me: bool,
    pub transport_type: i64,
    pub timestamp_micros: i64,
    pub message_id: Seq<char>,
    pub status: DeliveryStatus,
    pub media_url: Seq<char>,
    pub is_media: bool,
    pub avatar_url: Seq<char>,
    pub is_info: bool,
    pub participant_id: Seq<char>,
    pub mime_type: Seq<char>,
    pub thumbnail_url: Seq<char>,
    pub upload_progress: UploadProgress,
}

impl View for MessageItem {
    type V = MessageRow;

    open spec fn view(&self) -> MessageRow {
        MessageRow {
            body: self.body@,
            from_me: self.from_me,
            transport_type: self.transport_type,
            timestamp_micros: self.timestamp_micros,
            message_id: self.message_id@,
            status: self.status,
            media_url: self.media_url@,
            is_media: self.is_media,
            avatar_url: self.avatar_url@,
            is_info: self.is_info,
            participant_id: self.participant_id@,
            mime_type: self.mime_type@,
            thumbnail_url: self.thumbnail_url@,
            upload_progress: self.upload_progress,
        }
    }
}

impl DeepView for MessageItem {
    type V = MessageRow;

    open spec fn deep_view(&self) -> MessageRow {
        self@
    }
}

impl Clone for MessageItem {
    fn clone(&self) -> (copy: Self)
        ensures
            copy@ == self@,
    {
        MessageItem {
            body: self.body.clone(),
            from_me: self.from_me,
            transport_type: self.transport_type,
            timestamp_micros: self.timestamp_micros,
            message_id: self.message_id.clone(),
            status: self.status,
            media_url: self.media_url.clone(),
            is_media: self.is_media,
            avatar_url: self.avatar_url.clone(),
            is_info: self.is_info,
            participant_id: self.participant_id.clone(),
            mime_type: self.mime_type.clone(),
            thumbnail_url: self.thumbnail_url.clone(),
            upload_progress: self.upload_progress,
        }
    }
}

/// A copy of every row of `rows`, in order.
pub fn clone_rows(rows: &Vec<MessageItem>) -> (copy: Vec<MessageItem>)
    ensures
        copy.deep_view() == rows.deep_view(),
{
    let mut copy: Vec<MessageItem> = Vec::new();
    let mut i: usize = 0;
    while i < rows.len()
        invariant
            i <= rows.len(),
            copy.len() == i,
            forall|j: int| 0 <= j < i ==> copy[j]@ == rows[j]@,
        decreases rows.len() - i,
    {
        copy.push(rows[i].clone());
        i += 1;
    }
    assert(copy.deep_view() =~= rows.deep_view());
    copy
}

} // verus!
