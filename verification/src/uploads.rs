//! Sending media from the message list: the optimistic row, the progress of
//! the upload, its end, and the media and avatars that arrive later.

use crate::auth::{
    auth_failure_text, is_auth_error, is_undecodable_answer, undecodable_answer_text,
};
use crate::cache::{stored, well_formed};
use crate::clock::now_micros;
use crate::ids::new_provisional_id;
use crate::media::{
    extension_of_path, file_name, file_name_of, file_uri, file_uri_of, is_video, local_path,
    local_path_of, mime_for_extension, mime_of_extension, path_extension, within_media_limit,
    MAX_MEDIA_BYTES,
};
use crate::message::{MessageItem, MessageRow, UploadProgress};
use crate::message_list::{
    find_upload, snapshot, upload_index, with_failed, without_upload, MessageList, MessageListState,
    LOCAL_TRANSPORT_TYPE,
};
use crate::status::DeliveryStatus;
use crate::text::{has_prefix, lowercase, same_text, to_lowercase, trim, trimmed};
use crate::text_map::TextMap;
use crate::timeline::{find_by_id, has_id, index_of_id};
use vstd::prelude::*;

verus! {

/// Why a media payload was not accepted for sending.
#[derive(Clone, Copy, Debug, PartialEq, Eq, Structural)]
pub enum MediaRejection {
    /// The address names no file.
    EmptyPath,
    /// No conversation is on display.
    NoConversation,
    /// The file could not be examined.
    Unreadable,
    /// The file is larger than `MAX_MEDIA_BYTES`.
    TooLarge,
}

/// A media message that is to be uploaded and sent.
#[derive(Debug, PartialEq, Eq)]
pub struct OutgoingMedia {
    pub conversation_id: String,
    pub provisional_id: String,
    pub path: String,
    pub file_name: String,
    pub mime_type: String,
    pub caption: String,
    pub is_video: bool,
}

/// What the end of an upload calls for.
#[derive(Clone, Copy, Debug, PartialEq, Eq, Structural)]
pub struct UploadEnd {
    /// Index of the row that was marked as failed.
    pub failed_row: Option<usize>,
    /// True when the credentials were rejected and the session has to go.
    pub clear_session: bool,
    /// True when the shell has to be told of the rejected credentials.
    pub authentication_failed: bool,
}

/// The step at which the sending of a media message failed.
#[derive(Clone, Copy, Debug, PartialEq, Eq, Structural)]
pub enum MediaStep {
    /// Before or while the payload was uploaded.
    Upload,
    /// When the message was sent, after the upload had finished.
    Send,
}

/// Whether a failure counts as a send that went through: the upload had
/// finished and only the answer to the send could not be decoded, so the
/// message very likely went out.
pub open spec fn counts_as_sent(step: MediaStep, error: Seq<char>) -> bool {
    step == MediaStep::Send && undecodable_answer_text(error)
}

/// The error with which a media send ends for good, if it does: none after
/// a success, and none after a failure that counts as sent.
pub open spec fn lasting_error(failed_at: Option<MediaStep>, error: Seq<char>) -> Option<
    Seq<char>,
> {
    match failed_at {
        Some(step) => if counts_as_sent(step, error) {
            None
        } else {
            Some(error)
        },
        None => None,
    }
}

/// The media type of a file, judged by the extension of its path alone.
pub open spec fn mime_of_path(path: Seq<char>) -> Seq<char> {
    mime_of_extension(lowercase(extension_of_path(path)))
}

/// The verdict on a request to send the file behind `file_url`, of which
/// `file_size` is known unless the file could not be examined.
pub open spec fn media_verdict(
    file_url: Seq<char>,
    selected_conversation_id: Seq<char>,
    file_size: Option<u64>,
) -> Option<MediaRejection> {
    if local_path_of(file_url).len() == 0 {
        Some(MediaRejection::EmptyPath)
    } else if selected_conversation_id.len() == 0 {
        Some(MediaRejection::NoConversation)
    } else if file_size is None {
        Some(MediaRejection::Unreadable)
    } else if file_size->0 > MAX_MEDIA_BYTES {
        Some(MediaRejection::TooLarge)
    } else {
        None
    }
}

/// The optimistic row of a media message: no progress yet, and the local
/// file as its preview.
pub open spec fn outgoing_media_row(
    path: Seq<char>,
    caption: Seq<char>,
    file_size: u64,
    provisional_id: Seq<char>,
    now_micros: i64,
) -> MessageRow {
    MessageRow {
        body: trimmed(caption),
        from_me: true,
        transport_type: LOCAL_TRANSPORT_TYPE,
        timestamp_micros: now_micros,
        message_id: provisional_id,
        status: DeliveryStatus::Sending,
        media_url: file_uri_of(path),
        is_media: true,
        avatar_url: Seq::empty(),
        is_info: false,
        participant_id: Seq::empty(),
        mime_type: mime_of_path(path),
        thumbnail_url: Seq::empty(),
        upload_progress: UploadProgress::Partial { uploaded: 0, total: file_size },
    }
}

/// The uploads in flight with `id` among them.
pub open spec fn with_upload(uploads: Seq<Seq<char>>, id: Seq<char>) -> Seq<Seq<char>> {
    if upload_index(uploads, id) < uploads.len() {
        uploads
    } else {
        uploads.push(id)
    }
}

/// A timeline where the first row with id `id`, if any, shows the progress.
pub open spec fn with_progress(
    t: Seq<MessageRow>,
    id: Seq<char>,
    uploaded: u64,
    total: u64,
) -> Seq<MessageRow> {
    let at = index_of_id(t, id);
    if at < t.len() {
        t.update(
            at,
            MessageRow { upload_progress: UploadProgress::Partial { uploaded, total }, ..t[at] },
        )
    } else {
        t
    }
}

/// A timeline where the first row with id `id`, if any, has the thumbnail.
pub open spec fn with_thumbnail(
    t: Seq<MessageRow>,
    id: Seq<char>,
    thumbnail_url: Seq<char>,
) -> Seq<MessageRow> {
    let at = index_of_id(t, id);
    if at < t.len() {
        t.update(at, MessageRow { thumbnail_url, ..t[at] })
    } else {
        t
    }
}

/// A timeline where the first row with id `id`, if any, points at its
/// media; an empty thumbnail address leaves the thumbnail as it is.
pub open spec fn with_media(
    t: Seq<MessageRow>,
    id: Seq<char>,
    media_url: Seq<char>,
    thumbnail_url: Seq<char>,
) -> Seq<MessageRow> {
    let at = index_of_id(t, id);
    if at < t.len() {
        t.update(
            at,
            MessageRow {
                media_url,
                thumbnail_url: if thumbnail_url.len() > 0 {
                    thumbnail_url
                } else {
                    t[at].thumbnail_url
                },
                ..t[at]
            },
        )
    } else {
        t
    }
}

/// Whether a row takes an avatar from `avatars`: its participant is known
/// and has one.
pub open spec fn takes_avatar(m: MessageRow, avatars: Map<Seq<char>, Seq<char>>) -> bool {
    m.participant_id.len() > 0 && avatars.dom().contains(m.participant_id)
}

/// A row with the avatar of its participant, where `avatars` has one.
pub open spec fn with_avatar(m: MessageRow, avatars: Map<Seq<char>, Seq<char>>) -> MessageRow {
    if takes_avatar(m, avatars) {
        MessageRow { avatar_url: avatars[m.participant_id], ..m }
    } else {
        m
    }
}

/// The indices below `n` of the rows that take an avatar, ascending.
pub open spec fn avatar_rows(
    t: Seq<MessageRow>,
    avatars: Map<Seq<char>, Seq<char>>,
    n: int,
) -> Seq<usize>
    decreases n,
{
    if n <= 0 {
        Seq::empty()
    } else if takes_avatar(t[n - 1], avatars) {
        avatar_rows(t, avatars, n - 1).push((n - 1) as usize)
    } else {
        avatar_rows(t, avatars, n - 1)
    }
}

impl MessageList {
    /// Accepts a media payload for sending: puts its optimistic row at the
    /// head of the visible timeline and registers the upload.
    ///
    /// `file_size` is the size of the file, or `None` when the file could
    /// not be examined. A rejected request changes nothing.
    pub fn queue_media(
        &mut self,
        file_url: &str,
        caption: &str,
        file_size: Option<u64>,
        provisional_id: String,
        now_micros: i64,
    ) -> (request: Result<OutgoingMedia, MediaRejection>)
        ensures
            final(self)@.loading == old(self)@.loading,
            final(self)@.selected_conversation_id == old(self)@.selected_conversation_id,
            final(self)@.me_participant_id == old(self)@.me_participant_id,
            final(self)@.cache == old(self)@.cache,
            match request {
                Err(rejection) => {
                    &&& media_verdict(file_url@, old(self)@.selected_conversation_id, file_size)
                        == Some(rejection)
                    &&& final(self)@ == old(self)@
                },
                Ok(outgoing) => {
                    let path = local_path_of(file_url@);
                    &&& media_verdict(file_url@, old(self)@.selected_conversation_id, file_size)
                        is None
                    &&& final(self)@.messages == old(self)@.messages.insert(
                        0,
                        outgoing_media_row(
                            path,
                            caption@,
                            file_size->0,
                            provisional_id@,
                            now_micros,
                        ),
                    )
                    &&& final(self)@.upload_cancellations == with_upload(
                        old(self)@.upload_cancellations,
                        provisional_id@,
                    )
                    &&& outgoing.conversation_id@ == old(self)@.selected_conversation_id
                    &&& outgoing.provisional_id@ == provisional_id@
                    &&& outgoing.path@ == path
                    &&& outgoing.file_name@ == file_name_of(path)
                    &&& outgoing.mime_type@ == mime_of_path(path)
                    &&& outgoing.caption@ == trimmed(caption@)
                    &&& outgoing.is_video == has_prefix(mime_of_path(path), "video/"@)
                },
            },
    {
        let path = local_path(file_url);
        if path.is_empty() {
            return Err(MediaRejection::EmptyPath);
        }
        if self.selected_conversation_id.is_empty() {
            return Err(MediaRejection::NoConversation);
        }
        let size = match file_size {
            None => {
                return Err(MediaRejection::Unreadable);
            },
            Some(size) => size,
        };
        if !within_media_limit(size) {
            return Err(MediaRejection::TooLarge);
        }
        let name = file_name(path.as_str());
        let extension = to_lowercase(path_extension(path.as_str()).as_str());
        let mime = mime_for_extension(extension.as_str());
        let body = trim(caption);
        let item = MessageItem {
            body: body.clone(),
            from_me: true,
            transport_type: LOCAL_TRANSPORT_TYPE,
            timestamp_micros: now_micros,
            message_id: provisional_id.clone(),
            status: DeliveryStatus::Sending,
            media_url: file_uri(path.as_str()),
            is_media: true,
            avatar_url: String::new(),
            is_info: false,
            participant_id: String::new(),
            mime_type: mime.to_owned(),
            thumbnail_url: String::new(),
            upload_progress: UploadProgress::Partial { uploaded: 0, total: size },
        };
        let ghost row = item@;
        self.messages.insert(0, item);
        assert(self.messages.deep_view() =~= old(self)@.messages.insert(0, row));
        if find_upload(&self.upload_cancellations, provisional_id.as_str()).is_none() {
            self.upload_cancellations.push(provisional_id.clone());
            assert(self.upload_cancellations.deep_view() =~= old(self)@.upload_cancellations.push(
                provisional_id@,
            ));
        }
        Ok(
            OutgoingMedia {
                conversation_id: self.selected_conversation_id.clone(),
                provisional_id,
                path,
                file_name: name,
                mime_type: mime.to_owned(),
                caption: body,
                is_video: is_video(mime),
            },
        )
    }

    /// Sends the file behind `file_url`: draws a provisional id, reads the
    /// clock and queues the payload.
    pub fn send_media(&mut self, file_url: &str, caption: &str, file_size: Option<u64>) -> (request:
        Result<OutgoingMedia, MediaRejection>)
        ensures
            final(self)@.loading == old(self)@.loading,
            final(self)@.selected_conversation_id == old(self)@.selected_conversation_id,
            final(self)@.me_participant_id == old(self)@.me_participant_id,
            final(self)@.cache == old(self)@.cache,
            match request {
                Err(rejection) => {
                    &&& media_verdict(file_url@, old(self)@.selected_conversation_id, file_size)
                        == Some(rejection)
                    &&& final(self)@ == old(self)@
                },
                Ok(outgoing) => {
                    let path = local_path_of(file_url@);
                    &&& media_verdict(file_url@, old(self)@.selected_conversation_id, file_size)
                        is None
                    &&& final(self)@.messages.len() == old(self)@.messages.len() + 1
                    &&& final(self)@.messages == old(self)@.messages.insert(
                        0,
                        outgoing_media_row(
                            path,
                            caption@,
                            file_size->0,
                            outgoing.provisional_id@,
                            final(self)@.messages[0].timestamp_micros,
                        ),
                    )
                    &&& final(self)@.upload_cancellations == with_upload(
                        old(self)@.upload_cancellations,
                        outgoing.provisional_id@,
                    )
                    &&& outgoing.conversation_id@ == old(self)@.selected_conversation_id
                    &&& outgoing.provisional_id@.len() > 0
                    &&& outgoing.path@ == path
                    &&& outgoing.file_name@ == file_name_of(path)
                    &&& outgoing.mime_type@ == mime_of_path(path)
                    &&& outgoing.caption@ == trimmed(caption@)
                    &&& outgoing.is_video == has_prefix(mime_of_path(path), "video/"@)
                },
            },
    {
        let provisional_id = new_provisional_id();
        let now = now_micros();
        self.queue_media(file_url, caption, file_size, provisional_id, now)
    }

    /// Shows on the row of an upload how far it has come, and returns the
    /// index of that row.
    pub fn set_upload_progress(&mut self, provisional_id: &str, uploaded: u64, total: u64) -> (row:
        Option<usize>)
        ensures
            final(self)@ == (MessageListState {
                messages: with_progress(old(self)@.messages, provisional_id@, uploaded, total),
                ..old(self)@
            }),
            row == if has_id(old(self)@.messages, provisional_id@) {
                Some(index_of_id(old(self)@.messages, provisional_id@) as usize)
            } else {
                None
            },
    {
        let row = find_by_id(&self.messages, provisional_id);
        match row {
            Some(at) => {
                self.messages[at].upload_progress = UploadProgress::Partial { uploaded, total };
                assert(self.messages.deep_view() =~= with_progress(
                    old(self)@.messages,
                    provisional_id@,
                    uploaded,
                    total,
                ));
            },
            None => {},
        }
        row
    }

    /// Gives a row its thumbnail, and returns the index of that row.
    pub fn set_thumbnail(&mut self, message_id: &str, thumbnail_url: &str) -> (row: Option<usize>)
        ensures
            final(self)@ == (MessageListState {
                messages: with_thumbnail(old(self)@.messages, message_id@, thumbnail_url@),
                ..old(self)@
            }),
            row == if has_id(old(self)@.messages, message_id@) {
                Some(index_of_id(old(self)@.messages, message_id@) as usize)
            } else {
                None
            },
    {
        let row = find_by_id(&self.messages, message_id);
        match row {
            Some(at) => {
                self.messages[at].thumbnail_url = thumbnail_url.to_owned();
                assert(self.messages.deep_view() =~= with_thumbnail(
                    old(self)@.messages,
                    message_id@,
                    thumbnail_url@,
                ));
            },
            None => {},
        }
        row
    }

    /// Closes an upload.
    ///
    /// `error` is the text of the failure, or `None` after a success. The
    /// upload leaves the list of those in flight. A failure marks the row as
    /// failed, unless the upload was cancelled: a cancelled upload has lost
    /// its row already and is no failure.
    pub fn finish_upload(&mut self, provisional_id: &str, error: Option<&str>, cancelled: bool) -> (end:
        UploadEnd)
        ensures
            final(self)@.loading == old(self)@.loading,
            final(self)@.selected_conversation_id == old(self)@.selected_conversation_id,
            final(self)@.me_participant_id == old(self)@.me_participant_id,
            final(self)@.cache == old(self)@.cache,
            final(self)@.upload_cancellations == without_upload(
                old(self)@.upload_cancellations,
                provisional_id@,
            ),
            final(self)@.messages == if error is Some && !cancelled {
                with_failed(old(self)@.messages, provisional_id@)
            } else {
                old(self)@.messages
            },
            end.failed_row == if error is Some && !cancelled && has_id(
                old(self)@.messages,
                provisional_id@,
            ) {
                Some(index_of_id(old(self)@.messages, provisional_id@) as usize)
            } else {
                None
            },
            end.clear_session == (error is Some && auth_failure_text(error->0@)),
            end.authentication_failed == (end.clear_session && !cancelled),
    {
        match find_upload(&self.upload_cancellations, provisional_id) {
            Some(at) => {
                let _ = self.upload_cancellations.remove(at);
                assert(self.upload_cancellations.deep_view() =~= old(
                    self,
                )@.upload_cancellations.remove(at as int));
            },
            None => {},
        }
        match error {
            None => UploadEnd {
                failed_row: None,
                clear_session: false,
                authentication_failed: false,
            },
            Some(text) => {
                let auth = is_auth_error(text);
                if cancelled {
                    UploadEnd { failed_row: None, clear_session: auth, authentication_failed: false }
                } else {
                    let failed_row = find_by_id(&self.messages, provisional_id);
                    match failed_row {
                        Some(at) => {
                            self.messages[at].status = DeliveryStatus::Failed;
                            assert(self.messages.deep_view() =~= with_failed(
                                old(self)@.messages,
                                provisional_id@,
                            ));
                        },
                        None => {},
                    }
                    UploadEnd { failed_row, clear_session: auth, authentication_failed: auth }
                }
            },
        }
    }

    /// Closes the sending of a media message.
    ///
    /// `failed_at` is the step that failed, with `error` as the text of the
    /// failure, or `None` after a success. An answer to the send that could
    /// not be decoded counts as a success: the row is not marked as failed,
    /// the session is not cleared and nothing is sent again. Every other
    /// failure ends the send as `finish_upload` says.
    pub fn finish_media_send(
        &mut self,
        provisional_id: &str,
        failed_at: Option<MediaStep>,
        error: &str,
        cancelled: bool,
    ) -> (end: UploadEnd)
        ensures
            final(self)@.loading == old(self)@.loading,
            final(self)@.selected_conversation_id == old(self)@.selected_conversation_id,
            final(self)@.me_participant_id == old(self)@.me_participant_id,
            final(self)@.cache == old(self)@.cache,
            final(self)@.upload_cancellations == without_upload(
                old(self)@.upload_cancellations,
                provisional_id@,
            ),
            final(self)@.messages == if lasting_error(failed_at, error@) is Some && !cancelled {
                with_failed(old(self)@.messages, provisional_id@)
            } else {
                old(self)@.messages
            },
            end.failed_row == if lasting_error(failed_at, error@) is Some && !cancelled && has_id(
                old(self)@.messages,
                provisional_id@,
            ) {
                Some(index_of_id(old(self)@.messages, provisional_id@) as usize)
            } else {
                None
            },
            end.clear_session == (lasting_error(failed_at, error@) is Some && auth_failure_text(
                error@,
            )),
            end.authentication_failed == (end.clear_session && !cancelled),
    {
        let lasting = match failed_at {
            Some(MediaStep::Send) => !is_undecodable_answer(error),
            Some(MediaStep::Upload) => true,
            None => false,
        };
        if lasting {
            self.finish_upload(provisional_id, Some(error), cancelled)
        } else {
            self.finish_upload(provisional_id, None, cancelled)
        }
    }

    /// Points the row of a message at its downloaded media, and returns the
    /// index of that row. With `remember` set, the cache entry of the
    /// visible conversation follows.
    pub fn set_media_location(
        &mut self,
        message_id: &str,
        media_url: &str,
        thumbnail_url: &str,
        remember: bool,
    ) -> (row: Option<usize>)
        ensures
            final(self)@.loading == old(self)@.loading,
            final(self)@.selected_conversation_id == old(self)@.selected_conversation_id,
            final(self)@.me_participant_id == old(self)@.me_participant_id,
            final(self)@.upload_cancellations == old(self)@.upload_cancellations,
            final(self)@.messages == with_media(
                old(self)@.messages,
                message_id@,
                media_url@,
                thumbnail_url@,
            ),
            row == if has_id(old(self)@.messages, message_id@) {
                Some(index_of_id(old(self)@.messages, message_id@) as usize)
            } else {
                None
            },
            final(self)@.cache == if remember && row is Some && old(
                self,
            )@.selected_conversation_id.len() > 0 {
                stored(
                    old(self)@.cache,
                    old(self)@.selected_conversation_id,
                    snapshot(
                        old(self)@.selected_conversation_id,
                        final(self)@.messages,
                        old(self)@.me_participant_id,
                    ),
                )
            } else {
                old(self)@.cache
            },
            well_formed(final(self)@.cache),
    {
        proof {
            use_type_invariant(&self.cache);
        }
        let row = find_by_id(&self.messages, message_id);
        match row {
            Some(at) => {
                self.messages[at].media_url = media_url.to_owned();
                if !thumbnail_url.is_empty() {
                    self.messages[at].thumbnail_url = thumbnail_url.to_owned();
                }
                assert(self.messages.deep_view() =~= with_media(
                    old(self)@.messages,
                    message_id@,
                    media_url@,
                    thumbnail_url@,
                ));
                if remember && !self.selected_conversation_id.is_empty() {
                    let _ = self.cache.remember(
                        self.selected_conversation_id.as_str(),
                        self.selected_conversation_id.as_str(),
                        &self.messages,
                        self.me_participant_id.as_str(),
                    );
                }
            },
            None => {},
        }
        row
    }

    /// Gives the rows of the visible conversation the avatars of their
    /// participants and returns the indices of the rows that took one.
    ///
    /// `avatars` maps participant ids to addresses. Avatars of another
    /// conversation than the visible one change nothing.
    pub fn apply_avatars(&mut self, conversation_id: &str, avatars: &TextMap) -> (rows: Vec<usize>)
        ensures
            final(self)@.loading == old(self)@.loading,
            final(self)@.selected_conversation_id == old(self)@.selected_conversation_id,
            final(self)@.me_participant_id == old(self)@.me_participant_id,
            final(self)@.upload_cancellations == old(self)@.upload_cancellations,
            well_formed(final(self)@.cache),
            old(self)@.selected_conversation_id != conversation_id@ ==> final(self)@ == old(
                self,
            )@ && rows@.len() == 0,
            old(self)@.selected_conversation_id == conversation_id@ ==> {
                &&& final(self)@.messages == old(self)@.messages.map_values(
                    |m: MessageRow| with_avatar(m, avatars@),
                )
                &&& rows@ == avatar_rows(
                    old(self)@.messages,
                    avatars@,
                    old(self)@.messages.len() as int,
                )
                &&& final(self)@.cache == stored(
                    old(self)@.cache,
                    conversation_id@,
                    snapshot(conversation_id@, final(self)@.messages, old(self)@.me_participant_id),
                )
            },
    {
        proof {
            use_type_invariant(&self.cache);
        }
        let mut rows: Vec<usize> = Vec::new();
        if !same_text(self.selected_conversation_id.as_str(), conversation_id) {
            return rows;
        }
        let ghost before = self.messages.deep_view();
        let mut i: usize = 0;
        while i < self.messages.len()
            invariant
                i <= self.messages.len(),
                self.messages.len() == before.len(),
                forall|j: int| 0 <= j < i ==> self.messages.deep_view()[j] == with_avatar(
                    #[trigger] before[j],
                    avatars@,
                ),
                forall|j: int|
                    i <= j < before.len() ==> self.messages.deep_view()[j] == #[trigger] before[j],
                rows@ == avatar_rows(before, avatars@, i as int),
                self.loading == old(self).loading,
                self.selected_conversation_id == old(self).selected_conversation_id,
                self.me_participant_id == old(self).me_participant_id,
                self.upload_cancellations == old(self).upload_cancellations,
                self.cache == old(self).cache,
            decreases self.messages.len() - i,
        {
            let ghost current = self.messages.deep_view();
            let mut took = false;
            if !self.messages[i].participant_id.is_empty() {
                match avatars.get(self.messages[i].participant_id.as_str()) {
                    Some(url) => {
                        self.messages[i].avatar_url = url.clone();
                        took = true;
                    },
                    None => {},
                }
            }
            if took {
                rows.push(i);
            }
            proof {
                assert(current[i as int] == before[i as int]);
                assert(took == takes_avatar(before[i as int], avatars@));
                assert forall|j: int| 0 <= j < i + 1 implies self.messages.deep_view()[j]
                    == with_avatar(#[trigger] before[j], avatars@) by {
                    if j < i {
                        assert(self.messages.deep_view()[j] == current[j]);
                    }
                }
                assert forall|j: int| i + 1 <= j < before.len() implies self.messages.deep_view()[j]
                    == #[trigger] before[j] by {
                    assert(self.messages.deep_view()[j] == current[j]);
                }
            }
            i += 1;
        }
        assert(self.messages.deep_view() =~= before.map_values(
            |m: MessageRow| with_avatar(m, avatars@),
        ));
        let _ = self.cache.remember(
            self.selected_conversation_id.as_str(),
            self.selected_conversation_id.as_str(),
            &self.messages,
            self.me_participant_id.as_str(),
        );
        rows
    }
}

} // verus!
