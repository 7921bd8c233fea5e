//! What the message list decides about files: where a thumbnail is kept,
//! how a size is reported, what a download needs and what a saved copy is
//! called. Reading and writing the files is left to the caller.

use crate::codec::travel_bytes;
use crate::housekeeping::{
    file_size_answer, file_size_of, media_source, new_saved_file_name, plan_media_download,
    saved_name_of, source_of, MediaDownloadPlan, MediaSource,
};
use crate::media::{
    extension_of_mime, file_name_with, local_path, local_path_of, media_key, thumbnail_path,
    thumbnail_path_of,
};
use crate::message_list::MessageList;
use crate::text::has_prefix;
use vstd::prelude::*;

verus! {

/// What saving a copy of a payload needs: where its bytes come from and
/// the name of the copy.
#[derive(Debug, PartialEq, Eq)]
pub struct SavePlan {
    pub source: MediaSource,
    pub file_name: String,
}

impl MessageList {
    /// The path at which the thumbnail of the video behind `file_url` is
    /// kept.
    pub fn get_video_thumbnail(&self, file_url: &str) -> (path: String)
        ensures
            path@ == thumbnail_path_of(local_path_of(file_url@)),
    {
        thumbnail_path(local_path(file_url).as_str())
    }

    /// The size of a file as the view takes it, given its size in bytes, or
    /// `None` for a file that could not be examined.
    pub fn get_file_size(&self, size: Option<u64>) -> (answer: i64)
        ensures
            answer == file_size_of(size),
    {
        file_size_answer(size)
    }

    /// What the download of the media of a message needs.
    pub fn queue_media_download(
        &self,
        message_id: &str,
        media_id: &str,
        decryption_key: &str,
        mime_type: &str,
    ) -> (plan: MediaDownloadPlan)
        ensures
            plan.decryption_key@ == travel_bytes(decryption_key@),
            plan.file_key@ == media_key(media_id@, message_id@),
            plan.file_name@ == file_name_with(
                media_key(media_id@, message_id@),
                extension_of_mime(mime_type@),
            ),
            plan.is_video == has_prefix(mime_type@, "video/"@),
    {
        plan_media_download(message_id, media_id, decryption_key, mime_type)
    }

    /// What saving a copy of the payload behind `source_url` needs. The
    /// name of the copy carries the time of the moment and an identifier
    /// drawn at random.
    pub fn save_media(&self, source_url: &str, mime_type: &str) -> (plan: SavePlan)
        ensures
            plan.source@ == source_of(source_url@),
            exists|stamp: Seq<char>, identifier: Seq<char>|
                identifier.len() == 36 && plan.file_name@ == saved_name_of(
                    stamp,
                    identifier,
                    mime_type@,
                ),
    {
        SavePlan { source: media_source(source_url), file_name: new_saved_file_name(mime_type) }
    }
}

} // verus!
