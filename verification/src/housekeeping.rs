//! Files on disk: what is swept, what a saved copy is called, and where a
//! downloaded payload is addressed.

use crate::clock::local_stamp;
use crate::codec::{
    base64_decoded, decode_from_travel, decode_standard, encode_for_travel, travel_bytes,
    travel_text,
};
use crate::ids::random_uuid_text;
use crate::media::{
    data_uri, data_uri_of, extension_of_mime, file_name_for, file_name_with, file_uri,
    file_uri_of, is_video, media_file_key, media_key, mime_to_extension,
};
use crate::text::{chars_of, has_prefix, matches_at, occurs_at, starts_with, string_of_range};
use vstd::prelude::*;

verus! {

/// Seconds after which a cached file is swept: seven days.
pub const CACHE_MAX_AGE_SECONDS: u64 = 604_800;

/// The directory of downloaded media, below the temporary directory.
pub const MEDIA_DIRECTORY: &'static str = "kourier_media";

/// The directory of link previews, below the temporary directory.
pub const LINK_PREVIEW_DIRECTORY: &'static str = "kourier_link_previews";

/// The directory of avatars, below the temporary directory.
pub const AVATAR_DIRECTORY: &'static str = "kourier_avatars";

/// A file is stale when it is older than `CACHE_MAX_AGE_SECONDS`, by
/// however little.
pub open spec fn stale(age_seconds: u64, age_nanoseconds: u32) -> bool {
    age_seconds > CACHE_MAX_AGE_SECONDS || (age_seconds == CACHE_MAX_AGE_SECONDS && age_nanoseconds
        > 0)
}

/// Whether a cached file of the given age is to be swept. The age is given
/// in whole seconds and the nanoseconds beyond them.
pub fn is_stale(age_seconds: u64, age_nanoseconds: u32) -> (sweep: bool)
    ensures
        sweep == stale(age_seconds, age_nanoseconds),
{
    age_seconds > CACHE_MAX_AGE_SECONDS || (age_seconds == CACHE_MAX_AGE_SECONDS && age_nanoseconds
        > 0)
}

/// The size of a file as the view takes it: the size, `i64::MAX` for a
/// size beyond that, and -1 for a file that could not be examined.
pub open spec fn file_size_of(size: Option<u64>) -> i64 {
    match size {
        Some(n) => if n <= i64::MAX {
            n as i64
        } else {
            i64::MAX
        },
        None => -1i64,
    }
}

/// The size of a file as the view takes it.
pub fn file_size_answer(size: Option<u64>) -> (answer: i64)
    ensures
        answer == file_size_of(size),
{
    match size {
        Some(n) => if n <= 0x7fff_ffff_ffff_ffff {
            n as i64
        } else {
            i64::MAX
        },
        None => -1,
    }
}

/// Where the bytes of a payload to save come from.
#[derive(Debug, PartialEq, Eq)]
pub enum MediaSource {
    /// They travel in the address itself.
    Inline(Vec<u8>),
    /// They are in the file of this path.
    File(String),
    /// The address is of no kind that can be read.
    Unreadable,
}

/// The mathematical value of a `MediaSource`.
pub enum MediaSourceView {
    Inline(Seq<u8>),
    File(Seq<char>),
    Unreadable,
}

impl View for MediaSource {
    type V = MediaSourceView;

    open spec fn view(&self) -> MediaSourceView {
        match self {
            MediaSource::Inline(bytes) => MediaSourceView::Inline(bytes@),
            MediaSource::File(path) => MediaSourceView::File(path@),
            MediaSource::Unreadable => MediaSourceView::Unreadable,
        }
    }
}

/// Index of the first occurrence of `needle` in `hay` at or behind `from`,
/// or the length of `hay` when there is none.
pub open spec fn find_from(hay: Seq<char>, needle: Seq<char>, from: int) -> int
    decreases hay.len() - from,
{
    if from < 0 || from >= hay.len() {
        hay.len() as int
    } else if occurs_at(hay, needle, from) {
        from
    } else {
        find_from(hay, needle, from + 1)
    }
}

/// Where the bytes behind an address come from.
///
/// A `data:` address carries them in base64 behind its first `;base64,`;
/// without that mark, or with text that does not decode, it is unreadable.
/// A `file://` address names the file. Any other address is unreadable.
pub open spec fn source_of(url: Seq<char>) -> MediaSourceView {
    if has_prefix(url, "data:"@) {
        let rest = url.subrange(5, url.len() as int);
        let at = find_from(rest, ";base64,"@, 0);
        if at < rest.len() {
            match base64_decoded(rest.subrange(at + 8, rest.len() as int)) {
                Some(bytes) => MediaSourceView::Inline(bytes),
                None => MediaSourceView::Unreadable,
            }
        } else {
            MediaSourceView::Unreadable
        }
    } else if has_prefix(url, "file://"@) {
        MediaSourceView::File(url.subrange(7, url.len() as int))
    } else {
        MediaSourceView::Unreadable
    }
}

/// Finds where the bytes behind an address come from.
pub fn media_source(url: &str) -> (source: MediaSource)
    ensures
        source@ == source_of(url@),
{
    proof {
        reveal_strlit("data:");
        reveal_strlit("file://");
        reveal_strlit(";base64,");
    }
    let v = chars_of(url);
    if starts_with(url, "data:") {
        let mark = chars_of(";base64,");
        let rest = chars_of(string_of_range(&v, 5, v.len()).as_str());
        let mut at: usize = 0;
        while at < rest.len()
            invariant
                at <= rest.len(),
                mark@ == ";base64,"@,
                mark@.len() == 8,
                has_prefix(url@, "data:"@),
                rest@ == url@.subrange(5, url@.len() as int),
                find_from(rest@, mark@, 0) == find_from(rest@, mark@, at as int),
            decreases rest.len() - at,
        {
            if matches_at(&rest, &mark, at) {
                let text = string_of_range(&rest, at + 8, rest.len());
                return match decode_standard(text.as_str()) {
                    Some(bytes) => MediaSource::Inline(bytes),
                    None => MediaSource::Unreadable,
                };
            }
            at += 1;
        }
        MediaSource::Unreadable
    } else if starts_with(url, "file://") {
        MediaSource::File(string_of_range(&v, 7, v.len()))
    } else {
        MediaSource::Unreadable
    }
}

/// The name of a saved copy: `gmessages_`, the time stamp, `_`, the first
/// eight characters of the identifier, `.` and the extension of the media
/// type.
pub open spec fn saved_name_of(stamp: Seq<char>, identifier: Seq<char>, mime: Seq<char>) -> Seq<char> {
    "gmessages_"@ + stamp + seq!['_'] + identifier.subrange(0, 8) + seq!['.'] + extension_of_mime(
        mime,
    )
}

/// The name of a saved copy.
pub fn saved_file_name(stamp: &str, identifier: &str, mime: &str) -> (name: String)
    requires
        identifier@.len() >= 8,
    ensures
        name@ == saved_name_of(stamp@, identifier@, mime@),
{
    let id = chars_of(identifier);
    let mut name = "gmessages_".to_owned();
    name.append(stamp);
    name.push('_');
    name.append(string_of_range(&id, 0, 8).as_str());
    name.push('.');
    name.append(mime_to_extension(mime));
    name
}

/// A fresh name for a saved copy of a payload of the given media type: the
/// time stamp is that of the moment, the identifier is drawn at random.
pub fn new_saved_file_name(mime: &str) -> (name: String)
    ensures
        exists|stamp: Seq<char>, identifier: Seq<char>|
            identifier.len() == 36 && name@ == saved_name_of(stamp, identifier, mime@),
{
    let stamp = local_stamp("%Y%m%d_%H%M%S");
    let identifier = random_uuid_text();
    saved_file_name(stamp.as_str(), identifier.as_str(), mime)
}

/// What the download of a media payload needs: the key that opens it, the
/// name of the file it is kept in, and whether it is a video.
#[derive(Debug, PartialEq, Eq)]
pub struct MediaDownloadPlan {
    pub decryption_key: Vec<u8>,
    /// The file name without its extension.
    pub file_key: String,
    pub file_name: String,
    pub is_video: bool,
}

/// Plans the download of the media of a message. The key arrives as
/// base64 text; a text that does not decode gives an empty key.
pub fn plan_media_download(message_id: &str, media_id: &str, decryption_key: &str, mime: &str) -> (plan:
    MediaDownloadPlan)
    ensures
        plan.decryption_key@ == travel_bytes(decryption_key@),
        plan.file_key@ == media_key(media_id@, message_id@),
        plan.file_name@ == file_name_with(media_key(media_id@, message_id@), extension_of_mime(mime@)),
        plan.is_video == has_prefix(mime@, "video/"@),
{
    let file_key = media_file_key(media_id, message_id);
    let file_name = file_name_for(file_key.as_str(), mime_to_extension(mime));
    MediaDownloadPlan {
        decryption_key: decode_from_travel(decryption_key),
        file_key,
        file_name,
        is_video: is_video(mime),
    }
}

/// The address of a downloaded payload: that of the file it was written
/// to, or, where writing failed, the payload itself as a `data:` address.
pub open spec fn payload_uri(
    data: Seq<u8>,
    mime: Seq<char>,
    path: Seq<char>,
    written: bool,
) -> Seq<char> {
    if written {
        file_uri_of(path)
    } else {
        data_uri_of(mime, travel_text(data))
    }
}

/// The address under which a downloaded payload is shown, after the
/// attempt to write it to `path`.
pub fn media_data_to_uri(data: &[u8], mime: &str, path: &str, written: bool) -> (uri: String)
    ensures
        uri@ == payload_uri(data@, mime@, path@, written),
{
    if written {
        file_uri(path)
    } else {
        data_uri(mime, encode_for_travel(data).as_str())
    }
}

} // verus!
