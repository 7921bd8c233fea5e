//! Media payloads: their kinds, their names on disk and their addresses.

use crate::text::{chars_of, joined, has_prefix, same_text, starts_with, string_of, string_of_range};
use vstd::prelude::*;

verus! {

/// The largest media payload, in bytes, that may be offered for upload.
pub const MAX_MEDIA_BYTES: u64 = 104_857_600;

/// `bytes` begins with `magic`.
pub open spec fn begins_with(bytes: Seq<u8>, magic: Seq<u8>) -> bool {
    magic.len() <= bytes.len() && bytes.subrange(0, magic.len() as int) == magic
}

/// The signature of a PNG image.
pub open spec fn png_magic() -> Seq<u8> {
    seq![0x89u8, 0x50u8, 0x4eu8, 0x47u8, 0x0du8, 0x0au8, 0x1au8, 0x0au8]
}

/// The signature of a JPEG image.
pub open spec fn jpeg_magic() -> Seq<u8> {
    seq![0xffu8, 0xd8u8, 0xffu8]
}

/// The signature `GIF87a`.
pub open spec fn gif87_magic() -> Seq<u8> {
    seq![0x47u8, 0x49u8, 0x46u8, 0x38u8, 0x37u8, 0x61u8]
}

/// The signature `GIF89a`.
pub open spec fn gif89_magic() -> Seq<u8> {
    seq![0x47u8, 0x49u8, 0x46u8, 0x38u8, 0x39u8, 0x61u8]
}

/// A RIFF container that holds a WebP image: `RIFF` at 0, `WEBP` at 8.
pub open spec fn is_webp(bytes: Seq<u8>) -> bool {
    &&& bytes.len() >= 12
    &&& bytes.subrange(0, 4) == seq![0x52u8, 0x49u8, 0x46u8, 0x46u8]
    &&& bytes.subrange(8, 12) == seq![0x57u8, 0x45u8, 0x42u8, 0x50u8]
}

/// The file extension that the first bytes of an image call for.
pub open spec fn extension_of_content(bytes: Seq<u8>) -> Seq<char> {
    if begins_with(bytes, png_magic()) {
        "png"@
    } else if begins_with(bytes, jpeg_magic()) {
        "jpg"@
    } else if begins_with(bytes, gif87_magic()) || begins_with(bytes, gif89_magic()) {
        "gif"@
    } else if is_webp(bytes) {
        "webp"@
    } else {
        "bin"@
    }
}

/// The file extension under which a media type is stored.
pub open spec fn extension_of_mime(mime: Seq<char>) -> Seq<char> {
    if mime == "image/png"@ {
        "png"@
    } else if mime == "image/jpeg"@ {
        "jpg"@
    } else if mime == "image/gif"@ {
        "gif"@
    } else if mime == "image/webp"@ {
        "webp"@
    } else if mime == "video/mp4"@ {
        "mp4"@
    } else if mime == "video/webm"@ {
        "webm"@
    } else if mime == "video/3gpp"@ {
        "3gp"@
    } else if mime == "video/3gpp2"@ {
        "3g2"@
    } else {
        "bin"@
    }
}

/// The media type that a lower-case file extension stands for.
pub open spec fn mime_of_extension(extension: Seq<char>) -> Seq<char> {
    if extension == "png"@ {
        "image/png"@
    } else if extension == "jpg"@ || extension == "jpeg"@ {
        "image/jpeg"@
    } else if extension == "gif"@ {
        "image/gif"@
    } else if extension == "mp4"@ {
        "video/mp4"@
    } else if extension == "webm"@ {
        "video/webm"@
    } else if extension == "webp"@ {
        "image/webp"@
    } else {
        "application/octet-stream"@
    }
}

/// Index behind the last `c` in `s`, or 0 when `s` holds none.
pub open spec fn after_last(s: Seq<char>, c: char) -> int
    decreases s.len(),
{
    if s.len() == 0 {
        0
    } else if s.last() == c {
        s.len() as int
    } else {
        after_last(s.drop_last(), c)
    }
}

/// Where the file name stands in a path, read as paths are on Unix: the
/// span of its last component, with empty components and `.` passed over.
/// A path that ends in `..`, or has no component to name, has the empty
/// span at 0.
pub open spec fn name_span(path: Seq<char>) -> (int, int)
    decreases path.len(),
    via name_span_shortens
{
    if path.len() == 0 {
        (0, 0)
    } else {
        let start = after_last(path, '/');
        let last = path.subrange(start, path.len() as int);
        if last.len() == 0 || last == seq!['.'] {
            if start == 0 {
                (0, 0)
            } else {
                name_span(path.subrange(0, start - 1))
            }
        } else if last == seq!['.', '.'] {
            (0, 0)
        } else {
            (start, path.len() as int)
        }
    }
}

#[via_fn]
proof fn name_span_shortens(path: Seq<char>) {
    lemma_after_last_bounds(path, '/');
}

/// The file name of a path: its last component, as `name_span` finds it;
/// empty where there is none.
pub open spec fn file_name_of(path: Seq<char>) -> Seq<char> {
    path.subrange(name_span(path).0, name_span(path).1)
}

/// The extension of a path: what follows the last `.` of its file name. A
/// name without `.`, or with its only `.` in front, has none.
pub open spec fn extension_of_path(path: Seq<char>) -> Seq<char> {
    let name = file_name_of(path);
    let dot = after_last(name, '.');
    if dot <= 1 {
        Seq::empty()
    } else {
        name.subrange(dot, name.len() as int)
    }
}

/// The path behind a `file://` address; any other text is taken as a path.
pub open spec fn local_path_of(file_url: Seq<char>) -> Seq<char> {
    if has_prefix(file_url, "file://"@) {
        file_url.subrange(7, file_url.len() as int)
    } else {
        file_url
    }
}

/// The `file://` address of a path.
pub open spec fn file_uri_of(path: Seq<char>) -> Seq<char> {
    "file://"@ + path
}

/// One character of a media identifier as it may stand in a file name:
/// `/`, `+` and `-` become `_`.
pub open spec fn safe_char(c: char) -> char {
    if c == '/' || c == '+' || c == '-' {
        '_'
    } else {
        c
    }
}

/// A media identifier with `=` dropped and `/`, `+`, `-` turned into `_`.
pub open spec fn sanitized(id: Seq<char>) -> Seq<char> {
    id.filter(|c: char| c != '=').map_values(|c: char| safe_char(c))
}

/// The name under which a media payload is kept: the sanitized media id,
/// or, when that is empty, the message id with `-` turned into `_`.
pub open spec fn media_key(media_id: Seq<char>, message_id: Seq<char>) -> Seq<char> {
    if sanitized(media_id).len() > 0 {
        sanitized(media_id)
    } else {
        message_id.map_values(|c: char| if c == '-' { '_' } else { c })
    }
}

/// The name under which an avatar is kept: the sanitized identifier, or
/// `unknown` when nothing is left of it.
pub open spec fn avatar_key(identifier: Seq<char>) -> Seq<char> {
    if sanitized(identifier).len() > 0 {
        sanitized(identifier)
    } else {
        "unknown"@
    }
}

/// `stem.extension`.
pub open spec fn file_name_with(stem: Seq<char>, extension: Seq<char>) -> Seq<char> {
    stem + seq!['.'] + extension
}

/// Where the stem of the file name ends in a path: in front of the `.` of
/// its extension, or at the end of the name where it has no extension.
pub open spec fn stem_end(path: Seq<char>) -> int {
    let dot = after_last(file_name_of(path), '.');
    if dot <= 1 {
        name_span(path).1
    } else {
        name_span(path).0 + dot - 1
    }
}

/// Where the thumbnail of a video is kept: beside the video, with
/// `thumb.jpg` in place of the extension of its file name. A path without
/// a file name is left as it is.
pub open spec fn thumbnail_path_of(video_path: Seq<char>) -> Seq<char> {
    if file_name_of(video_path).len() == 0 {
        video_path
    } else {
        video_path.subrange(0, stem_end(video_path)) + ".thumb.jpg"@
    }
}

/// The `data:` address that carries a payload inline.
pub open spec fn data_uri_of(mime: Seq<char>, base64: Seq<char>) -> Seq<char> {
    "data:"@ + mime + ";base64,"@ + base64
}

proof fn lemma_after_last_is(s: Seq<char>, c: char, at: int)
    requires
        0 <= at <= s.len(),
        at > 0 ==> s[at - 1] == c,
        forall|i: int| at <= i < s.len() ==> #[trigger] s[i] != c,
    ensures
        after_last(s, c) == at,
    decreases s.len(),
{
    if s.len() > 0 && at < s.len() {
        let t = s.drop_last();
        assert(s[s.len() - 1] != c);
        assert forall|i: int| at <= i < t.len() implies #[trigger] t[i] != c by {
            assert(t[i] == s[i]);
        }
        if at > 0 {
            assert(t[at - 1] == s[at - 1]);
        }
        lemma_after_last_is(t, c, at);
    }
}

fn has_magic(bytes: &[u8], magic: &[u8]) -> (r: bool)
    ensures
        r == begins_with(bytes@, magic@),
{
    if magic.len() > bytes.len() {
        return false;
    }
    let mut i: usize = 0;
    while i < magic.len()
        invariant
            i <= magic.len() <= bytes.len(),
            forall|j: int| 0 <= j < i ==> bytes@[j] == magic@[j],
        decreases magic.len() - i,
    {
        if bytes[i] != magic[i] {
            proof {
                assert(bytes@.subrange(0, magic.len() as int)[i as int] == bytes@[i as int]);
            }
            return false;
        }
        i += 1;
    }
    assert(bytes@.subrange(0, magic.len() as int) =~= magic@);
    true
}

/// The file extension for the image that starts with `bytes`: `png`, `jpg`,
/// `gif` or `webp` by signature, `bin` for anything else.
pub fn detect_extension(bytes: &[u8]) -> (extension: &'static str)
    ensures
        extension@ == extension_of_content(bytes@),
{
    let png: [u8; 8] = [0x89, 0x50, 0x4e, 0x47, 0x0d, 0x0a, 0x1a, 0x0a];
    let jpeg: [u8; 3] = [0xff, 0xd8, 0xff];
    let gif87: [u8; 6] = [0x47, 0x49, 0x46, 0x38, 0x37, 0x61];
    let gif89: [u8; 6] = [0x47, 0x49, 0x46, 0x38, 0x39, 0x61];
    assert(png@ =~= png_magic());
    assert(jpeg@ =~= jpeg_magic());
    assert(gif87@ =~= gif87_magic());
    assert(gif89@ =~= gif89_magic());
    if has_magic(bytes, png.as_slice()) {
        "png"
    } else if has_magic(bytes, jpeg.as_slice()) {
        "jpg"
    } else if has_magic(bytes, gif87.as_slice()) || has_magic(bytes, gif89.as_slice()) {
        "gif"
    } else if bytes.len() >= 12 && bytes[0] == 0x52 && bytes[1] == 0x49 && bytes[2] == 0x46
        && bytes[3] == 0x46 && bytes[8] == 0x57 && bytes[9] == 0x45 && bytes[10] == 0x42
        && bytes[11] == 0x50 {
        assert(bytes@.subrange(0, 4) =~= seq![0x52u8, 0x49u8, 0x46u8, 0x46u8]);
        assert(bytes@.subrange(8, 12) =~= seq![0x57u8, 0x45u8, 0x42u8, 0x50u8]);
        "webp"
    } else {
        proof {
            if bytes.len() >= 12 {
                let head = bytes@.subrange(0, 4);
                let tail = bytes@.subrange(8, 12);
                assert(head[0] == bytes@[0] && head[1] == bytes@[1] && head[2] == bytes@[2]
                    && head[3] == bytes@[3]);
                assert(tail[0] == bytes@[8] && tail[1] == bytes@[9] && tail[2] == bytes@[10]
                    && tail[3] == bytes@[11]);
            }
        }
        "bin"
    }
}

/// The file extension under which a media type is stored; `bin` for a type
/// that is not known.
pub fn mime_to_extension(mime: &str) -> (extension: &'static str)
    ensures
        extension@ == extension_of_mime(mime@),
{
    if same_text(mime, "image/png") {
        "png"
    } else if same_text(mime, "image/jpeg") {
        "jpg"
    } else if same_text(mime, "image/gif") {
        "gif"
    } else if same_text(mime, "image/webp") {
        "webp"
    } else if same_text(mime, "video/mp4") {
        "mp4"
    } else if same_text(mime, "video/webm") {
        "webm"
    } else if same_text(mime, "video/3gpp") {
        "3gp"
    } else if same_text(mime, "video/3gpp2") {
        "3g2"
    } else {
        "bin"
    }
}

/// The media type for a lower-case file extension;
/// `application/octet-stream` for one that is not known.
pub fn mime_for_extension(extension: &str) -> (mime: &'static str)
    ensures
        mime@ == mime_of_extension(extension@),
{
    if same_text(extension, "png") {
        "image/png"
    } else if same_text(extension, "jpg") || same_text(extension, "jpeg") {
        "image/jpeg"
    } else if same_text(extension, "gif") {
        "image/gif"
    } else if same_text(extension, "mp4") {
        "video/mp4"
    } else if same_text(extension, "webm") {
        "video/webm"
    } else if same_text(extension, "webp") {
        "image/webp"
    } else {
        "application/octet-stream"
    }
}

/// Whether a payload of `size` bytes may be uploaded.
pub fn within_media_limit(size: u64) -> (ok: bool)
    ensures
        ok == (size <= MAX_MEDIA_BYTES),
{
    size <= MAX_MEDIA_BYTES
}

/// Whether a media type is a video.
pub fn is_video(mime: &str) -> (video: bool)
    ensures
        video == has_prefix(mime@, "video/"@),
{
    starts_with(mime, "video/")
}

fn index_after_last(v: &Vec<char>, from: usize, to: usize, c: char) -> (at: usize)
    requires
        from <= to <= v.len(),
    ensures
        at == from + after_last(v@.subrange(from as int, to as int), c),
        from <= at <= to,
{
    let ghost s = v@.subrange(from as int, to as int);
    let mut at: usize = to;
    while at > from && v[at - 1] != c
        invariant
            from <= at <= to <= v.len(),
            s == v@.subrange(from as int, to as int),
            forall|i: int| at - from <= i < s.len() ==> #[trigger] s[i] != c,
        decreases at,
    {
        at -= 1;
        assert forall|i: int| at - from <= i < s.len() implies #[trigger] s[i] != c by {
            if i == at - from {
                assert(s[i] == v@[at as int]);
            }
        }
    }
    proof {
        if at > from {
            assert(s[at - from - 1] == v@[at - 1]);
        }
        lemma_after_last_is(s, c, at - from);
    }
    at
}

/// The span of the file name stays within the path, and is empty only at 0.
pub proof fn lemma_name_span(path: Seq<char>)
    ensures
        0 <= name_span(path).0 <= name_span(path).1 <= path.len(),
        name_span(path).0 == name_span(path).1 ==> name_span(path) == (0int, 0int),
    decreases path.len(),
{
    if path.len() > 0 {
        let start = after_last(path, '/');
        lemma_after_last_bounds(path, '/');
        let last = path.subrange(start, path.len() as int);
        if (last.len() == 0 || last == seq!['.']) && start > 0 {
            lemma_name_span(path.subrange(0, start - 1));
        }
    }
}

proof fn lemma_after_last_bounds(s: Seq<char>, c: char)
    ensures
        0 <= after_last(s, c) <= s.len(),
    decreases s.len(),
{
    if s.len() > 0 && s.last() != c {
        lemma_after_last_bounds(s.drop_last(), c);
    }
}

/// Finds the file name in a path.
fn locate_name(v: &Vec<char>) -> (span: (usize, usize))
    ensures
        (span.0 as int, span.1 as int) == name_span(v@),
        span.0 <= span.1 <= v.len(),
{
    let mut end: usize = v.len();
    assert(v@.subrange(0, end as int) =~= v@);
    while end > 0
        invariant
            end <= v.len(),
            name_span(v@) == name_span(v@.subrange(0, end as int)),
        decreases end,
    {
        let ghost path = v@.subrange(0, end as int);
        let start = index_after_last(v, 0, end, '/');
        let ghost last = path.subrange(start as int, end as int);
        let dots = end - start <= 2 && (start == end || v[start] == '.') && (end - start < 2
            || v[start + 1] == '.');
        proof {
            if start < end {
                assert(last[0] == v@[start as int]);
            }
            if start + 1 < end {
                assert(last[1] == v@[start + 1]);
            }
            if end - start == 1 && v@[start as int] == '.' {
                assert(last =~= seq!['.']);
            }
            if end - start == 2 && v@[start as int] == '.' && v@[start + 1] == '.' {
                assert(last =~= seq!['.', '.']);
            }
            if last == seq!['.'] {
                assert(last.len() == 1 && last[0] == '.');
            }
            if last == seq!['.', '.'] {
                assert(last.len() == 2 && last[0] == '.' && last[1] == '.');
            }
        }
        if !dots {
            return (start, end);
        }
        if end - start == 2 || start == 0 {
            return (0, 0);
        }
        proof {
            assert(path.subrange(0, start - 1) =~= v@.subrange(0, start - 1));
        }
        end = start - 1;
    }
    (0, 0)
}

/// The path behind a `file://` address.
pub fn local_path(file_url: &str) -> (path: String)
    ensures
        path@ == local_path_of(file_url@),
{
    proof {
        reveal_strlit("file://");
    }
    if starts_with(file_url, "file://") {
        let v = chars_of(file_url);
        string_of_range(&v, 7, v.len())
    } else {
        file_url.to_owned()
    }
}

/// The `file://` address of a path.
pub fn file_uri(path: &str) -> (uri: String)
    ensures
        uri@ == file_uri_of(path@),
{
    joined("file://", path)
}

/// The file name of a path.
pub fn file_name(path: &str) -> (name: String)
    ensures
        name@ == file_name_of(path@),
{
    let v = chars_of(path);
    let (start, end) = locate_name(&v);
    string_of_range(&v, start, end)
}

/// The extension of a path, as written.
pub fn path_extension(path: &str) -> (extension: String)
    ensures
        extension@ == extension_of_path(path@),
{
    let v = chars_of(path);
    let (start, end) = locate_name(&v);
    let dot = index_after_last(&v, start, end, '.');
    let ghost name = v@.subrange(start as int, end as int);
    if dot - start <= 1 {
        String::new()
    } else {
        assert(name.subrange(dot - start, name.len() as int) =~= v@.subrange(
            dot as int,
            end as int,
        ));
        string_of_range(&v, dot, end)
    }
}

/// Where the thumbnail of a video is kept.
pub fn thumbnail_path(video_path: &str) -> (path: String)
    ensures
        path@ == thumbnail_path_of(video_path@),
{
    let v = chars_of(video_path);
    let (start, end) = locate_name(&v);
    if start == end {
        return video_path.to_owned();
    }
    let dot = index_after_last(&v, start, end, '.');
    let stem: usize = if dot - start <= 1 {
        end
    } else {
        dot - 1
    };
    let mut path = string_of_range(&v, 0, stem);
    path.append(".thumb.jpg");
    path
}

/// A media identifier as it may stand in a file name.
pub fn sanitize(id: &str) -> (safe: String)
    ensures
        safe@ == sanitized(id@),
{
    let v = chars_of(id);
    let ghost keep = |c: char| c != '=';
    let ghost turn = |c: char| safe_char(c);
    let mut out: Vec<char> = Vec::new();
    let mut i: usize = 0;
    proof {
        reveal(Seq::filter);
        assert(v@.take(0).filter(keep) =~= Seq::<char>::empty());
        assert(out@ =~= v@.take(0).filter(keep).map_values(turn));
    }
    while i < v.len()
        invariant
            i <= v.len(),
            keep == (|c: char| c != '='),
            turn == (|c: char| safe_char(c)),
            out@ == v@.take(i as int).filter(keep).map_values(turn),
        decreases v.len() - i,
    {
        let c = v[i];
        proof {
            assert(v@.take(i as int + 1) =~= v@.take(i as int).push(c));
            v@.take(i as int).lemma_filter_push(c, keep);
        }
        if c != '=' {
            let ghost prior = v@.take(i as int).filter(keep);
            if c == '/' || c == '+' || c == '-' {
                out.push('_');
            } else {
                out.push(c);
            }
            assert(out@ =~= prior.push(c).map_values(turn));
        }
        i += 1;
    }
    assert(v@.take(v.len() as int) =~= v@);
    string_of(&out)
}

/// The name under which a media payload is kept.
pub fn media_file_key(media_id: &str, message_id: &str) -> (key: String)
    ensures
        key@ == media_key(media_id@, message_id@),
{
    let safe = sanitize(media_id);
    if !safe.is_empty() {
        return safe;
    }
    let v = chars_of(message_id);
    let ghost turn = |c: char| if c == '-' { '_' } else { c };
    let mut out: Vec<char> = Vec::new();
    let mut i: usize = 0;
    while i < v.len()
        invariant
            i <= v.len(),
            out.len() == i,
            forall|j: int| 0 <= j < i ==> out@[j] == (if v@[j] == '-' { '_' } else { v@[j] }),
        decreases v.len() - i,
    {
        if v[i] == '-' {
            out.push('_');
        } else {
            out.push(v[i]);
        }
        i += 1;
    }
    assert(out@ =~= v@.map_values(turn));
    string_of(&out)
}

/// The name under which an avatar is kept.
pub fn avatar_file_key(identifier: &str) -> (key: String)
    ensures
        key@ == avatar_key(identifier@),
{
    let safe = sanitize(identifier);
    if safe.is_empty() {
        "unknown".to_owned()
    } else {
        safe
    }
}

/// `stem.extension`.
pub fn file_name_for(stem: &str, extension: &str) -> (name: String)
    ensures
        name@ == file_name_with(stem@, extension@),
{
    let mut name = stem.to_owned();
    name.push('.');
    name.append(extension);
    name
}

/// The `data:` address of a payload that is already encoded in base64.
pub fn data_uri(mime: &str, base64: &str) -> (uri: String)
    ensures
        uri@ == data_uri_of(mime@, base64@),
{
    let mut uri = "data:".to_owned();
    uri.append(mime);
    uri.append(";base64,");
    uri.append(base64);
    uri
}

} // verus!
