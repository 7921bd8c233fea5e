use kourier::auth::{is_auth_error, is_undecodable_answer};
use kourier::codec::{decode_from_travel, encode_for_travel};
use kourier::housekeeping::{
    file_size_answer, is_stale, media_data_to_uri, media_source, new_saved_file_name, plan_media_download,
    saved_file_name, MediaSource,
};
use kourier::ids::new_provisional_id;
use kourier::media::{
    avatar_file_key, data_uri, detect_extension, file_name, file_name_for, file_uri, is_video, local_path,
    media_file_key, mime_for_extension, mime_to_extension, path_extension, sanitize, thumbnail_path,
    within_media_limit,
};
use kourier::status::{map_message_status, DeliveryStatus};
use kourier::text::{
    char_is_whitespace, chars_of, joined, contains, decimal_string, same_text, starts_with, string_of, trim,
    two_digit_string,
};
use kourier::text_map::TextMap;

#[test]
fn status_words_by_code() {
    assert_eq!(map_message_status(5, true), "sending");
    assert_eq!(map_message_status(6, true), "sending");
    assert_eq!(map_message_status(7, true), "sending");
    assert_eq!(map_message_status(2, true), "delivered");
    assert_eq!(map_message_status(11, true), "read");
    assert_eq!(map_message_status(1, true), "sent");
    assert_eq!(map_message_status(0, true), "sent");
    assert_eq!(map_message_status(-3, true), "sent");
    for code in [0, 2, 5, 11, 300] {
        assert_eq!(map_message_status(code, false), "received");
    }
    assert_eq!(DeliveryStatus::Failed.label(), "failed");
    assert!(DeliveryStatus::Failed.is_local_only());
    assert!(DeliveryStatus::Sending.is_local_only());
    assert!(!DeliveryStatus::Delivered.is_local_only());
    assert_eq!(DeliveryStatus::from_code(2, true), DeliveryStatus::Delivered);
}

#[test]
fn extension_by_signature() {
    assert_eq!(detect_extension(b"\x89PNG\r\n\x1a\nrest"), "png");
    assert_eq!(detect_extension(b"\x89PNG\r\n\x1a"), "bin");
    assert_eq!(detect_extension(b"\xff\xd8\xff\xe0"), "jpg");
    assert_eq!(detect_extension(b"GIF87a.."), "gif");
    assert_eq!(detect_extension(b"GIF89a"), "gif");
    assert_eq!(detect_extension(b"GIF88a"), "bin");
    assert_eq!(detect_extension(b"RIFF\x00\x00\x00\x00WEBP"), "webp");
    assert_eq!(detect_extension(b"RIFF\x00\x00\x00\x00WEBX"), "bin");
    assert_eq!(detect_extension(b"RIFF\x00\x00\x00\x00WEB"), "bin");
    assert_eq!(detect_extension(b""), "bin");
}

#[test]
fn extension_and_type_tables() {
    let table = [
        ("image/png", "png"),
        ("image/jpeg", "jpg"),
        ("image/gif", "gif"),
        ("image/webp", "webp"),
        ("video/mp4", "mp4"),
        ("video/webm", "webm"),
        ("video/3gpp", "3gp"),
        ("video/3gpp2", "3g2"),
        ("text/plain", "bin"),
        ("", "bin"),
    ];
    for (mime, extension) in table {
        assert_eq!(mime_to_extension(mime), extension);
    }
    assert_eq!(mime_for_extension("png"), "image/png");
    assert_eq!(mime_for_extension("jpg"), "image/jpeg");
    assert_eq!(mime_for_extension("jpeg"), "image/jpeg");
    assert_eq!(mime_for_extension("gif"), "image/gif");
    assert_eq!(mime_for_extension("mp4"), "video/mp4");
    assert_eq!(mime_for_extension("webm"), "video/webm");
    assert_eq!(mime_for_extension("webp"), "image/webp");
    assert_eq!(mime_for_extension("PNG"), "application/octet-stream");
    assert_eq!(mime_for_extension(""), "application/octet-stream");
    assert!(is_video("video/mp4"));
    assert!(!is_video("image/png"));
    assert!(within_media_limit(100 * 1024 * 1024));
    assert!(!within_media_limit(100 * 1024 * 1024 + 1));
}

#[test]
fn paths_and_addresses() {
    assert_eq!(local_path("file:///tmp/a.png"), "/tmp/a.png");
    assert_eq!(local_path("/tmp/a.png"), "/tmp/a.png");
    assert_eq!(local_path("file://"), "");
    assert_eq!(local_path("file:/"), "file:/");
    assert_eq!(file_uri("/tmp/a b.png"), "file:///tmp/a b.png");
    assert_eq!(file_name("/tmp/dir/a.tar.gz"), "a.tar.gz");
    assert_eq!(file_name("plain"), "plain");
    assert_eq!(file_name("/tmp/dir/"), "dir");
    assert_eq!(file_name("/tmp/dir/."), "dir");
    assert_eq!(file_name("/tmp/dir/.."), "");
    assert_eq!(file_name("/"), "");
    assert_eq!(file_name(""), "");
    assert_eq!(path_extension("/tmp/dir/a.tar.GZ"), "GZ");
    assert_eq!(path_extension("/tmp/dir.d/noext"), "");
    assert_eq!(path_extension("/tmp/.hidden"), "");
    assert_eq!(path_extension("/tmp/.hidden.png"), "png");
    assert_eq!(path_extension("trailing."), "");
    assert_eq!(thumbnail_path("/v/clip.mp4"), "/v/clip.thumb.jpg");
    assert_eq!(thumbnail_path("/v/clip"), "/v/clip.thumb.jpg");
    assert_eq!(thumbnail_path("/v.d/.clip"), "/v.d/.clip.thumb.jpg");
    assert_eq!(file_name_for("abc", "png"), "abc.png");
    assert_eq!(data_uri("image/png", "AQID"), "data:image/png;base64,AQID");
}

#[test]
fn identifiers_become_file_names() {
    assert_eq!(sanitize("a/b+c=d-e=="), "a_b_cd_e");
    assert_eq!(sanitize("==="), "");
    assert_eq!(media_file_key("m/1+2=", "msg-1"), "m_1_2");
    assert_eq!(media_file_key("", "msg-1-2"), "msg_1_2");
    assert_eq!(media_file_key("==", "a-b=/"), "a_b=/");
    assert_eq!(avatar_file_key("+12/34"), "_12_34");
    assert_eq!(avatar_file_key("="), "unknown");
    assert_eq!(avatar_file_key(""), "unknown");
}

#[test]
fn text_helpers() {
    assert_eq!(trim(" \t hi there\u{a0}\n"), "hi there");
    assert_eq!(trim("\u{2003}x\u{3000}"), "x");
    assert_eq!(trim("   "), "");
    assert_eq!(trim(""), "");
    assert_eq!(trim("\u{200b}x"), "\u{200b}x");
    assert!(contains("hello world", "o w"));
    assert!(contains("hello", ""));
    assert!(contains("", ""));
    assert!(!contains("hello", "hello!"));
    assert!(!contains("", "a"));
    assert!(contains("aab", "ab"));
    assert!(starts_with("https://x", "https://"));
    assert!(!starts_with("http", "https"));
    assert!(starts_with("abc", ""));
    assert!(same_text("é", "é"));
    assert!(!same_text("a", "A"));
    assert_eq!(joined("ab", "cd"), "abcd");
    assert_eq!(decimal_string(0), "0");
    assert_eq!(decimal_string(7), "7");
    assert_eq!(decimal_string(1203), "1203");
    assert_eq!(decimal_string(u64::MAX), "18446744073709551615");
    assert_eq!(two_digit_string(3), "03");
    assert_eq!(two_digit_string(59), "59");
    assert_eq!(two_digit_string(123), "123");
    assert_eq!(string_of(&chars_of("héllo")), "héllo");
    for c in ['\t', '\n', '\u{b}', '\u{c}', '\r', ' ', '\u{85}', '\u{a0}', '\u{1680}', '\u{2000}', '\u{200a}', '\u{2028}', '\u{2029}', '\u{202f}', '\u{205f}', '\u{3000}'] {
        assert!(char_is_whitespace(c));
        assert!(c.is_whitespace());
    }
    for c in ['a', '\u{8}', '\u{e}', '\u{200b}', '\u{1f}', '\u{feff}'] {
        assert!(!char_is_whitespace(c));
        assert!(!c.is_whitespace());
    }
}

#[test]
fn whitespace_agrees_with_the_standard_library_everywhere() {
    let mut code = 0u32;
    while code <= 0x10ffff {
        if let Some(c) = char::from_u32(code) {
            assert_eq!(char_is_whitespace(c), c.is_whitespace());
        }
        code += 1;
    }
}

#[test]
fn authentication_failures_are_told_by_their_text() {
    assert!(is_auth_error("Request had invalid authentication credentials."));
    assert!(is_auth_error("status 401 Unauthorized"));
    assert!(is_auth_error("403"));
    assert!(!is_auth_error("status 500"));
    assert!(!is_auth_error(""));
    assert!(is_undecodable_answer("failed to decode Protobuf message"));
    assert!(is_undecodable_answer("unexpected end group tag"));
    assert!(!is_undecodable_answer("timeout"));
}

#[test]
fn base64_round_trip() {
    assert_eq!(encode_for_travel(&[1, 2, 3]), "AQID");
    assert_eq!(encode_for_travel(&[0xff, 0xfe]), "//4=");
    assert_eq!(encode_for_travel(b"hello"), "aGVsbG8=");
    assert_eq!(encode_for_travel(&[]), "");
    assert_eq!(decode_from_travel("AQID"), vec![1, 2, 3]);
    assert_eq!(decode_from_travel("aGVsbG8="), b"hello".to_vec());
    assert_eq!(decode_from_travel("not base64!"), Vec::<u8>::new());
    assert_eq!(decode_from_travel("aGVsbG8"), Vec::<u8>::new());
}

#[test]
fn provisional_ids_are_lowercase_uuids() {
    let id = new_provisional_id();
    assert_eq!(id.len(), 36);
    let bytes = id.as_bytes();
    for (i, b) in bytes.iter().enumerate() {
        if i == 8 || i == 13 || i == 18 || i == 23 {
            assert_eq!(*b, b'-');
        } else {
            assert!(b.is_ascii_digit() || (b'a'..=b'f').contains(b));
        }
    }
    assert_ne!(id, new_provisional_id());
}

#[test]
fn stale_after_seven_days() {
    assert!(!is_stale(604_800, 0));
    assert!(is_stale(604_800, 1));
    assert!(is_stale(604_801, 0));
    assert!(!is_stale(604_799, 999_999_999));
    assert!(!is_stale(0, 0));
}

#[test]
fn file_size_for_the_view() {
    assert_eq!(file_size_answer(Some(0)), 0);
    assert_eq!(file_size_answer(Some(1234)), 1234);
    assert_eq!(file_size_answer(None), -1);
    assert_eq!(file_size_answer(Some(u64::MAX)), i64::MAX);
}

#[test]
fn sources_of_media_to_save() {
    assert_eq!(media_source("data:image/png;base64,AQID"), MediaSource::Inline(vec![1, 2, 3]));
    assert_eq!(media_source("data:;base64,"), MediaSource::Inline(vec![]));
    assert_eq!(media_source("data:image/png;base64,????"), MediaSource::Unreadable);
    assert_eq!(media_source("data:image/png,plain"), MediaSource::Unreadable);
    assert_eq!(media_source("data:a;base64,AQID;base64,AQID"), MediaSource::Unreadable);
    assert_eq!(media_source("file:///tmp/x.png"), MediaSource::File("/tmp/x.png".to_string()));
    assert_eq!(media_source("https://example.org/x.png"), MediaSource::Unreadable);
    assert_eq!(media_source(""), MediaSource::Unreadable);
}

#[test]
fn saved_copies_are_named_by_time_and_identifier() {
    assert_eq!(
        saved_file_name("20240102_030405", "0123456789abcdef", "video/mp4"),
        "gmessages_20240102_030405_01234567.mp4"
    );
    let name = new_saved_file_name("image/png");
    assert!(name.starts_with("gmessages_"));
    assert!(name.ends_with(".png"));
    assert_eq!(name.len(), "gmessages_20240102_030405_01234567.png".len());
    let stamp = &name[10..25];
    assert!(stamp.chars().enumerate().all(|(i, c)| if i == 8 { c == '_' } else { c.is_ascii_digit() }));
}

#[test]
fn media_download_is_planned_from_the_event() {
    let plan = plan_media_download("msg-1", "AB/cd+ef==", "AQID", "video/mp4");
    assert_eq!(plan.decryption_key, vec![1, 2, 3]);
    assert_eq!(plan.file_key, "AB_cd_ef");
    assert_eq!(plan.file_name, "AB_cd_ef.mp4");
    assert!(plan.is_video);
    let fallback = plan_media_download("msg-1", "", "***", "image/jpeg");
    assert_eq!(fallback.decryption_key, Vec::<u8>::new());
    assert_eq!(fallback.file_name, "msg_1.jpg");
    assert!(!fallback.is_video);
}

#[test]
fn downloaded_payload_is_addressed_by_file_or_inline() {
    assert_eq!(media_data_to_uri(&[1, 2, 3], "image/png", "/tmp/k/a.png", true), "file:///tmp/k/a.png");
    assert_eq!(media_data_to_uri(&[1, 2, 3], "image/png", "/tmp/k/a.png", false), "data:image/png;base64,AQID");
}

#[test]
fn text_map_binds_and_rebinds() {
    let mut map = TextMap::new();
    assert!(map.is_empty());
    map.insert("a".to_string(), "1".to_string());
    map.insert("b".to_string(), "2".to_string());
    map.insert("a".to_string(), "3".to_string());
    assert!(!map.is_empty());
    assert_eq!(map.get("a"), Some(&"3".to_string()));
    assert_eq!(map.get("b"), Some(&"2".to_string()));
    assert_eq!(map.get("c"), None);
    assert!(map.contains_key("b"));
    let mut entries = map.entries();
    entries.sort();
    assert_eq!(entries, vec![("a".to_string(), "3".to_string()), ("b".to_string(), "2".to_string())]);
    let mut other = TextMap::new();
    other.insert("b".to_string(), "9".to_string());
    other.insert("z".to_string(), "0".to_string());
    map.extend(&other);
    assert_eq!(map.get("b"), Some(&"9".to_string()));
    assert_eq!(map.get("z"), Some(&"0".to_string()));
    assert_eq!(map.get("a"), Some(&"3".to_string()));
    map.clear();
    assert!(map.is_empty());
    assert_eq!(map.get("a"), None);
}

#[test]
fn message_list_plans_its_file_work() {
    let list = kourier::message_list::MessageList::new();
    assert_eq!(list.get_video_thumbnail("file:///v/clip.mp4"), "/v/clip.thumb.jpg");
    assert_eq!(list.get_video_thumbnail("/v/clip.webm"), "/v/clip.thumb.jpg");
    assert_eq!(list.get_file_size(Some(150 * 1024 * 1024)), 157_286_400);
    assert_eq!(list.get_file_size(None), -1);
    let plan = list.queue_media_download("m-1", "a+b", "aGk=", "image/gif");
    assert_eq!(plan.decryption_key, b"hi".to_vec());
    assert_eq!(plan.file_name, "a_b.gif");
    let save = list.save_media("data:image/gif;base64,aGk=", "image/gif");
    assert_eq!(save.source, MediaSource::Inline(b"hi".to_vec()));
    assert!(save.file_name.starts_with("gmessages_") && save.file_name.ends_with(".gif"));
    let save = list.save_media("ftp://host/file", "video/3gpp2");
    assert_eq!(save.source, MediaSource::Unreadable);
    assert!(save.file_name.ends_with(".3g2"));
}

#[test]
fn paths_are_read_as_the_standard_library_reads_them() {
    let samples = [
        "", "/", "//", ".", "..", "./", "../", "a", "a/", "a//", "a/.", "a/./", "a/..", "a/../", "/a", "/a/b.png",
        "/a/b.png/", "/a/b.png//.", "a.b/c", "a.b/c.", "a.b/.c", "a.b/.c.d", "a.b/c..d", "a.b/...", "x/.../", ".a",
        "..a", "a..", "/a/b.tar.gz", "/a/b c.MP4", "rel/é.webm", "/a/./b/./", "./.", "/.", "/..", "a/b/..x", "a/.b./",
        "file.thumb.jpg", "/v/clip.mp4", " ", "a/ /", ". ", "a/. ",
    ];
    for sample in samples {
        let path = std::path::Path::new(sample);
        let name = path.file_name().unwrap_or_default().to_string_lossy().to_string();
        let extension = path.extension().unwrap_or_default().to_string_lossy().to_string();
        let thumb = path.with_extension("thumb.jpg").to_string_lossy().to_string();
        assert_eq!(file_name(sample), name, "file name of {sample:?}");
        assert_eq!(path_extension(sample), extension, "extension of {sample:?}");
        if path.file_stem().is_some_and(|stem| stem != ".") || path.file_name().is_none() {
            assert_eq!(thumbnail_path(sample), thumb, "thumbnail of {sample:?}");
        }
    }
    assert_eq!(thumbnail_path("a/b/..x"), "a/b/..thumb.jpg");
}
