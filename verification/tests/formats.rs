use kourier::cells::CellValue;
use kourier::links::{
    extract_first_url, is_html, preview_request, read_metadata, readable_part, replace_all, select_metadata, MetaTag,
    OgMetadata,
};
use kourier::message::{MessageItem, UploadProgress};
use kourier::message_cells::{cell_of, RowLabels};
use kourier::message_list::MessageList;
use kourier::refresh::{plan_refresh, sort_newest_first};
use kourier::status::DeliveryStatus;
use kourier::text_map::TextMap;
use kourier::timefmt::{
    format_human_message_time, format_human_timestamp, format_section_date, human_timestamp_text, message_time_text,
    section_date_text, signed_decimal_string, LocalTime,
};
use kourier::wire::{
    build_preview, extract_message_body, extract_message_id, extract_message_media, Conversation, LatestMessage,
    MediaContent, Message, MessageData, Participant,
};

fn at(year: i32, month: u32, day: u32, hour: u32, minute: u32, day_number: i32, unix_millis: i64) -> LocalTime {
    LocalTime { year, month, day, hour, minute, day_number, unix_millis }
}

fn now_micros() -> i64 {
    std::time::SystemTime::now().duration_since(std::time::UNIX_EPOCH).expect("clock").as_micros() as i64
}

#[test]
fn recent_times_in_words() {
    let now = at(2024, 3, 15, 12, 0, 738_960, 1_000_000_000);
    let t = |ago: i64| at(2024, 3, 15, 11, 5, 738_960, 1_000_000_000 - ago);
    assert_eq!(human_timestamp_text(&t(0), &now), "Now");
    assert_eq!(human_timestamp_text(&t(59_999), &now), "Now");
    assert_eq!(human_timestamp_text(&t(-5_000), &now), "Now");
    assert_eq!(human_timestamp_text(&t(60_000), &now), "1m ago");
    assert_eq!(human_timestamp_text(&t(119_999), &now), "1m ago");
    assert_eq!(human_timestamp_text(&t(59 * 60_000 + 59_999), &now), "59m ago");
    assert_eq!(human_timestamp_text(&t(3_600_000), &now), "11:05");
}

#[test]
fn older_times_in_words() {
    let now = at(2024, 3, 15, 12, 0, 738_960, 10_000_000_000);
    let same_day = at(2024, 3, 15, 0, 7, 738_960, 9_000_000_000);
    assert_eq!(human_timestamp_text(&same_day, &now), "00:07");
    let same_year = at(2024, 1, 9, 23, 59, 738_894, 5_000_000_000);
    assert_eq!(human_timestamp_text(&same_year, &now), "9 Jan");
    let december = at(2024, 12, 31, 1, 1, 739_251, 1);
    assert_eq!(human_timestamp_text(&december, &now), "31 Dec");
    let earlier = at(2019, 7, 4, 8, 30, 737_244, 0);
    assert_eq!(human_timestamp_text(&earlier, &now), "4/07/19");
    let millennium = at(2005, 11, 21, 8, 30, 732_271, 0);
    assert_eq!(human_timestamp_text(&millennium, &now), "21/11/05");
    let ancient = at(-44, 3, 15, 8, 30, -16_000, -60_000_000_000_000);
    assert_eq!(human_timestamp_text(&ancient, &now), "15/03/44");
    let months = ["Jan", "Feb", "Mar", "Apr", "May", "Jun", "Jul", "Aug", "Sep", "Oct", "Nov", "Dec"];
    for (i, name) in months.iter().enumerate() {
        let t = at(2024, i as u32 + 1, 2, 0, 0, 0, 0);
        let far = at(2024, 6, 30, 0, 0, 1000, 999_999_999_999);
        assert_eq!(human_timestamp_text(&t, &far), format!("2 {name}"));
    }
}

#[test]
fn day_headings() {
    let now = at(2024, 3, 1, 12, 0, 738_946, 10_000_000_000);
    assert_eq!(section_date_text(&at(2024, 3, 1, 0, 0, 738_946, 0), &now), "Today");
    assert_eq!(section_date_text(&at(2024, 2, 29, 23, 0, 738_945, 0), &now), "Yesterday");
    assert_eq!(section_date_text(&at(2024, 2, 28, 23, 0, 738_944, 0), &now), "28 February");
    assert_eq!(section_date_text(&at(2023, 12, 5, 23, 0, 738_859, 0), &now), "5 December 2023");
    assert_eq!(section_date_text(&at(-5, 1, 5, 23, 0, -2000, 0), &now), "5 January -5");
    let new_year = at(2024, 1, 1, 0, 0, 738_886, 0);
    assert_eq!(section_date_text(&at(2023, 12, 31, 0, 0, 738_885, 0), &new_year), "Yesterday");
    assert_eq!(message_time_text(&at(2024, 3, 1, 9, 5, 0, 0)), "09:05");
    assert_eq!(message_time_text(&at(2024, 3, 1, 23, 59, 0, 0)), "23:59");
    assert_eq!(signed_decimal_string(0), "0");
    assert_eq!(signed_decimal_string(-2147483648), "-2147483648");
    assert_eq!(signed_decimal_string(2147483647), "2147483647");
}

#[test]
fn times_read_from_the_clock() {
    assert_eq!(format_human_timestamp(0), "");
    assert_eq!(format_human_timestamp(-1), "");
    assert_eq!(format_human_message_time(0), "");
    assert_eq!(format_section_date(i64::MIN), "");
    let now = now_micros();
    assert_eq!(format_human_timestamp(now), "Now");
    assert_eq!(format_human_timestamp(now - 5 * 60 * 1_000_000), "5m ago");
    assert_eq!(format_section_date(now), "Today");
    let clock = format_human_message_time(now);
    assert_eq!(clock.len(), 5);
    assert_eq!(&clock[2..3], ":");
    assert!(clock[..2].parse::<u32>().expect("hour") < 24);
    assert!(clock[3..].parse::<u32>().expect("minute") < 60);
    let long_ago = format_section_date(86_400_000_000);
    assert!(long_ago.ends_with(" January 1970"));
    let old = format_human_timestamp(86_400_000_000);
    assert!(old.ends_with("/01/70"));
    assert_eq!(format_human_timestamp(i64::MAX), "");
}

#[test]
fn first_address_in_a_text() {
    assert_eq!(extract_first_url("see https://example.org/a, ok"), Some("https://example.org/a".to_string()));
    assert_eq!(extract_first_url("http://a.b http://example.org"), Some("http://example.org".to_string()));
    assert_eq!(extract_first_url("(https://example.org/x)!?"), None);
    assert_eq!(extract_first_url("go\thttps://example.org/x)!?\nnow"), Some("https://example.org/x".to_string()));
    assert_eq!(extract_first_url("https://ab"), None);
    assert_eq!(extract_first_url("https://a.b"), Some("https://a.b".to_string()));
    assert_eq!(extract_first_url("https://a.b..."), Some("https://a.b".to_string()));
    assert_eq!(extract_first_url("https://ab..."), None);
    assert_eq!(extract_first_url("https://é.c"), Some("https://é.c".to_string()));
    assert_eq!(extract_first_url("http://é"), None);
    assert_eq!(extract_first_url("Https://example.org"), None);
    assert_eq!(extract_first_url("xhttps://example.org"), None);
    assert_eq!(extract_first_url("https://......"), None);
    assert_eq!(extract_first_url(""), None);
    assert_eq!(extract_first_url("   "), None);
    assert_eq!(extract_first_url("a\u{a0}https://example.org/1\u{2003}b"), Some("https://example.org/1".to_string()));
}

#[test]
fn pages_are_asked_for_under_the_right_name() {
    let card = "Mozilla/5.0 (compatible; TelegramBot/1.0; +https://core.telegram.org/bots)";
    let crawler = "Mozilla/5.0 (compatible; Googlebot/2.1; +http://www.google.com/bot.html)";
    let r = preview_request("https://twitter.com/a/status/1?ref=https://twitter.com/b");
    assert_eq!(r.fetch_url, "https://x.com/a/status/1?ref=https://x.com/b");
    assert_eq!(r.user_agent, card);
    let r = preview_request("https://x.com/a");
    assert_eq!((r.fetch_url.as_str(), r.user_agent), ("https://x.com/a", card));
    let r = preview_request("https://www.twitter.com/a");
    assert_eq!((r.fetch_url.as_str(), r.user_agent), ("https://x.com/a", card));
    let r = preview_request("https://www.x.com/a");
    assert_eq!((r.fetch_url.as_str(), r.user_agent), ("https://x.com/a", card));
    let r = preview_request("https://example.org/https://twitter.com/");
    assert_eq!((r.fetch_url.as_str(), r.user_agent), ("https://example.org/https://twitter.com/", crawler));
    assert_eq!(replace_all("aaa", "aa", "b"), "ba");
    assert_eq!(replace_all("abcabc", "bc", ""), "aa");
    assert_eq!(replace_all("abc", "", "x"), "abc");
    assert_eq!(replace_all("abc", "abcd", "x"), "abc");
    assert_eq!(replace_all("", "a", "x"), "");
    assert_eq!(replace_all("xyz", "z", "zz"), "xyzz");
    assert!(is_html("text/html; charset=utf-8"));
    assert!(is_html("application/xhtml+xml"));
    assert!(!is_html("application/json"));
    assert!(!is_html(""));
}

fn tag(property: Option<&str>, name: Option<&str>, content: Option<&str>) -> MetaTag {
    MetaTag {
        property: property.map(str::to_string),
        name: name.map(str::to_string),
        content: content.map(str::to_string),
    }
}

#[test]
fn metadata_prefers_open_graph() {
    let tags = vec![
        tag(Some("og:title"), None, Some("First")),
        tag(Some("og:title"), None, Some("")),
        tag(Some("og:title"), None, Some("OG title")),
        tag(None, Some("twitter:title"), Some("Card title")),
        tag(None, Some("twitter:image:src"), Some("card.png")),
        tag(Some("og:url"), Some("twitter:image"), Some("both")),
        tag(Some("og:image"), None, None),
    ];
    let m = select_metadata("https://asked", Some(" Page "), &tags).expect("has a title");
    assert_eq!(m, OgMetadata { title: "OG title".to_string(), image: "both".to_string(), url: "both".to_string() });
    let card_only = vec![tag(None, Some("twitter:title"), Some("Card title")), tag(Some("og:image"), None, Some("og.png"))];
    let m = select_metadata("https://asked", Some("Page"), &card_only).expect("has a title");
    assert_eq!(m, OgMetadata { title: "Card title".to_string(), image: "og.png".to_string(), url: "https://asked".to_string() });
    let m = select_metadata("https://asked", Some(" Page \n"), &Vec::new()).expect("has a title");
    assert_eq!(m, OgMetadata { title: "Page".to_string(), image: String::new(), url: "https://asked".to_string() });
    assert_eq!(select_metadata("https://asked", Some("   "), &vec![tag(Some("og:image"), None, Some("i"))]), None);
    assert_eq!(select_metadata("https://asked", None, &vec![]), None);
}

#[test]
fn metadata_is_read_from_a_page() {
    let page = r#"<!doctype html><html><head>
        <title> The page </title>
        <meta property="og:title" content="The title">
        <meta name="twitter:image" content="https://img/1.png">
        <meta charset="utf-8">
        <meta property="og:url" content="https://canonical/">
        </head><body><p>text</p></body></html>"#;
    let m = read_metadata("https://asked/", page).expect("has a title");
    assert_eq!(
        m,
        OgMetadata {
            title: "The title".to_string(),
            image: "https://img/1.png".to_string(),
            url: "https://canonical/".to_string()
        }
    );
    let plain = "<html><head><title>Only a title</title></head></html>";
    let m = read_metadata("https://asked/", plain).expect("has a title");
    assert_eq!(m, OgMetadata { title: "Only a title".to_string(), image: String::new(), url: "https://asked/".to_string() });
    assert_eq!(read_metadata("https://asked/", "<p>nothing</p>"), None);
    assert_eq!(read_metadata("https://asked/", ""), None);
}

#[test]
fn long_pages_are_cut_between_characters() {
    let short = "é".repeat(10);
    assert_eq!(readable_part(&short), short);
    let exact = "a".repeat(524_288);
    assert_eq!(readable_part(&exact).len(), 524_288);
    let long = "a".repeat(600_000);
    assert_eq!(readable_part(&long).len(), 524_288);
    let odd = format!("a{}", "é".repeat(300_000));
    let part = readable_part(&odd);
    assert_eq!(part.len(), 524_287);
    assert!(odd.starts_with(part));
    let late = format!("{}<title>late</title>", " ".repeat(524_288));
    assert_eq!(read_metadata("u", &late), None);
}

fn text_message(id: &str, participant: &str, timestamp: i64, text: &str, status: Option<i32>) -> Message {
    Message {
        message_id: id.to_string(),
        tmp_id: String::new(),
        another_message_id: None,
        conversation_id: "c".to_string(),
        participant_id: participant.to_string(),
        transport_type: 1,
        timestamp,
        status,
        message_info: vec![MessageData::Text(text.to_string())],
    }
}

#[test]
fn wire_messages_are_read_block_by_block() {
    let media = MediaContent {
        media_id: "full".to_string(),
        thumbnail_media_id: "thumb".to_string(),
        decryption_key: vec![],
        thumbnail_decryption_key: vec![7, 7],
        mime_type: "video/mp4".to_string(),
        dimensions: None,
    };
    let second = MediaContent {
        media_id: "second".to_string(),
        thumbnail_media_id: String::new(),
        decryption_key: vec![1],
        thumbnail_decryption_key: vec![],
        mime_type: "image/png".to_string(),
        dimensions: Some((1, 2)),
    };
    let mut m = text_message("", "p", 1, "  ", None);
    m.message_info.push(MessageData::Media(media));
    m.message_info.push(MessageData::Text("\n caption ".to_string()));
    m.message_info.push(MessageData::Text("later".to_string()));
    m.message_info.push(MessageData::Media(second));
    assert_eq!(extract_message_body(&m), "caption");
    let found = extract_message_media(&m).expect("has media");
    assert_eq!(found.media_id, "full");
    assert_eq!(found.decryption_key, vec![7, 7]);
    assert_eq!(found.mime_type, "video/mp4");
    assert_eq!((found.width, found.height), (0, 0));
    assert_eq!(extract_message_id(&m), "");
    m.tmp_id = "tmp".to_string();
    assert_eq!(extract_message_id(&m), "tmp");
    m.message_id = "srv".to_string();
    assert_eq!(extract_message_id(&m), "srv");
    let empty = text_message("x", "p", 1, "", None);
    assert_eq!(extract_message_body(&empty), "");
    assert_eq!(extract_message_media(&empty), None);
}

#[test]
fn previews_name_the_author() {
    let mut convo = Conversation {
        conversation_id: "c".to_string(),
        name: "n".to_string(),
        is_group_chat: false,
        unread: false,
        last_message_timestamp: 0,
        latest_message: None,
        participants: vec![],
    };
    assert_eq!(build_preview(&convo), "");
    convo.latest_message =
        Some(LatestMessage { from_me: 0, display_name: "Ann".to_string(), display_content: " hi ".to_string() });
    assert_eq!(build_preview(&convo), "hi");
    convo.is_group_chat = true;
    assert_eq!(build_preview(&convo), "Ann: hi");
    convo.latest_message =
        Some(LatestMessage { from_me: 0, display_name: String::new(), display_content: "".to_string() });
    assert_eq!(build_preview(&convo), "Attachment");
    convo.latest_message =
        Some(LatestMessage { from_me: 2, display_name: "Ann".to_string(), display_content: "x".to_string() });
    assert_eq!(build_preview(&convo), "You: x");
}

#[test]
fn refresh_plan_builds_the_candidate() {
    let participants = vec![
        Participant { is_me: true, participant_id: Some("me0".to_string()), contact_id: String::new() },
        Participant { is_me: false, participant_id: Some("p1".to_string()), contact_id: "contact1".to_string() },
        Participant { is_me: false, participant_id: Some("p2".to_string()), contact_id: String::new() },
        Participant { is_me: false, participant_id: None, contact_id: String::new() },
        Participant { is_me: false, participant_id: Some("p3".to_string()), contact_id: "contact1".to_string() },
        Participant { is_me: true, participant_id: Some("me".to_string()), contact_id: String::new() },
    ];
    let mut avatars = TextMap::new();
    avatars.insert("p2".to_string(), "file:///p2.png".to_string());
    let mut with_media = text_message("m3", "p1", 30, "", Some(0));
    with_media.message_info.push(MessageData::Media(MediaContent {
        media_id: "media3".to_string(),
        thumbnail_media_id: String::new(),
        decryption_key: vec![4, 5],
        thumbnail_decryption_key: vec![],
        mime_type: "image/png".to_string(),
        dimensions: None,
    }));
    let page = vec![
        text_message("m1", "me", 10, "mine", Some(11)),
        with_media,
        text_message("m2", "p2", 20, "theirs", Some(250)),
        text_message("m0", "p2", 5, "   ", None),
        text_message("", "p2", 20, "tie", None),
    ];
    let plan = plan_refresh(&page, &participants, &avatars);
    assert_eq!(plan.me_participant_id, "me");
    let requests: Vec<(&str, &str)> =
        plan.avatar_identifiers.iter().map(|r| (r.participant_id.as_str(), r.identifier.as_str())).collect();
    assert_eq!(requests, vec![("p1", "contact1"), ("p2", "p2"), ("p3", "contact1")]);
    assert_eq!(plan.identifiers_to_fetch, vec!["contact1".to_string()]);
    let ids: Vec<&str> = plan.messages.iter().map(|m| m.message_id.as_str()).collect();
    assert_eq!(ids, vec!["m3", "m2", "", "m1"]);
    assert_eq!(plan.mark_read, Some("m1".to_string()));
    let m1 = &plan.messages[3];
    assert!(m1.from_me);
    assert_eq!(m1.status, DeliveryStatus::Read);
    assert_eq!(m1.avatar_url, "");
    let m2 = &plan.messages[1];
    assert!(!m2.from_me);
    assert_eq!(m2.status, DeliveryStatus::Received);
    assert!(m2.is_info);
    assert_eq!(m2.avatar_url, "file:///p2.png");
    let m3 = &plan.messages[0];
    assert!(m3.is_media);
    assert_eq!(m3.mime_type, "image/png");
    assert_eq!(m3.body, "");
    assert_eq!(m3.upload_progress, UploadProgress::Complete);
    assert_eq!(plan.media_downloads.len(), 1);
    assert_eq!(plan.media_downloads[0].message_id, "m3");
    assert_eq!(plan.media_downloads[0].media_id, "media3");
    assert_eq!(plan.media_downloads[0].decryption_key, vec![4, 5]);
    let empty = plan_refresh(&vec![], &vec![], &avatars);
    assert_eq!(empty.mark_read, None);
    assert_eq!(empty.me_participant_id, "");
    let mut rows = plan.messages;
    sort_newest_first(&mut rows);
    let again: Vec<&str> = rows.iter().map(|m| m.message_id.as_str()).collect();
    assert_eq!(again, vec!["m3", "m2", "", "m1"]);
}

fn shown(body: &str, timestamp_micros: i64) -> MessageItem {
    MessageItem {
        body: body.to_string(),
        from_me: true,
        transport_type: 4,
        timestamp_micros,
        message_id: "id-1".to_string(),
        status: DeliveryStatus::Delivered,
        media_url: "file:///m".to_string(),
        is_media: true,
        avatar_url: "file:///a".to_string(),
        is_info: false,
        participant_id: "p".to_string(),
        mime_type: "image/png".to_string(),
        thumbnail_url: "file:///t".to_string(),
        upload_progress: UploadProgress::Partial { uploaded: 1, total: 4 },
    }
}

#[test]
fn message_cells_by_role() {
    let item = shown("hello", 42);
    let labels = RowLabels { time: "09:05".to_string(), section_date: "Today".to_string(), is_start_of_day: false };
    let expected = vec![
        CellValue::Text("hello".to_string()),
        CellValue::Flag(true),
        CellValue::Integer(4),
        CellValue::Integer(42),
        CellValue::Text("id-1".to_string()),
        CellValue::Text("delivered".to_string()),
        CellValue::Text("09:05".to_string()),
        CellValue::Text("Today".to_string()),
        CellValue::Text("file:///m".to_string()),
        CellValue::Flag(true),
        CellValue::Text("file:///a".to_string()),
        CellValue::Flag(false),
        CellValue::Text("image/png".to_string()),
        CellValue::Flag(false),
        CellValue::Text("file:///t".to_string()),
        CellValue::Progress(UploadProgress::Partial { uploaded: 1, total: 4 }),
        CellValue::Empty,
    ];
    for (role, cell) in expected.iter().enumerate() {
        assert_eq!(&cell_of(&item, role as i32, &labels), cell);
    }
    assert_eq!(cell_of(&item, -1, &labels), CellValue::Empty);
}

#[test]
fn message_list_reads_the_clock_for_its_labels() {
    let mut list = MessageList::new();
    list.load("c");
    let now = now_micros();
    list.apply_refresh("c", vec![shown("new", now), shown("old", 86_400_000_000), shown("older", 86_400_000_001)], "me".to_string());
    assert_eq!(list.row_count(), 3);
    assert_eq!(list.data(0, 0), CellValue::Text("new".to_string()));
    assert_eq!(list.data(0, 7), CellValue::Text("Today".to_string()));
    assert_eq!(list.data(0, 13), CellValue::Flag(true));
    assert_eq!(list.data(1, 13), CellValue::Flag(false));
    assert_eq!(list.data(2, 13), CellValue::Flag(true));
    assert!(matches!(list.data(0, 6), CellValue::Text(t) if t.len() == 5));
    assert_eq!(list.data(3, 0), CellValue::Empty);
    assert_eq!(list.data(-1, 0), CellValue::Empty);
    assert_eq!(list.data(0, 16), CellValue::Empty);
    let labels = RowLabels { time: "t".to_string(), section_date: "d".to_string(), is_start_of_day: true };
    assert_eq!(list.cell(1, 6, &labels), CellValue::Text("t".to_string()));
    assert_eq!(list.cell(9, 6, &labels), CellValue::Empty);
    let names: Vec<&str> = list.role_names().iter().map(|r| r.name).collect();
    assert_eq!(
        names,
        vec![
            "body", "from_me", "transport_type", "timestamp_micros", "message_id", "status", "time", "section_date",
            "media_url", "is_media", "avatar_url", "is_info", "mime_type", "is_start_of_day", "thumbnail_url",
            "upload_progress"
        ]
    );
    let numbers: Vec<i32> = list.role_names().iter().map(|r| r.number).collect();
    assert_eq!(numbers, (0..16).collect::<Vec<i32>>());
    assert_eq!(list.send_typing(true).map(|t| (t.conversation_id, t.typing)), Some(("c".to_string(), true)));
    assert_eq!(MessageList::new().send_typing(false), None);
}

#[test]
fn a_time_has_a_reading_up_to_the_end_of_the_calendar() {
    let last_millisecond = 8_210_266_876_799_999i64;
    let last = last_millisecond * 1000 + 999;
    let clock = format_human_message_time(last);
    assert_eq!(clock.len(), 5);
    assert_eq!(&clock[2..3], ":");
    assert!(!format_section_date(last).is_empty());
    assert!(!format_human_timestamp(last).is_empty());
    let beyond = (last_millisecond + 1) * 1000;
    assert_eq!(format_human_message_time(beyond), "");
    assert_eq!(format_section_date(beyond), "");
    assert_eq!(format_human_timestamp(beyond), "");
    assert_eq!(format_human_message_time(1).len(), 5);
    assert_eq!(format_human_message_time(999).len(), 5);
    assert!(format_section_date(1).contains("19"));
    assert!(!format_human_timestamp(1).is_empty());
}
