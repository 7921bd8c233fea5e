use kourier::message::{MessageItem, UploadProgress};
use kourier::message_list::{EventOutcome, LoadStart, MessageList};
use kourier::status::DeliveryStatus;
use kourier::uploads::{MediaRejection, MediaStep};

fn row(id: &str, timestamp_micros: i64, status: DeliveryStatus, body: &str) -> MessageItem {
    MessageItem {
        body: body.to_string(),
        from_me: false,
        transport_type: 1,
        timestamp_micros,
        message_id: id.to_string(),
        status,
        media_url: String::new(),
        is_media: false,
        avatar_url: String::new(),
        is_info: false,
        participant_id: "p1".to_string(),
        mime_type: String::new(),
        thumbnail_url: String::new(),
        upload_progress: UploadProgress::Complete,
    }
}

fn ids(list: &MessageList) -> Vec<String> {
    list.messages.iter().map(|m| m.message_id.clone()).collect()
}

fn open_conversation(id: &str) -> MessageList {
    let mut list = MessageList::new();
    assert_eq!(list.load(id), LoadStart::Fetching);
    list
}

#[test]
fn send_text_inserts_sending_row_at_head() {
    let mut list = open_conversation("C");
    list.apply_refresh("C", vec![row("a", 10, DeliveryStatus::Received, "old")], "me".to_string());
    let request = list.send_text("  hi ", "tmp-1".to_string(), 99).expect("accepted");
    assert_eq!(request.body, "hi");
    assert_eq!(request.conversation_id, "C");
    assert_eq!(request.provisional_id, "tmp-1");
    assert_eq!(ids(&list), vec!["tmp-1", "a"]);
    assert_eq!(list.messages[0].status, DeliveryStatus::Sending);
    assert_eq!(list.messages[0].body, "hi");
    assert!(list.messages[0].from_me);
    assert_eq!(list.messages[0].timestamp_micros, 99);
}

#[test]
fn matching_event_confirms_the_optimistic_row() {
    let mut list = open_conversation("C");
    list.apply_refresh("C", vec![row("a", 10, DeliveryStatus::Received, "old")], "me".to_string());
    list.send_text("hi", "tmp-1".to_string(), 99).expect("accepted");
    let outcome = list.handle_message_event("C", "me", "hi", 4, "srv-9", "tmp-1", 100, 2, false);
    assert_eq!(outcome, EventOutcome::Updated(0));
    assert_eq!(ids(&list), vec!["srv-9", "a"]);
    assert_eq!(list.messages[0].status, DeliveryStatus::Delivered);
    assert_eq!(list.messages[0].status.label(), "delivered");
}

#[test]
fn send_text_rejects_blank_text_and_missing_conversation() {
    let mut list = open_conversation("C");
    assert!(list.send_text(" \t\n", "tmp".to_string(), 1).is_none());
    assert!(list.messages.is_empty());
    let mut idle = MessageList::new();
    assert!(idle.send_text("hi", "tmp".to_string(), 1).is_none());
    assert!(idle.messages.is_empty());
}

#[test]
fn send_message_draws_a_fresh_lowercase_id() {
    let mut list = open_conversation("C");
    let first = list.send_message("one").expect("accepted");
    let second = list.send_message("two").expect("accepted");
    assert_eq!(first.provisional_id.len(), 36);
    assert_ne!(first.provisional_id, second.provisional_id);
    assert_eq!(first.provisional_id, first.provisional_id.to_lowercase());
    assert_eq!(ids(&list), vec![second.provisional_id.clone(), first.provisional_id.clone()]);
    assert!(list.messages[0].timestamp_micros > 1_600_000_000_000_000);
}

#[test]
fn oversized_media_is_rejected_without_a_row() {
    let mut list = open_conversation("C");
    let verdict = list.send_media("file:///tmp/big.mp4", "", Some(150 * 1024 * 1024));
    assert_eq!(verdict.err(), Some(MediaRejection::TooLarge));
    assert!(list.messages.is_empty());
    assert!(list.upload_cancellations.is_empty());
}

#[test]
fn media_limit_is_one_hundred_mebibytes_inclusive() {
    let mut list = open_conversation("C");
    assert!(list.queue_media("/a.png", "", Some(104_857_600), "t1".to_string(), 1).is_ok());
    let over = list.queue_media("/a.png", "", Some(104_857_601), "t2".to_string(), 2);
    assert_eq!(over.err(), Some(MediaRejection::TooLarge));
}

#[test]
fn media_rejections_in_order() {
    let mut idle = MessageList::new();
    assert_eq!(idle.queue_media("file://", "", None, "t".to_string(), 1).err(), Some(MediaRejection::EmptyPath));
    assert_eq!(idle.queue_media("", "", Some(1), "t".to_string(), 1).err(), Some(MediaRejection::EmptyPath));
    assert_eq!(idle.queue_media("/a.png", "", Some(1), "t".to_string(), 1).err(), Some(MediaRejection::NoConversation));
    let mut list = open_conversation("C");
    assert_eq!(list.queue_media("/a.png", "", None, "t".to_string(), 1).err(), Some(MediaRejection::Unreadable));
}

#[test]
fn queued_media_row_previews_the_local_file() {
    let mut list = open_conversation("C");
    let out = list.queue_media("file:///home/u/Holiday.JPG", " look ", Some(2048), "t1".to_string(), 77).expect("accepted");
    assert_eq!(out.path, "/home/u/Holiday.JPG");
    assert_eq!(out.file_name, "Holiday.JPG");
    assert_eq!(out.mime_type, "image/jpeg");
    assert_eq!(out.caption, "look");
    assert!(!out.is_video);
    let head = &list.messages[0];
    assert_eq!(head.media_url, "file:///home/u/Holiday.JPG");
    assert_eq!(head.status, DeliveryStatus::Sending);
    assert_eq!(head.upload_progress, UploadProgress::Partial { uploaded: 0, total: 2048 });
    assert!(head.is_media);
    assert_eq!(list.upload_cancellations, vec!["t1".to_string()]);
}

#[test]
fn cancelling_mid_upload_removes_the_row() {
    let mut list = open_conversation("C");
    list.queue_media("/tmp/clip.mp4", "", Some(10), "t1".to_string(), 5).expect("accepted");
    assert_eq!(list.set_upload_progress("t1", 4, 10), Some(0));
    let deleted = list.delete_message("t1");
    assert_eq!(deleted.removed, Some(0));
    assert!(deleted.cancel_upload);
    assert!(list.messages.is_empty());
    let end = list.finish_upload("t1", Some("upload cancelled"), true);
    assert_eq!(end.failed_row, None);
    assert!(!end.authentication_failed);
    assert!(list.messages.is_empty());
    assert!(list.upload_cancellations.is_empty());
}

#[test]
fn failed_upload_marks_the_row_failed() {
    let mut list = open_conversation("C");
    list.queue_media("/tmp/clip.mp4", "", Some(10), "t1".to_string(), 5).expect("accepted");
    let end = list.finish_upload("t1", Some("HTTP 403 forbidden"), false);
    assert_eq!(end.failed_row, Some(0));
    assert!(end.clear_session);
    assert!(end.authentication_failed);
    assert_eq!(list.messages[0].status, DeliveryStatus::Failed);
    assert!(list.upload_cancellations.is_empty());
}

#[test]
fn refresh_is_a_diff_that_protects_local_rows() {
    let mut list = open_conversation("C");
    list.apply_refresh(
        "C",
        vec![row("c", 30, DeliveryStatus::Received, "three"), row("a", 10, DeliveryStatus::Received, "one")],
        "me".to_string(),
    );
    list.send_text("mine", "tmp".to_string(), 40).expect("accepted");
    let candidate = vec![
        row("c", 30, DeliveryStatus::Read, "three!"),
        row("b", 20, DeliveryStatus::Received, "two"),
    ];
    assert!(list.apply_refresh("C", candidate.clone(), "me".to_string()));
    assert_eq!(ids(&list), vec!["tmp", "c", "b"]);
    assert_eq!(list.messages[1].status, DeliveryStatus::Read);
    assert_eq!(list.messages[1].body, "three!");
    let before: Vec<(String, DeliveryStatus, String)> =
        list.messages.iter().map(|m| (m.message_id.clone(), m.status, m.body.clone())).collect();
    list.apply_refresh("C", candidate, "me".to_string());
    let after: Vec<(String, DeliveryStatus, String)> =
        list.messages.iter().map(|m| (m.message_id.clone(), m.status, m.body.clone())).collect();
    assert_eq!(before, after);
}

#[test]
fn cache_evicts_the_oldest_entry_that_is_not_active() {
    let mut list = MessageList::new();
    for i in 0..10 {
        let id = format!("c{i}");
        list.load(&id);
        list.apply_refresh(&id, vec![row("m", 1, DeliveryStatus::Received, "x")], "me".to_string());
    }
    assert_eq!(list.cache.len(), 10);
    list.load("c0");
    list.apply_refresh("c10", vec![], "me".to_string());
    assert_eq!(list.cache.len(), 10);
    assert!(list.cache.contains("c0"));
    assert!(!list.cache.contains("c1"));
    assert!(list.cache.contains("c10"));
    assert_eq!(list.load("c2"), LoadStart::Cached);
    assert_eq!(ids(&list), vec!["m"]);
}

#[test]
fn events_of_other_conversations_are_ignored() {
    let mut list = open_conversation("C");
    let outcome = list.handle_message_event("D", "p", "hello", 1, "m1", "", 5, 0, false);
    assert_eq!(outcome, EventOutcome::Ignored);
    assert!(list.messages.is_empty());
}

#[test]
fn unmatched_event_is_inserted_at_its_place() {
    let mut list = open_conversation("C");
    list.apply_refresh(
        "C",
        vec![row("c", 30, DeliveryStatus::Received, "three"), row("a", 10, DeliveryStatus::Received, "one")],
        "me".to_string(),
    );
    assert_eq!(list.handle_message_event("C", "p", "two", 1, "b", "", 20, 0, false), EventOutcome::Inserted(1));
    assert_eq!(list.handle_message_event("C", "p", "  ", 1, "z", "", 25, 0, false), EventOutcome::Dropped);
    assert_eq!(list.handle_message_event("C", "p", "", 1, "pic", "", 30, 0, true), EventOutcome::Inserted(1));
    assert_eq!(ids(&list), vec!["c", "pic", "b", "a"]);
    assert_eq!(list.messages[2].status, DeliveryStatus::Received);
}

#[test]
fn cached_timeline_is_shown_at_once() {
    let mut list = open_conversation("A");
    assert!(list.loading);
    list.apply_refresh("A", vec![row("a1", 10, DeliveryStatus::Received, "one")], "me-a".to_string());
    assert!(!list.loading);
    assert_eq!(list.load("B"), LoadStart::Fetching);
    assert!(list.loading);
    assert!(list.messages.is_empty());
    assert_eq!(list.me_participant_id, "");
    assert_eq!(list.load("A"), LoadStart::Cached);
    assert!(list.loading);
    assert_eq!(ids(&list), vec!["a1"]);
    assert_eq!(list.me_participant_id, "me-a");
    assert_eq!(list.selected_conversation_id, "A");
    assert_eq!(list.load(""), LoadStart::Ignored);
    assert_eq!(list.selected_conversation_id, "A");
}

#[test]
fn refresh_of_another_conversation_only_fills_the_cache() {
    let mut list = open_conversation("A");
    list.apply_refresh("A", vec![row("a1", 10, DeliveryStatus::Received, "one")], "me".to_string());
    list.load("B");
    assert!(!list.apply_refresh("A", vec![row("a2", 20, DeliveryStatus::Received, "two")], "me2".to_string()));
    assert!(list.loading);
    assert!(list.messages.is_empty());
    assert_eq!(list.load("A"), LoadStart::Cached);
    assert_eq!(ids(&list), vec!["a2"]);
    assert_eq!(list.me_participant_id, "me2");
}

#[test]
fn load_failure_reports_authentication() {
    let mut list = open_conversation("A");
    assert!(list.load_failed("HTTP 403"));
    assert!(!list.loading);
    list.load("B");
    assert!(!list.load_failed("timeout"));
    assert!(!list.loading);
}

#[test]
fn failed_send_marks_the_row() {
    let mut list = open_conversation("C");
    list.send_text("one", "t1".to_string(), 1).expect("accepted");
    list.send_text("two", "t2".to_string(), 2).expect("accepted");
    let failure = list.fail_send("t1", "connection reset");
    assert_eq!(failure.failed_row, Some(1));
    assert!(!failure.authentication_failed);
    assert_eq!(list.messages[1].status, DeliveryStatus::Failed);
    assert_eq!(list.messages[0].status, DeliveryStatus::Sending);
    let failure = list.fail_send("gone", "401");
    assert_eq!(failure.failed_row, None);
    assert!(failure.authentication_failed);
    list.apply_refresh("C", vec![row("srv", 5, DeliveryStatus::Received, "x")], "me".to_string());
    assert_eq!(ids(&list), vec!["srv", "t2", "t1"]);
    assert_eq!(list.messages[2].status, DeliveryStatus::Failed);
}

#[test]
fn confirmation_by_provisional_id_alone_keeps_the_id() {
    let mut list = open_conversation("C");
    list.apply_refresh("C", vec![], "me".to_string());
    list.send_text("hi", "tmp-1".to_string(), 99).expect("accepted");
    assert_eq!(list.handle_message_event("C", "me", "hi", 4, "", "tmp-1", 100, 5, false), EventOutcome::Updated(0));
    assert_eq!(ids(&list), vec!["tmp-1"]);
    assert_eq!(list.messages[0].status, DeliveryStatus::Sending);
    assert_eq!(list.handle_message_event("C", "me", "hi", 4, "tmp-1", "", 100, 11, false), EventOutcome::Updated(0));
    assert_eq!(list.messages[0].status, DeliveryStatus::Read);
    assert_eq!(list.handle_message_event("C", "other", "hi", 4, "tmp-1", "", 100, 11, false), EventOutcome::Updated(0));
    assert_eq!(list.messages[0].status, DeliveryStatus::Received);
    assert_eq!(list.handle_message_event("C", "me", "", 4, "", "", 100, 11, false), EventOutcome::Dropped);
    assert_eq!(list.messages.len(), 1);
}

#[test]
fn inserted_event_refreshes_the_cache_entry() {
    let mut list = open_conversation("C");
    list.apply_refresh("C", vec![row("a", 10, DeliveryStatus::Received, "one")], "me".to_string());
    assert_eq!(list.handle_message_event("C", "p", "two", 1, "b", "", 20, 250, false), EventOutcome::Inserted(0));
    assert!(list.messages[0].is_info);
    list.load("D");
    assert_eq!(list.load("C"), LoadStart::Cached);
    assert_eq!(ids(&list), vec!["b", "a"]);
}

#[test]
fn downloaded_media_is_attached_to_its_row() {
    let mut list = open_conversation("C");
    list.apply_refresh(
        "C",
        vec![row("b", 20, DeliveryStatus::Received, "two"), row("a", 10, DeliveryStatus::Received, "one")],
        "me".to_string(),
    );
    assert_eq!(list.set_media_location("a", "file:///m.mp4", "file:///m.thumb.jpg", false), Some(1));
    assert_eq!(list.messages[1].media_url, "file:///m.mp4");
    assert_eq!(list.messages[1].thumbnail_url, "file:///m.thumb.jpg");
    assert_eq!(list.set_media_location("a", "file:///n.mp4", "", true), Some(1));
    assert_eq!(list.messages[1].media_url, "file:///n.mp4");
    assert_eq!(list.messages[1].thumbnail_url, "file:///m.thumb.jpg");
    assert_eq!(list.set_media_location("nobody", "x", "y", true), None);
    assert_eq!(list.set_thumbnail("b", "file:///t.jpg"), Some(0));
    assert_eq!(list.messages[0].thumbnail_url, "file:///t.jpg");
    assert_eq!(list.set_thumbnail("nobody", "t"), None);
    list.load("D");
    list.load("C");
    assert_eq!(list.messages[1].media_url, "file:///n.mp4");
    assert_eq!(list.messages[0].thumbnail_url, "");
}

#[test]
fn avatars_reach_the_rows_of_their_participants() {
    let mut list = open_conversation("C");
    let mut anonymous = row("c", 30, DeliveryStatus::Received, "three");
    anonymous.participant_id = String::new();
    let mut other = row("b", 20, DeliveryStatus::Received, "two");
    other.participant_id = "p2".to_string();
    list.apply_refresh("C", vec![anonymous, other, row("a", 10, DeliveryStatus::Received, "one")], "me".to_string());
    let mut avatars = kourier::text_map::TextMap::new();
    avatars.insert("p1".to_string(), "file:///p1.png".to_string());
    avatars.insert(String::new(), "file:///none.png".to_string());
    assert_eq!(list.apply_avatars("D", &avatars), Vec::<usize>::new());
    assert_eq!(list.messages[2].avatar_url, "");
    assert_eq!(list.apply_avatars("C", &avatars), vec![2]);
    assert_eq!(list.messages[2].avatar_url, "file:///p1.png");
    assert_eq!(list.messages[1].avatar_url, "");
    assert_eq!(list.messages[0].avatar_url, "");
}

#[test]
fn deleting_a_message_updates_the_cache() {
    let mut list = open_conversation("C");
    list.apply_refresh(
        "C",
        vec![row("b", 20, DeliveryStatus::Received, "two"), row("a", 10, DeliveryStatus::Received, "one")],
        "me".to_string(),
    );
    let outcome = list.delete_message("b");
    assert_eq!(outcome.removed, Some(0));
    assert!(!outcome.cancel_upload);
    let outcome = list.delete_message("b");
    assert_eq!(outcome.removed, None);
    list.load("D");
    list.load("C");
    assert_eq!(ids(&list), vec!["a"]);
}

#[test]
fn successful_upload_leaves_the_row_for_the_echo() {
    let mut list = open_conversation("C");
    let out = list.send_media("/tmp/a.webm", "cap", Some(10)).expect("accepted");
    assert!(out.is_video);
    assert_eq!(out.mime_type, "video/webm");
    assert_eq!(list.upload_cancellations, vec![out.provisional_id.clone()]);
    assert_eq!(list.set_upload_progress(&out.provisional_id, 10, 10), Some(0));
    let end = list.finish_upload(&out.provisional_id, None, false);
    assert_eq!(end.failed_row, None);
    assert!(!end.clear_session && !end.authentication_failed);
    assert!(list.upload_cancellations.is_empty());
    assert_eq!(list.messages[0].status, DeliveryStatus::Sending);
    assert_eq!(list.messages[0].upload_progress, UploadProgress::Partial { uploaded: 10, total: 10 });
    let end = list.finish_upload("unknown", Some("cancelled, 401"), true);
    assert!(end.clear_session);
    assert!(!end.authentication_failed);
    assert_eq!(end.failed_row, None);
}

#[test]
fn an_undecodable_answer_to_the_send_counts_as_sent() {
    let mut list = open_conversation("C");
    list.queue_media("/tmp/a.png", "", Some(10), "t1".to_string(), 5).expect("accepted");
    let end = list.finish_media_send("t1", Some(MediaStep::Send), "failed to decode Protobuf message: 401", false);
    assert_eq!(end.failed_row, None);
    assert!(!end.clear_session);
    assert!(!end.authentication_failed);
    assert_eq!(list.messages[0].status, DeliveryStatus::Sending);
    assert_eq!(ids(&list), vec!["t1"]);
    assert!(list.upload_cancellations.is_empty());
    list.queue_media("/tmp/b.png", "", Some(10), "t2".to_string(), 6).expect("accepted");
    let end = list.finish_media_send("t2", Some(MediaStep::Send), "unexpected end group tag", false);
    assert_eq!(end.failed_row, None);
    assert_eq!(list.messages[0].status, DeliveryStatus::Sending);
}

#[test]
fn other_failures_of_a_media_send_mark_the_row() {
    let mut list = open_conversation("C");
    list.queue_media("/tmp/a.png", "", Some(10), "t1".to_string(), 5).expect("accepted");
    let end = list.finish_media_send("t1", Some(MediaStep::Upload), "could not decode the upload answer", false);
    assert_eq!(end.failed_row, Some(0));
    assert_eq!(list.messages[0].status, DeliveryStatus::Failed);
    list.queue_media("/tmp/b.png", "", Some(10), "t2".to_string(), 6).expect("accepted");
    let end = list.finish_media_send("t2", Some(MediaStep::Send), "HTTP 403", false);
    assert_eq!(end.failed_row, Some(0));
    assert!(end.clear_session && end.authentication_failed);
    list.queue_media("/tmp/c.png", "", Some(10), "t3".to_string(), 7).expect("accepted");
    let end = list.finish_media_send("t3", None, "ignored 401", false);
    assert_eq!(end.failed_row, None);
    assert!(!end.clear_session);
    assert_eq!(list.messages[0].status, DeliveryStatus::Sending);
    list.queue_media("/tmp/d.png", "", Some(10), "t4".to_string(), 8).expect("accepted");
    list.delete_message("t4");
    let end = list.finish_media_send("t4", Some(MediaStep::Upload), "cancelled", true);
    assert_eq!(end.failed_row, None);
    assert_eq!(ids(&list), vec!["t3", "t2", "t1"]);
    assert!(list.upload_cancellations.is_empty());
}

#[test]
fn the_list_says_whether_it_would_send_a_text() {
    let mut list = MessageList::new();
    assert!(!list.accepts_text("hi"));
    list.load("C");
    assert!(list.accepts_text(" hi "));
    assert!(!list.accepts_text(" \n"));
    assert!(!list.accepts_text(""));
    let sent = list.send_message("hi").expect("accepted");
    assert!(!sent.provisional_id.is_empty());
}
