use kourier::app_state::{
    next_pairing_action, qr_failure_message, AppState, LoginOutcome, PairingAction, PairingEvent, StoredCredentials,
};
use kourier::bridge::UpdateBridge;
use kourier::qr::{qr_to_svg_data_url, QrFailure};
use kourier::codec::decode_from_travel;
use kourier::session_controller::{
    dispatch, message_notice, session_step, Dispatch, SessionAction, SessionController, SessionEvent, SessionPhase,
    StreamCursor, StreamEndReason, StreamItem, StreamVerdict,
};
use kourier::shared::{avatar_fetch_step, avatar_file_name, handler_session_id, split_resolved, AvatarAttempt, RequestKind, SharedSession};
use kourier::text_map::TextMap;
use kourier::wire::{Conversation, LatestMessage, MediaContent, Message, MessageData, UpdateEvent};

fn message(id: &str, tmp: &str, blocks: Vec<MessageData>) -> Message {
    Message {
        message_id: id.to_string(),
        tmp_id: tmp.to_string(),
        another_message_id: None,
        conversation_id: "c1".to_string(),
        participant_id: "p1".to_string(),
        transport_type: 4,
        timestamp: 1234,
        status: Some(2),
        message_info: blocks,
    }
}

#[test]
fn controller_starts_once_and_stops() {
    let mut controller = SessionController::new();
    assert_eq!(controller.status, "Idle");
    assert!(controller.start());
    assert!(controller.running);
    assert_eq!(controller.status, "Starting session...");
    assert!(!controller.start());
    assert_eq!(controller.status, "Starting session...");
    assert!(controller.stop());
    assert!(controller.should_stop);
    assert!(!controller.running);
    assert_eq!(controller.status, "Stopping...");
    assert!(!controller.stop());
    assert!(controller.start());
    assert!(!controller.should_stop);
    controller.report("Reconnecting...");
    assert!(controller.running);
    controller.finished("Session ended");
    assert!(!controller.running);
    assert_eq!(controller.status, "Session ended");
}

#[test]
fn session_loop_streams_and_reconnects() {
    let step = session_step(SessionPhase::Idle, &SessionEvent::Started, false);
    assert_eq!((step.phase, step.action, step.status), (SessionPhase::Starting, SessionAction::Prepare, None));
    let step = session_step(SessionPhase::Starting, &SessionEvent::Ready, false);
    assert_eq!((step.phase, step.action), (SessionPhase::Connecting, SessionAction::OpenStream));
    let step = session_step(SessionPhase::Connecting, &SessionEvent::StreamOpened, false);
    assert_eq!((step.phase, step.action), (SessionPhase::Streaming, SessionAction::ReadStream));
    let ended = SessionEvent::StreamFinished(StreamEndReason::StreamEnded);
    let step = session_step(SessionPhase::Streaming, &ended, false);
    assert_eq!(step.phase, SessionPhase::Reconnecting);
    assert_eq!(step.action, SessionAction::Backoff);
    assert_eq!(step.status, Some("Reconnecting...".to_string()));
    let step = session_step(SessionPhase::Reconnecting, &SessionEvent::BackoffElapsed, false);
    assert_eq!((step.phase, step.action), (SessionPhase::Connecting, SessionAction::OpenStream));
}

#[test]
fn session_loop_honours_a_stop_at_every_check_point() {
    let step = session_step(SessionPhase::Starting, &SessionEvent::Ready, true);
    assert_eq!((step.phase, step.action), (SessionPhase::Stopped, SessionAction::Finish));
    assert_eq!(step.status, Some("Session ended".to_string()));
    let stopped = SessionEvent::StreamFinished(StreamEndReason::Stopped);
    assert_eq!(session_step(SessionPhase::Streaming, &stopped, false).phase, SessionPhase::Stopped);
    let ended = SessionEvent::StreamFinished(StreamEndReason::StreamEnded);
    assert_eq!(session_step(SessionPhase::Streaming, &ended, true).phase, SessionPhase::Stopped);
    assert_eq!(session_step(SessionPhase::Reconnecting, &SessionEvent::BackoffElapsed, true).phase, SessionPhase::Stopped);
}

#[test]
fn session_loop_does_not_retry_a_refused_stream() {
    let refused = SessionEvent::StreamRefused("invalid credentials".to_string());
    let step = session_step(SessionPhase::Connecting, &refused, false);
    assert_eq!(step.phase, SessionPhase::Failed);
    assert_eq!(step.action, SessionAction::Finish);
    assert_eq!(step.status, Some("Session error: invalid credentials".to_string()));
    let failed = SessionEvent::SetupFailed("not logged in".to_string());
    let step = session_step(SessionPhase::Starting, &failed, false);
    assert_eq!(step.status, Some("Session error: not logged in".to_string()));
    for event in [SessionEvent::Started, SessionEvent::Ready, SessionEvent::StreamOpened, SessionEvent::BackoffElapsed] {
        let after = session_step(SessionPhase::Failed, &event, false);
        assert_eq!((after.phase, after.action, after.status), (SessionPhase::Failed, SessionAction::Nothing, None));
        let after = session_step(SessionPhase::Stopped, &event, false);
        assert_eq!(after.phase, SessionPhase::Stopped);
    }
    let stray = session_step(SessionPhase::Idle, &SessionEvent::StreamOpened, false);
    assert_eq!((stray.phase, stray.action), (SessionPhase::Idle, SessionAction::Nothing));
}

#[test]
fn stream_cursor_skips_what_the_acknowledgement_announces() {
    let mut cursor = StreamCursor::new();
    let data = StreamItem::Payload { ack_count: None, has_data: true, is_data_event: true };
    assert_eq!(cursor.on_item(false, data), StreamVerdict::ProcessAndDecode);
    let ack = StreamItem::Payload { ack_count: Some(2), has_data: false, is_data_event: false };
    assert_eq!(cursor.on_item(false, ack), StreamVerdict::Skip);
    assert_eq!(cursor.skip_count, 2);
    assert_eq!(cursor.on_item(false, data), StreamVerdict::Skip);
    assert_eq!(cursor.on_item(false, data), StreamVerdict::Skip);
    assert_eq!(cursor.skip_count, 0);
    assert_eq!(cursor.on_item(false, data), StreamVerdict::ProcessAndDecode);
    let other = StreamItem::Payload { ack_count: None, has_data: true, is_data_event: false };
    assert_eq!(cursor.on_item(false, other), StreamVerdict::Process);
    let both = StreamItem::Payload { ack_count: Some(1), has_data: true, is_data_event: true };
    assert_eq!(cursor.on_item(false, both), StreamVerdict::Skip);
    assert_eq!(cursor.skip_count, 0);
    let negative = StreamItem::Payload { ack_count: Some(-1), has_data: true, is_data_event: true };
    assert_eq!(cursor.on_item(false, negative), StreamVerdict::ProcessAndDecode);
    assert_eq!(cursor.skip_count, -1);
    assert_eq!(cursor.on_item(false, StreamItem::End), StreamVerdict::Leave(StreamEndReason::StreamEnded));
    assert_eq!(cursor.on_item(false, StreamItem::Error), StreamVerdict::Leave(StreamEndReason::StreamEnded));
    assert_eq!(cursor.on_item(true, both), StreamVerdict::Leave(StreamEndReason::Stopped));
    assert_eq!(cursor.skip_count, -1);
}

#[test]
fn message_events_are_passed_on_and_acknowledged() {
    let media = MediaContent {
        media_id: String::new(),
        thumbnail_media_id: "thumb-id".to_string(),
        decryption_key: vec![1, 2, 3],
        thumbnail_decryption_key: vec![9],
        mime_type: "image/png".to_string(),
        dimensions: Some((640, 480)),
    };
    let first = message(
        "srv-1",
        "tmp-1",
        vec![MessageData::Other, MessageData::Text("   ".to_string()), MessageData::Text(" hi ".to_string()), MessageData::Media(media)],
    );
    let second = message("", "tmp-2", vec![MessageData::Text("yo".to_string())]);
    let todo = dispatch(&UpdateEvent::Messages(vec![first, second]));
    assert_eq!(todo.len(), 3);
    match &todo[0] {
        Dispatch::MessageReceived(notice) => {
            assert_eq!(notice.conversation_id, "c1");
            assert_eq!(notice.participant_id, "p1");
            assert_eq!(notice.body, "hi");
            assert_eq!(notice.message_id, "srv-1");
            assert_eq!(notice.tmp_id, "tmp-1");
            assert_eq!(notice.timestamp_micros, 1234);
            assert_eq!(notice.status_code, 2);
            assert_eq!(notice.transport_type, 4);
            assert!(notice.is_media);
            assert_eq!(notice.media_id, "thumb-id");
            assert_eq!(notice.decryption_key, "AQID");
            assert_eq!(decode_from_travel(&notice.decryption_key), vec![1, 2, 3]);
            assert_eq!(notice.mime_type, "image/png");
            assert_eq!((notice.media_width, notice.media_height), (640, 480));
        }
        other => panic!("unexpected {other:?}"),
    }
    assert_eq!(todo[1], Dispatch::Acknowledge("srv-1".to_string()));
    match &todo[2] {
        Dispatch::MessageReceived(notice) => {
            assert_eq!(notice.message_id, "tmp-2");
            assert!(!notice.is_media);
            assert_eq!(notice.decryption_key, "");
            assert_eq!((notice.media_width, notice.media_height), (0, 0));
        }
        other => panic!("unexpected {other:?}"),
    }
}

#[test]
fn message_without_status_or_ids_falls_back() {
    let mut bare = message("", "", vec![]);
    bare.status = None;
    bare.another_message_id = Some("alt".to_string());
    let notice = message_notice(&bare);
    assert_eq!(notice.message_id, "alt");
    assert_eq!(notice.status_code, 0);
    assert_eq!(notice.body, "");
    bare.another_message_id = None;
    assert_eq!(message_notice(&bare).message_id, "");
}

#[test]
fn conversation_events_are_passed_on_and_others_ignored() {
    let convo = Conversation {
        conversation_id: "c9".to_string(),
        name: "Nine".to_string(),
        is_group_chat: false,
        unread: true,
        last_message_timestamp: 77,
        latest_message: Some(LatestMessage { from_me: 1, display_name: "Me".to_string(), display_content: " ".to_string() }),
        participants: vec![],
    };
    let todo = dispatch(&UpdateEvent::Conversations(vec![convo]));
    assert_eq!(todo.len(), 1);
    match &todo[0] {
        Dispatch::ConversationUpdated(notice) => {
            assert_eq!(notice.conversation_id, "c9");
            assert_eq!(notice.name, "Nine");
            assert_eq!(notice.preview, "You: Attachment");
            assert!(notice.unread);
            assert_eq!(notice.last_message_timestamp, 77);
            assert!(!notice.is_group_chat);
        }
        other => panic!("unexpected {other:?}"),
    }
    assert!(dispatch(&UpdateEvent::Other).is_empty());
    assert!(dispatch(&UpdateEvent::Messages(vec![])).is_empty());
}

#[test]
fn login_state_follows_the_pairing() {
    let mut state = AppState::new();
    assert_eq!(state.status_message, "Not logged in");
    assert!(state.start_login());
    assert!(state.login_in_progress);
    assert_eq!(state.status_message, "Starting QR login...");
    assert!(!state.start_login());
    state.cancel_login();
    assert!(state.login_stop);
    state.finish_login(LoginOutcome::Cancelled);
    assert!(!state.login_in_progress);
    assert!(!state.logged_in);
    assert_eq!(state.status_message, "Login cancelled");
    assert!(state.start_login());
    assert!(!state.login_stop);
    state.finish_login(LoginOutcome::Failed("no network".to_string()));
    assert_eq!(state.status_message, "Login failed: no network");
    assert!(state.start_login());
    state.finish_login(LoginOutcome::LoggedIn);
    assert!(state.logged_in);
    assert_eq!(state.status_message, "Logged in");
    assert!(!state.start_login());
    state.logout("");
    assert!(!state.logged_in);
    assert_eq!(state.status_message, "Not logged in");
    state.logout("Session expired");
    assert_eq!(state.status_message, "Session expired");
}

#[test]
fn stored_credentials_decide_the_first_state() {
    let mut state = AppState::new();
    assert!(state.initialize(StoredCredentials::Present));
    assert!(state.logged_in);
    assert_eq!(state.status_message, "Logged in");
    assert!(!state.initialize(StoredCredentials::Absent));
    assert!(!state.logged_in);
    assert_eq!(state.status_message, "Not logged in");
    assert!(!state.initialize(StoredCredentials::Unreadable("bad file".to_string())));
    assert_eq!(state.status_message, "Auth load failed: bad file");
}

#[test]
fn pairing_rounds() {
    assert_eq!(next_pairing_action(PairingEvent::RoundBegins, true), PairingAction::Cancel);
    assert_eq!(next_pairing_action(PairingEvent::RoundBegins, false), PairingAction::RequestCode { delay_seconds: 0 });
    assert_eq!(next_pairing_action(PairingEvent::ServiceUnavailable, false), PairingAction::RequestCode { delay_seconds: 2 });
    assert_eq!(next_pairing_action(PairingEvent::StreamFailed, true), PairingAction::RequestCode { delay_seconds: 2 });
    assert_eq!(next_pairing_action(PairingEvent::NotPaired, false), PairingAction::RequestCode { delay_seconds: 0 });
    assert_eq!(next_pairing_action(PairingEvent::TimedOut, false), PairingAction::RequestCode { delay_seconds: 0 });
    assert_eq!(next_pairing_action(PairingEvent::Paired, true), PairingAction::StoreCredentials);
}

#[test]
fn pairing_code_becomes_an_svg_address() {
    let url = qr_to_svg_data_url("https://example.org/pair?c=123").expect("short data encodes");
    let prefix = "data:image/svg+xml;base64,";
    assert!(url.starts_with(prefix));
    let svg = String::from_utf8(decode_from_travel(&url[prefix.len()..])).expect("svg is text");
    assert!(svg.starts_with("<?xml"));
    assert!(svg.contains("<svg"));
    assert!(svg.contains("fill=\"#ffffff\""));
    assert!(svg.contains("fill=\"#000000\""));
    assert!(svg.ends_with("</svg>"));
    assert_ne!(svg, "https://example.org/pair?c=123");
    assert_eq!(qr_to_svg_data_url("https://example.org/pair?c=123"), Ok(url.clone()));
    assert_ne!(qr_to_svg_data_url("https://example.org/pair?c=124"), Ok(url));
    let mut state = AppState::new();
    assert_eq!(state.show_pairing_code("abc"), Ok(()));
    assert_eq!(state.qr_url, "abc");
    assert!(state.qr_svg_data_url.starts_with(prefix));
    assert_eq!(state.status_message, "Scan the QR code");
}

#[test]
fn pairing_code_too_long_is_refused() {
    let long = "x".repeat(8000);
    assert_eq!(qr_to_svg_data_url(&long), Err(QrFailure::DataTooLong));
    assert_eq!(qr_failure_message(QrFailure::DataTooLong), "data too long");
    assert_eq!(QrFailure::ImageTooLarge.message(), "image too large");
    let mut state = AppState::new();
    assert_eq!(state.show_pairing_code(&long), Err(QrFailure::DataTooLong));
    assert_eq!(state.qr_url, "");
    assert_eq!(state.status_message, "Not logged in");
}

#[test]
fn shared_session_keeps_one_client() {
    let mut shared: SharedSession<u32, &str> = SharedSession::new();
    assert_eq!(shared.get_client(), None);
    assert_eq!(shared.ensure_client(Ok(None)), Err("not logged in".to_string()));
    assert_eq!(shared.ensure_client(Err("disk error".to_string())), Err("disk error".to_string()));
    assert_eq!(shared.get_client(), None);
    assert_eq!(shared.ensure_client(Ok(Some(7))), Ok(()));
    assert_eq!(shared.get_client(), Some(&7));
    assert_eq!(shared.ensure_client(Ok(Some(8))), Ok(()));
    assert_eq!(shared.get_client(), Some(&7));
    assert_eq!(shared.ensure_client(Err("ignored".to_string())), Ok(()));
    assert!(shared.make_handler("h1"));
    assert!(!shared.make_handler("h2"));
    assert_eq!(shared.get_handler(), Some(&"h1"));
    shared.record_avatar("id", "file:///a");
    shared.clear_client();
    assert_eq!(shared.get_client(), None);
    assert_eq!(shared.get_handler(), None);
    assert_eq!(shared.avatars.get("id"), Some(&"file:///a".to_string()));
    shared.set_client(9);
    assert_eq!(shared.get_client(), Some(&9));
    assert_eq!(handler_session_id("ABC-Def"), "abc-def");
}

#[test]
fn avatars_are_asked_for_in_five_ways() {
    let expected = [
        AvatarAttempt { encrypted: true, kind: RequestKind::Annotation },
        AvatarAttempt { encrypted: true, kind: RequestKind::Message },
        AvatarAttempt { encrypted: false, kind: RequestKind::Annotation },
        AvatarAttempt { encrypted: false, kind: RequestKind::Message },
        AvatarAttempt { encrypted: false, kind: RequestKind::Unknown },
    ];
    for (made, attempt) in expected.iter().enumerate() {
        assert_eq!(avatar_fetch_step(made, false), Some(*attempt));
        assert_eq!(avatar_fetch_step(made, true), None);
    }
    assert_eq!(avatar_fetch_step(5, false), None);
    assert_eq!(avatar_fetch_step(usize::MAX, false), None);
}

#[test]
fn avatar_requests_are_split_by_the_index() {
    let mut index = TextMap::new();
    index.insert("known".to_string(), "file:///k.png".to_string());
    let wanted = vec!["a".to_string(), "known".to_string(), "b".to_string(), "a".to_string()];
    let (resolved, to_fetch) = split_resolved(&index, &wanted);
    assert_eq!(resolved.get("known"), Some(&"file:///k.png".to_string()));
    assert_eq!(resolved.get("a"), None);
    assert_eq!(to_fetch, vec!["a".to_string(), "b".to_string()]);
    assert_eq!(avatar_file_name("+1/2=3", b"\x89PNG\r\n\x1a\n"), Some("_1_23.png".to_string()));
    assert_eq!(avatar_file_name("", b"GIF89a"), Some("unknown.gif".to_string()));
    assert_eq!(avatar_file_name("x", b"?"), Some("x.bin".to_string()));
    assert_eq!(avatar_file_name("x", b""), None);
}

#[test]
fn bridge_delivers_in_order_until_closed() {
    let mut bridge: UpdateBridge<u32> = UpdateBridge::new();
    assert!(bridge.submit(1));
    assert!(bridge.submit(2));
    assert!(bridge.submit(3));
    assert_eq!(bridge.len(), 3);
    assert_eq!(bridge.drain(), vec![1, 2, 3]);
    assert_eq!(bridge.drain(), Vec::<u32>::new());
    assert!(bridge.submit(4));
    assert_eq!(bridge.close(), 1);
    assert!(!bridge.submit(5));
    assert_eq!(bridge.len(), 0);
    assert_eq!(bridge.drain(), Vec::<u32>::new());
}
