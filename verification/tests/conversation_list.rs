use kourier::cells::CellValue;
use kourier::conversation_list::{filter_items, sort_by_recency, ConversationItem, ConversationList};
use kourier::conversation_load::{conversation_item, conversation_to_item, prepare_conversations, prepare_items};
use kourier::text_map::TextMap;
use kourier::wire::{Conversation, LatestMessage, Participant};

fn item(id: &str, name: &str, preview: &str, timestamp: i64) -> ConversationItem {
    ConversationItem {
        name: name.to_string(),
        preview: preview.to_string(),
        avatar_url: String::new(),
        avatar_identifier: String::new(),
        is_group_chat: false,
        unread: true,
        conversation_id: id.to_string(),
        me_participant_id: String::new(),
        last_message_timestamp: timestamp,
        last_message_time: String::new(),
    }
}

fn stamps(items: &[ConversationItem]) -> Vec<i64> {
    items.iter().map(|i| i.last_message_timestamp).collect()
}

fn ids(items: &[ConversationItem]) -> Vec<String> {
    items.iter().map(|i| i.conversation_id.clone()).collect()
}

fn conversation(id: &str, timestamp: i64) -> Conversation {
    Conversation {
        conversation_id: id.to_string(),
        name: format!("name of {id}"),
        is_group_chat: false,
        unread: false,
        last_message_timestamp: timestamp,
        latest_message: None,
        participants: vec![],
    }
}

#[test]
fn loaded_conversations_show_most_recent_first() {
    let mut list = ConversationList::new();
    list.load();
    assert!(list.loading);
    list.apply_loaded(vec![item("a", "A", "", 100), item("b", "B", "", 300), item("c", "C", "", 200)]);
    assert!(!list.loading);
    assert_eq!(stamps(&list.filtered_items), vec![300, 200, 100]);
    assert_eq!(stamps(&list.all_items), vec![300, 200, 100]);
    assert_eq!(list.row_count(), 3);
}

#[test]
fn sort_keeps_the_order_of_equal_times() {
    let mut items = vec![item("a", "", "", 5), item("b", "", "", 9), item("c", "", "", 5), item("d", "", "", 9)];
    sort_by_recency(&mut items);
    assert_eq!(ids(&items), vec!["b", "d", "a", "c"]);
}

#[test]
fn upserts_keep_the_collection_sorted_and_without_duplicates() {
    let mut list = ConversationList::new();
    let events = [("a", 10), ("b", 30), ("a", 40), ("c", 20), ("b", 5), ("c", 20), ("d", 40)];
    for (id, timestamp) in events {
        list.upsert_from_event(item(id, id, "", timestamp));
        let all = stamps(&list.all_items);
        assert!(all.windows(2).all(|w| w[0] >= w[1]));
        let mut seen = ids(&list.all_items);
        seen.sort();
        seen.dedup();
        assert_eq!(seen.len(), list.all_items.len());
    }
    assert_eq!(ids(&list.all_items), vec!["a", "d", "c", "b"]);
}

#[test]
fn upsert_updates_in_place_and_keeps_avatar() {
    let mut list = ConversationList::new();
    let mut first = item("a", "Ann", "hi", 10);
    first.avatar_identifier = "contact-1".to_string();
    first.me_participant_id = "me".to_string();
    list.apply_loaded(vec![first, item("b", "Bob", "yo", 20)]);
    let mut avatars = TextMap::new();
    avatars.insert("contact-1".to_string(), "file:///a.png".to_string());
    avatars.insert("other".to_string(), "file:///o.png".to_string());
    list.apply_avatars(&avatars);
    assert!(list.avatar_by_identifier.contains_key("other"));
    let mut event = item("a", "Ann B", "new", 30);
    event.unread = false;
    event.is_group_chat = true;
    event.last_message_time = "Now".to_string();
    list.upsert_from_event(event);
    let head = &list.all_items[0];
    assert_eq!(head.conversation_id, "a");
    assert_eq!(head.name, "Ann B");
    assert_eq!(head.preview, "new");
    assert!(!head.unread);
    assert!(head.is_group_chat);
    assert_eq!(head.last_message_time, "Now");
    assert_eq!(head.avatar_url, "file:///a.png");
    assert_eq!(head.avatar_identifier, "contact-1");
    assert_eq!(head.me_participant_id, "me");
    assert_eq!(list.all_items.len(), 2);
}

#[test]
fn new_conversation_from_event_starts_without_avatar() {
    let mut list = ConversationList::new();
    let mut event = item("z", "Zed", "p", 7);
    event.avatar_url = "ignored".to_string();
    event.me_participant_id = "ignored".to_string();
    list.upsert_from_event(event);
    assert_eq!(list.all_items[0].avatar_url, "");
    assert_eq!(list.all_items[0].me_participant_id, "");
}

#[test]
fn handle_conversation_event_words_the_time() {
    let mut list = ConversationList::new();
    list.handle_conversation_event("a", "Ann", "hi", true, 0, false);
    assert_eq!(list.all_items[0].last_message_time, "");
    let now = 1_700_000_000_000_000i64;
    list.handle_conversation_event("b", "Bob", "yo", false, now, true);
    assert_eq!(ids(&list.all_items), vec!["b", "a"]);
    assert!(!list.all_items[0].last_message_time.is_empty());
}

#[test]
fn older_preview_update_changes_nothing() {
    let mut list = ConversationList::new();
    list.apply_loaded(vec![item("a", "A", "old a", 100), item("b", "B", "old b", 300)]);
    assert!(!list.update_preview_if_newer("a", "stale", 99, "x"));
    assert_eq!(list.all_items[1].preview, "old a");
    assert_eq!(list.all_items[1].last_message_timestamp, 100);
    assert!(!list.update_preview_if_newer("nobody", "p", 1000, "x"));
    assert_eq!(stamps(&list.all_items), vec![300, 100]);
}

#[test]
fn newer_preview_update_moves_the_row() {
    let mut list = ConversationList::new();
    list.apply_loaded(vec![item("a", "A", "old a", 100), item("b", "B", "old b", 300)]);
    assert!(list.update_preview_if_newer("a", "fresh", 400, "Now"));
    assert_eq!(ids(&list.filtered_items), vec!["a", "b"]);
    assert_eq!(list.all_items[0].preview, "fresh");
    assert_eq!(list.all_items[0].last_message_time, "Now");
    assert!(list.update_preview_if_newer("b", "same time", 300, "t"));
    assert_eq!(list.all_items[1].preview, "same time");
    assert!(list.update_preview("b", "by clock", 300));
    assert!(!list.update_preview("b", "too old", 299));
    assert_eq!(list.all_items[1].preview, "by clock");
}

#[test]
fn filter_matches_name_or_preview_without_regard_to_case() {
    let items = vec![
        item("a", "Alice", "see you", 3),
        item("b", "Bob", "ALICE said hi", 2),
        item("c", "Carol", "nothing", 1),
    ];
    assert_eq!(ids(&filter_items(&items, "  aLiCe ")), vec!["a", "b"]);
    assert_eq!(ids(&filter_items(&items, "   ")), vec!["a", "b", "c"]);
    assert_eq!(ids(&filter_items(&items, "zzz")), Vec::<String>::new());
    assert_eq!(ids(&filter_items(&items, "ÉCOLE")), Vec::<String>::new());
    let accented = vec![item("d", "École", "", 1)];
    assert_eq!(ids(&filter_items(&accented, "éCOLE")), vec!["d"]);
}

#[test]
fn apply_filter_leaves_the_canonical_collection() {
    let mut list = ConversationList::new();
    list.apply_loaded(vec![item("a", "Alice", "", 1), item("b", "Bob", "", 2)]);
    list.apply_filter("bo");
    assert_eq!(ids(&list.filtered_items), vec!["b"]);
    assert_eq!(ids(&list.all_items), vec!["b", "a"]);
    assert_eq!(list.filter_text, "bo");
    list.upsert_from_event(item("c", "Bobby", "", 3));
    assert_eq!(ids(&list.filtered_items), vec!["c", "b"]);
    assert_eq!(list.conversation_id(0), "c");
    assert_eq!(list.conversation_id(-4), "c");
    assert_eq!(list.conversation_id(2), "");
    assert_eq!(list.me_participant_id(5), "");
}

#[test]
fn mark_read_touches_one_row() {
    let mut list = ConversationList::new();
    list.apply_loaded(vec![item("a", "A", "", 1), item("b", "B", "", 2)]);
    assert_eq!(list.mark_conversation_read("a"), Some(1));
    assert!(!list.all_items[1].unread);
    assert!(!list.filtered_items[1].unread);
    assert!(list.all_items[0].unread);
    assert_eq!(list.mark_conversation_read("a"), None);
    assert_eq!(list.mark_conversation_read("nobody"), None);
    assert_eq!(ids(&list.all_items), vec!["b", "a"]);
}

#[test]
fn conversation_cells_by_role() {
    let mut list = ConversationList::new();
    let mut one = item("a", "Ann", "hello", 1);
    one.is_group_chat = true;
    one.last_message_time = "Now".to_string();
    one.avatar_url = "file:///x".to_string();
    list.apply_loaded(vec![one]);
    assert_eq!(list.data(0, 0), CellValue::Text("Ann".to_string()));
    assert_eq!(list.data(0, 1), CellValue::Text("hello".to_string()));
    assert_eq!(list.data(0, 2), CellValue::Text("Now".to_string()));
    assert_eq!(list.data(0, 3), CellValue::Text("file:///x".to_string()));
    assert_eq!(list.data(0, 4), CellValue::Flag(true));
    assert_eq!(list.data(0, 5), CellValue::Flag(true));
    assert_eq!(list.data(0, 6), CellValue::Empty);
    assert_eq!(list.data(1, 0), CellValue::Empty);
    assert_eq!(list.data(-1, 0), CellValue::Empty);
    let roles: Vec<(i32, &str)> = list.role_names().iter().map(|r| (r.number, r.name)).collect();
    assert_eq!(
        roles,
        vec![(0, "name"), (1, "preview"), (2, "time"), (3, "avatar_url"), (4, "is_group_chat"), (5, "unread")]
    );
}

#[test]
fn load_failure_clears_loading_and_reports_authentication() {
    let mut list = ConversationList::new();
    list.load();
    assert!(list.load_failed("server said 401"));
    assert!(!list.loading);
    list.load();
    assert!(!list.load_failed("connection reset"));
    assert!(list.load_failed("missing authentication credential"));
}

#[test]
fn conversation_item_reads_participants() {
    let convo = Conversation {
        conversation_id: "c1".to_string(),
        name: "Team".to_string(),
        is_group_chat: true,
        unread: true,
        last_message_timestamp: 55,
        latest_message: Some(LatestMessage {
            from_me: 0,
            display_name: "Ann".to_string(),
            display_content: "  hello  ".to_string(),
        }),
        participants: vec![
            Participant { is_me: true, participant_id: None, contact_id: String::new() },
            Participant { is_me: false, participant_id: None, contact_id: String::new() },
            Participant { is_me: false, participant_id: Some("p2".to_string()), contact_id: String::new() },
            Participant { is_me: true, participant_id: Some("me1".to_string()), contact_id: "x".to_string() },
            Participant { is_me: false, participant_id: Some("p3".to_string()), contact_id: "contact3".to_string() },
        ],
    };
    let item = conversation_item(&convo, "label".to_string());
    assert_eq!(item.preview, "Ann: hello");
    assert_eq!(item.me_participant_id, "me1");
    assert_eq!(item.avatar_identifier, "p2");
    assert_eq!(item.avatar_url, "");
    assert_eq!(item.last_message_time, "label");
    assert_eq!(item.last_message_timestamp, 55);
    assert!(item.unread && item.is_group_chat);
    let by_clock = conversation_to_item(&convo);
    assert_eq!(by_clock.preview, "Ann: hello");
    assert!(!by_clock.last_message_time.is_empty());
}

#[test]
fn prepared_items_are_sorted_with_known_avatars() {
    let mut a = item("a", "A", "", 1);
    a.avatar_identifier = "ia".to_string();
    let mut b = item("b", "B", "", 3);
    b.avatar_identifier = "ib".to_string();
    let mut c = item("c", "C", "", 2);
    c.avatar_identifier = "ib".to_string();
    let d = item("d", "D", "", 0);
    let mut avatars = TextMap::new();
    avatars.insert("ia".to_string(), "file:///ia.png".to_string());
    let loaded = prepare_items(vec![a, b, c, d], &avatars);
    assert_eq!(ids(&loaded.items), vec!["b", "c", "a", "d"]);
    assert_eq!(loaded.items[2].avatar_url, "file:///ia.png");
    assert_eq!(loaded.items[0].avatar_url, "");
    assert_eq!(loaded.avatar_identifiers, vec!["ib".to_string()]);
    let page = vec![conversation("x", 100), conversation("y", 300), conversation("z", 200)];
    let published = prepare_conversations(&page, &TextMap::new());
    assert_eq!(stamps(&published.items), vec![300, 200, 100]);
    assert_eq!(published.items[0].name, "name of y");
}

#[test]
fn mark_read_reaches_a_conversation_that_the_filter_hides() {
    let mut list = ConversationList::new();
    list.apply_loaded(vec![item("a", "Alice", "", 1), item("b", "Bob", "", 2)]);
    list.apply_filter("bob");
    assert_eq!(ids(&list.filtered_items), vec!["b"]);
    assert_eq!(list.mark_conversation_read("a"), None);
    assert!(!list.all_items[1].unread);
    assert!(list.all_items[0].unread);
    assert_eq!(ids(&list.all_items), vec!["b", "a"]);
    assert!(list.filtered_items[0].unread);
    assert_eq!(list.mark_conversation_read("b"), Some(0));
    assert!(!list.filtered_items[0].unread);
    assert!(!list.all_items[0].unread);
    list.apply_filter("");
    assert_eq!(ids(&list.filtered_items), vec!["b", "a"]);
    assert!(list.filtered_items.iter().all(|i| !i.unread));
}

#[test]
fn a_filter_of_white_space_shows_every_row() {
    let mut list = ConversationList::new();
    list.apply_loaded(vec![item("a", "Alice", "", 1), item("b", "", "", 2)]);
    for filter in ["", " ", "\t\u{a0}\n"] {
        list.apply_filter(filter);
        assert_eq!(list.row_count(), 2);
    }
}
