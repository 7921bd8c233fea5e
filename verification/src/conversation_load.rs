//! From a fetched page of conversations to the collection that is
//! published.

use crate::conversation_list::{
    sort_by_recency, sorted_by_recency, ConversationItem, ConversationRow,
};
use crate::refresh::holds_text;
use crate::text_map::TextMap;
use crate::timefmt::{format_human_timestamp, in_words};
use crate::wire::{
    build_preview, preview_of, Conversation, ConversationView, Participant, ParticipantView,
};
use vstd::prelude::*;

verus! {

/// How many conversations one page of the list asks for.
pub const CONVERSATION_PAGE_SIZE: i64 = 40;

/// How many messages one page of a timeline asks for.
pub const MESSAGE_PAGE_SIZE: i64 = 50;

/// The participant id of the local user: that of the first participant
/// marked as the local user that has an id; empty when there is none.
pub open spec fn my_participant_id(participants: Seq<ParticipantView>) -> Seq<char>
    decreases participants.len(),
{
    if participants.len() == 0 {
        Seq::empty()
    } else {
        let p = participants[0];
        if p.is_me && p.participant_id is Some {
            p.participant_id->0
        } else {
            my_participant_id(participants.drop_first())
        }
    }
}

/// The identifier by which the avatar of a conversation is asked for: the
/// contact id, or else the participant id, of the first participant other
/// than the local user that has either; empty when there is none.
pub open spec fn conversation_avatar_identifier(participants: Seq<ParticipantView>) -> Seq<char>
    decreases participants.len(),
{
    if participants.len() == 0 {
        Seq::empty()
    } else {
        let p = participants[0];
        if !p.is_me && p.contact_id.len() > 0 {
            p.contact_id
        } else if !p.is_me && p.participant_id is Some {
            p.participant_id->0
        } else {
            conversation_avatar_identifier(participants.drop_first())
        }
    }
}

/// The row of a fetched conversation, given the time of its last message
/// in words.
pub open spec fn item_of(conversation: ConversationView, last_message_time: Seq<char>) -> ConversationRow {
    ConversationRow {
        name: conversation.name,
        preview: preview_of(conversation),
        avatar_url: Seq::empty(),
        avatar_identifier: conversation_avatar_identifier(conversation.participants),
        is_group_chat: conversation.is_group_chat,
        unread: conversation.unread,
        conversation_id: conversation.conversation_id,
        me_participant_id: my_participant_id(conversation.participants),
        last_message_timestamp: conversation.last_message_timestamp,
        last_message_time,
    }
}

/// A row with the avatar address that is already known for it.
pub open spec fn with_known_avatar(row: ConversationRow, avatars: Map<Seq<char>, Seq<char>>) -> ConversationRow {
    if row.avatar_identifier.len() > 0 && avatars.dom().contains(row.avatar_identifier) {
        ConversationRow { avatar_url: avatars[row.avatar_identifier], ..row }
    } else {
        row
    }
}

/// The avatar identifiers of `rows` that `avatars` does not resolve, each
/// once, in the order of the rows.
pub open spec fn unresolved_identifiers(
    rows: Seq<ConversationRow>,
    avatars: Map<Seq<char>, Seq<char>>,
) -> Seq<Seq<char>>
    decreases rows.len(),
{
    if rows.len() == 0 {
        Seq::empty()
    } else {
        let rest = unresolved_identifiers(rows.drop_last(), avatars);
        let id = rows.last().avatar_identifier;
        if id.len() > 0 && !avatars.dom().contains(id) && !rest.contains(id) {
            rest.push(id)
        } else {
            rest
        }
    }
}

/// A fetched collection, ready to be published.
#[derive(Debug)]
pub struct LoadedConversations {
    /// The conversations, most recent first, with the avatars known so far.
    pub items: Vec<ConversationItem>,
    /// The avatar identifiers still to resolve, each once.
    pub avatar_identifiers: Vec<String>,
}

/// The participant id of the local user in a conversation.
pub fn own_participant_id(participants: &Vec<Participant>) -> (id: String)
    ensures
        id@ == my_participant_id(participants.deep_view()),
{
    let ghost all = participants.deep_view();
    let mut i: usize = 0;
    assert(all.skip(0) =~= all);
    while i < participants.len()
        invariant
            i <= participants.len(),
            all == participants.deep_view(),
            my_participant_id(all) == my_participant_id(all.skip(i as int)),
        decreases participants.len() - i,
    {
        let p = &participants[i];
        proof {
            assert(all.skip(i as int)[0] == all[i as int]);
            assert(all.skip(i as int).drop_first() =~= all.skip(i as int + 1));
            assert(p@ == all[i as int]);
        }
        if p.is_me {
            match &p.participant_id {
                Some(id) => {
                    return id.clone();
                },
                None => {},
            }
        }
        i += 1;
    }
    String::new()
}

/// The identifier by which the avatar of a conversation is asked for.
pub fn avatar_identifier(participants: &Vec<Participant>) -> (identifier: String)
    ensures
        identifier@ == conversation_avatar_identifier(participants.deep_view()),
{
    let ghost all = participants.deep_view();
    let mut k: usize = 0;
    assert(all.skip(0) =~= all);
    while k < participants.len()
        invariant
            k <= participants.len(),
            all == participants.deep_view(),
            conversation_avatar_identifier(all) == conversation_avatar_identifier(
                all.skip(k as int),
            ),
        decreases participants.len() - k,
    {
        let p = &participants[k];
        proof {
            assert(all.skip(k as int)[0] == all[k as int]);
            assert(all.skip(k as int).drop_first() =~= all.skip(k as int + 1));
            assert(p@ == all[k as int]);
        }
        if !p.is_me {
            if !p.contact_id.is_empty() {
                return p.contact_id.clone();
            }
            match &p.participant_id {
                Some(id) => {
                    return id.clone();
                },
                None => {},
            }
        }
        k += 1;
    }
    String::new()
}

/// The row of a fetched conversation, given the time of its last message
/// in words.
pub fn conversation_item(conversation: &Conversation, last_message_time: String) -> (item:
    ConversationItem)
    ensures
        item@ == item_of(conversation@, last_message_time@),
{
    ConversationItem {
        name: conversation.name.clone(),
        preview: build_preview(conversation),
        avatar_url: String::new(),
        avatar_identifier: avatar_identifier(&conversation.participants),
        is_group_chat: conversation.is_group_chat,
        unread: conversation.unread,
        conversation_id: conversation.conversation_id.clone(),
        me_participant_id: own_participant_id(&conversation.participants),
        last_message_timestamp: conversation.last_message_timestamp,
        last_message_time,
    }
}

/// The row of a fetched conversation, with the time of its last message
/// put in words by the clock of the moment.
pub fn conversation_to_item(conversation: &Conversation) -> (item: ConversationItem)
    ensures
        item@ == item_of(conversation@, item@.last_message_time),
        in_words(item@.last_message_time, conversation@.last_message_timestamp),
{
    let words = format_human_timestamp(conversation.last_message_timestamp);
    conversation_item(conversation, words)
}

/// Sorts a fetched collection most recent first, fills in the avatars that
/// are known, and lists the identifiers of those that are not.
pub fn prepare_items(items: Vec<ConversationItem>, avatars: &TextMap) -> (loaded:
    LoadedConversations)
    ensures
        loaded.items.deep_view() == sorted_by_recency(items.deep_view()).map_values(
            |r: ConversationRow| with_known_avatar(r, avatars@),
        ),
        loaded.avatar_identifiers.deep_view() == unresolved_identifiers(
            sorted_by_recency(items.deep_view()),
            avatars@,
        ),
{
    let mut items = items;
    sort_by_recency(&mut items);
    let ghost sorted = items.deep_view();
    let mut missing: Vec<String> = Vec::new();
    let mut i: usize = 0;
    assert(missing.deep_view() =~= unresolved_identifiers(sorted.take(0), avatars@));
    while i < items.len()
        invariant
            i <= items.len(),
            items.len() == sorted.len(),
            forall|j: int|
                0 <= j < i ==> items.deep_view()[j] == with_known_avatar(
                    #[trigger] sorted[j],
                    avatars@,
                ),
            forall|j: int| i <= j < sorted.len() ==> items.deep_view()[j] == #[trigger] sorted[j],
            missing.deep_view() == unresolved_identifiers(sorted.take(i as int), avatars@),
        decreases items.len() - i,
    {
        let ghost current = items.deep_view();
        proof {
            assert(sorted.take(i as int + 1).drop_last() =~= sorted.take(i as int));
            assert(sorted.take(i as int + 1).last() == sorted[i as int]);
            assert(current[i as int] == sorted[i as int]);
        }
        if !items[i].avatar_identifier.is_empty() {
            match avatars.get(items[i].avatar_identifier.as_str()) {
                Some(url) => {
                    items[i].avatar_url = url.clone();
                },
                None => {
                    if !holds_text(&missing, items[i].avatar_identifier.as_str()) {
                        let ghost prior = missing.deep_view();
                        missing.push(items[i].avatar_identifier.clone());
                        assert(missing.deep_view() =~= prior.push(sorted[i as int].avatar_identifier));
                    }
                },
            }
        }
        proof {
            assert forall|j: int| 0 <= j < i + 1 implies items.deep_view()[j] == with_known_avatar(
                #[trigger] sorted[j],
                avatars@,
            ) by {
                if j < i {
                    assert(items.deep_view()[j] == current[j]);
                }
            }
            assert forall|j: int| i + 1 <= j < sorted.len() implies items.deep_view()[j]
                == #[trigger] sorted[j] by {
                assert(items.deep_view()[j] == current[j]);
            }
        }
        i += 1;
    }
    assert(sorted.take(items.len() as int) =~= sorted);
    assert(items.deep_view() =~= sorted.map_values(
        |r: ConversationRow| with_known_avatar(r, avatars@),
    ));
    LoadedConversations { items, avatar_identifiers: missing }
}

/// Turns a fetched page of conversations into what is published, with the
/// times put in words by the clock of the moment.
pub fn prepare_conversations(conversations: &Vec<Conversation>, avatars: &TextMap) -> (loaded:
    LoadedConversations)
    ensures
        exists|rows: Seq<ConversationRow>|
            {
                &&& rows.len() == conversations.len()
                &&& forall|i: int|
                    0 <= i < rows.len() ==> #[trigger] rows[i] == item_of(
                        conversations.deep_view()[i],
                        rows[i].last_message_time,
                    ) && in_words(rows[i].last_message_time, rows[i].last_message_timestamp)
                &&& loaded.items.deep_view() == sorted_by_recency(rows).map_values(
                    |r: ConversationRow| with_known_avatar(r, avatars@),
                )
                &&& loaded.avatar_identifiers.deep_view() == unresolved_identifiers(
                    sorted_by_recency(rows),
                    avatars@,
                )
            },
{
    let mut items: Vec<ConversationItem> = Vec::new();
    let mut i: usize = 0;
    while i < conversations.len()
        invariant
            i <= conversations.len(),
            items.len() == i,
            forall|j: int|
                0 <= j < i ==> #[trigger] items.deep_view()[j] == item_of(
                    conversations.deep_view()[j],
                    items.deep_view()[j].last_message_time,
                ) && in_words(
                    items.deep_view()[j].last_message_time,
                    items.deep_view()[j].last_message_timestamp,
                ),
        decreases conversations.len() - i,
    {
        let ghost prior = items.deep_view();
        let item = conversation_to_item(&conversations[i]);
        let ghost row = item@;
        items.push(item);
        proof {
            assert(items.deep_view() =~= prior.push(row));
            assert forall|j: int| 0 <= j < i + 1 implies #[trigger] items.deep_view()[j]
                == item_of(
                conversations.deep_view()[j],
                items.deep_view()[j].last_message_time,
            ) && in_words(
                items.deep_view()[j].last_message_time,
                items.deep_view()[j].last_message_timestamp,
            ) by {
                if j < i {
                    assert(items.deep_view()[j] == prior[j]);
                }
            }
        }
        i += 1;
    }
    let ghost rows = items.deep_view();
    prepare_items(items, avatars)
}

} // verus!
