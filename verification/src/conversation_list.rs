//! The conversation list: the canonical collection, most recent first, and
//! the filtered view of it that is on display.

use crate::auth::{auth_failure_text, is_auth_error};
use crate::cells::{numbered, CellContent, CellValue, Role};
use crate::message_list::{clamp_row_count, row_count_of};
use crate::seqs::{
    any_where, first_where, lemma_any_where, lemma_first_where, lemma_first_where_is,
};
use crate::text::{
    contains, contains_text, lowercase, same_text, to_lowercase, trim, trimmed,
};
use crate::text_map::TextMap;
use crate::timefmt::{format_human_timestamp, in_words};
use vstd::prelude::*;

verus! {

/// One conversation as the list shows it.
#[derive(Debug)]
pub struct ConversationItem {
    pub name: String,
    pub preview: String,
    /// Address of the avatar; empty until it has been resolved.
    pub avatar_url: String,
    /// What the avatar is asked for by.
    pub avatar_identifier: String,
    pub is_group_chat: bool,
    pub unread: bool,
    pub conversation_id: String,
    pub me_participant_id: String,
    /// Time of the last message, in microseconds since the Unix epoch.
    pub last_message_timestamp: i64,
    /// That time in words.
    pub last_message_time: String,
}

/// The mathematical value of a `ConversationItem`.
pub struct ConversationRow {
    pub name: Seq<char>,
    pub preview: Seq<char>,
    pub avatar_url: Seq<char>,
    pub avatar_identifier: Seq<char>,
    pub is_group_chat: bool,
    pub unread: bool,
    pub conversation_id: Seq<char>,
    pub me_participant_id: Seq<char>,
    pub last_message_timestamp: i64,
    pub last_message_time: Seq<char>,
}

impl View for ConversationItem {
    type V = ConversationRow;

    open spec fn view(&self) -> ConversationRow {
        ConversationRow {
            name: self.name@,
            preview: self.preview@,
            avatar_url: self.avatar_url@,
            avatar_identifier: self.avatar_identifier@,
            is_group_chat: self.is_group_chat,
            unread: self.unread,
            conversation_id: self.conversation_id@,
            me_participant_id: self.me_participant_id@,
            last_message_timestamp: self.last_message_timestamp,
            last_message_time: self.last_message_time@,
        }
    }
}

impl DeepView for ConversationItem {
    type V = ConversationRow;

    open spec fn deep_view(&self) -> ConversationRow {
        self@
    }
}

impl Clone for ConversationItem {
    fn clone(&self) -> (copy: Self)
        ensures
            copy@ == self@,
    {
        ConversationItem {
            name: self.name.clone(),
            preview: self.preview.clone(),
            avatar_url: self.avatar_url.clone(),
            avatar_identifier: self.avatar_identifier.clone(),
            is_group_chat: self.is_group_chat,
            unread: self.unread,
            conversation_id: self.conversation_id.clone(),
            me_participant_id: self.me_participant_id.clone(),
            last_message_timestamp: self.last_message_timestamp,
            last_message_time: self.last_message_time.clone(),
        }
    }
}

/// Rows of the conversation `id`.
pub open spec fn for_conversation(id: Seq<char>) -> spec_fn(ConversationRow) -> bool {
    |r: ConversationRow| r.conversation_id == id
}

/// Rows whose last message is older than `timestamp`.
pub open spec fn less_recent(timestamp: i64) -> spec_fn(ConversationRow) -> bool {
    |r: ConversationRow| r.last_message_timestamp < timestamp
}

/// Index of the first row of conversation `id`, or the length.
pub open spec fn row_of(s: Seq<ConversationRow>, id: Seq<char>) -> int {
    first_where(s, for_conversation(id))
}

/// Whether the conversation `id` has a row.
pub open spec fn lists(s: Seq<ConversationRow>, id: Seq<char>) -> bool {
    any_where(s, for_conversation(id))
}

/// Rows stand in descending order of the time of their last message.
pub open spec fn most_recent_first(s: Seq<ConversationRow>) -> bool {
    forall|i: int, j: int|
        0 <= i <= j < s.len() ==> (#[trigger] s[i]).last_message_timestamp >= (
        #[trigger] s[j]).last_message_timestamp
}

/// No conversation has two rows.
pub open spec fn distinct_conversations(s: Seq<ConversationRow>) -> bool {
    forall|i: int, j: int|
        0 <= i < j < s.len() ==> (#[trigger] s[i]).conversation_id != (
        #[trigger] s[j]).conversation_id
}

/// What the canonical collection must be: most recent first, one row per
/// conversation.
pub open spec fn canonical(s: Seq<ConversationRow>) -> bool {
    most_recent_first(s) && distinct_conversations(s)
}

/// `row` put into a sorted sequence: behind every row at least as recent.
pub open spec fn placed(sorted: Seq<ConversationRow>, row: ConversationRow) -> Seq<
    ConversationRow,
> {
    sorted.insert(first_where(sorted, less_recent(row.last_message_timestamp)), row)
}

/// The rows of `s` in descending order of time. Rows of equal time keep the
/// order they have in `s`.
pub open spec fn sorted_by_recency(s: Seq<ConversationRow>) -> Seq<ConversationRow>
    decreases s.len(),
{
    if s.len() == 0 {
        Seq::empty()
    } else {
        placed(sorted_by_recency(s.drop_last()), s.last())
    }
}

/// What a filter text is searched by: trimmed and in lower case.
pub open spec fn needle_of(filter_text: Seq<char>) -> Seq<char> {
    lowercase(trimmed(filter_text))
}

/// Whether name or preview of a row holds the needle, case aside.
pub open spec fn matches_needle(row: ConversationRow, needle: Seq<char>) -> bool {
    contains_text(lowercase(row.name), needle) || contains_text(lowercase(row.preview), needle)
}

/// The rows on display under a filter text: all of them for a filter of
/// white space only, else those that match its needle, in their order.
pub open spec fn visible_rows(all: Seq<ConversationRow>, filter_text: Seq<char>) -> Seq<
    ConversationRow,
> {
    if trimmed(filter_text).len() == 0 {
        all
    } else {
        all.filter(|r: ConversationRow| matches_needle(r, needle_of(filter_text)))
    }
}

/// Whether the conversation `id` has a row and that row is unread.
pub open spec fn is_unread(all: Seq<ConversationRow>, id: Seq<char>) -> bool {
    lists(all, id) && all[row_of(all, id)].unread
}

/// The row of a conversation that an event made known.
pub open spec fn event_row(
    conversation_id: Seq<char>,
    name: Seq<char>,
    preview: Seq<char>,
    unread: bool,
    last_message_timestamp: i64,
    is_group_chat: bool,
    last_message_time: Seq<char>,
) -> ConversationRow {
    ConversationRow {
        name,
        preview,
        avatar_url: Seq::empty(),
        avatar_identifier: Seq::empty(),
        is_group_chat,
        unread,
        conversation_id,
        me_participant_id: Seq::empty(),
        last_message_timestamp,
        last_message_time,
    }
}

/// The canonical collection after an event on one conversation: its row is
/// updated in place, or appended when there was none, and the collection is
/// sorted anew.
pub open spec fn upserted(all: Seq<ConversationRow>, event: ConversationRow) -> Seq<
    ConversationRow,
> {
    let at = row_of(all, event.conversation_id);
    if at < all.len() {
        sorted_by_recency(
            all.update(
                at,
                ConversationRow {
                    name: event.name,
                    preview: event.preview,
                    unread: event.unread,
                    last_message_timestamp: event.last_message_timestamp,
                    last_message_time: event.last_message_time,
                    is_group_chat: event.is_group_chat,
                    ..all[at]
                },
            ),
        )
    } else {
        sorted_by_recency(all.push(event))
    }
}

/// The canonical collection after a preview update: applied only to a known
/// conversation and only when the update is at least as recent as its row.
pub open spec fn with_preview(
    all: Seq<ConversationRow>,
    conversation_id: Seq<char>,
    preview: Seq<char>,
    timestamp_micros: i64,
    last_message_time: Seq<char>,
) -> Seq<ConversationRow> {
    let at = row_of(all, conversation_id);
    if at < all.len() && timestamp_micros >= all[at].last_message_timestamp {
        sorted_by_recency(
            all.update(
                at,
                ConversationRow {
                    preview,
                    last_message_timestamp: timestamp_micros,
                    last_message_time,
                    ..all[at]
                },
            ),
        )
    } else {
        all
    }
}

/// The collection with the first row of conversation `id` marked as read.
pub open spec fn with_read(all: Seq<ConversationRow>, id: Seq<char>) -> Seq<ConversationRow> {
    let at = row_of(all, id);
    if at < all.len() {
        all.update(at, ConversationRow { unread: false, ..all[at] })
    } else {
        all
    }
}

/// A row with its avatar address taken from `avatars`, where they hold a
/// non-empty one for its identifier.
pub open spec fn with_resolved_avatar(
    row: ConversationRow,
    avatars: Map<Seq<char>, Seq<char>>,
) -> ConversationRow {
    if avatars.dom().contains(row.avatar_identifier) && avatars[row.avatar_identifier].len() > 0 {
        ConversationRow { avatar_url: avatars[row.avatar_identifier], ..row }
    } else {
        row
    }
}

/// The cell of a row under a role: 0 name, 1 preview, 2 time in words,
/// 3 avatar address, 4 group flag, 5 unread flag.
pub open spec fn conversation_cell(row: ConversationRow, role: i32) -> CellContent {
    if role == 0 {
        CellContent::Text(row.name)
    } else if role == 1 {
        CellContent::Text(row.preview)
    } else if role == 2 {
        CellContent::Text(row.last_message_time)
    } else if role == 3 {
        CellContent::Text(row.avatar_url)
    } else if role == 4 {
        CellContent::Flag(row.is_group_chat)
    } else if role == 5 {
        CellContent::Flag(row.unread)
    } else {
        CellContent::Empty
    }
}

/// The names of the roles of the conversation list, by number.
pub open spec fn conversation_role_names() -> Seq<Seq<char>> {
    seq!["name"@, "preview"@, "time"@, "avatar_url"@, "is_group_chat"@, "unread"@]
}

proof fn lemma_filter_one(x: ConversationRow, p: spec_fn(ConversationRow) -> bool)
    ensures
        seq![x].filter(p) == if p(x) {
            seq![x]
        } else {
            Seq::<ConversationRow>::empty()
        },
{
    reveal(Seq::filter);
    let none = Seq::<ConversationRow>::empty();
    assert(none.filter(p) =~= none);
    none.lemma_filter_push(x, p);
    assert(none.push(x) =~= seq![x]);
}

/// Replacing a row by one that the filter judges alike replaces it in the
/// filtered sequence too, at the place it has there.
proof fn lemma_filter_update(
    s: Seq<ConversationRow>,
    p: spec_fn(ConversationRow) -> bool,
    k: int,
    x: ConversationRow,
)
    requires
        0 <= k < s.len(),
        p(x) == p(s[k]),
    ensures
        s.filter(p) == s.take(k).filter(p) + seq![s[k]].filter(p) + s.skip(k + 1).filter(p),
        s.update(k, x).filter(p) == s.take(k).filter(p) + seq![x].filter(p) + s.skip(k + 1).filter(
            p,
        ),
{
    let front = s.take(k);
    let back = s.skip(k + 1);
    assert(s =~= front + seq![s[k]] + back);
    assert(s.update(k, x) =~= front + seq![x] + back);
    Seq::filter_distributes_over_add(front, seq![s[k]], p);
    Seq::filter_distributes_over_add(front + seq![s[k]], back, p);
    Seq::filter_distributes_over_add(front, seq![x], p);
    Seq::filter_distributes_over_add(front + seq![x], back, p);
}

/// Marking a conversation as read in the canonical collection and in the
/// rows on display keeps the two in step, where no conversation has two
/// rows.
pub proof fn lemma_read_mark_keeps_step(
    all: Seq<ConversationRow>,
    filter_text: Seq<char>,
    id: Seq<char>,
)
    requires
        distinct_conversations(all),
        lists(visible_rows(all, filter_text), id),
    ensures
        lists(all, id),
        visible_rows(with_read(all, id), filter_text) == with_read(
            visible_rows(all, filter_text),
            id,
        ),
{
    let needle = needle_of(filter_text);
    let shown = visible_rows(all, filter_text);
    let named = for_conversation(id);
    let at = row_of(shown, id);
    lemma_first_where(shown, named);
    lemma_first_where(all, named);
    if trimmed(filter_text).len() == 0 {
    } else {
        let p = |r: ConversationRow| matches_needle(r, needle);
        // the displayed row stands in the canonical collection, and passes the filter
        all.lemma_filter_pred(p, at);
        assert(shown.contains(shown[at]));
        all.lemma_filter_contains_rev(p, shown[at]);
        let w = choose|w: int| 0 <= w < all.len() && all[w] == shown[at];
        assert(named(all[w]));
        let k = row_of(all, id);
        assert(k == w) by {
            if k != w {
                assert(all[k].conversation_id == all[w].conversation_id);
            }
        }
        let read = ConversationRow { unread: false, ..all[k] };
        lemma_filter_update(all, p, k, read);
        lemma_filter_one(all[k], p);
        lemma_filter_one(read, p);
        let front = all.take(k).filter(p);
        let back = all.skip(k + 1).filter(p);
        // no row in front of it on display belongs to the conversation
        assert forall|j: int| 0 <= j < front.len() implies !named(#[trigger] front[j]) by {
            assert(front.contains(front[j]));
            all.take(k).lemma_filter_contains_rev(p, front[j]);
            let v = choose|v: int| 0 <= v < all.take(k).len() && all.take(k)[v] == front[j];
            assert(all[v] == front[j]);
            assert(all[v].conversation_id != all[k].conversation_id);
        }
        assert(shown =~= front + seq![all[k]] + back);
        assert(named(shown[front.len() as int]));
        lemma_first_where_is(shown, named, front.len() as int);
        assert((front + seq![all[k]] + back).update(front.len() as int, read) =~= front + seq![
            read,
        ] + back);
    }
}

/// Marking a conversation as read that is not on display leaves the rows
/// on display as they are.
pub proof fn lemma_read_mark_of_hidden_row(
    all: Seq<ConversationRow>,
    filter_text: Seq<char>,
    id: Seq<char>,
)
    requires
        !lists(visible_rows(all, filter_text), id),
    ensures
        visible_rows(with_read(all, id), filter_text) == visible_rows(all, filter_text),
        with_read(visible_rows(all, filter_text), id) == visible_rows(all, filter_text),
{
    let shown = visible_rows(all, filter_text);
    let named = for_conversation(id);
    lemma_first_where(shown, named);
    lemma_first_where(all, named);
    let k = row_of(all, id);
    if k < all.len() && trimmed(filter_text).len() != 0 {
        let p = |r: ConversationRow| matches_needle(r, needle_of(filter_text));
        let read = ConversationRow { unread: false, ..all[k] };
        if p(all[k]) {
            all.lemma_filter_contains(p, k);
            let j = choose|j: int| 0 <= j < shown.len() && shown[j] == all[k];
            assert(named(shown[j]));
            lemma_any_where(shown, named);
        }
        lemma_filter_update(all, p, k, read);
        lemma_filter_one(all[k], p);
        lemma_filter_one(read, p);
    }
}

/// A copy of every item of `items`, in order.
pub fn clone_items(items: &[ConversationItem]) -> (copy: Vec<ConversationItem>)
    ensures
        copy.deep_view() == items.deep_view(),
{
    let mut copy: Vec<ConversationItem> = Vec::new();
    let mut i: usize = 0;
    while i < items.len()
        invariant
            i <= items.len(),
            copy.len() == i,
            forall|j: int| 0 <= j < i ==> copy[j]@ == items[j]@,
        decreases items.len() - i,
    {
        copy.push(items[i].clone());
        i += 1;
    }
    assert(copy.deep_view() =~= items.deep_view());
    copy
}

/// Whether name or preview, both in lower case, hold the needle.
pub fn matches_lowered(name: &str, preview: &str, needle: &str) -> (hit: bool)
    ensures
        hit == (contains_text(name@, needle@) || contains_text(preview@, needle@)),
{
    contains(name, needle) || contains(preview, needle)
}

/// The items on display under a filter text.
pub fn filter_items(items: &[ConversationItem], filter_text: &str) -> (shown: Vec<
    ConversationItem,
>)
    ensures
        shown.deep_view() == visible_rows(items.deep_view(), filter_text@),
{
    let wanted = trim(filter_text);
    if wanted.is_empty() {
        return clone_items(items);
    }
    let needle = to_lowercase(wanted.as_str());
    let ghost all = items.deep_view();
    let ghost keep = |r: ConversationRow| matches_needle(r, needle@);
    let mut shown: Vec<ConversationItem> = Vec::new();
    let mut i: usize = 0;
    proof {
        reveal(Seq::filter);
        assert(all.take(0).filter(keep) =~= Seq::<ConversationRow>::empty());
        assert(shown.deep_view() =~= Seq::<ConversationRow>::empty());
    }
    while i < items.len()
        invariant
            i <= items.len(),
            all == items.deep_view(),
            keep == (|r: ConversationRow| matches_needle(r, needle@)),
            shown.deep_view() == all.take(i as int).filter(keep),
        decreases items.len() - i,
    {
        let name = to_lowercase(items[i].name.as_str());
        let preview = to_lowercase(items[i].preview.as_str());
        let hit = matches_lowered(name.as_str(), preview.as_str(), needle.as_str());
        let ghost prior = shown.deep_view();
        proof {
            assert(hit == keep(all[i as int]));
            assert(all.take(i as int + 1) =~= all.take(i as int).push(all[i as int]));
            all.take(i as int).lemma_filter_push(all[i as int], keep);
        }
        if hit {
            shown.push(items[i].clone());
            assert(shown.deep_view() =~= prior.push(all[i as int]));
        }
        i += 1;
    }
    assert(all.take(items.len() as int) =~= all);
    shown
}

/// Sorts the items by the time of their last message, most recent first.
/// Items of equal time keep their order.
pub fn sort_by_recency(items: &mut Vec<ConversationItem>)
    ensures
        final(items).deep_view() == sorted_by_recency(old(items).deep_view()),
{
    let ghost all = items.deep_view();
    let mut source: Vec<ConversationItem> = Vec::new();
    core::mem::swap(items, &mut source);
    let mut k: usize = 0;
    let total = source.len();
    assert(items.deep_view() =~= sorted_by_recency(all.take(0)));
    assert(source.deep_view() =~= all.skip(0));
    while source.len() > 0
        invariant
            k <= total,
            total == all.len(),
            source.len() == total - k,
            source.deep_view() == all.skip(k as int),
            items.deep_view() == sorted_by_recency(all.take(k as int)),
        decreases source.len(),
    {
        let ghost rest = source.deep_view();
        let ghost done = items.deep_view();
        let item = source.remove(0);
        assert(source.deep_view() =~= rest.remove(0));
        assert(rest.remove(0) =~= all.skip(k as int + 1));
        let ghost p = less_recent(item.last_message_timestamp);
        let mut at: usize = 0;
        while at < items.len() && items[at].last_message_timestamp >= item.last_message_timestamp
            invariant
                at <= items.len(),
                items.deep_view() == done,
                p == less_recent(item.last_message_timestamp),
                forall|j: int| 0 <= j < at ==> !p(#[trigger] done[j]),
            decreases items.len() - at,
        {
            at += 1;
        }
        proof {
            if at < items.len() {
                assert(p(done[at as int]));
            }
            lemma_first_where_is(done, p, at as int);
            assert(all.take(k as int + 1).drop_last() =~= all.take(k as int));
            assert(all.take(k as int + 1).last() == all[k as int]);
            assert(rest[0] == all[k as int]);
        }
        let ghost row = item@;
        items.insert(at, item);
        assert(items.deep_view() =~= done.insert(at as int, row));
        k += 1;
    }
    assert(all.take(total as int) =~= all);
}

/// State of the conversation list.
#[derive(Debug)]
pub struct ConversationListRust {
    /// The canonical collection.
    pub all_items: Vec<ConversationItem>,
    /// The rows on display: those of `all_items` that pass the filter.
    pub filtered_items: Vec<ConversationItem>,
    /// The filter text as it was entered.
    pub filter_text: String,
    /// True while the collection is being fetched.
    pub loading: bool,
    /// Avatar addresses resolved since the last load, by identifier.
    pub avatar_by_identifier: TextMap,
}

/// The conversation list as the view addresses it.
pub type ConversationList = ConversationListRust;

/// The mathematical value of a `ConversationListRust`.
pub struct ConversationListState {
    pub all_items: Seq<ConversationRow>,
    pub filtered_items: Seq<ConversationRow>,
    pub filter_text: Seq<char>,
    pub loading: bool,
    pub avatar_by_identifier: Map<Seq<char>, Seq<char>>,
}

impl View for ConversationListRust {
    type V = ConversationListState;

    open spec fn view(&self) -> ConversationListState {
        ConversationListState {
            all_items: self.all_items.deep_view(),
            filtered_items: self.filtered_items.deep_view(),
            filter_text: self.filter_text@,
            loading: self.loading,
            avatar_by_identifier: self.avatar_by_identifier@,
        }
    }
}

impl ConversationListState {
    /// The rows on display are those that the filter lets through.
    pub open spec fn in_step(self) -> bool {
        self.filtered_items == visible_rows(self.all_items, self.filter_text)
    }
}

impl Default for ConversationListRust {
    fn default() -> (list: Self)
        ensures
            list@.all_items.len() == 0,
            list@.filtered_items.len() == 0,
            list@.filter_text.len() == 0,
            !list@.loading,
            list@.avatar_by_identifier == Map::<Seq<char>, Seq<char>>::empty(),
    {
        ConversationListRust::new()
    }
}

fn find_conversation(items: &Vec<ConversationItem>, id: &str) -> (found: Option<usize>)
    ensures
        match found {
            Some(i) => i < items.len() && i == row_of(items.deep_view(), id@),
            None => !lists(items.deep_view(), id@),
        },
{
    let ghost p = for_conversation(id@);
    let mut i: usize = 0;
    while i < items.len()
        invariant
            i <= items.len(),
            p == for_conversation(id@),
            forall|j: int| 0 <= j < i ==> !p(#[trigger] items.deep_view()[j]),
        decreases items.len() - i,
    {
        if same_text(items[i].conversation_id.as_str(), id) {
            proof {
                assert(p(items.deep_view()[i as int]));
                lemma_first_where_is(items.deep_view(), p, i as int);
            }
            return Some(i);
        }
        i += 1;
    }
    proof {
        lemma_first_where_is(items.deep_view(), p, items.len() as int);
    }
    None
}

impl ConversationList {
    /// An empty list without a filter.
    pub fn new() -> (list: Self)
        ensures
            list@.all_items.len() == 0,
            list@.filtered_items.len() == 0,
            list@.filter_text.len() == 0,
            !list@.loading,
            list@.avatar_by_identifier == Map::<Seq<char>, Seq<char>>::empty(),
    {
        let list = ConversationListRust {
            all_items: Vec::new(),
            filtered_items: Vec::new(),
            filter_text: String::new(),
            loading: false,
            avatar_by_identifier: TextMap::new(),
        };
        assert(list.all_items.deep_view() =~= Seq::<ConversationRow>::empty());
        assert(list.filtered_items.deep_view() =~= Seq::<ConversationRow>::empty());
        list
    }

    /// Number of rows on display.
    pub fn row_count(&self) -> (n: i32)
        ensures
            n == row_count_of(self@.filtered_items.len()),
    {
        clamp_row_count(self.filtered_items.len())
    }

    /// The cell of the displayed row `row` under `role`; `Empty` for a row
    /// or a role that does not exist.
    pub fn data(&self, row: i32, role: i32) -> (cell: CellValue)
        ensures
            cell@ == if 0 <= row < self@.filtered_items.len() {
                conversation_cell(self@.filtered_items[row as int], role)
            } else {
                CellContent::Empty
            },
    {
        if row < 0 || row as usize >= self.filtered_items.len() {
            return CellValue::Empty;
        }
        let item = &self.filtered_items[row as usize];
        assert(item@ == self@.filtered_items[row as int]);
        if role == 0 {
            CellValue::Text(item.name.clone())
        } else if role == 1 {
            CellValue::Text(item.preview.clone())
        } else if role == 2 {
            CellValue::Text(item.last_message_time.clone())
        } else if role == 3 {
            CellValue::Text(item.avatar_url.clone())
        } else if role == 4 {
            CellValue::Flag(item.is_group_chat)
        } else if role == 5 {
            CellValue::Flag(item.unread)
        } else {
            CellValue::Empty
        }
    }

    /// The roles of the list, by number.
    pub fn role_names(&self) -> (roles: Vec<Role>)
        ensures
            roles.deep_view() == numbered(conversation_role_names()),
    {
        let mut roles: Vec<Role> = Vec::new();
        roles.push(Role { number: 0, name: "name" });
        roles.push(Role { number: 1, name: "preview" });
        roles.push(Role { number: 2, name: "time" });
        roles.push(Role { number: 3, name: "avatar_url" });
        roles.push(Role { number: 4, name: "is_group_chat" });
        roles.push(Role { number: 5, name: "unread" });
        assert(roles.deep_view() =~= numbered(conversation_role_names()));
        roles
    }

    /// Marks the list as loading, before the collection is fetched.
    pub fn load(&mut self)
        ensures
            final(self)@ == (ConversationListState { loading: true, ..old(self)@ }),
    {
        self.loading = true;
    }

    /// Publishes a fetched collection: it replaces the canonical one, sorted
    /// most recent first, and the resolved avatars are forgotten.
    pub fn apply_loaded(&mut self, items: Vec<ConversationItem>)
        ensures
            final(self)@.all_items == sorted_by_recency(items.deep_view()),
            final(self)@.in_step(),
            final(self)@.filter_text == old(self)@.filter_text,
            !final(self)@.loading,
            final(self)@.avatar_by_identifier == Map::<Seq<char>, Seq<char>>::empty(),
    {
        self.avatar_by_identifier.clear();
        self.all_items = items;
        sort_by_recency(&mut self.all_items);
        self.filtered_items = filter_items(self.all_items.as_slice(), self.filter_text.as_str());
        self.loading = false;
    }

    /// Takes note that the fetch failed, and says whether the failure was
    /// one of authentication.
    pub fn load_failed(&mut self, error: &str) -> (authentication_failed: bool)
        ensures
            authentication_failed == auth_failure_text(error@),
            final(self)@ == (ConversationListState {
                loading: false,
                avatar_by_identifier: Map::<Seq<char>, Seq<char>>::empty(),
                ..old(self)@
            }),
    {
        self.avatar_by_identifier.clear();
        self.loading = false;
        is_auth_error(error)
    }

    /// Records freshly resolved avatars and patches them into the rows that
    /// asked for them. An empty address is recorded but patched into no row.
    pub fn apply_avatars(&mut self, new_avatars: &TextMap)
        ensures
            final(self)@.avatar_by_identifier == old(self)@.avatar_by_identifier.union_prefer_right(
                new_avatars@,
            ),
            final(self)@.all_items == old(self)@.all_items.map_values(
                |r: ConversationRow| with_resolved_avatar(r, new_avatars@),
            ),
            final(self)@.in_step(),
            final(self)@.filter_text == old(self)@.filter_text,
            final(self)@.loading == old(self)@.loading,
    {
        self.avatar_by_identifier.extend(new_avatars);
        let ghost before = self.all_items.deep_view();
        let mut i: usize = 0;
        while i < self.all_items.len()
            invariant
                i <= self.all_items.len(),
                self.all_items.len() == before.len(),
                forall|j: int|
                    0 <= j < i ==> self.all_items.deep_view()[j] == with_resolved_avatar(
                        #[trigger] before[j],
                        new_avatars@,
                    ),
                forall|j: int|
                    i <= j < before.len() ==> self.all_items.deep_view()[j] == #[trigger] before[j],
                self.filter_text == old(self).filter_text,
                self.loading == old(self).loading,
                self.avatar_by_identifier@ == old(self)@.avatar_by_identifier.union_prefer_right(
                    new_avatars@,
                ),
            decreases self.all_items.len() - i,
        {
            let ghost current = self.all_items.deep_view();
            match new_avatars.get(self.all_items[i].avatar_identifier.as_str()) {
                Some(url) => {
                    if !url.is_empty() {
                        self.all_items[i].avatar_url = url.clone();
                    }
                },
                None => {},
            }
            proof {
                assert(current[i as int] == before[i as int]);
                assert forall|j: int| 0 <= j < i + 1 implies self.all_items.deep_view()[j]
                    == with_resolved_avatar(#[trigger] before[j], new_avatars@) by {
                    if j < i {
                        assert(self.all_items.deep_view()[j] == current[j]);
                    }
                }
                assert forall|j: int|
                    i + 1 <= j < before.len() implies self.all_items.deep_view()[j]
                    == #[trigger] before[j] by {
                    assert(self.all_items.deep_view()[j] == current[j]);
                }
            }
            i += 1;
        }
        assert(self.all_items.deep_view() =~= before.map_values(
            |r: ConversationRow| with_resolved_avatar(r, new_avatars@),
        ));
        self.filtered_items = filter_items(self.all_items.as_slice(), self.filter_text.as_str());
    }

    /// Sets the filter text and recomputes the rows on display. The
    /// canonical collection is not touched.
    pub fn apply_filter(&mut self, filter: &str)
        ensures
            final(self)@.filter_text == filter@,
            final(self)@.all_items == old(self)@.all_items,
            final(self)@.in_step(),
            final(self)@.loading == old(self)@.loading,
            final(self)@.avatar_by_identifier == old(self)@.avatar_by_identifier,
    {
        self.filter_text = filter.to_owned();
        self.filtered_items = filter_items(self.all_items.as_slice(), self.filter_text.as_str());
    }

    /// The id of the conversation in the displayed row `row`, counting a
    /// negative row as the first; empty when there is no such row.
    pub fn conversation_id(&self, row: i32) -> (id: String)
        ensures
            id@ == {
                let index = if row < 0 {
                    0
                } else {
                    row as int
                };
                if index < self@.filtered_items.len() {
                    self@.filtered_items[index].conversation_id
                } else {
                    Seq::empty()
                }
            },
    {
        let index: usize = if row < 0 {
            0
        } else {
            row as usize
        };
        if index >= self.filtered_items.len() {
            return String::new();
        }
        self.filtered_items[index].conversation_id.clone()
    }

    /// The local user's participant id in the conversation of the displayed
    /// row `row`, counting a negative row as the first; empty when there is
    /// no such row.
    pub fn me_participant_id(&self, row: i32) -> (id: String)
        ensures
            id@ == {
                let index = if row < 0 {
                    0
                } else {
                    row as int
                };
                if index < self@.filtered_items.len() {
                    self@.filtered_items[index].me_participant_id
                } else {
                    Seq::empty()
                }
            },
    {
        let index: usize = if row < 0 {
            0
        } else {
            row as usize
        };
        if index >= self.filtered_items.len() {
            return String::new();
        }
        self.filtered_items[index].me_participant_id.clone()
    }

    /// Merges one conversation event into the canonical collection.
    ///
    /// Of `summary` the id, name, preview, unread flag, time, time in words
    /// and group flag are taken. A known conversation keeps its avatar and
    /// the local user's participant id; an unknown one starts without them.
    pub fn upsert_from_event(&mut self, summary: ConversationItem)
        ensures
            final(self)@.all_items == upserted(
                old(self)@.all_items,
                event_row(
                    summary@.conversation_id,
                    summary@.name,
                    summary@.preview,
                    summary@.unread,
                    summary@.last_message_timestamp,
                    summary@.is_group_chat,
                    summary@.last_message_time,
                ),
            ),
            final(self)@.in_step(),
            final(self)@.filter_text == old(self)@.filter_text,
            final(self)@.loading == old(self)@.loading,
            final(self)@.avatar_by_identifier == old(self)@.avatar_by_identifier,
    {
        let ghost before = self.all_items.deep_view();
        match find_conversation(&self.all_items, summary.conversation_id.as_str()) {
            Some(at) => {
                self.all_items[at].name = summary.name;
                self.all_items[at].preview = summary.preview;
                self.all_items[at].unread = summary.unread;
                self.all_items[at].last_message_timestamp = summary.last_message_timestamp;
                self.all_items[at].last_message_time = summary.last_message_time;
                self.all_items[at].is_group_chat = summary.is_group_chat;
                assert(self.all_items.deep_view() =~= before.update(
                    at as int,
                    ConversationRow {
                        name: summary@.name,
                        preview: summary@.preview,
                        unread: summary@.unread,
                        last_message_timestamp: summary@.last_message_timestamp,
                        last_message_time: summary@.last_message_time,
                        is_group_chat: summary@.is_group_chat,
                        ..before[at as int]
                    },
                ));
            },
            None => {
                let item = ConversationItem {
                    name: summary.name,
                    preview: summary.preview,
                    avatar_url: String::new(),
                    avatar_identifier: String::new(),
                    is_group_chat: summary.is_group_chat,
                    unread: summary.unread,
                    conversation_id: summary.conversation_id,
                    me_participant_id: String::new(),
                    last_message_timestamp: summary.last_message_timestamp,
                    last_message_time: summary.last_message_time,
                };
                let ghost row = item@;
                self.all_items.push(item);
                assert(self.all_items.deep_view() =~= before.push(row));
            },
        }
        sort_by_recency(&mut self.all_items);
        self.filtered_items = filter_items(self.all_items.as_slice(), self.filter_text.as_str());
    }

    /// Merges one conversation event, with its time put in words by the
    /// clock of the moment.
    pub fn handle_conversation_event(
        &mut self,
        conversation_id: &str,
        name: &str,
        preview: &str,
        unread: bool,
        last_message_timestamp: i64,
        is_group_chat: bool,
    )
        ensures
            exists|last_message_time: Seq<char>|
                in_words(last_message_time, last_message_timestamp) && final(self)@.all_items
                    == upserted(
                    old(self)@.all_items,
                    event_row(
                        conversation_id@,
                        name@,
                        preview@,
                        unread,
                        last_message_timestamp,
                        is_group_chat,
                        last_message_time,
                    ),
                ),
            final(self)@.in_step(),
            final(self)@.filter_text == old(self)@.filter_text,
            final(self)@.loading == old(self)@.loading,
            final(self)@.avatar_by_identifier == old(self)@.avatar_by_identifier,
    {
        let summary = ConversationItem {
            name: name.to_owned(),
            preview: preview.to_owned(),
            avatar_url: String::new(),
            avatar_identifier: String::new(),
            is_group_chat,
            unread,
            conversation_id: conversation_id.to_owned(),
            me_participant_id: String::new(),
            last_message_timestamp,
            last_message_time: format_human_timestamp(last_message_timestamp),
        };
        self.upsert_from_event(summary);
    }

    /// Marks a conversation as read in the canonical collection, whether or
    /// not the filter lets it through, and keeps the rows on display in
    /// step. Returns the index of the displayed row that changed, if one
    /// did. Nothing is re-sorted: every row stays where it is.
    pub fn mark_conversation_read(&mut self, conversation_id: &str) -> (row: Option<usize>)
        ensures
            final(self)@.all_items == with_read(old(self)@.all_items, conversation_id@),
            final(self)@.in_step(),
            old(self)@.in_step() && distinct_conversations(old(self)@.all_items) ==> final(self)@.filtered_items == with_read(old(self)@.filtered_items, conversation_id@),
            final(self)@.filter_text == old(self)@.filter_text,
            final(self)@.loading == old(self)@.loading,
            final(self)@.avatar_by_identifier == old(self)@.avatar_by_identifier,
            row == if is_unread(old(self)@.all_items, conversation_id@) && lists(
                final(self)@.filtered_items,
                conversation_id@,
            ) {
                Some(row_of(final(self)@.filtered_items, conversation_id@) as usize)
            } else {
                None
            },
    {
        let ghost before = self@;
        proof {
            lemma_first_where(before.all_items, for_conversation(conversation_id@));
            if before.in_step() && distinct_conversations(before.all_items) {
                if lists(before.filtered_items, conversation_id@) {
                    lemma_read_mark_keeps_step(
                        before.all_items,
                        before.filter_text,
                        conversation_id@,
                    );
                } else {
                    lemma_read_mark_of_hidden_row(
                        before.all_items,
                        before.filter_text,
                        conversation_id@,
                    );
                }
            }
        }
        let mut changed = false;
        match find_conversation(&self.all_items, conversation_id) {
            Some(k) => {
                changed = self.all_items[k].unread;
                self.all_items[k].unread = false;
                assert(self.all_items.deep_view() =~= with_read(
                    before.all_items,
                    conversation_id@,
                ));
            },
            None => {},
        }
        self.filtered_items = filter_items(self.all_items.as_slice(), self.filter_text.as_str());
        if !changed {
            return None;
        }
        find_conversation(&self.filtered_items, conversation_id)
    }

    /// Updates the preview of a conversation, unless the update is older
    /// than what the row shows. Returns whether the update was applied.
    pub fn update_preview_if_newer(
        &mut self,
        conversation_id: &str,
        preview: &str,
        timestamp_micros: i64,
        last_message_time: &str,
    ) -> (applied: bool)
        ensures
            applied == (lists(old(self)@.all_items, conversation_id@) && timestamp_micros >= old(
                self,
            )@.all_items[row_of(old(self)@.all_items, conversation_id@)].last_message_timestamp),
            !applied ==> final(self)@ == old(self)@,
            applied ==> {
                &&& final(self)@.all_items == with_preview(
                    old(self)@.all_items,
                    conversation_id@,
                    preview@,
                    timestamp_micros,
                    last_message_time@,
                )
                &&& final(self)@.in_step()
                &&& final(self)@.filter_text == old(self)@.filter_text
                &&& final(self)@.loading == old(self)@.loading
                &&& final(self)@.avatar_by_identifier == old(self)@.avatar_by_identifier
            },
    {
        let ghost before = self.all_items.deep_view();
        match find_conversation(&self.all_items, conversation_id) {
            Some(at) => {
                if timestamp_micros < self.all_items[at].last_message_timestamp {
                    return false;
                }
                self.all_items[at].preview = preview.to_owned();
                self.all_items[at].last_message_timestamp = timestamp_micros;
                self.all_items[at].last_message_time = last_message_time.to_owned();
                assert(self.all_items.deep_view() =~= before.update(
                    at as int,
                    ConversationRow {
                        preview: preview@,
                        last_message_timestamp: timestamp_micros,
                        last_message_time: last_message_time@,
                        ..before[at as int]
                    },
                ));
                sort_by_recency(&mut self.all_items);
                self.filtered_items = filter_items(
                    self.all_items.as_slice(),
                    self.filter_text.as_str(),
                );
                true
            },
            None => {
                proof {
                    lemma_first_where(before, for_conversation(conversation_id@));
                }
                false
            },
        }
    }

    /// Updates the preview of a conversation, with the time put in words by
    /// the clock of the moment. An update older than the row changes
    /// nothing.
    pub fn update_preview(&mut self, conversation_id: &str, preview: &str, timestamp_micros: i64) -> (applied:
        bool)
        ensures
            applied == (lists(old(self)@.all_items, conversation_id@) && timestamp_micros >= old(
                self,
            )@.all_items[row_of(old(self)@.all_items, conversation_id@)].last_message_timestamp),
            !applied ==> final(self)@ == old(self)@,
            applied ==> {
                &&& exists|last_message_time: Seq<char>|
                    in_words(last_message_time, timestamp_micros) && final(self)@.all_items
                        == with_preview(
                        old(self)@.all_items,
                        conversation_id@,
                        preview@,
                        timestamp_micros,
                        last_message_time,
                    )
                &&& final(self)@.in_step()
                &&& final(self)@.filter_text == old(self)@.filter_text
                &&& final(self)@.loading == old(self)@.loading
                &&& final(self)@.avatar_by_identifier == old(self)@.avatar_by_identifier
            },
    {
        let words = format_human_timestamp(timestamp_micros);
        self.update_preview_if_newer(conversation_id, preview, timestamp_micros, words.as_str())
    }
}

} // verus!
