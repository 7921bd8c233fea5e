//! The bounded cache of recently viewed timelines.
//!
//! Entries stand in the order in which their conversations first entered the
//! cache. When a new conversation arrives at a full cache, the oldest entry
//! that does not belong to the active conversation leaves.

use crate::message::{clone_rows, MessageItem, MessageRow};
use crate::seqs::{any_where, first_where, lemma_any_where, lemma_first_where, lemma_first_where_is};
use crate::text::same_text;
use vstd::prelude::*;

verus! {

/// The most conversations the cache holds.
pub const CACHE_CAPACITY: usize = 10;

/// The timeline of one conversation as it was last seen.
#[derive(Debug)]
pub struct CachedTimeline {
    pub conversation_id: String,
    pub messages: Vec<MessageItem>,
    pub me_participant_id: String,
}

/// The mathematical value of a `CachedTimeline`.
pub struct CachedTimelineView {
    pub conversation_id: Seq<char>,
    pub messages: Seq<MessageRow>,
    pub me_participant_id: Seq<char>,
}

impl View for CachedTimeline {
    type V = CachedTimelineView;

    open spec fn view(&self) -> CachedTimelineView {
        CachedTimelineView {
            conversation_id: self.conversation_id@,
            messages: self.messages.deep_view(),
            me_participant_id: self.me_participant_id@,
        }
    }
}

impl DeepView for CachedTimeline {
    type V = CachedTimelineView;

    open spec fn deep_view(&self) -> CachedTimelineView {
        self@
    }
}

/// Entries of the conversation `id`.
pub open spec fn keyed(id: Seq<char>) -> spec_fn(CachedTimelineView) -> bool {
    |e: CachedTimelineView| e.conversation_id == id
}

/// Entries of any conversation but `active`.
pub open spec fn not_keyed(active: Seq<char>) -> spec_fn(CachedTimelineView) -> bool {
    |e: CachedTimelineView| e.conversation_id != active
}

/// Whether the cache holds the conversation `id`.
pub open spec fn holds(c: Seq<CachedTimelineView>, id: Seq<char>) -> bool {
    any_where(c, keyed(id))
}

/// Index of the entry of conversation `id`, or the length.
pub open spec fn entry_index(c: Seq<CachedTimelineView>, id: Seq<char>) -> int {
    first_where(c, keyed(id))
}

/// Index of the entry that leaves a full cache: the oldest one that is not
/// the active conversation's.
pub open spec fn evictee(c: Seq<CachedTimelineView>, active: Seq<char>) -> int {
    first_where(c, not_keyed(active))
}

/// At most `CACHE_CAPACITY` entries, no conversation twice.
pub open spec fn well_formed(c: Seq<CachedTimelineView>) -> bool {
    &&& c.len() <= CACHE_CAPACITY
    &&& forall|i: int, j: int|
        0 <= i < j < c.len() ==> (#[trigger] c[i]).conversation_id != (
        #[trigger] c[j]).conversation_id
}

/// The cache after `entry` was stored while `active` was the visible
/// conversation: an entry of the same conversation is replaced in place; a
/// new one is appended, after the evictee has left if the cache was full.
pub open spec fn stored(
    c: Seq<CachedTimelineView>,
    active: Seq<char>,
    entry: CachedTimelineView,
) -> Seq<CachedTimelineView> {
    let at = entry_index(c, entry.conversation_id);
    if at < c.len() {
        c.update(at, entry)
    } else if c.len() < CACHE_CAPACITY {
        c.push(entry)
    } else {
        c.remove(evictee(c, active)).push(entry)
    }
}

/// A full, well-formed cache always has an entry to evict, and it is not the
/// active conversation's.
pub proof fn lemma_evictee_exists(c: Seq<CachedTimelineView>, active: Seq<char>)
    requires
        well_formed(c),
        c.len() >= 2,
    ensures
        0 <= evictee(c, active) < c.len(),
        c[evictee(c, active)].conversation_id != active,
{
    let p = not_keyed(active);
    lemma_first_where(c, p);
    if first_where(c, p) >= c.len() {
        assert(!p(c[0]));
        assert(!p(c[1]));
        assert(c[0].conversation_id != c[1].conversation_id);
    }
}

/// Storing an entry keeps the cache within its bound and its keys distinct.
/// Storing a new conversation in a full cache removes exactly one entry,
/// which is not the active conversation's, and keeps all the others.
pub proof fn lemma_stored_bounded(
    c: Seq<CachedTimelineView>,
    active: Seq<char>,
    entry: CachedTimelineView,
)
    requires
        well_formed(c),
    ensures
        well_formed(stored(c, active, entry)),
        holds(stored(c, active, entry), entry.conversation_id),
        !holds(c, entry.conversation_id) && c.len() == CACHE_CAPACITY ==> {
            let v = evictee(c, active);
            &&& 0 <= v < c.len()
            &&& c[v].conversation_id != active
            &&& stored(c, active, entry) == c.remove(v).push(entry)
            &&& stored(c, active, entry).len() == CACHE_CAPACITY
        },
{
    let p = keyed(entry.conversation_id);
    let at = first_where(c, p);
    let s = stored(c, active, entry);
    lemma_first_where(c, p);
    if at < c.len() {
        assert forall|i: int, j: int| 0 <= i < j < s.len() implies (
        #[trigger] s[i]).conversation_id != (#[trigger] s[j]).conversation_id by {
            assert(s[i].conversation_id == c[i].conversation_id);
            assert(s[j].conversation_id == c[j].conversation_id);
        }
        assert(p(s[at]));
        lemma_any_where(s, p);
    } else if c.len() < CACHE_CAPACITY {
        assert forall|i: int, j: int| 0 <= i < j < s.len() implies (
        #[trigger] s[i]).conversation_id != (#[trigger] s[j]).conversation_id by {
            assert(s[i] == c[i]);
            if j < c.len() {
                assert(s[j] == c[j]);
            } else {
                assert(!p(c[i]));
            }
        }
        assert(p(s[c.len() as int]));
        lemma_any_where(s, p);
    } else {
        lemma_evictee_exists(c, active);
        let v = evictee(c, active);
        let r = c.remove(v);
        assert forall|i: int, j: int| 0 <= i < j < s.len() implies (
        #[trigger] s[i]).conversation_id != (#[trigger] s[j]).conversation_id by {
            let oi = if i < v { i } else { i + 1 };
            let oj = if j < v { j } else { j + 1 };
            assert(s[i] == c[oi]);
            if j < r.len() {
                assert(s[j] == c[oj]);
            } else {
                assert(!p(c[oi]));
            }
        }
        assert(p(s[r.len() as int]));
        lemma_any_where(s, p);
    }
}

/// A bounded store of timelines, one per conversation.
#[derive(Debug)]
pub struct ConversationCache {
    entries: Vec<CachedTimeline>,
}

impl View for ConversationCache {
    type V = Seq<CachedTimelineView>;

    closed spec fn view(&self) -> Seq<CachedTimelineView> {
        self.entries.deep_view()
    }
}

impl ConversationCache {
    /// What holds of every cache: at most `CACHE_CAPACITY` entries, no
    /// conversation twice.
    #[verifier::type_invariant]
    pub open spec fn bounded(self) -> bool {
        well_formed(self@)
    }

    /// An empty cache.
    pub fn new() -> (cache: Self)
        ensures
            cache@ == Seq::<CachedTimelineView>::empty(),
    {
        let cache = ConversationCache { entries: Vec::new() };
        assert(cache.entries.deep_view() =~= Seq::<CachedTimelineView>::empty());
        cache
    }

    /// Number of cached conversations; never more than `CACHE_CAPACITY`.
    pub fn len(&self) -> (n: usize)
        ensures
            n == self@.len(),
            n <= CACHE_CAPACITY,
            well_formed(self@),
    {
        proof {
            use_type_invariant(self);
        }
        self.entries.len()
    }

    fn position(&self, conversation_id: &str) -> (found: Option<usize>)
        ensures
            match found {
                Some(i) => i < self@.len() && i == entry_index(self@, conversation_id@),
                None => !holds(self@, conversation_id@),
            },
    {
        let ghost p = keyed(conversation_id@);
        let mut i: usize = 0;
        while i < self.entries.len()
            invariant
                i <= self.entries.len(),
                p == keyed(conversation_id@),
                forall|j: int| 0 <= j < i ==> !p(#[trigger] self.entries.deep_view()[j]),
            decreases self.entries.len() - i,
        {
            if same_text(self.entries[i].conversation_id.as_str(), conversation_id) {
                proof {
                    assert(p(self.entries.deep_view()[i as int]));
                    lemma_first_where_is(self.entries.deep_view(), p, i as int);
                }
                return Some(i);
            }
            i += 1;
        }
        proof {
            lemma_first_where_is(self.entries.deep_view(), p, self.entries.len() as int);
        }
        None
    }

    /// Whether the conversation is cached.
    pub fn contains(&self, conversation_id: &str) -> (found: bool)
        ensures
            found == holds(self@, conversation_id@),
    {
        self.position(conversation_id).is_some()
    }

    /// The cached timeline of the conversation, if there is one.
    pub fn get(&self, conversation_id: &str) -> (found: Option<&CachedTimeline>)
        ensures
            match found {
                Some(entry) => holds(self@, conversation_id@) && entry@ == self@[entry_index(
                    self@,
                    conversation_id@,
                )],
                None => !holds(self@, conversation_id@),
            },
    {
        match self.position(conversation_id) {
            Some(i) => Some(&self.entries[i]),
            None => None,
        }
    }

    /// The ids of the cached conversations, oldest entry first.
    pub fn conversation_ids(&self) -> (ids: Vec<String>)
        ensures
            ids.len() == self@.len(),
            forall|i: int| 0 <= i < ids.len() ==> ids[i]@ == self@[i].conversation_id,
    {
        let mut ids: Vec<String> = Vec::new();
        let mut i: usize = 0;
        while i < self.entries.len()
            invariant
                i <= self.entries.len(),
                ids.len() == i,
                forall|j: int| 0 <= j < i ==> ids[j]@ == self.entries.deep_view()[j].conversation_id,
            decreases self.entries.len() - i,
        {
            ids.push(self.entries[i].conversation_id.clone());
            i += 1;
        }
        ids
    }

    /// Stores `entry` while `active` is the visible conversation, and returns
    /// the id of the conversation that had to leave, if one had to.
    pub fn put(&mut self, active: &str, entry: CachedTimeline) -> (evicted: Option<String>)
        ensures
            final(self)@ == stored(old(self)@, active@, entry@),
            well_formed(final(self)@),
            match evicted {
                Some(id) => {
                    &&& !holds(old(self)@, entry@.conversation_id)
                    &&& old(self)@.len() == CACHE_CAPACITY
                    &&& id@ == old(self)@[evictee(old(self)@, active@)].conversation_id
                    &&& id@ != active@
                },
                None => holds(old(self)@, entry@.conversation_id) || old(self)@.len()
                    < CACHE_CAPACITY,
            },
    {
        proof {
            use_type_invariant(&*self);
            lemma_stored_bounded(self@, active@, entry@);
        }
        let ghost before = self.entries.deep_view();
        let ghost e = entry@;
        let found = self.position(entry.conversation_id.as_str());
        let mut entries: Vec<CachedTimeline> = Vec::new();
        assert(entries.deep_view() =~= Seq::<CachedTimelineView>::empty());
        core::mem::swap(&mut self.entries, &mut entries);
        let mut evicted: Option<String> = None;
        match found {
            Some(at) => {
                entries[at] = entry;
                assert(entries.deep_view() =~= before.update(at as int, e));
            },
            None => {
                if entries.len() < CACHE_CAPACITY {
                    entries.push(entry);
                    assert(entries.deep_view() =~= before.push(e));
                } else {
                    let ghost p = not_keyed(active@);
                    proof {
                        lemma_evictee_exists(before, active@);
                    }
                    let mut v: usize = 0;
                    while v < entries.len() && same_text(
                        entries[v].conversation_id.as_str(),
                        active,
                    )
                        invariant
                            v <= entries.len(),
                            entries.deep_view() == before,
                            p == not_keyed(active@),
                            forall|j: int| 0 <= j < v ==> !p(#[trigger] before[j]),
                        decreases entries.len() - v,
                    {
                        v += 1;
                    }
                    proof {
                        if v < entries.len() {
                            assert(p(before[v as int]));
                        }
                        lemma_first_where_is(before, p, v as int);
                    }
                    let gone = entries.remove(v);
                    assert(entries.deep_view() =~= before.remove(v as int));
                    entries.push(entry);
                    assert(entries.deep_view() =~= before.remove(v as int).push(e));
                    evicted = Some(gone.conversation_id);
                }
            },
        }
        core::mem::swap(&mut self.entries, &mut entries);
        evicted
    }

    /// Stores a copy of `messages` as the timeline of `conversation_id`.
    pub fn remember(
        &mut self,
        active: &str,
        conversation_id: &str,
        messages: &Vec<MessageItem>,
        me_participant_id: &str,
    ) -> (evicted: Option<String>)
        ensures
            final(self)@ == stored(
                old(self)@,
                active@,
                CachedTimelineView {
                    conversation_id: conversation_id@,
                    messages: messages.deep_view(),
                    me_participant_id: me_participant_id@,
                },
            ),
            well_formed(final(self)@),
            evicted is Some ==> evicted->0@ != active@,
    {
        let entry = CachedTimeline {
            conversation_id: conversation_id.to_owned(),
            messages: clone_rows(messages),
            me_participant_id: me_participant_id.to_owned(),
        };
        self.put(active, entry)
    }
}

} // verus!
