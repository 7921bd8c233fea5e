//! What holds of every refresh of a timeline.

use crate::message::MessageRow;
use crate::seqs::{
    first_where, lemma_any_where, lemma_filter_keeps_all, lemma_first_where,
    lemma_first_where_insert_new, lemma_first_where_insert_other, lemma_first_where_is,
    lemma_first_where_update,
};
use crate::timeline::{
    absorb, absorb_all, has_id, index_of_id, is_local_only, newest_first, older_than,
    reconciled, refreshed_row, retain_known, settled, slot_for, survives, unique_ids, with_id,
};
use vstd::prelude::*;

verus! {

/// Taking in a row leaves that row settled.
pub proof fn lemma_absorb_settles(t: Seq<MessageRow>, fresh: MessageRow)
    ensures
        settled(absorb(t, fresh), fresh),
{
    let p = with_id(fresh.message_id);
    let at = first_where(t, p);
    lemma_first_where(t, p);
    if at < t.len() {
        lemma_first_where_update(t, p, at, refreshed_row(t[at], fresh));
    } else {
        let q = slot_for(t, fresh.timestamp_micros);
        lemma_first_where(t, older_than(fresh.timestamp_micros));
        lemma_first_where_insert_new(t, p, q, fresh);
    }
}

/// Taking in a row leaves the rows of other ids as they were.
pub proof fn lemma_absorb_keeps_settled(t: Seq<MessageRow>, fresh: MessageRow, other: MessageRow)
    requires
        settled(t, other),
        other.message_id != fresh.message_id,
    ensures
        settled(absorb(t, fresh), other),
{
    let p = with_id(fresh.message_id);
    let po = with_id(other.message_id);
    let at = first_where(t, p);
    lemma_first_where(t, p);
    lemma_first_where(t, po);
    if at < t.len() {
        assert(p(t[at]));
        lemma_first_where_update(t, po, at, refreshed_row(t[at], fresh));
    } else {
        let q = slot_for(t, fresh.timestamp_micros);
        lemma_first_where(t, older_than(fresh.timestamp_micros));
        lemma_first_where_insert_other(t, po, q, fresh);
    }
}

proof fn lemma_absorb_all_keeps_settled(t: Seq<MessageRow>, c: Seq<MessageRow>, other: MessageRow)
    requires
        settled(t, other),
        forall|k: int| 0 <= k < c.len() ==> (#[trigger] c[k]).message_id != other.message_id,
    ensures
        settled(absorb_all(t, c), other),
    decreases c.len(),
{
    if c.len() > 0 {
        lemma_absorb_keeps_settled(t, c[0], other);
        let rest = c.drop_first();
        assert forall|k: int| 0 <= k < rest.len() implies (#[trigger] rest[k]).message_id
            != other.message_id by {
            assert(rest[k] == c[k + 1]);
        }
        lemma_absorb_all_keeps_settled(absorb(t, c[0]), rest, other);
    }
}

/// After a candidate without duplicate ids was taken in, each of its rows is
/// settled.
pub proof fn lemma_absorb_all_settles(t: Seq<MessageRow>, c: Seq<MessageRow>, k: int)
    requires
        unique_ids(c),
        0 <= k < c.len(),
    ensures
        settled(absorb_all(t, c), c[k]),
    decreases c.len(),
{
    let rest = c.drop_first();
    assert forall|i: int, j: int| 0 <= i < j < rest.len() implies (#[trigger] rest[i]).message_id
        != (#[trigger] rest[j]).message_id by {
        assert(rest[i] == c[i + 1]);
        assert(rest[j] == c[j + 1]);
    }
    if k == 0 {
        lemma_absorb_settles(t, c[0]);
        assert forall|j: int| 0 <= j < rest.len() implies (#[trigger] rest[j]).message_id
            != c[0].message_id by {
            assert(rest[j] == c[j + 1]);
        }
        lemma_absorb_all_keeps_settled(absorb(t, c[0]), rest, c[0]);
    } else {
        lemma_absorb_all_settles(absorb(t, c[0]), rest, k - 1);
        assert(rest[k - 1] == c[k]);
    }
}

/// Taking in a settled row changes nothing.
pub proof fn lemma_absorb_settled(t: Seq<MessageRow>, fresh: MessageRow)
    requires
        settled(t, fresh),
    ensures
        absorb(t, fresh) == t,
{
    let at = index_of_id(t, fresh.message_id);
    lemma_first_where(t, with_id(fresh.message_id));
    assert(refreshed_row(t[at], fresh) == t[at]);
    assert(t.update(at, t[at]) =~= t);
}

proof fn lemma_absorb_all_settled(t: Seq<MessageRow>, c: Seq<MessageRow>)
    requires
        forall|k: int| 0 <= k < c.len() ==> settled(t, #[trigger] c[k]),
    ensures
        absorb_all(t, c) == t,
    decreases c.len(),
{
    if c.len() > 0 {
        lemma_absorb_settled(t, c[0]);
        let rest = c.drop_first();
        assert forall|k: int| 0 <= k < rest.len() implies settled(t, #[trigger] rest[k]) by {
            assert(rest[k] == c[k + 1]);
        }
        lemma_absorb_all_settled(t, rest);
    }
}

proof fn lemma_absorb_all_survivors(t: Seq<MessageRow>, cs: Seq<MessageRow>, c: Seq<MessageRow>)
    requires
        forall|i: int| 0 <= i < t.len() ==> survives(c)(#[trigger] t[i]),
        forall|k: int| 0 <= k < cs.len() ==> has_id(c, (#[trigger] cs[k]).message_id),
    ensures
        forall|i: int|
            0 <= i < absorb_all(t, cs).len() ==> survives(c)(#[trigger] absorb_all(t, cs)[i]),
    decreases cs.len(),
{
    if cs.len() > 0 {
        let fresh = cs[0];
        let u = absorb(t, fresh);
        let at = index_of_id(t, fresh.message_id);
        lemma_first_where(t, with_id(fresh.message_id));
        lemma_first_where(t, older_than(fresh.timestamp_micros));
        assert forall|i: int| 0 <= i < u.len() implies survives(c)(#[trigger] u[i]) by {
            if at < t.len() {
                if i != at {
                    assert(u[i] == t[i]);
                } else {
                    assert(u[i].message_id == fresh.message_id);
                }
            } else {
                let q = slot_for(t, fresh.timestamp_micros);
                if i < q {
                    assert(u[i] == t[i]);
                } else if i == q {
                    assert(u[i] == fresh);
                } else {
                    assert(u[i] == t[i - 1]);
                }
            }
        }
        let rest = cs.drop_first();
        assert forall|k: int| 0 <= k < rest.len() implies has_id(
            c,
            (#[trigger] rest[k]).message_id,
        ) by {
            assert(rest[k] == cs[k + 1]);
        }
        lemma_absorb_all_survivors(u, rest, c);
        assert(absorb_all(t, cs) == absorb_all(u, rest));
    } else {
        assert(absorb_all(t, cs) == t);
    }
    let r = absorb_all(t, cs);
    assert forall|i: int| 0 <= i < r.len() implies survives(c)(#[trigger] r[i]) by {}
}

proof fn lemma_own_ids_present(c: Seq<MessageRow>)
    ensures
        forall|k: int| 0 <= k < c.len() ==> has_id(c, (#[trigger] c[k]).message_id),
{
    assert forall|k: int| 0 <= k < c.len() implies has_id(c, (#[trigger] c[k]).message_id) by {
        let p = with_id(c[k].message_id);
        assert(p(c[k]));
        lemma_any_where(c, p);
    }
}

/// A refresh applied a second time changes nothing: no row is added, removed
/// or altered by the repetition.
pub proof fn lemma_reconcile_idempotent(t: Seq<MessageRow>, c: Seq<MessageRow>)
    requires
        unique_ids(c),
    ensures
        reconciled(reconciled(t, c), c) == reconciled(t, c),
{
    lemma_own_ids_present(c);
    let keep = survives(c);
    if t.len() == 0 {
        if c.len() > 0 {
            assert forall|i: int| 0 <= i < c.len() implies keep(#[trigger] c[i]) by {}
            lemma_filter_keeps_all(c, keep);
            assert forall|k: int| 0 <= k < c.len() implies settled(c, #[trigger] c[k]) by {
                lemma_first_where_is(c, with_id(c[k].message_id), k);
            }
            lemma_absorb_all_settled(c, c);
        }
    } else {
        let r0 = retain_known(t, c);
        let r = absorb_all(r0, c);
        assert forall|i: int| 0 <= i < r0.len() implies keep(#[trigger] r0[i]) by {
            t.lemma_filter_pred(keep, i);
        }
        lemma_absorb_all_survivors(r0, c, c);
        lemma_filter_keeps_all(r, keep);
        assert forall|k: int| 0 <= k < c.len() implies settled(r, #[trigger] c[k]) by {
            lemma_absorb_all_settles(r0, c, k);
        }
        lemma_absorb_all_settled(r, c);
        if r.len() == 0 {
            if c.len() > 0 {
                assert(settled(r, c[0]));
                lemma_first_where(r, with_id(c[0].message_id));
            }
            assert(c =~= r);
        }
    }
}

/// Taking in a row keeps ids distinct.
pub proof fn lemma_absorb_unique_ids(t: Seq<MessageRow>, fresh: MessageRow)
    requires
        unique_ids(t),
    ensures
        unique_ids(absorb(t, fresh)),
{
    let p = with_id(fresh.message_id);
    let at = first_where(t, p);
    let u = absorb(t, fresh);
    lemma_first_where(t, p);
    lemma_first_where(t, older_than(fresh.timestamp_micros));
    if at >= t.len() {
        let q = slot_for(t, fresh.timestamp_micros);
        assert forall|i: int, j: int| 0 <= i < j < u.len() implies (#[trigger] u[i]).message_id != (
        #[trigger] u[j]).message_id by {
            let oi = if i < q { i } else { i - 1 };
            let oj = if j < q { j } else { j - 1 };
            if i == q {
                assert(u[j] == t[oj]);
                assert(!p(t[oj]));
            } else if j == q {
                assert(u[i] == t[oi]);
                assert(!p(t[oi]));
            } else {
                assert(u[i] == t[oi]);
                assert(u[j] == t[oj]);
            }
        }
    }
}

/// Taking in a row keeps a newest-first timeline newest first.
pub proof fn lemma_absorb_newest_first(t: Seq<MessageRow>, fresh: MessageRow)
    requires
        newest_first(t),
    ensures
        newest_first(absorb(t, fresh)),
{
    let p = with_id(fresh.message_id);
    let at = first_where(t, p);
    let u = absorb(t, fresh);
    let older = older_than(fresh.timestamp_micros);
    lemma_first_where(t, p);
    lemma_first_where(t, older);
    if at >= t.len() {
        let q = slot_for(t, fresh.timestamp_micros);
        assert forall|i: int, j: int| 0 <= i <= j < u.len() implies (
        #[trigger] u[i]).timestamp_micros >= (#[trigger] u[j]).timestamp_micros by {
            let oi = if i < q { i } else { i - 1 };
            let oj = if j < q { j } else { j - 1 };
            if i == q && j == q {
            } else if i == q {
                assert(u[j] == t[oj]);
                assert(older(t[q]));
                assert(t[q].timestamp_micros >= t[oj].timestamp_micros);
            } else if j == q {
                assert(u[i] == t[oi]);
                assert(!older(t[oi]));
            } else {
                assert(u[i] == t[oi]);
                assert(u[j] == t[oj]);
            }
        }
    }
}

proof fn lemma_filter_from(s: Seq<MessageRow>, p: spec_fn(MessageRow) -> bool)
    ensures
        forall|i: int|
            0 <= i < s.filter(p).len() ==> s.contains(#[trigger] s.filter(p)[i]),
        unique_ids(s) ==> unique_ids(s.filter(p)),
        newest_first(s) ==> newest_first(s.filter(p)),
    decreases s.len(),
{
    reveal(Seq::filter);
    if s.len() > 0 {
        let t = s.drop_last();
        let f = t.filter(p);
        lemma_filter_from(t, p);
        assert forall|i: int| 0 <= i < f.len() implies s.contains(#[trigger] f[i]) by {
            assert(t.contains(f[i]));
            let w = choose|w: int| 0 <= w < t.len() && t[w] == f[i];
            assert(s[w] == f[i]);
        }
        let g = s.filter(p);
        assert forall|i: int| 0 <= i < g.len() implies s.contains(#[trigger] g[i]) by {
            if i < f.len() {
                assert(g[i] == f[i]);
            } else {
                assert(g[i] == s[s.len() - 1]);
            }
        }
        if unique_ids(s) {
            assert forall|i: int, j: int| 0 <= i < j < t.len() implies (
            #[trigger] t[i]).message_id != (#[trigger] t[j]).message_id by {
                assert(t[i] == s[i] && t[j] == s[j]);
            }
            assert forall|i: int, j: int| 0 <= i < j < g.len() implies (
            #[trigger] g[i]).message_id != (#[trigger] g[j]).message_id by {
                assert(g[i] == f[i]);
                if j < f.len() {
                    assert(g[j] == f[j]);
                } else {
                    assert(t.contains(f[i]));
                    let w = choose|w: int| 0 <= w < t.len() && t[w] == f[i];
                    assert(s[w] == f[i]);
                    assert(g[j] == s[s.len() - 1]);
                }
            }
        }
        if newest_first(s) {
            assert forall|i: int, j: int| 0 <= i <= j < t.len() implies (
            #[trigger] t[i]).timestamp_micros >= (#[trigger] t[j]).timestamp_micros by {
                assert(t[i] == s[i] && t[j] == s[j]);
            }
            assert forall|i: int, j: int| 0 <= i <= j < g.len() implies (
            #[trigger] g[i]).timestamp_micros >= (#[trigger] g[j]).timestamp_micros by {
                if j < f.len() {
                    assert(g[i] == f[i] && g[j] == f[j]);
                } else if i < f.len() {
                    assert(g[i] == f[i]);
                    assert(t.contains(f[i]));
                    let w = choose|w: int| 0 <= w < t.len() && t[w] == f[i];
                    assert(s[w] == f[i]);
                    assert(g[j] == s[s.len() - 1]);
                }
            }
        }
    }
}

proof fn lemma_absorb_all_invariants(t: Seq<MessageRow>, c: Seq<MessageRow>)
    ensures
        unique_ids(t) ==> unique_ids(absorb_all(t, c)),
        newest_first(t) ==> newest_first(absorb_all(t, c)),
    decreases c.len(),
{
    if c.len() > 0 {
        if unique_ids(t) {
            lemma_absorb_unique_ids(t, c[0]);
        }
        if newest_first(t) {
            lemma_absorb_newest_first(t, c[0]);
        }
        lemma_absorb_all_invariants(absorb(t, c[0]), c.drop_first());
    }
}

/// A refresh keeps the ids of a timeline distinct, given a candidate whose
/// ids are distinct.
pub proof fn lemma_reconciled_unique_ids(t: Seq<MessageRow>, c: Seq<MessageRow>)
    requires
        unique_ids(t),
        unique_ids(c),
    ensures
        unique_ids(reconciled(t, c)),
{
    if t.len() > 0 {
        lemma_filter_from(t, survives(c));
        lemma_absorb_all_invariants(retain_known(t, c), c);
    }
}

/// A refresh keeps a timeline newest first, given a candidate that is.
pub proof fn lemma_reconciled_newest_first(t: Seq<MessageRow>, c: Seq<MessageRow>)
    requires
        newest_first(t),
        newest_first(c),
    ensures
        newest_first(reconciled(t, c)),
{
    if t.len() > 0 {
        lemma_filter_from(t, survives(c));
        lemma_absorb_all_invariants(retain_known(t, c), c);
    }
}

/// A refresh never removes a row that exists only locally.
pub proof fn lemma_reconciled_keeps_local_rows(t: Seq<MessageRow>, c: Seq<MessageRow>, i: int)
    requires
        0 <= i < t.len(),
        is_local_only(t[i]),
    ensures
        has_id(reconciled(t, c), t[i].message_id),
{
    let keep = survives(c);
    let r0 = retain_known(t, c);
    assert(keep(t[i]));
    t.lemma_filter_contains(keep, i);
    let w = choose|w: int| 0 <= w < r0.len() && r0[w] == t[i];
    let p = with_id(t[i].message_id);
    assert(p(r0[w]));
    lemma_any_where(r0, p);
    lemma_absorb_all_keeps_ids(r0, c, t[i].message_id);
}

proof fn lemma_absorb_all_keeps_ids(t: Seq<MessageRow>, c: Seq<MessageRow>, id: Seq<char>)
    requires
        has_id(t, id),
    ensures
        has_id(absorb_all(t, c), id),
    decreases c.len(),
{
    if c.len() > 0 {
        let fresh = c[0];
        let p = with_id(id);
        let pf = with_id(fresh.message_id);
        let u = absorb(t, fresh);
        lemma_first_where(t, p);
        lemma_first_where(t, pf);
        lemma_first_where(t, older_than(fresh.timestamp_micros));
        let at = first_where(t, pf);
        if at < t.len() {
            lemma_first_where_update(t, p, at, refreshed_row(t[at], fresh));
        } else {
            let q = slot_for(t, fresh.timestamp_micros);
            let k = first_where(t, p);
            let k2 = if k < q { k } else { k + 1 };
            assert(u[k2] == t[k]);
            assert(p(u[k2]));
            lemma_any_where(u, p);
        }
        lemma_absorb_all_keeps_ids(u, c.drop_first(), id);
    }
}

} // verus!
