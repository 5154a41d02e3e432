//! The order of keys and what follows from it.
//!
//! The queue is modelled as a multiset of keys.  This module says which keys
//! are due at a given time, what it means for a sequence of keys to be in
//! firing order, and proves the facts about least keys and about splitting a
//! multiset that the engine's contracts rest on.

use crate::services::heap::{is_least, key_is_other, key_le, ScheduleKey};
use crate::time::{parts_le, Timestamp, NANOS_PER_SEC};
use vstd::multiset::Multiset;
use vstd::prelude::*;
use vstd::relations::{sorted_by, total_ordering};
use vstd::seq_lib::lemma_sorted_unique;

verus! {

/// Kind code of a reminder.
pub const KIND_REMINDER: u8 = 0;

/// Kind code of a timer.
pub const KIND_TIMER: u8 = 1;

/// The key stands for a schedule entry: its nanoseconds lie within one
/// second and its kind code is a known one.
pub open spec fn valid_key(k: ScheduleKey) -> bool {
    k.1 < NANOS_PER_SEC && k.3 <= KIND_TIMER
}

/// The key's trigger time is at or before `now`.
pub open spec fn key_due(k: ScheduleKey, now: Timestamp) -> bool {
    parts_le(k.0 as int, k.1 as int, now.secs() as int, now.subsec_nanos() as int)
}

/// The keys of `m` that are due at `now`.
pub open spec fn due_keys(m: Multiset<ScheduleKey>, now: Timestamp) -> Multiset<ScheduleKey> {
    m.filter(|k: ScheduleKey| key_due(k, now))
}

/// The keys of `m` that are not yet due at `now`.
pub open spec fn pending_keys(m: Multiset<ScheduleKey>, now: Timestamp) -> Multiset<ScheduleKey> {
    m.filter(|k: ScheduleKey| !key_due(k, now))
}

/// The keys of `m` that carry the given item id and kind code.
pub open spec fn keys_of(m: Multiset<ScheduleKey>, item_id: i32, kind: u8) -> Multiset<
    ScheduleKey,
> {
    m.filter(|k: ScheduleKey| !key_is_other(k, item_id, kind))
}

/// The keys of `m` that carry another item id or kind code.
pub open spec fn keys_without(m: Multiset<ScheduleKey>, item_id: i32, kind: u8) -> Multiset<
    ScheduleKey,
> {
    m.filter(|k: ScheduleKey| key_is_other(k, item_id, kind))
}

/// The sequence is in firing order: no key is followed by a lesser one.
pub open spec fn keys_sorted(s: Seq<ScheduleKey>) -> bool {
    forall|i: int, j: int| 0 <= i < j < s.len() ==> key_le(#[trigger] s[i], #[trigger] s[j])
}

/// The least key of a non-empty multiset.
pub open spec fn least_key(m: Multiset<ScheduleKey>) -> ScheduleKey {
    choose|k: ScheduleKey| is_least(k, m)
}

/// Trigger time of the least key, as seconds and nanoseconds; `None` for
/// the empty multiset.
pub open spec fn next_trigger(m: Multiset<ScheduleKey>) -> Option<(i64, u32)> {
    if m.len() == 0 {
        None
    } else {
        Some((least_key(m).0, least_key(m).1))
    }
}

/// The order of keys is total: reflexive, antisymmetric, transitive, and any
/// two keys compare.
pub proof fn lemma_key_order_total(a: ScheduleKey, b: ScheduleKey, c: ScheduleKey)
    ensures
        key_le(a, a),
        key_le(a, b) || key_le(b, a),
        key_le(a, b) && key_le(b, a) ==> a == b,
        key_le(a, b) && key_le(b, c) ==> key_le(a, c),
{
}

/// A multiset has at most one least key.
pub proof fn lemma_least_key_unique(k: ScheduleKey, m: Multiset<ScheduleKey>)
    requires
        is_least(k, m),
    ensures
        least_key(m) == k,
        m.len() > 0,
{
    let c = least_key(m);
    assert(is_least(c, m));
    assert(m.contains(c));
    assert(key_le(k, c));
    assert(key_le(c, k));
    lemma_key_order_total(k, c, c);
    assert(m.count(k) <= m.len());
}

/// Taking one occurrence of a key out of a multiset that holds it shortens
/// the multiset by one and brings no new key in.
pub proof fn lemma_remove_present(m: Multiset<ScheduleKey>, k: ScheduleKey)
    requires
        m.contains(k),
    ensures
        m.remove(k).len() == m.len() - 1,
        forall|j: ScheduleKey| #[trigger] m.remove(k).contains(j) ==> m.contains(j),
        m.remove(k).insert(k) == m,
{
    let single = Multiset::singleton(k);
    assert(single.subset_of(m)) by {
        assert forall|j: ScheduleKey| single.count(j) <= m.count(j) by {
            if j != k {
                assert(single.count(j) == 0);
            }
        }
    }
    assert(m.remove(k) == m.sub(single));
    assert(m.remove(k).insert(k) =~= m);
}

/// A multiset is the sum of the keys that carry a given identity and the
/// keys that do not, so their numbers add up.
pub proof fn lemma_identity_split(m: Multiset<ScheduleKey>, item_id: i32, kind: u8)
    ensures
        m == keys_of(m, item_id, kind).add(keys_without(m, item_id, kind)),
        m.len() == keys_of(m, item_id, kind).len() + keys_without(m, item_id, kind).len(),
{
    assert(m =~= keys_of(m, item_id, kind).add(keys_without(m, item_id, kind)));
}

/// A multiset is the sum of its due and its pending keys, so their numbers
/// add up.
pub proof fn lemma_due_split(m: Multiset<ScheduleKey>, now: Timestamp)
    ensures
        m == due_keys(m, now).add(pending_keys(m, now)),
        m.len() == due_keys(m, now).len() + pending_keys(m, now).len(),
{
    assert(m =~= due_keys(m, now).add(pending_keys(m, now)));
}

/// A multiset with one key more holds that key and the keys it held
/// before, nothing else.
pub proof fn lemma_insert_contains(m: Multiset<ScheduleKey>, k: ScheduleKey)
    ensures
        forall|j: ScheduleKey| #[trigger] m.insert(k).contains(j) ==> j == k || m.contains(j),
{
    assert forall|j: ScheduleKey| #[trigger] m.insert(k).contains(j) implies j == k || m.contains(
        j,
    ) by {
        if j != k {
            assert(m.insert(k).count(j) == m.count(j));
        }
    }
}

/// The keys left after an identity is taken out were there before, and none
/// of them carries that identity.
pub proof fn lemma_without_contains(m: Multiset<ScheduleKey>, item_id: i32, kind: u8)
    ensures
        forall|j: ScheduleKey| #[trigger]
            keys_without(m, item_id, kind).contains(j) ==> m.contains(j) && key_is_other(
                j,
                item_id,
                kind,
            ),
{
}

/// When a multiset was split into a sequence of due keys and a rest that
/// holds no due key, the sequence holds exactly the due keys and the rest
/// exactly the pending ones.
pub proof fn lemma_fired_are_the_due(
    start: Multiset<ScheduleKey>,
    fired: Seq<ScheduleKey>,
    rest: Multiset<ScheduleKey>,
    now: Timestamp,
)
    requires
        start == fired.to_multiset().add(rest),
        forall|i: int| 0 <= i < fired.len() ==> key_due(#[trigger] fired[i], now),
        due_keys(rest, now).len() == 0,
    ensures
        fired.to_multiset() == due_keys(start, now),
        rest == pending_keys(start, now),
{
    broadcast use vstd::seq_lib::group_to_multiset_ensures;

    assert forall|k: ScheduleKey| !key_due(k, now) implies fired.to_multiset().count(k) == 0 by {
        if fired.to_multiset().count(k) > 0 {
            assert(fired.contains(k));
            let i = choose|i: int| 0 <= i < fired.len() && fired[i] == k;
            assert(key_due(fired[i], now));
        }
    }
    assert forall|k: ScheduleKey| key_due(k, now) implies rest.count(k) == 0 by {
        assert(due_keys(rest, now).count(k) <= due_keys(rest, now).len());
    }
    assert(fired.to_multiset() =~= due_keys(start, now));
    assert(rest =~= pending_keys(start, now));
}

/// An entry that is added fires with the others once it is due, and waits
/// with the others until then.
pub proof fn lemma_added_fires_when_due(m: Multiset<ScheduleKey>, k: ScheduleKey, now: Timestamp)
    ensures
        due_keys(m.insert(k), now) == if key_due(k, now) {
            due_keys(m, now).insert(k)
        } else {
            due_keys(m, now)
        },
        pending_keys(m.insert(k), now) == if key_due(k, now) {
            pending_keys(m, now)
        } else {
            pending_keys(m, now).insert(k)
        },
{
    assert(due_keys(m.insert(k), now) =~= if key_due(k, now) {
        due_keys(m, now).insert(k)
    } else {
        due_keys(m, now)
    });
    assert(pending_keys(m.insert(k), now) =~= if key_due(k, now) {
        pending_keys(m, now)
    } else {
        pending_keys(m, now).insert(k)
    });
}

/// Removing the entries of an item takes them from what fires and from what
/// waits, and touches nothing else.
pub proof fn lemma_removed_leaves_the_rest(
    m: Multiset<ScheduleKey>,
    item_id: i32,
    kind: u8,
    now: Timestamp,
)
    ensures
        due_keys(keys_without(m, item_id, kind), now) == keys_without(
            due_keys(m, now),
            item_id,
            kind,
        ),
        pending_keys(keys_without(m, item_id, kind), now) == keys_without(
            pending_keys(m, now),
            item_id,
            kind,
        ),
{
    assert(due_keys(keys_without(m, item_id, kind), now) =~= keys_without(
        due_keys(m, now),
        item_id,
        kind,
    ));
    assert(pending_keys(keys_without(m, item_id, kind), now) =~= keys_without(
        pending_keys(m, now),
        item_id,
        kind,
    ));
}

/// Once the entries of an item are removed, nothing that fires names that
/// item, whatever the time, until an entry of it is added again.
pub proof fn lemma_removed_never_fires(
    m: Multiset<ScheduleKey>,
    item_id: i32,
    kind: u8,
    now: Timestamp,
)
    ensures
        keys_of(keys_without(m, item_id, kind), item_id, kind) == Multiset::<ScheduleKey>::empty(),
        keys_of(due_keys(keys_without(m, item_id, kind), now), item_id, kind) == Multiset::<
            ScheduleKey,
        >::empty(),
        forall|k: ScheduleKey| #[trigger]
            due_keys(keys_without(m, item_id, kind), now).contains(k) ==> key_is_other(
                k,
                item_id,
                kind,
            ),
{
    assert(keys_of(keys_without(m, item_id, kind), item_id, kind) =~= Multiset::<
        ScheduleKey,
    >::empty());
    assert(keys_of(due_keys(keys_without(m, item_id, kind), now), item_id, kind) =~= Multiset::<
        ScheduleKey,
    >::empty());
}

/// Removing the entries of an item a second time changes nothing and
/// removes nothing.
pub proof fn lemma_remove_is_idempotent(m: Multiset<ScheduleKey>, item_id: i32, kind: u8)
    ensures
        keys_without(keys_without(m, item_id, kind), item_id, kind) == keys_without(
            m,
            item_id,
            kind,
        ),
        keys_of(keys_without(m, item_id, kind), item_id, kind).len() == 0,
{
    assert(keys_without(keys_without(m, item_id, kind), item_id, kind) =~= keys_without(
        m,
        item_id,
        kind,
    ));
    assert(keys_of(keys_without(m, item_id, kind), item_id, kind) =~= Multiset::<
        ScheduleKey,
    >::empty());
}

/// Removing the entries of an item that has none changes nothing.
pub proof fn lemma_remove_absent(m: Multiset<ScheduleKey>, item_id: i32, kind: u8)
    requires
        keys_of(m, item_id, kind).len() == 0,
    ensures
        keys_without(m, item_id, kind) == m,
{
    assert forall|k: ScheduleKey| !key_is_other(k, item_id, kind) implies m.count(k) == 0 by {
        assert(keys_of(m, item_id, kind).count(k) <= keys_of(m, item_id, kind).len());
    }
    assert(keys_without(m, item_id, kind) =~= m);
}

/// What stays behind when the due entries are taken holds no due entry:
/// nothing fires a second time at the same instant.
pub proof fn lemma_nothing_fires_twice(m: Multiset<ScheduleKey>, now: Timestamp)
    ensures
        due_keys(pending_keys(m, now), now) == Multiset::<ScheduleKey>::empty(),
        pending_keys(pending_keys(m, now), now) == pending_keys(m, now),
{
    assert(due_keys(pending_keys(m, now), now) =~= Multiset::<ScheduleKey>::empty());
    assert(pending_keys(pending_keys(m, now), now) =~= pending_keys(m, now));
}

/// There is one firing order only: two sorted sequences that hold the same
/// keys equally often are the same sequence.
pub proof fn lemma_firing_order_unique(a: Seq<ScheduleKey>, b: Seq<ScheduleKey>)
    requires
        keys_sorted(a),
        keys_sorted(b),
        a.to_multiset() == b.to_multiset(),
    ensures
        a == b,
{
    let leq = |x: ScheduleKey, y: ScheduleKey| key_le(x, y);
    assert(total_ordering(leq));
    assert(sorted_by(a, leq)) by {
        assert forall|i: int, j: int| 0 <= i < j < a.len() implies #[trigger] leq(a[i], a[j]) by {
            assert(key_le(a[i], a[j]));
        }
    }
    assert(sorted_by(b, leq)) by {
        assert forall|i: int, j: int| 0 <= i < j < b.len() implies #[trigger] leq(b[i], b[j]) by {
            assert(key_le(b[i], b[j]));
        }
    }
    lemma_sorted_unique(a, b, leq);
}

} // verus!
