//! The priority queue: a `min_heap::MinHeap` of integer keys.
//!
//! The heap itself is not verified here.  This module declares the type,
//! gives a name to what a heap holds, and states for each method the engine
//! calls what that method does to the contents.  Nothing in this module is
//! proved: the statements are taken from the heap's documentation and
//! source, and everything the engine proves about the queue rests on them.
//!
//! A key is the tuple `(seconds, nanoseconds, item id, kind code)`.  Tuples
//! of integers are ordered lexicographically, so the heap's least key is
//! the earliest trigger time, ties broken by item id and then by kind.

use min_heap::MinHeap;
use vstd::multiset::Multiset;
use vstd::prelude::*;

verus! {

/// What the queue stores for one schedule entry: trigger seconds, trigger
/// nanoseconds, item id, kind code.
pub type ScheduleKey = (i64, u32, i32, u8);

/// `min_heap::MinHeap`, taken as an opaque value.
#[verifier::external_type_specification]
#[verifier::external_body]
#[verifier::reject_recursive_types(T)]
pub struct ExMinHeap<T>(min_heap::MinHeap<T>);

/// The keys a heap holds, each as often as it was pushed and not yet
/// removed.  The heap's own layout stays hidden; the contracts below are
/// all that is known of this multiset.
pub uninterp spec fn heap_items(heap: MinHeap<(i64, u32, i32, u8)>) -> Multiset<(i64, u32, i32, u8)>;

/// Lexicographic "less than or equal" on keys.
pub open spec fn key_le(a: ScheduleKey, b: ScheduleKey) -> bool {
    a.0 < b.0 || (a.0 == b.0 && (a.1 < b.1 || (a.1 == b.1 && (a.2 < b.2 || (a.2 == b.2 && a.3
        <= b.3)))))
}

/// `k` is in `m` and no key of `m` is below it.
pub open spec fn is_least(k: ScheduleKey, m: Multiset<ScheduleKey>) -> bool {
    m.contains(k) && forall|j: ScheduleKey| #[trigger] m.contains(j) ==> key_le(k, j)
}

/// The key carries another item id or another kind code than the given
/// ones.
pub open spec fn key_is_other(k: ScheduleKey, item_id: i32, kind: u8) -> bool {
    k.2 != item_id || k.3 != kind
}

/// Decides [`key_is_other`] for a stored key.
pub fn key_has_other_identity(k: &ScheduleKey, item_id: i32, kind: u8) -> (other: bool)
    ensures
        other == key_is_other(*k, item_id, kind),
{
    k.2 != item_id || k.3 != kind
}

/// Calls `MinHeap::new`.  Taken on trust: the new heap holds nothing.
#[verifier::external_body]
pub(crate) fn heap_new() -> (heap: MinHeap<ScheduleKey>)
    ensures
        heap_items(heap) == Multiset::<ScheduleKey>::empty(),
{
    MinHeap::new()
}

/// Calls `MinHeap::len`.  Taken on trust: the result is the number of keys
/// held, counting repeats.
#[verifier::external_body]
pub(crate) fn heap_len(heap: &MinHeap<ScheduleKey>) -> (n: usize)
    ensures
        n == heap_items(*heap).len(),
{
    heap.len()
}

/// Calls `MinHeap::peek` and copies what it points at.  Taken on trust: the
/// result is the least key held, or `None` when the heap holds nothing.
#[verifier::external_body]
pub(crate) fn heap_peek(heap: &MinHeap<ScheduleKey>) -> (r: Option<ScheduleKey>)
    ensures
        match r {
            Some(k) => is_least(k, heap_items(*heap)),
            None => heap_items(*heap).len() == 0,
        },
{
    heap.peek().copied()
}

/// Calls `MinHeap::push`.  Taken on trust: the heap gains one occurrence of
/// `key` and is otherwise unchanged.
#[verifier::external_body]
pub(crate) fn heap_push(heap: &mut MinHeap<ScheduleKey>, key: ScheduleKey)
    ensures
        heap_items(*final(heap)) == heap_items(*old(heap)).insert(key),
{
    heap.push(key)
}

/// Calls `MinHeap::pop`.  Taken on trust: it removes one occurrence of the
/// least key and returns that key; on a heap that holds nothing it returns
/// `None` and changes nothing.
#[verifier::external_body]
pub(crate) fn heap_pop(heap: &mut MinHeap<ScheduleKey>) -> (r: Option<ScheduleKey>)
    ensures
        match r {
            Some(k) => is_least(k, heap_items(*old(heap))) && heap_items(*final(heap))
                == heap_items(*old(heap)).remove(k),
            None => heap_items(*old(heap)).len() == 0 && heap_items(*final(heap)) == heap_items(
                *old(heap),
            ),
        },
{
    heap.pop()
}

/// Calls `MinHeap::retain` with [`key_has_other_identity`] as the predicate.
/// Taken on trust: every key for which the predicate is false, that is every
/// key with the given item id and kind code, leaves the heap, and every
/// other key stays as often as it was there.
#[verifier::external_body]
pub(crate) fn heap_retain_others(heap: &mut MinHeap<ScheduleKey>, item_id: i32, kind: u8)
    ensures
        heap_items(*final(heap)) == heap_items(*old(heap)).filter(
            |k: ScheduleKey| key_is_other(k, item_id, kind),
        ),
{
    heap.retain(|k| key_has_other_identity(k, item_id, kind))
}

/// Calls `MinHeap::clear`.  Taken on trust: the heap holds nothing
/// afterwards.
#[verifier::external_body]
pub(crate) fn heap_clear(heap: &mut MinHeap<ScheduleKey>)
    ensures
        heap_items(*final(heap)) == Multiset::<ScheduleKey>::empty(),
{
    heap.clear()
}

} // verus!
