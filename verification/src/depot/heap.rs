//! The heap under the queue of conditions. The heap is the priority-queue
//! crate's; what is stated of it here is taken on trust from its source.
use vstd::prelude::*;
use std::collections::hash_map::RandomState;
use priority_queue::PriorityQueue;

verus! {

/// The priority-queue crate's `PriorityQueue`: items, each once, each with
/// a priority. Its contents are known only through `queue_items`.
#[verifier::external_type_specification]
#[verifier::external_body]
#[verifier::reject_recursive_types(I)]
#[verifier::reject_recursive_types(P)]
#[verifier::reject_recursive_types(H)]
pub struct ExPriorityQueue<I: core::hash::Hash + Eq, P: Ord, H>(PriorityQueue<I, P, H>);

/// The items of a queue, each with its priority.
pub uninterp spec fn queue_items(q: PriorityQueue<u128, u64, RandomState>) -> Map<u128, u64>;

/// The queue without items.
pub open spec fn no_items() -> Map<u128, u64> {
    Map::empty()
}

/// `item` is in the queue with `priority`, and no item has a greater one.
pub open spec fn is_top(items: Map<u128, u64>, item: u128, priority: u64) -> bool {
    &&& items.contains_key(item)
    &&& items[item] == priority
    &&& forall|other: u128| #[trigger] items.contains_key(other) ==> items[other] <= priority
}

/// Calls `PriorityQueue::new`: a queue without items.
#[verifier::external_body]
pub(crate) fn heap_new() -> (q: PriorityQueue<u128, u64, RandomState>)
    ensures
        queue_items(q) == no_items(),
{
    PriorityQueue::new()
}

/// Calls `PriorityQueue::push`: the item is in the queue afterwards with
/// the given priority, whether or not it was there before; every other
/// item is as before. Returns the priority that the item had.
#[verifier::external_body]
pub(crate) fn heap_push(q: &mut PriorityQueue<u128, u64, RandomState>, item: u128, priority: u64) -> (previous:
    Option<u64>)
    ensures
        queue_items(*final(q)) == queue_items(*old(q)).insert(item, priority),
        previous == (if queue_items(*old(q)).contains_key(item) {
            Some(queue_items(*old(q))[item])
        } else {
            None
        }),
{
    q.push(item, priority)
}

/// Calls `PriorityQueue::change_priority`: an item of the queue gets the
/// given priority and its old one is returned; for an item that is not in
/// the queue nothing changes.
#[verifier::external_body]
pub(crate) fn heap_change_priority(
    q: &mut PriorityQueue<u128, u64, RandomState>,
    item: u128,
    priority: u64,
) -> (previous: Option<u64>)
    ensures
        queue_items(*final(q)) == (if queue_items(*old(q)).contains_key(item) {
            queue_items(*old(q)).insert(item, priority)
        } else {
            queue_items(*old(q))
        }),
        previous == (if queue_items(*old(q)).contains_key(item) {
            Some(queue_items(*old(q))[item])
        } else {
            None
        }),
{
    q.change_priority(&item, priority)
}

/// Calls `PriorityQueue::peek`: an item with the greatest priority in the
/// queue, or nothing where the queue is empty. Which of several items with
/// the greatest priority is returned is left open.
#[verifier::external_body]
pub(crate) fn heap_peek(q: &PriorityQueue<u128, u64, RandomState>) -> (top: Option<(u128, u64)>)
    ensures
        match top {
            Some((item, priority)) => is_top(queue_items(*q), item, priority),
            None => queue_items(*q) == no_items(),
        },
{
    q.peek().map(|(item, priority)| (*item, *priority))
}

} // verus!
