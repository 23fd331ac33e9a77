//! Idle queues and the scan that picks an entry from them.

use std::collections::VecDeque;
use vstd::prelude::*;

verus! {

/// An object that waits in an idle queue.
#[derive(Clone, Copy, Debug, PartialEq, Eq, Structural)]
pub struct Idle {
    /// The object's number in the pool.
    pub id: usize,
    /// What the object can hold: a buffer's length, a memory block's size,
    /// the number of sets of a descriptor pool or pipeline. Zero for objects
    /// that are all alike within their queue.
    pub capacity: u64,
    /// The frame in which the object was last released.
    pub released: u64,
}

/// The position of the entry nearest to the back of `queue` whose capacity
/// is at least `need`.
pub open spec fn last_fit(queue: Seq<Idle>, need: u64) -> Option<int>
    decreases queue.len(),
{
    if queue.len() == 0 {
        None
    } else if queue.last().capacity >= need {
        Some(queue.len() - 1)
    } else {
        last_fit(queue.drop_last(), need)
    }
}

/// `last_fit` finds a fitting entry behind which no entry fits.
pub proof fn lemma_last_fit_some(queue: Seq<Idle>, need: u64, at: int)
    requires
        0 <= at < queue.len(),
        queue[at].capacity >= need,
        forall|j: int| at < j < queue.len() ==> (#[trigger] queue[j]).capacity < need,
    ensures
        last_fit(queue, need) == Some(at),
    decreases queue.len(),
{
    if at < queue.len() - 1 {
        assert(queue[queue.len() - 1].capacity < need);
        let rest = queue.drop_last();
        assert forall|j: int| at < j < rest.len() implies (#[trigger] rest[j]).capacity < need by {
            assert(rest[j] == queue[j]);
        }
        lemma_last_fit_some(rest, need, at);
    }
}

/// `last_fit` finds nothing exactly when no entry fits.
pub proof fn lemma_last_fit_none(queue: Seq<Idle>, need: u64)
    requires
        forall|j: int| 0 <= j < queue.len() ==> (#[trigger] queue[j]).capacity < need,
    ensures
        last_fit(queue, need) is None,
    decreases queue.len(),
{
    if queue.len() > 0 {
        assert(queue[queue.len() - 1].capacity < need);
        let rest = queue.drop_last();
        assert forall|j: int| 0 <= j < rest.len() implies (#[trigger] rest[j]).capacity < need by {
            assert(rest[j] == queue[j]);
        }
        lemma_last_fit_none(rest, need);
    }
}

/// What `last_fit` returns: a fitting entry with no fitting entry behind it,
/// or nothing when no entry fits.
pub proof fn lemma_last_fit(queue: Seq<Idle>, need: u64)
    ensures
        match last_fit(queue, need) {
            Some(at) => {
                &&& 0 <= at < queue.len()
                &&& queue[at].capacity >= need
                &&& forall|j: int| at < j < queue.len() ==> (#[trigger] queue[j]).capacity < need
            },
            None => forall|j: int| 0 <= j < queue.len() ==> (#[trigger] queue[j]).capacity < need,
        },
    decreases queue.len(),
{
    if queue.len() > 0 && queue.last().capacity < need {
        let rest = queue.drop_last();
        lemma_last_fit(rest, need);
        match last_fit(rest, need) {
            Some(at) => {
                assert(rest[at] == queue[at]);
                assert forall|j: int| at < j < queue.len() implies (#[trigger] queue[j]).capacity < need by {
                    if j < rest.len() {
                        assert(rest[j] == queue[j]);
                    }
                }
            },
            None => {
                assert forall|j: int| 0 <= j < queue.len() implies (#[trigger] queue[j]).capacity < need by {
                    if j < rest.len() {
                        assert(rest[j] == queue[j]);
                    }
                }
            },
        }
    }
}

/// Removes and returns the entry nearest to the back of `items` that `f`
/// accepts, leaving the order of the remaining entries unchanged.
///
/// The back of the queue holds the most recently pushed entry, so among the
/// acceptable entries the one released last is taken. Returns `None`, and
/// leaves the queue as it was, when `f` accepts no entry.
pub fn remove_last_by<T, F: Fn(&T) -> bool>(items: &mut VecDeque<T>, f: F) -> (found: Option<T>)
    requires
        forall|i: int| 0 <= i < old(items)@.len() ==> call_requires(f, (&#[trigger] old(items)@[i],)),
    ensures
        match found {
            Some(item) => exists|i: int|
                {
                    &&& 0 <= i < old(items)@.len()
                    &&& item == #[trigger] old(items)@[i]
                    &&& call_ensures(f, (&old(items)@[i],), true)
                    &&& forall|j: int|
                        i < j < old(items)@.len() ==> call_ensures(
                            f,
                            (&#[trigger] old(items)@[j],),
                            false,
                        )
                    &&& final(items)@ == old(items)@.remove(i)
                },
            None => {
                &&& final(items)@ == old(items)@
                &&& forall|j: int|
                    0 <= j < old(items)@.len() ==> call_ensures(
                        f,
                        (&#[trigger] old(items)@[j],),
                        false,
                    )
            },
        },
{
    let mut idx: usize = items.len();
    while idx > 0
        invariant
            items@ == old(items)@,
            idx <= items@.len(),
            forall|i: int| 0 <= i < items@.len() ==> call_requires(f, (&#[trigger] items@[i],)),
            forall|j: int|
                idx <= j < items@.len() ==> call_ensures(f, (&#[trigger] items@[j],), false),
        decreases idx,
    {
        idx = idx - 1;
        if f(&items[idx]) {
            let found = items.remove(idx);
            return found;
        }
    }
    None
}

} // verus!
