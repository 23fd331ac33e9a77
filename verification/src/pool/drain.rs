//! Eviction: idle objects that were not used for too long leave the pool.

use super::lease::LeaseView;
use super::model::{PoolView, QueueView, Status};
use super::queue::Idle;
use super::Pool;
use std::collections::VecDeque;
use vstd::prelude::*;

verus! {

impl PoolView {
    /// The entries of `queue` that stay: those that are not stale, in their order.
    pub open spec fn fresh_in(self, queue: Seq<Idle>) -> Seq<Idle> {
        queue.filter(|e: Idle| !self.stale(e))
    }

    /// The entries of `queue` that leave: those that are stale, in their order.
    pub open spec fn stale_in(self, queue: Seq<Idle>) -> Seq<Idle> {
        queue.filter(|e: Idle| self.stale(e))
    }

    /// Whether the object `id` waits in a queue and is stale.
    pub open spec fn evicts(self, id: int) -> bool {
        exists|s: int, i: int| #[trigger]
            self.has_entry(s, i) && self.entry(s, i).id == id && self.stale(self.entry(s, i))
    }

    /// The stale entries of the first `n` queues: queue by queue, each from
    /// its front to its back.
    pub open spec fn evicted_from(self, n: int) -> Seq<Idle>
        decreases n,
    {
        if n <= 0 {
            Seq::empty()
        } else {
            self.evicted_from(n - 1) + self.stale_in(self.queues[n - 1].idle)
        }
    }

    /// The entries that an eviction pass removes, in the order in which it
    /// yields them.
    pub open spec fn evicted(self) -> Seq<Idle> {
        self.evicted_from(self.queues.len() as int)
    }

    /// The pool after an eviction pass: every queue keeps its fresh
    /// entries, and the objects of the stale ones are gone.
    pub open spec fn drained(self) -> PoolView {
        PoolView {
            queues: Seq::new(
                self.queues.len(),
                |s: int| QueueView { key: self.queues[s].key, idle: self.fresh_in(self.queues[s].idle) },
            ),
            objects: Seq::new(
                self.objects.len(),
                |id: int| if self.evicts(id) {
                    Status::Gone
                } else {
                    self.objects[id]
                },
            ),
            ..self
        }
    }
}

/// Filtering a sequence with one more entry at its end: the entry is kept
/// or dropped, and the entries before it fare as they did.
pub proof fn lemma_filter_push<A>(s: Seq<A>, a: A, pred: spec_fn(A) -> bool)
    ensures
        s.push(a).filter(pred) == if pred(a) {
            s.filter(pred).push(a)
        } else {
            s.filter(pred)
        },
{
    reveal(Seq::filter);
    assert(s.push(a).drop_last() =~= s);
}

/// Where the entry that stands at `i` after filtering stood before.
pub open spec fn origin<A>(s: Seq<A>, pred: spec_fn(A) -> bool, i: int) -> int
    decreases s.len(),
{
    if s.len() == 0 {
        0
    } else if pred(s.last()) && i == s.drop_last().filter(pred).len() {
        s.len() - 1
    } else {
        origin(s.drop_last(), pred, i)
    }
}

/// Every entry of a filtered sequence is an entry of the sequence that was
/// filtered, and one that the filter accepts.
pub proof fn lemma_origin<A>(s: Seq<A>, pred: spec_fn(A) -> bool, i: int)
    requires
        0 <= i < s.filter(pred).len(),
    ensures
        0 <= origin(s, pred, i) < s.len(),
        s[origin(s, pred, i)] == s.filter(pred)[i],
        pred(s[origin(s, pred, i)]),
    decreases s.len(),
{
    reveal(Seq::filter);
    if s.len() > 0 {
        let rest = s.drop_last();
        if pred(s.last()) && i == rest.filter(pred).len() {
        } else {
            lemma_origin(rest, pred, i);
        }
    }
}

/// Filtering keeps the order of the entries.
pub proof fn lemma_origin_ascends<A>(s: Seq<A>, pred: spec_fn(A) -> bool, i: int, k: int)
    requires
        0 <= i < k < s.filter(pred).len(),
    ensures
        origin(s, pred, i) < origin(s, pred, k),
    decreases s.len(),
{
    reveal(Seq::filter);
    if s.len() > 0 {
        let rest = s.drop_last();
        if pred(s.last()) && k == rest.filter(pred).len() {
            lemma_origin(rest, pred, i);
        } else {
            lemma_origin_ascends(rest, pred, i, k);
        }
    }
}

/// An eviction pass keeps the pool valid and touches no lease: only
/// objects that wait in a queue can leave.
pub proof fn lemma_drained(pool: PoolView)
    requires
        pool.inv(),
    ensures
        pool.drained().inv(),
        forall|lease: LeaseView| pool.holds(lease) ==> pool.drained().holds(lease),
        forall|s: int, i: int| #[trigger]
            pool.drained().has_entry(s, i) ==> !pool.stale(pool.drained().entry(s, i)),
{
    let next = pool.drained();
    let fresh = |e: Idle| !pool.stale(e);
    assert forall|s: int, i: int| #[trigger] next.has_entry(s, i) implies {
        let k = origin(pool.queues[s].idle, fresh, i);
        &&& pool.has_entry(s, k)
        &&& pool.entry(s, k) == next.entry(s, i)
        &&& !pool.stale(next.entry(s, i))
        &&& !pool.evicts(next.entry(s, i).id as int)
    } by {
        let k = origin(pool.queues[s].idle, fresh, i);
        lemma_origin(pool.queues[s].idle, fresh, i);
        assert(pool.has_entry(s, k));
        if pool.evicts(next.entry(s, i).id as int) {
            let (t, j) = choose|t: int, j: int| #[trigger]
                pool.has_entry(t, j) && pool.entry(t, j).id == next.entry(s, i).id && pool.stale(
                    pool.entry(t, j),
                );
            assert(pool.has_entry(t, j));
            assert(t == s && j == k);
        }
    }
    assert forall|s: int, i: int, t: int, j: int|
        #[trigger] next.has_entry(s, i) && #[trigger] next.has_entry(t, j) && next.entry(s, i).id
            == next.entry(t, j).id implies s == t && i == j by {
        let k = origin(pool.queues[s].idle, fresh, i);
        let m = origin(pool.queues[t].idle, fresh, j);
        assert(pool.has_entry(s, k));
        assert(pool.has_entry(t, m));
        assert(s == t && k == m);
        if i < j {
            lemma_origin_ascends(pool.queues[s].idle, fresh, i, j);
        }
        if j < i {
            lemma_origin_ascends(pool.queues[s].idle, fresh, j, i);
        }
    }
    assert forall|lease: LeaseView| pool.holds(lease) implies next.holds(lease) by {
        if pool.evicts(lease.id as int) {
            let (t, j) = choose|t: int, j: int| #[trigger]
                pool.has_entry(t, j) && pool.entry(t, j).id == lease.id && pool.stale(pool.entry(t, j));
            assert(pool.has_entry(t, j));
        }
    }
    assert forall|id: int| 0 <= id < next.objects.len() implies (#[trigger] next.objects[id] matches Status::Leased {
        slot,
        ..
    } ==> slot < next.queues.len()) by {
        assert(next.objects[id] is Leased ==> next.objects[id] == pool.objects[id]);
    }
}

/// The objects that an eviction pass has removed from the pool and that
/// the caller is to destroy.
#[derive(Debug)]
pub struct Drain {
    items: Vec<Idle>,
    next: usize,
}

impl View for Drain {
    type V = Seq<Idle>;

    /// What is still to be yielded, in order.
    closed spec fn view(&self) -> Seq<Idle> {
        if self.next <= self.items@.len() {
            self.items@.subrange(self.next as int, self.items@.len() as int)
        } else {
            Seq::empty()
        }
    }
}

impl Drain {
    /// Yields the next evicted object, if any is left.
    pub fn next(&mut self) -> (item: Option<Idle>)
        ensures
            match item {
                Some(e) => old(self)@.len() > 0 && e == old(self)@[0] && final(self)@ == old(self)@.drop_first(),
                None => old(self)@.len() == 0 && final(self)@ == old(self)@,
            },
    {
        if self.next < self.items.len() {
            let e = self.items[self.next];
            self.next = self.next + 1;
            assert(self@ =~= old(self)@.drop_first());
            Some(e)
        } else {
            None
        }
    }

    /// How many evicted objects are still to be yielded.
    pub fn remaining(&self) -> (count: usize)
        ensures
            count == self@.len(),
    {
        if self.next <= self.items.len() {
            self.items.len() - self.next
        } else {
            0
        }
    }
}

impl Pool {
    /// Whether an idle entry has been unused for more than `lru_threshold` frames.
    fn is_stale(&self, e: &Idle) -> (stale: bool)
        ensures
            stale == self@.stale(*e),
    {
        e.released <= self.frame() && self.frame() - e.released > self.lru_threshold as u64
    }

    /// Removes unused memory-consuming items from the pool: every idle object
    /// that was released more than `lru_threshold` frames ago leaves its
    /// queue and is yielded, for the caller to destroy. Leased objects are
    /// not touched. The objects leave the pool with this call, all of them,
    /// whether or not the caller takes each from the `Drain`: a caller who
    /// stops early has to destroy what is left in it all the same.
    pub fn drain(&mut self) -> (drain: Drain)
        requires
            old(self)@.inv(),
        ensures
            final(self)@ == old(self)@.drained(),
            final(self)@.inv(),
            drain@ == old(self)@.evicted(),
    {
        let ghost before = self@;
        let mut out: Vec<Idle> = Vec::new();
        let mut s: usize = 0;
        while s < self.queue_count()
            invariant
                before.inv(),
                s <= before.queues.len(),
                self@.queues.len() == before.queues.len(),
                self@.objects.len() == before.objects.len(),
                self@.passes == before.passes,
                self@.frame == before.frame,
                self@.lru_threshold == before.lru_threshold,
                forall|t: int|
                    0 <= t < before.queues.len() ==> (#[trigger] self@.queues[t]).key == before.queues[t].key,
                forall|t: int|
                    0 <= t < s ==> (#[trigger] self@.queues[t]).idle == before.fresh_in(before.queues[t].idle),
                forall|t: int|
                    s <= t < before.queues.len() ==> (#[trigger] self@.queues[t]).idle == before.queues[t].idle,
                forall|id: int|
                    0 <= id < before.objects.len() ==> #[trigger] self@.objects[id] == if evicts_before(
                        before,
                        id,
                        s as int,
                        0,
                    ) {
                        Status::Gone
                    } else {
                        before.objects[id]
                    },
                out@ == before.evicted_from(s as int),
            decreases before.queues.len() - s,
        {
            let mut kept: VecDeque<Idle> = VecDeque::new();
            let n = self.idle_count(s);
            let ghost queue = before.queues[s as int].idle;
            let mut i: usize = 0;
            proof {
                reveal(Seq::filter);
                assert(queue.subrange(0, 0) =~= Seq::empty());
                assert(out@ + before.stale_in(queue.subrange(0, 0)) =~= out@);
            }
            while i < n
                invariant
                    before.inv(),
                    s < before.queues.len(),
                    queue == before.queues[s as int].idle,
                    n == queue.len(),
                    i <= n,
                    self@.queues.len() == before.queues.len(),
                    self@.objects.len() == before.objects.len(),
                    self@.passes == before.passes,
                    self@.frame == before.frame,
                    self@.lru_threshold == before.lru_threshold,
                    forall|t: int|
                        0 <= t < before.queues.len() ==> (#[trigger] self@.queues[t]).key
                            == before.queues[t].key,
                    forall|t: int|
                        0 <= t < s ==> (#[trigger] self@.queues[t]).idle == before.fresh_in(
                            before.queues[t].idle,
                        ),
                    forall|t: int|
                        s <= t < before.queues.len() ==> (#[trigger] self@.queues[t]).idle
                            == before.queues[t].idle,
                    forall|id: int|
                        0 <= id < before.objects.len() ==> #[trigger] self@.objects[id] == if evicts_before(
                            before,
                            id,
                            s as int,
                            i as int,
                        ) {
                            Status::Gone
                        } else {
                            before.objects[id]
                        },
                    kept@ == before.fresh_in(queue.subrange(0, i as int)),
                    out@ == before.evicted_from(s as int) + before.stale_in(queue.subrange(0, i as int)),
                decreases n - i,
            {
                let e = self.idle_at(s, i);
                let ghost done = queue.subrange(0, i as int);
                let ghost objects = self@.objects;
                proof {
                    assert(queue.subrange(0, i as int + 1) =~= done.push(e));
                    lemma_filter_push(done, e, |e: Idle| !before.stale(e));
                    lemma_filter_push(done, e, |e: Idle| before.stale(e));
                    assert(before.has_entry(s as int, i as int));
                    assert(before.entry(s as int, i as int) == e);
                }
                if self.is_stale(&e) {
                    out.push(e);
                    self.mark_gone(e.id);
                    proof {
                        assert(out@ =~= before.evicted_from(s as int) + before.stale_in(
                            queue.subrange(0, i as int + 1),
                        ));
                    }
                } else {
                    kept.push_back(e);
                }
                proof {
                    assert forall|id: int| 0 <= id < before.objects.len() implies #[trigger] self@.objects[id]
                        == if evicts_before(before, id, s as int, i as int + 1) {
                        Status::Gone
                    } else {
                        before.objects[id]
                    } by {
                        assert(objects[id] == if evicts_before(before, id, s as int, i as int) {
                            Status::Gone
                        } else {
                            before.objects[id]
                        });
                        lemma_evicts_before_step(before, id, s as int, i as int);
                    }
                }
                i = i + 1;
            }
            proof {
                assert(queue.subrange(0, n as int) =~= queue);
                assert forall|id: int| 0 <= id < before.objects.len() implies evicts_before(
                    before,
                    id,
                    s as int,
                    n as int,
                ) == evicts_before(before, id, s as int + 1, 0) by {
                    lemma_evicts_before_next(before, id, s as int);
                }
            }
            self.set_idle(s, kept);
            s = s + 1;
        }
        proof {
            assert forall|id: int| 0 <= id < before.objects.len() implies evicts_before(
                before,
                id,
                before.queues.len() as int,
                0,
            ) == before.evicts(id) by {
                lemma_evicts_before_all(before, id);
            }
            assert(self@.queues =~= before.drained().queues);
            assert(self@.objects =~= before.drained().objects);
            lemma_drained(before);
        }
        Drain { items: out, next: 0 }
    }
}

/// Whether the object `id` waits, stale, in one of the first `s` queues or
/// among the first `i` entries of queue `s`.
pub open spec fn evicts_before(pool: PoolView, id: int, s: int, i: int) -> bool {
    exists|t: int, j: int| #[trigger]
        pool.has_entry(t, j) && pool.entry(t, j).id == id && pool.stale(pool.entry(t, j)) && (t < s || (t
            == s && j < i))
}

/// One more entry is looked at: the objects that are known to leave are
/// those known before, and the entry's own object if the entry is stale.
proof fn lemma_evicts_before_step(pool: PoolView, id: int, s: int, i: int)
    requires
        pool.inv(),
        pool.has_entry(s, i),
    ensures
        evicts_before(pool, id, s, i + 1) == (evicts_before(pool, id, s, i) || (pool.entry(s, i).id == id
            && pool.stale(pool.entry(s, i)))),
{
    if evicts_before(pool, id, s, i + 1) {
        let (t, j) = choose|t: int, j: int| #[trigger]
            pool.has_entry(t, j) && pool.entry(t, j).id == id && pool.stale(pool.entry(t, j)) && (t < s || (t
                == s && j < i + 1));
        assert(pool.has_entry(t, j));
        if !(t == s && j == i) {
            assert(t < s || (t == s && j < i));
        }
    }
    if evicts_before(pool, id, s, i) {
        let (t, j) = choose|t: int, j: int| #[trigger]
            pool.has_entry(t, j) && pool.entry(t, j).id == id && pool.stale(pool.entry(t, j)) && (t < s || (t
                == s && j < i));
        assert(pool.has_entry(t, j) && (t < s || (t == s && j < i + 1)));
    }
    if pool.entry(s, i).id == id && pool.stale(pool.entry(s, i)) {
        assert(pool.has_entry(s, i) && (s < s || (s == s && i < i + 1)));
    }
}

/// A queue that was looked through counts as one of the queues before the next.
proof fn lemma_evicts_before_next(pool: PoolView, id: int, s: int)
    requires
        0 <= s < pool.queues.len(),
    ensures
        evicts_before(pool, id, s, pool.queues[s].idle.len() as int) == evicts_before(pool, id, s + 1, 0),
{
    let n = pool.queues[s].idle.len() as int;
    if evicts_before(pool, id, s, n) {
        let (t, j) = choose|t: int, j: int| #[trigger]
            pool.has_entry(t, j) && pool.entry(t, j).id == id && pool.stale(pool.entry(t, j)) && (t < s || (t
                == s && j < n));
        assert(pool.has_entry(t, j) && (t < s + 1 || (t == s + 1 && j < 0)));
    }
    if evicts_before(pool, id, s + 1, 0) {
        let (t, j) = choose|t: int, j: int| #[trigger]
            pool.has_entry(t, j) && pool.entry(t, j).id == id && pool.stale(pool.entry(t, j)) && (t < s + 1
                || (t == s + 1 && j < 0));
        assert(pool.has_entry(t, j) && (t < s || (t == s && j < n)));
    }
}

/// Once every queue was looked through, what is known to leave is all that leaves.
proof fn lemma_evicts_before_all(pool: PoolView, id: int)
    ensures
        evicts_before(pool, id, pool.queues.len() as int, 0) == pool.evicts(id),
{
    let n = pool.queues.len() as int;
    if evicts_before(pool, id, n, 0) {
        let (t, j) = choose|t: int, j: int| #[trigger]
            pool.has_entry(t, j) && pool.entry(t, j).id == id && pool.stale(pool.entry(t, j)) && (t < n || (t
                == n && j < 0));
        assert(pool.has_entry(t, j));
    }
    if pool.evicts(id) {
        let (t, j) = choose|t: int, j: int| #[trigger]
            pool.has_entry(t, j) && pool.entry(t, j).id == id && pool.stale(pool.entry(t, j));
        assert(pool.has_entry(t, j) && (t < n || (t == n && j < 0)));
    }
}

} // verus!
