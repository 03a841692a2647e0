use vstd::prelude::*;
use indexmap::IndexSet;
use core::cmp::Ordering;
use crate::geometry::Int3;

verus! {

/// A chunk position in the generation queue.
pub type QueuedChunk = (i32, i32, i32);

#[verifier::external_type_specification]
#[verifier::external_body]
#[verifier::reject_recursive_types(T)]
#[verifier::reject_recursive_types(S)]
pub struct ExIndexSet<T, S>(IndexSet<T, S>);

/// The positions an `indexmap::IndexSet` of chunk positions holds, in its order.
pub uninterp spec fn queue_items(s: IndexSet<(i32, i32, i32)>) -> Seq<(i32, i32, i32)>;

/// A queued position as a vector.
pub open spec fn queued_pos(a: QueuedChunk) -> Int3 {
    Int3 { x: a.0, y: a.1, z: a.2 }
}

/// The Manhattan distance between two queued positions.
pub open spec fn spec_manhattan(a: QueuedChunk, b: QueuedChunk) -> int {
    queued_pos(a).spec_manhattan(queued_pos(b))
}

/// `s` lists the positions of `old` farthest from `center` first, positions at
/// equal distance in the order `old` lists them.
pub open spec fn sorted_far_first(old: Seq<QueuedChunk>, s: Seq<QueuedChunk>, center: QueuedChunk) -> bool {
    &&& s.to_multiset() == old.to_multiset()
    &&& s.len() == old.len()
    &&& forall|i: int, j: int|
        0 <= i < j < s.len() ==> spec_manhattan(#[trigger] s[i], center) >= spec_manhattan(
            #[trigger] s[j],
            center,
        )
    &&& forall|i: int, j: int|
        0 <= i < j < s.len() && spec_manhattan(#[trigger] s[i], center) == spec_manhattan(
            #[trigger] s[j],
            center,
        ) ==> old.index_of(s[i]) < old.index_of(s[j])
}

/// Manhattan distance, exact in a `u64`.
fn manhattan_u64(a: &QueuedChunk, b: &QueuedChunk) -> (d: u64)
    ensures
        d as int == spec_manhattan(*a, *b),
{
    let dx: i64 = if a.0 >= b.0 { a.0 as i64 - b.0 as i64 } else { b.0 as i64 - a.0 as i64 };
    let dy: i64 = if a.1 >= b.1 { a.1 as i64 - b.1 as i64 } else { b.1 as i64 - a.1 as i64 };
    let dz: i64 = if a.2 >= b.2 { a.2 as i64 - b.2 as i64 } else { b.2 as i64 - a.2 as i64 };
    (dx + dy + dz) as u64
}

/// Orders chunk positions farthest from `center` first.
pub fn compare_far_first(a: &QueuedChunk, b: &QueuedChunk, center: QueuedChunk) -> (o: Ordering)
    ensures
        o == Ordering::Less <==> spec_manhattan(*a, center) > spec_manhattan(*b, center),
        o == Ordering::Equal <==> spec_manhattan(*a, center) == spec_manhattan(*b, center),
        o == Ordering::Greater <==> spec_manhattan(*a, center) < spec_manhattan(*b, center),
{
    let da = manhattan_u64(a, &center);
    let db = manhattan_u64(b, &center);
    if db < da {
        Ordering::Less
    } else if db == da {
        Ordering::Equal
    } else {
        Ordering::Greater
    }
}

/// Calls `IndexSet::new`: an empty set.
#[verifier::external_body]
fn set_new() -> (s: IndexSet<(i32, i32, i32)>)
    ensures
        queue_items(s) == Seq::<QueuedChunk>::empty(),
{
    IndexSet::new()
}

/// Calls `IndexSet::insert`: a value not yet held is appended and `true`
/// returned; a value already held leaves the set as it was and gives `false`.
/// A set never holds a value twice.
#[verifier::external_body]
fn set_insert(s: &mut IndexSet<(i32, i32, i32)>, v: QueuedChunk) -> (added: bool)
    requires
        queue_items(*old(s)).no_duplicates(),
    ensures
        added == !queue_items(*old(s)).contains(v),
        added ==> queue_items(*final(s)) == queue_items(*old(s)).push(v),
        !added ==> queue_items(*final(s)) == queue_items(*old(s)),
        queue_items(*final(s)).no_duplicates(),
{
    s.insert(v)
}

/// Calls `IndexSet::len`.
#[verifier::external_body]
fn set_len(s: &IndexSet<(i32, i32, i32)>) -> (n: usize)
    ensures
        n == queue_items(*s).len(),
{
    s.len()
}

/// Calls `IndexSet::get_index`: the value at a position, `None` past the end.
#[verifier::external_body]
fn set_get_index(s: &IndexSet<(i32, i32, i32)>, i: usize) -> (r: Option<QueuedChunk>)
    ensures
        i < queue_items(*s).len() ==> r == Some(queue_items(*s)[i as int]),
        i >= queue_items(*s).len() ==> r is None,
{
    s.get_index(i).copied()
}

/// Calls `IndexSet::swap_remove`: a held value is removed and the last value
/// moved into its place; a value not held leaves the set as it was.
#[verifier::external_body]
fn set_swap_remove(s: &mut IndexSet<(i32, i32, i32)>, v: QueuedChunk) -> (removed: bool)
    requires
        queue_items(*old(s)).no_duplicates(),
    ensures
        removed == queue_items(*old(s)).contains(v),
        !removed ==> queue_items(*final(s)) == queue_items(*old(s)),
        removed ==> ({
            let o = queue_items(*old(s));
            let k = o.index_of(v);
            queue_items(*final(s)) == if k == o.len() - 1 {
                o.drop_last()
            } else {
                o.drop_last().update(k, o.last())
            }
        }),
        queue_items(*final(s)).no_duplicates(),
{
    s.swap_remove(&v)
}

/// Calls `IndexSet::sort_by` with `compare_far_first`: the sort is stable, so
/// the set ends up farthest-first with ties in their old order.
#[verifier::external_body]
fn set_sort_far_first(s: &mut IndexSet<(i32, i32, i32)>, center: QueuedChunk)
    requires
        queue_items(*old(s)).no_duplicates(),
    ensures
        sorted_far_first(queue_items(*old(s)), queue_items(*final(s)), center),
        queue_items(*final(s)).no_duplicates(),
{
    s.sort_by(|a, b| compare_far_first(a, b, center))
}

/// The Manhattan distance of two queued positions is the sum of their
/// distances along x, y and z.
pub proof fn lemma_manhattan_is_axis_sum(a: QueuedChunk, b: QueuedChunk)
    ensures
        spec_manhattan(a, b) == (if a.0 >= b.0 { a.0 - b.0 } else { b.0 - a.0 }) + (if a.1 >= b.1 {
            a.1 - b.1
        } else {
            b.1 - a.1
        }) + (if a.2 >= b.2 { a.2 - b.2 } else { b.2 - a.2 }),
        spec_manhattan(a, b) == spec_manhattan(b, a),
        spec_manhattan(a, b) >= 0,
        spec_manhattan(a, a) == 0,
{
}

/// A batch taken from the queue is the nearest part of it: where the queue's
/// remaining positions followed by the batch in reverse are its positions
/// sorted farthest first, the batch lists positions nearest first and no
/// position left in the queue is nearer to the center than any taken one.
pub proof fn lemma_batch_is_nearest(
    queued: Seq<QueuedChunk>,
    rest: Seq<QueuedChunk>,
    batch: Seq<QueuedChunk>,
    center: QueuedChunk,
)
    requires
        sorted_far_first(queued, rest + batch.reverse(), center),
    ensures
        forall|j: int, k: int|
            0 <= j < k < batch.len() ==> spec_manhattan(#[trigger] batch[j], center) <= spec_manhattan(
                #[trigger] batch[k],
                center,
            ),
        forall|i: int, j: int|
            0 <= i < rest.len() && 0 <= j < batch.len() ==> spec_manhattan(#[trigger] batch[j], center)
                <= spec_manhattan(#[trigger] rest[i], center),
        (rest + batch.reverse()).to_multiset() == queued.to_multiset(),
{
    let sorted = rest + batch.reverse();
    let n = rest.len() as int;
    let m = batch.len() as int;
    assert forall|j: int| 0 <= j < m implies sorted[n + m - 1 - j] == #[trigger] batch[j] by {
        assert(sorted[n + m - 1 - j] == batch.reverse()[m - 1 - j]);
    }
    assert forall|j: int, k: int| 0 <= j < k < m implies spec_manhattan(#[trigger] batch[j], center)
        <= spec_manhattan(#[trigger] batch[k], center) by {
        assert(sorted[n + m - 1 - j] == batch[j]);
        assert(sorted[n + m - 1 - k] == batch[k]);
    }
    assert forall|i: int, j: int| 0 <= i < n && 0 <= j < m implies spec_manhattan(#[trigger] batch[j], center)
        <= spec_manhattan(#[trigger] rest[i], center) by {
        assert(sorted[n + m - 1 - j] == batch[j]);
        assert(sorted[i] == rest[i]);
    }
}

/// The chunks waiting to be generated, and whether they have been queued or
/// moved since they were last sorted.
pub struct ChunkQueue {
    que: IndexSet<(i32, i32, i32)>,
    dirty: bool,
}

impl ChunkQueue {
    pub closed spec fn items(&self) -> Seq<QueuedChunk> {
        queue_items(self.que)
    }

    pub closed spec fn is_dirty(&self) -> bool {
        self.dirty
    }

    pub closed spec fn wf(&self) -> bool {
        queue_items(self.que).no_duplicates()
    }

    pub fn new() -> (r: ChunkQueue)
        ensures
            r.wf(),
            r.items() == Seq::<QueuedChunk>::empty(),
            !r.is_dirty(),
    {
        ChunkQueue { que: set_new(), dirty: false }
    }

    pub fn len(&self) -> (n: usize)
        ensures
            n == self.items().len(),
    {
        set_len(&self.que)
    }

    pub fn is_empty(&self) -> (b: bool)
        ensures
            b == (self.items().len() == 0),
    {
        set_len(&self.que) == 0
    }

    /// Queues a chunk; a chunk already queued keeps its place. Queuing a new
    /// chunk marks the queue as needing a sort.
    pub fn que(&mut self, pos: QueuedChunk)
        requires
            old(self).wf(),
        ensures
            final(self).wf(),
            old(self).items().contains(pos) ==> final(self).items() == old(self).items()
                && final(self).is_dirty() == old(self).is_dirty(),
            !old(self).items().contains(pos) ==> final(self).items() == old(self).items().push(pos)
                && final(self).is_dirty(),
    {
        if set_insert(&mut self.que, pos) {
            self.dirty = true;
        }
    }

    /// Marks the queue as needing a sort (the player moved).
    pub fn set_dirty(&mut self)
        ensures
            final(self).items() == old(self).items(),
            final(self).wf() == old(self).wf(),
            final(self).is_dirty(),
    {
        self.dirty = true;
    }

    /// Sorts the queue farthest from `center` first, if it needs a sort.
    pub fn sort_que(&mut self, center: QueuedChunk)
        requires
            old(self).wf(),
        ensures
            final(self).wf(),
            !final(self).is_dirty(),
            old(self).is_dirty() ==> sorted_far_first(old(self).items(), final(self).items(), center),
            !old(self).is_dirty() ==> final(self).items() == old(self).items(),
    {
        if !self.dirty {
            return;
        }
        set_sort_far_first(&mut self.que, center);
        self.dirty = false;
    }

    /// Takes up to `n` chunks to generate next: the queue is sorted if it needs
    /// it, then its last `n` chunks (the nearest) are removed and returned,
    /// last first. An empty queue is left as it is.
    pub fn take_batch(&mut self, center: QueuedChunk, n: usize) -> (batch: Vec<QueuedChunk>)
        requires
            old(self).wf(),
        ensures
            final(self).wf(),
            old(self).items().len() == 0 ==> batch@.len() == 0 && final(self).items() == old(
                self,
            ).items() && final(self).is_dirty() == old(self).is_dirty(),
            old(self).items().len() > 0 ==> ({
                let sorted = final(self).items() + batch@.reverse();
                &&& !final(self).is_dirty()
                &&& batch@.len() == if n < old(self).items().len() {
                    n as int
                } else {
                    old(self).items().len() as int
                }
                &&& old(self).is_dirty() ==> sorted_far_first(old(self).items(), sorted, center)
                &&& !old(self).is_dirty() ==> sorted == old(self).items()
            }),
    {
        let mut batch: Vec<QueuedChunk> = Vec::new();
        if self.is_empty() {
            return batch;
        }
        self.sort_que(center);
        let ghost sorted = self.items();
        let total = self.len();
        let count = if n < total {
            n
        } else {
            total
        };
        while batch.len() < count
            invariant
                self.wf(),
                !self.is_dirty(),
                sorted.len() == total,
                count <= total,
                batch@.len() <= count,
                self.items() == sorted.subrange(0, total - batch@.len()),
                batch@.reverse() == sorted.subrange(total - batch@.len(), total as int),
            decreases count - batch@.len(),
        {
            let last = set_len(&self.que) - 1;
            let ghost before = self.items();
            let v = match set_get_index(&self.que, last) {
                Some(v) => v,
                None => {
                    assert(false);
                    (0, 0, 0)
                },
            };
            proof {
                assert(before[last as int] == v);
                assert(before.contains(v));
                let k = before.index_of(v);
                assert(0 <= k < before.len() && before[k] == v);
                assert(k == last as int);
            }
            set_swap_remove(&mut self.que, v);
            let ghost old_batch = batch@;
            batch.push(v);
            proof {
                assert(self.items() =~= sorted.subrange(0, total - batch@.len()));
                assert(batch@.reverse() =~= sorted.subrange(total - batch@.len(), total as int)) by {
                    assert(batch@ == old_batch.push(v));
                    assert forall|i: int| 0 <= i < batch@.len() implies batch@.reverse()[i] == sorted.subrange(total - batch@.len(), total as int)[i] by {
                        if i == 0 {
                        } else {
                            assert(batch@.reverse()[i] == old_batch.reverse()[i - 1]);
                        }
                    }
                }
            }
        }
        proof {
            assert(sorted =~= self.items() + batch@.reverse());
        }
        batch
    }
}

} // verus!
