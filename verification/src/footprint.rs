//! Footprints of queues and of candidate batches, and the mathematics they are stated in.

use crate::message::{ParaId, MAX_MESSAGE_LEN};
use vstd::prelude::*;

verus! {

/// How many messages a queue holds and how many bytes they add up to.
#[derive(Clone, Copy, Debug, PartialEq, Eq, Structural)]
pub struct Footprint {
    pub count: u64,
    pub size: u64,
}

/// The resource footprint of one tenant's queue.
#[derive(Clone, Copy, Debug, PartialEq, Eq, Structural)]
pub struct QueueFootprint {
    /// Pages taken up by the queue.
    pub pages: u32,
    /// Pages that are ready to be served.
    pub ready_pages: u32,
    /// Message count and byte volume.
    pub storage: Footprint,
}

/// The resource footprint of the first `msgs_count` messages of a candidate batch.
#[derive(Clone, Copy, Debug, PartialEq, Eq, Structural)]
pub struct BatchFootprint {
    pub msgs_count: usize,
    pub size_in_bytes: usize,
    pub new_pages_count: u32,
}

/// One stored message with the tenant that owns it.
pub type Entry = (ParaId, Seq<u8>);

/// The sum of the lengths of `msgs`.
pub open spec fn total_len(msgs: Seq<Seq<u8>>) -> nat
    decreases msgs.len(),
{
    if msgs.len() == 0 {
        0
    } else {
        total_len(msgs.drop_last()) + msgs.last().len()
    }
}

/// The messages of `origin` among `entries`, in the order in which they were stored.
pub open spec fn queue_of(entries: Seq<Entry>, origin: ParaId) -> Seq<Seq<u8>> {
    entries.filter(|e: Entry| e.0 == origin).map_values(|e: Entry| e.1)
}

/// What is left of `entries` once everything of `origin` is taken out.
pub open spec fn without(entries: Seq<Entry>, origin: ParaId) -> Seq<Entry> {
    entries.filter(|e: Entry| e.0 != origin)
}

/// `msgs`, each tagged as belonging to `origin`.
pub open spec fn tagged(origin: ParaId, msgs: Seq<Seq<u8>>) -> Seq<Entry> {
    msgs.map_values(|m: Seq<u8>| (origin, m))
}

/// The footprint of a queue under the policy of one message per page, with nothing held back.
pub open spec fn footprint_of(queue: Seq<Seq<u8>>) -> QueueFootprint {
    QueueFootprint {
        pages: queue.len() as u32,
        ready_pages: queue.len() as u32,
        storage: Footprint { count: queue.len() as u64, size: total_len(queue) as u64 },
    }
}

/// `footprint` counts `queue` exactly: its messages, their bytes, and a ready page for each.
pub open spec fn is_footprint_of(footprint: QueueFootprint, queue: Seq<Seq<u8>>) -> bool {
    &&& footprint.storage.count == queue.len()
    &&& footprint.storage.size == total_len(queue)
    &&& footprint.pages == queue.len()
    &&& footprint.ready_pages == queue.len()
}

/// How many leading candidates can join a queue of `base` pages under `limit` pages in all.
pub open spec fn includable(base: nat, candidates: nat, limit: nat) -> nat {
    if limit <= base {
        0
    } else if candidates <= limit - base {
        candidates
    } else {
        (limit - base) as nat
    }
}

/// `plan` is the batch plan for `msgs` on top of `base` pages under `limit`: one entry for
/// each includable prefix, shortest first, each giving the prefix's length, bytes and pages.
pub open spec fn is_plan_of(
    plan: Seq<BatchFootprint>,
    base: nat,
    msgs: Seq<Seq<u8>>,
    limit: nat,
) -> bool {
    &&& plan.len() == includable(base, msgs.len(), limit)
    &&& forall|i: int|
        0 <= i < plan.len() ==> {
            &&& (#[trigger] plan[i]).msgs_count == i + 1
            &&& plan[i].size_in_bytes == total_len(msgs.take(i + 1))
            &&& plan[i].new_pages_count == i + 1
        }
}

/// Appending one message adds its length to the total.
pub proof fn lemma_total_len_push(msgs: Seq<Seq<u8>>, m: Seq<u8>)
    ensures
        total_len(msgs.push(m)) == total_len(msgs) + m.len(),
{
    assert(msgs.push(m).drop_last() =~= msgs);
}

/// The total of a concatenation is the sum of the totals.
pub proof fn lemma_total_len_add(a: Seq<Seq<u8>>, b: Seq<Seq<u8>>)
    ensures
        total_len(a + b) == total_len(a) + total_len(b),
    decreases b.len(),
{
    if b.len() == 0 {
        assert(a + b =~= a);
    } else {
        lemma_total_len_add(a, b.drop_last());
        assert((a + b).drop_last() =~= a + b.drop_last());
    }
}

/// A longer prefix never totals less than a shorter one.
pub proof fn lemma_total_len_take_monotonic(msgs: Seq<Seq<u8>>, i: int, j: int)
    requires
        0 <= i <= j <= msgs.len(),
    ensures
        total_len(msgs.take(i)) <= total_len(msgs.take(j)),
{
    assert(msgs.take(j) =~= msgs.take(i) + msgs.subrange(i, j));
    lemma_total_len_add(msgs.take(i), msgs.subrange(i, j));
}

/// Messages of at most `bound` bytes each total at most `bound` times their number.
pub proof fn lemma_total_len_bounded(msgs: Seq<Seq<u8>>, bound: nat)
    requires
        forall|i: int| 0 <= i < msgs.len() ==> (#[trigger] msgs[i]).len() <= bound,
    ensures
        total_len(msgs) <= bound * msgs.len(),
    decreases msgs.len(),
{
    if msgs.len() > 0 {
        lemma_total_len_bounded(msgs.drop_last(), bound);
        assert(bound * msgs.len() == bound * (msgs.len() - 1) + bound) by (nonlinear_arith);
    }
}

/// The footprint of a queue counts it exactly as long as the queue has no more messages
/// than a footprint has room for pages and every message keeps to the length bound: the
/// count is the number of messages, the size the sum of their lengths, and every message has
/// its page.
pub proof fn lemma_footprint_exact(queue: Seq<Seq<u8>>)
    requires
        queue.len() <= u32::MAX,
        forall|i: int| 0 <= i < queue.len() ==> (#[trigger] queue[i]).len() <= MAX_MESSAGE_LEN,
    ensures
        is_footprint_of(footprint_of(queue), queue),
        queue.len() == 0 ==> footprint_of(queue) == (QueueFootprint {
            pages: 0,
            ready_pages: 0,
            storage: Footprint { count: 0, size: 0 },
        }),
{
    lemma_total_len_bounded(queue, MAX_MESSAGE_LEN as nat);
    assert(MAX_MESSAGE_LEN * queue.len() <= 256 * 0xffff_ffff) by (nonlinear_arith)
        requires
            queue.len() <= 0xffff_ffff,
            MAX_MESSAGE_LEN == 256,
    ;
}

/// Storing one more entry appends its message to its owner's queue and touches no other.
pub proof fn lemma_queue_of_push(entries: Seq<Entry>, entry: Entry, origin: ParaId)
    ensures
        queue_of(entries.push(entry), origin) == if entry.0 == origin {
            queue_of(entries, origin).push(entry.1)
        } else {
            queue_of(entries, origin)
        },
{
    reveal(Seq::filter);
    let keep = |e: Entry| e.0 == origin;
    let message = |e: Entry| e.1;
    assert(entries.push(entry).drop_last() =~= entries);
    if entry.0 == origin {
        assert(entries.filter(keep).push(entry).map_values(message) =~= entries.filter(
            keep,
        ).map_values(message).push(entry.1));
    }
}

/// The queue of a concatenation is the concatenation of the queues.
pub proof fn lemma_queue_of_add(a: Seq<Entry>, b: Seq<Entry>, origin: ParaId)
    ensures
        queue_of(a + b, origin) == queue_of(a, origin) + queue_of(b, origin),
    decreases b.len(),
{
    if b.len() == 0 {
        reveal(Seq::filter);
        assert(a + b =~= a);
        assert(queue_of(b, origin) =~= Seq::<Seq<u8>>::empty());
        assert(queue_of(a, origin) + queue_of(b, origin) =~= queue_of(a, origin));
    } else {
        lemma_queue_of_add(a, b.drop_last(), origin);
        assert(a + b =~= (a + b.drop_last()).push(b.last()));
        assert(b =~= b.drop_last().push(b.last()));
        lemma_queue_of_push(a + b.drop_last(), b.last(), origin);
        lemma_queue_of_push(b.drop_last(), b.last(), origin);
        if b.last().0 == origin {
            assert((queue_of(a, origin) + queue_of(b.drop_last(), origin)).push(b.last().1)
                =~= queue_of(a, origin) + queue_of(b.drop_last(), origin).push(b.last().1));
        }
    }
}

/// Nothing stored, nothing queued.
pub proof fn lemma_queue_of_empty(origin: ParaId)
    ensures
        queue_of(Seq::<Entry>::empty(), origin) == Seq::<Seq<u8>>::empty(),
{
    reveal(Seq::filter);
    assert(queue_of(Seq::<Entry>::empty(), origin) =~= Seq::<Seq<u8>>::empty());
}

/// A tenant's queue among the first `i` entries is the head of its queue among all of them.
pub proof fn lemma_queue_of_take(entries: Seq<Entry>, i: int, origin: ParaId)
    requires
        0 <= i <= entries.len(),
    ensures
        queue_of(entries.take(i), origin).len() <= queue_of(entries, origin).len(),
        queue_of(entries.take(i), origin) == queue_of(entries, origin).take(
            queue_of(entries.take(i), origin).len() as int,
        ),
{
    assert(entries =~= entries.take(i) + entries.skip(i));
    lemma_queue_of_add(entries.take(i), entries.skip(i), origin);
    assert((queue_of(entries.take(i), origin) + queue_of(entries.skip(i), origin)).take(
        queue_of(entries.take(i), origin).len() as int,
    ) =~= queue_of(entries.take(i), origin));
}

/// Messages tagged with one tenant form that tenant's queue, and nobody else's.
pub proof fn lemma_queue_of_tagged(tenant: ParaId, msgs: Seq<Seq<u8>>, origin: ParaId)
    ensures
        queue_of(tagged(tenant, msgs), origin) == if tenant == origin {
            msgs
        } else {
            Seq::<Seq<u8>>::empty()
        },
    decreases msgs.len(),
{
    if msgs.len() == 0 {
        reveal(Seq::filter);
        assert(queue_of(tagged(tenant, msgs), origin) =~= Seq::<Seq<u8>>::empty());
        assert(msgs =~= Seq::<Seq<u8>>::empty());
    } else {
        lemma_queue_of_tagged(tenant, msgs.drop_last(), origin);
        assert(tagged(tenant, msgs) =~= tagged(tenant, msgs.drop_last()).push(
            (tenant, msgs.last()),
        ));
        lemma_queue_of_push(tagged(tenant, msgs.drop_last()), (tenant, msgs.last()), origin);
        assert(msgs =~= msgs.drop_last().push(msgs.last()));
    }
}

/// Taking a tenant out empties that tenant's queue and leaves every other queue as it was.
pub proof fn lemma_queue_of_without(entries: Seq<Entry>, swept: ParaId, origin: ParaId)
    ensures
        queue_of(without(entries, swept), origin) == if swept == origin {
            Seq::<Seq<u8>>::empty()
        } else {
            queue_of(entries, origin)
        },
    decreases entries.len(),
{
    reveal(Seq::filter);
    if entries.len() == 0 {
        assert(queue_of(without(entries, swept), origin) =~= Seq::<Seq<u8>>::empty());
        assert(queue_of(entries, origin) =~= Seq::<Seq<u8>>::empty());
    } else {
        lemma_queue_of_without(entries.drop_last(), swept, origin);
        assert(entries =~= entries.drop_last().push(entries.last()));
        lemma_queue_of_push(entries.drop_last(), entries.last(), origin);
        if entries.last().0 != swept {
            lemma_queue_of_push(without(entries.drop_last(), swept), entries.last(), origin);
        }
    }
}

/// A plan's entries grow: the message count strictly, the bytes and the pages never
/// downwards. With every entry the queue stays within the page limit.
pub proof fn lemma_plan_monotonic(
    plan: Seq<BatchFootprint>,
    base: nat,
    msgs: Seq<Seq<u8>>,
    limit: nat,
)
    requires
        is_plan_of(plan, base, msgs, limit),
    ensures
        forall|i: int, j: int|
            0 <= i < j < plan.len() ==> {
                &&& (#[trigger] plan[i]).msgs_count < (#[trigger] plan[j]).msgs_count
                &&& plan[i].size_in_bytes <= plan[j].size_in_bytes
                &&& plan[i].new_pages_count <= plan[j].new_pages_count
            },
        forall|i: int| 0 <= i < plan.len() ==> base + (#[trigger] plan[i]).new_pages_count <= limit,
{
    assert forall|i: int, j: int| 0 <= i < j < plan.len() implies {
        &&& (#[trigger] plan[i]).msgs_count < (#[trigger] plan[j]).msgs_count
        &&& plan[i].size_in_bytes <= plan[j].size_in_bytes
        &&& plan[i].new_pages_count <= plan[j].new_pages_count
    } by {
        assert(msgs.take(j + 1).take(i + 1) =~= msgs.take(i + 1));
        lemma_total_len_take_monotonic(msgs.take(j + 1), i + 1, j + 1);
        assert(msgs.take(j + 1).take(j + 1) =~= msgs.take(j + 1));
    }
}

/// A plan is as long as the room under the limit allows and no longer than the candidates:
/// without candidates, or with the limit already reached, it is empty.
pub proof fn lemma_plan_len(plan: Seq<BatchFootprint>, base: nat, msgs: Seq<Seq<u8>>, limit: nat)
    requires
        is_plan_of(plan, base, msgs, limit),
    ensures
        msgs.len() == 0 ==> plan.len() == 0,
        limit <= base ==> plan.len() == 0,
        plan.len() <= msgs.len(),
        base + plan.len() <= limit || plan.len() == 0,
        plan.len() < msgs.len() ==> base + plan.len() >= limit,
{
}

} // verus!
