//! The queue store: every tenant's pending messages, their footprint, and the batch planner.

use crate::footprint::{
    footprint_of, is_footprint_of, is_plan_of, lemma_queue_of_add, lemma_queue_of_empty, lemma_queue_of_push,
    lemma_queue_of_tagged, lemma_queue_of_take, lemma_queue_of_without, lemma_total_len_push,
    lemma_total_len_take_monotonic, queue_of, tagged, total_len, without, BatchFootprint, Entry,
    Footprint, QueueFootprint,
};
use crate::message::{message_views, BoundedMessage, ParaId, MAX_MESSAGE_LEN};
use crate::notifier::{OnQueueChanged, QueueChange};
use vstd::prelude::*;
use vstd::slice::slice_to_vec;

verus! {

/// The most messages that one tenant's queue holds. A footprint counts pages in 32 bits and
/// every message takes a page.
pub const MAX_QUEUE_LEN: u32 = 4294967295;

/// The stored messages with their owners, oldest first. No tenant has more than
/// `MAX_QUEUE_LEN` of them, and none is longer than `MAX_MESSAGE_LEN`.
struct Records {
    stored: Vec<(ParaId, Vec<u8>)>,
}

impl View for Records {
    type V = Seq<Entry>;

    closed spec fn view(&self) -> Seq<Entry> {
        self.stored@.map_values(|e: (ParaId, Vec<u8>)| (e.0, e.1@))
    }
}

impl Records {
    #[verifier::type_invariant]
    spec fn within_capacity(self) -> bool {
        &&& forall|origin: ParaId| #[trigger] queue_of(self@, origin).len() <= MAX_QUEUE_LEN
        &&& forall|i: int|
            0 <= i < self.stored@.len() ==> (#[trigger] self.stored@[i]).1@.len()
                <= MAX_MESSAGE_LEN
    }

    fn new() -> (records: Records)
        ensures
            records@ == Seq::<Entry>::empty(),
    {
        let records = Records { stored: Vec::new() };
        proof {
            assert(records@ =~= Seq::<Entry>::empty());
            assert forall|origin: ParaId| #[trigger]
                queue_of(records@, origin).len() <= MAX_QUEUE_LEN by {
                lemma_queue_of_empty(origin);
            }
        }
        records
    }

    fn len(&self) -> (n: usize)
        ensures
            n == self@.len(),
            forall|origin: ParaId| #[trigger] queue_of(self@, origin).len() <= MAX_QUEUE_LEN,
    {
        proof {
            use_type_invariant(self);
        }
        self.stored.len()
    }

    fn owner(&self, index: usize) -> (origin: ParaId)
        requires
            index < self@.len(),
        ensures
            origin == self@[index as int].0,
    {
        self.stored[index].0
    }

    fn message(&self, index: usize) -> (bytes: &[u8])
        requires
            index < self@.len(),
        ensures
            bytes@ == self@[index as int].1,
            bytes@.len() <= MAX_MESSAGE_LEN,
    {
        proof {
            use_type_invariant(self);
        }
        self.stored[index].1.as_slice()
    }

    fn push(&mut self, origin: ParaId, bytes: Vec<u8>)
        requires
            queue_of(old(self)@, origin).len() < MAX_QUEUE_LEN,
            bytes@.len() <= MAX_MESSAGE_LEN,
        ensures
            final(self)@ == old(self)@.push((origin, bytes@)),
    {
        proof {
            use_type_invariant(&*self);
            // While the list is out for the change, the records hold nothing.
            assert(Seq::<(ParaId, Vec<u8>)>::empty().map_values(
                |e: (ParaId, Vec<u8>)| (e.0, e.1@),
            ) =~= Seq::<Entry>::empty());
            assert forall|other: ParaId| #[trigger]
                queue_of(Seq::<Entry>::empty(), other).len() <= MAX_QUEUE_LEN by {
                lemma_queue_of_empty(other);
            }
        }
        let mut stored: Vec<(ParaId, Vec<u8>)> = Vec::new();
        core::mem::swap(&mut self.stored, &mut stored);
        stored.push((origin, bytes));
        proof {
            let before = old(self)@;
            let after = stored@.map_values(|e: (ParaId, Vec<u8>)| (e.0, e.1@));
            assert(after =~= before.push((origin, bytes@)));
            assert forall|other: ParaId| #[trigger]
                queue_of(after, other).len() <= MAX_QUEUE_LEN by {
                lemma_queue_of_push(before, (origin, bytes@), other);
            }
        }
        self.stored = stored;
    }
}

/// Keeps the messages of all tenants in the order in which they arrived and reports every
/// change of a tenant's queue to the receiver `T`.
pub struct EnqueueToLocalStorage<T: OnQueueChanged> {
    records: Records,
    notifier: T,
}

impl<T: OnQueueChanged> EnqueueToLocalStorage<T> {
    /// Everything stored, oldest first, each message with its owner.
    pub closed spec fn entries(&self) -> Seq<Entry> {
        self.records@
    }

    /// The pending messages of `origin`, in delivery order.
    pub open spec fn queue(&self, origin: ParaId) -> Seq<Seq<u8>> {
        queue_of(self.entries(), origin)
    }

    /// The receiver of this store's notifications.
    pub closed spec fn spec_notifier(&self) -> &T {
        &self.notifier
    }

    /// An empty store that reports to `notifier`.
    pub fn new(notifier: T) -> (store: Self)
        ensures
            store.entries() == Seq::<Entry>::empty(),
            forall|origin: ParaId| #[trigger] store.queue(origin) == Seq::<Seq<u8>>::empty(),
            *store.spec_notifier() == notifier,
    {
        let store = EnqueueToLocalStorage { records: Records::new(), notifier };
        proof {
            assert forall|origin: ParaId| #[trigger]
                store.queue(origin) == Seq::<Seq<u8>>::empty() by {
                lemma_queue_of_empty(origin);
            }
        }
        store
    }

    #[verifier::when_used_as_spec(spec_notifier)]
    pub fn notifier(&self) -> (notifier: &T)
        ensures
            notifier == self.spec_notifier(),
    {
        &self.notifier
    }

    /// The number of messages stored, all tenants together.
    pub fn len(&self) -> (n: usize)
        ensures
            n == self.entries().len(),
    {
        self.records.len()
    }

    /// The footprint of the queue of `origin`, computed from what is stored now: its message
    /// count, the sum of the message lengths, and one page per message, all of them ready.
    /// A tenant without messages has the footprint zero.
    pub fn footprint(&self, origin: ParaId) -> (fp: QueueFootprint)
        ensures
            fp == footprint_of(self.queue(origin)),
            is_footprint_of(fp, self.queue(origin)),
    {
        let ghost entries = self.entries();
        let total: usize = self.records.len();
        let mut count: u64 = 0;
        let mut size: u64 = 0;
        let mut i: usize = 0;
        while i < total
            invariant
                entries == self.records@,
                total == entries.len(),
                queue_of(entries, origin).len() <= MAX_QUEUE_LEN,
                i <= total,
                count == queue_of(entries.take(i as int), origin).len(),
                size == total_len(queue_of(entries.take(i as int), origin)),
                size <= MAX_MESSAGE_LEN * count,
            decreases total - i,
        {
            proof {
                lemma_queue_of_take(entries, i + 1, origin);
                assert(entries.take(i + 1) =~= entries.take(i as int).push(entries[i as int]));
                lemma_queue_of_push(entries.take(i as int), entries[i as int], origin);
                lemma_total_len_push(
                    queue_of(entries.take(i as int), origin),
                    entries[i as int].1,
                );
            }
            if self.records.owner(i) == origin {
                count += 1;
                size += self.records.message(i).len() as u64;
            }
            i += 1;
        }
        assert(entries.take(i as int) =~= entries);
        QueueFootprint {
            pages: count as u32,
            ready_pages: count as u32,
            storage: Footprint { count, size },
        }
    }

    /// Appends `message` to the queue of `origin`, then notifies the receiver once, with the
    /// footprint that the queue has afterwards. No other tenant's queue changes.
    pub fn enqueue_message(&mut self, message: &BoundedMessage, origin: ParaId)
        requires
            old(self).queue(origin).len() < MAX_QUEUE_LEN,
        ensures
            final(self).entries() == old(self).entries().push((origin, message@)),
            final(self).queue(origin) == old(self).queue(origin).push(message@),
            forall|other: ParaId|
                other != origin ==> #[trigger] final(self).queue(other) == old(self).queue(other),
            final(self).spec_notifier().received() == old(self).spec_notifier().received().push(
                (QueueChange { origin, footprint: footprint_of(final(self).queue(origin)) }),
            ),
            is_footprint_of(footprint_of(final(self).queue(origin)), final(self).queue(origin)),
    {
        let ghost before = self.entries();
        self.records.push(origin, message.to_vec());
        proof {
            assert forall|other: ParaId| true implies #[trigger] queue_of(
                self.entries(),
                other,
            ) == if other == origin {
                queue_of(before, other).push(message@)
            } else {
                queue_of(before, other)
            } by {
                lemma_queue_of_push(before, (origin, message@), other);
            }
        }
        let footprint = self.footprint(origin);
        self.notifier.on_queue_changed(origin, footprint);
    }

    /// Appends `messages`, in their order, to the queue of `origin`, then notifies the
    /// receiver once, with the footprint that the queue has after the last of them. No other
    /// tenant's queue changes.
    pub fn enqueue_messages(&mut self, messages: &[BoundedMessage], origin: ParaId)
        requires
            old(self).queue(origin).len() + messages@.len() <= MAX_QUEUE_LEN,
        ensures
            final(self).entries() == old(self).entries() + tagged(
                origin,
                message_views(messages@),
            ),
            final(self).queue(origin) == old(self).queue(origin) + message_views(messages@),
            forall|other: ParaId|
                other != origin ==> #[trigger] final(self).queue(other) == old(self).queue(other),
            final(self).spec_notifier().received() == old(self).spec_notifier().received().push(
                (QueueChange { origin, footprint: footprint_of(final(self).queue(origin)) }),
            ),
            is_footprint_of(footprint_of(final(self).queue(origin)), final(self).queue(origin)),
    {
        let ghost before = self.entries();
        let ghost views = message_views(messages@);
        let mut i: usize = 0;
        while i < messages.len()
            invariant
                i <= messages@.len(),
                views == message_views(messages@),
                queue_of(before, origin).len() + messages@.len() <= MAX_QUEUE_LEN,
                self.records@ == before + tagged(origin, views.take(i as int)),
                self.notifier == old(self).notifier,
            decreases messages@.len() - i,
        {
            proof {
                lemma_queue_of_add(before, tagged(origin, views.take(i as int)), origin);
                lemma_queue_of_tagged(origin, views.take(i as int), origin);
            }
            self.records.push(origin, messages[i].to_vec());
            proof {
                assert(tagged(origin, views.take(i + 1)) =~= tagged(
                    origin,
                    views.take(i as int),
                ).push((origin, views[i as int])));
                assert(self.records@ =~= before + tagged(origin, views.take(i + 1)));
            }
            i += 1;
        }
        proof {
            assert(views.take(i as int) =~= views);
            assert forall|other: ParaId| true implies #[trigger] queue_of(
                self.entries(),
                other,
            ) == if other == origin {
                queue_of(before, other) + views
            } else {
                queue_of(before, other)
            } by {
                lemma_queue_of_add(before, tagged(origin, views), other);
                lemma_queue_of_tagged(origin, views, other);
                assert(queue_of(before, other) + Seq::<Seq<u8>>::empty() =~= queue_of(
                    before,
                    other,
                ));
            }
        }
        let footprint = self.footprint(origin);
        self.notifier.on_queue_changed(origin, footprint);
    }

    /// Removes every message of `origin`, then notifies the receiver once, with the footprint
    /// zero. The other tenants' messages stay, in their order. Sweeping a tenant without
    /// messages changes nothing and still notifies.
    pub fn sweep_queue(&mut self, origin: ParaId)
        ensures
            final(self).entries() == without(old(self).entries(), origin),
            final(self).queue(origin) == Seq::<Seq<u8>>::empty(),
            forall|other: ParaId|
                other != origin ==> #[trigger] final(self).queue(other) == old(self).queue(other),
            final(self).spec_notifier().received() == old(self).spec_notifier().received().push(
                (QueueChange {
                    origin,
                    footprint: QueueFootprint {
                        pages: 0,
                        ready_pages: 0,
                        storage: Footprint { count: 0, size: 0 },
                    },
                }),
            ),
    {
        let ghost before = self.entries();
        let total: usize = self.records.len();
        let mut kept = Records::new();
        let mut i: usize = 0;
        while i < total
            invariant
                before == self.records@,
                total == before.len(),
                forall|other: ParaId| #[trigger] queue_of(before, other).len() <= MAX_QUEUE_LEN,
                i <= total,
                kept@ == without(before.take(i as int), origin),
            decreases total - i,
        {
            let owner = self.records.owner(i);
            proof {
                reveal(Seq::filter);
                assert(before.take(i + 1).drop_last() =~= before.take(i as int));
                assert(before.take(i + 1) =~= before.take(i as int).push(before[i as int]));
                lemma_queue_of_push(before.take(i as int), before[i as int], owner);
                lemma_queue_of_take(before, i + 1, owner);
                lemma_queue_of_without(before.take(i as int), origin, owner);
            }
            if owner != origin {
                kept.push(owner, slice_to_vec(self.records.message(i)));
            }
            i += 1;
        }
        proof {
            assert(before.take(i as int) =~= before);
        }
        self.records = kept;
        proof {
            assert forall|other: ParaId| true implies #[trigger] queue_of(
                self.entries(),
                other,
            ) == if other == origin {
                Seq::<Seq<u8>>::empty()
            } else {
                queue_of(before, other)
            } by {
                lemma_queue_of_without(before, origin, other);
            }
        }
        let footprint = self.footprint(origin);
        self.notifier.on_queue_changed(origin, footprint);
    }

    /// Plans how much of `msgs` can join the queue of `origin` without the queue exceeding
    /// `total_pages_limit` pages: one footprint for each prefix of `msgs` that still fits,
    /// shortest first. The walk stops at the first message that does not fit; that message and
    /// all after it appear in no footprint. The store is not changed.
    ///
    /// All candidates lie in memory at once, so their bytes together fit a `usize`.
    pub fn get_batches_footprints(
        &self,
        origin: ParaId,
        msgs: &[BoundedMessage],
        total_pages_limit: u32,
    ) -> (plan: Vec<BatchFootprint>)
        requires
            total_len(message_views(msgs@)) <= usize::MAX,
        ensures
            is_plan_of(
                plan@,
                self.queue(origin).len(),
                message_views(msgs@),
                total_pages_limit as nat,
            ),
    {
        let footprint = self.footprint(origin);
        let ghost views = message_views(msgs@);
        let mut plan: Vec<BatchFootprint> = Vec::new();
        let mut new_pages_count: u32 = 0;
        let mut total_size: usize = 0;
        let mut idx: usize = 0;
        while idx < msgs.len() && footprint.pages < total_pages_limit && new_pages_count
            < total_pages_limit - footprint.pages
            invariant
                views == message_views(msgs@),
                total_len(views) <= usize::MAX,
                idx <= msgs@.len(),
                idx == new_pages_count,
                idx == 0 || footprint.pages + idx <= total_pages_limit,
                total_size == total_len(views.take(idx as int)),
                plan@.len() == idx,
                forall|i: int|
                    0 <= i < plan@.len() ==> {
                        &&& (#[trigger] plan@[i]).msgs_count == i + 1
                        &&& plan@[i].size_in_bytes == total_len(views.take(i + 1))
                        &&& plan@[i].new_pages_count == i + 1
                    },
            decreases msgs@.len() - idx,
        {
            proof {
                assert(views.take(idx + 1).drop_last() =~= views.take(idx as int));
                lemma_total_len_take_monotonic(views, idx + 1, views.len() as int);
                assert(views.take(views.len() as int) =~= views);
            }
            new_pages_count += 1;
            total_size += msgs[idx].len();
            plan.push(
                BatchFootprint { msgs_count: idx + 1, size_in_bytes: total_size, new_pages_count },
            );
            idx += 1;
        }
        plan
    }
}

/// The number of bytes in `msgs` all together, where that number fits a `usize`.
pub fn checked_batch_size(msgs: &[BoundedMessage]) -> (size: Option<usize>)
    ensures
        total_len(message_views(msgs@)) <= usize::MAX ==> size == Some(
            total_len(message_views(msgs@)) as usize,
        ),
        total_len(message_views(msgs@)) > usize::MAX ==> size.is_none(),
{
    let ghost views = message_views(msgs@);
    let mut size: usize = 0;
    let mut i: usize = 0;
    while i < msgs.len()
        invariant
            views == message_views(msgs@),
            i <= msgs@.len(),
            size == total_len(views.take(i as int)),
        decreases msgs@.len() - i,
    {
        proof {
            assert(views.take(i + 1).drop_last() =~= views.take(i as int));
            lemma_total_len_take_monotonic(views, i + 1, views.len() as int);
            assert(views.take(views.len() as int) =~= views);
        }
        let len: usize = msgs[i].len();
        if len > usize::MAX - size {
            return None;
        }
        size += len;
        i += 1;
    }
    proof {
        assert(views.take(i as int) =~= views);
    }
    Some(size)
}

} // verus!
