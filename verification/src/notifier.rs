//! The hook through which a queue tells a scheduler that it changed.

use crate::footprint::QueueFootprint;
use crate::message::ParaId;
use vstd::prelude::*;

verus! {

/// One notification: the tenant whose queue changed and the queue's footprint afterwards.
#[derive(Clone, Copy, Debug, PartialEq, Eq, Structural)]
pub struct QueueChange {
    pub origin: ParaId,
    pub footprint: QueueFootprint,
}

/// Receives a notification after every change of a tenant's queue.
///
/// The receiver gets no access to the queue that notifies it, so it cannot write to it.
pub trait OnQueueChanged {
    /// Every notification received so far, oldest first.
    spec fn received(&self) -> Seq<QueueChange>;

    /// Takes note that the queue of `origin` now has the footprint `footprint`.
    fn on_queue_changed(&mut self, origin: ParaId, footprint: QueueFootprint)
        ensures
            final(self).received() == old(self).received().push(
                (QueueChange { origin, footprint }),
            ),
    ;
}

/// A receiver that keeps every notification for a scheduler to pick up.
#[derive(Debug)]
pub struct ChangeLog {
    changes: Vec<QueueChange>,
}

impl View for ChangeLog {
    type V = Seq<QueueChange>;

    closed spec fn view(&self) -> Seq<QueueChange> {
        self.changes@
    }
}

impl ChangeLog {
    pub fn new() -> (log: ChangeLog)
        ensures
            log@ == Seq::<QueueChange>::empty(),
    {
        ChangeLog { changes: Vec::new() }
    }

    /// The number of notifications kept.
    pub fn len(&self) -> (n: usize)
        ensures
            n == self@.len(),
    {
        self.changes.len()
    }

    /// The `index`-th notification, oldest first, where there is one.
    pub fn get(&self, index: usize) -> (change: Option<QueueChange>)
        ensures
            index < self@.len() ==> change == Some(self@[index as int]),
            index >= self@.len() ==> change.is_none(),
    {
        if index < self.changes.len() {
            Some(self.changes[index])
        } else {
            None
        }
    }

    /// The latest notification, where there is one.
    pub fn last(&self) -> (change: Option<QueueChange>)
        ensures
            self@.len() > 0 ==> change == Some(self@.last()),
            self@.len() == 0 ==> change.is_none(),
    {
        let n: usize = self.changes.len();
        if n > 0 {
            Some(self.changes[n - 1])
        } else {
            None
        }
    }
}

impl OnQueueChanged for ChangeLog {
    open spec fn received(&self) -> Seq<QueueChange> {
        self@
    }

    fn on_queue_changed(&mut self, origin: ParaId, footprint: QueueFootprint) {
        self.changes.push(QueueChange { origin, footprint });
    }
}

} // verus!
