//! An assignment provider that hands out what it was given, first in, first out.

use crate::message::ParaId;
use std::collections::VecDeque;
use vstd::prelude::*;

verus! {

/// The index of a core.
#[derive(Clone, Copy, Debug, PartialEq, Eq, Structural)]
pub struct CoreIndex(pub u32);

/// A claim of a para on a core.
#[derive(Clone, Copy, Debug, PartialEq, Eq, Structural)]
pub enum Assignment {
    /// An on-demand order of `para_id`, served by `core_index`.
    Pool { para_id: ParaId, core_index: CoreIndex },
    /// A bulk assignment of the para.
    Bulk(ParaId),
}

/// The queue of assignments that the scheduler draws from.
pub struct Pallet {
    queue: VecDeque<Assignment>,
}

impl View for Pallet {
    type V = Seq<Assignment>;

    closed spec fn view(&self) -> Seq<Assignment> {
        self.queue@
    }
}

impl Pallet {
    /// A provider with nothing to hand out.
    pub fn new() -> (pallet: Pallet)
        ensures
            pallet@ == Seq::<Assignment>::empty(),
    {
        Pallet { queue: VecDeque::new() }
    }

    /// Adds a claim at the back of the queue, to be popped later by the scheduler.
    pub fn add_test_assignment(&mut self, assignment: Assignment)
        ensures
            final(self)@ == old(self)@.push(assignment),
    {
        self.queue.push_back(assignment);
    }

    /// Takes the oldest claim out of the queue, whatever the core: `None` where the queue is
    /// empty.
    pub fn pop_assignment_for_core(&mut self, _core_idx: CoreIndex) -> (front: Option<Assignment>)
        ensures
            old(self)@.len() == 0 ==> front.is_none() && final(self)@ == old(self)@,
            old(self)@.len() > 0 ==> front == Some(old(self)@[0]) && final(self)@ == old(
                self,
            )@.skip(1),
    {
        let front = self.queue.pop_front();
        assert(old(self)@.len() > 0 ==> self@ =~= old(self)@.skip(1));
        front
    }

    /// Core affinity is of no concern here: nothing changes.
    pub fn report_processed(&mut self, _assignment: Assignment)
        ensures
            final(self)@ == old(self)@,
    {
    }

    /// Puts a claim back, at the back of the queue.
    pub fn push_back_assignment(&mut self, assignment: Assignment)
        ensures
            final(self)@ == old(self)@.push(assignment),
    {
        self.add_test_assignment(assignment);
    }

    /// The assignment that stands for `para_id` on any core.
    pub fn get_mock_assignment(_core_idx: CoreIndex, para_id: ParaId) -> (assignment: Assignment)
        ensures
            assignment == Assignment::Bulk(para_id),
    {
        Assignment::Bulk(para_id)
    }

    /// A duplicated assignment needs no bookkeeping: nothing changes.
    pub fn assignment_duplicated(&mut self, _assignment: &Assignment)
        ensures
            final(self)@ == old(self)@,
    {
    }
}

} // verus!
