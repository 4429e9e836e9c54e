//! Weight-metered processing of single messages.

use crate::footprint::Entry;
use crate::message::ParaId;
use crate::weight::{debit, Weight, WeightMeter};
use parity_scale_codec::Decode;
use vstd::prelude::*;
use vstd::slice::slice_to_vec;

verus! {

/// The identity of an upward message queue.
#[derive(Clone, Copy, Debug, PartialEq, Eq, Structural)]
pub enum UmpQueueId {
    /// The queue of messages that one tenant sent.
    Para(ParaId),
}

/// Where a message that is being processed came from.
#[derive(Clone, Copy, Debug, PartialEq, Eq, Structural)]
pub enum AggregateMessageOrigin {
    /// An upward message queue.
    Ump(UmpQueueId),
}

impl AggregateMessageOrigin {
    /// The tenant behind the origin.
    pub open spec fn spec_para(self) -> ParaId {
        match self {
            AggregateMessageOrigin::Ump(UmpQueueId::Para(para)) => para,
        }
    }

    #[verifier::when_used_as_spec(spec_para)]
    pub fn para(self) -> (para: ParaId)
        ensures
            para == self.spec_para(),
    {
        match self {
            AggregateMessageOrigin::Ump(UmpQueueId::Para(para)) => para,
        }
    }
}

/// How one attempt to process a message ended.
#[derive(Clone, Copy, Debug, PartialEq, Eq, Structural)]
pub enum ProcessOutcome {
    /// The message was processed and its weight debited.
    Accepted,
    /// The message carries no weight marker. It will never be processable as it is.
    Corrupt,
    /// The budget does not cover the weight that the message requires, which is given.
    /// The message stays pending and may be tried again under another budget.
    Overweight(Weight),
}

/// The number that the four bytes `b0`, `b1`, `b2`, `b3` spell, lowest byte first.
pub open spec fn le_u32(b0: u8, b1: u8, b2: u8, b3: u8) -> u32 {
    (b0 + 256 * b1 + 65536 * b2 + 16777216 * b3) as u32
}

/// The weight marker at the head of `message`: its first four bytes, read lowest byte first.
/// A message of fewer than four bytes has none.
pub open spec fn weight_marker(message: Seq<u8>) -> Option<u32> {
    if message.len() >= 4 {
        Some(le_u32(message[0], message[1], message[2], message[3]))
    } else {
        None
    }
}

/// The weight that processing `message` requires: its marker in both dimensions.
pub open spec fn required_weight(message: Seq<u8>) -> Option<Weight> {
    match weight_marker(message) {
        Some(marker) => Some(Weight { ref_time: marker as u64, proof_size: marker as u64 }),
        None => None,
    }
}

/// How processing `message` ends for a meter that holds `consumed` out of `limit`.
pub open spec fn outcome_of(message: Seq<u8>, consumed: Weight, limit: Weight) -> ProcessOutcome {
    match required_weight(message) {
        None => ProcessOutcome::Corrupt,
        Some(required) => if debit(consumed, limit, required).is_some() {
            ProcessOutcome::Accepted
        } else {
            ProcessOutcome::Overweight(required)
        },
    }
}

/// What a meter that holds `consumed` out of `limit` has consumed once `message` was
/// processed against it: more by the required weight where the message is accepted, the same
/// otherwise.
pub open spec fn consumed_after(message: Seq<u8>, consumed: Weight, limit: Weight) -> Weight {
    match outcome_of(message, consumed, limit) {
        ProcessOutcome::Accepted => consumed.plus(required_weight(message).unwrap()),
        _ => consumed,
    }
}

/// What the meter has consumed once `messages` were processed against it one after another.
pub open spec fn consumed_after_all(
    messages: Seq<Seq<u8>>,
    consumed: Weight,
    limit: Weight,
) -> Weight
    decreases messages.len(),
{
    if messages.len() == 0 {
        consumed
    } else {
        consumed_after(
            messages.last(),
            consumed_after_all(messages.drop_last(), consumed, limit),
            limit,
        )
    }
}

/// However many messages share one meter, what it has consumed stays within its limit and
/// never goes down.
pub proof fn lemma_budget_kept(messages: Seq<Seq<u8>>, consumed: Weight, limit: Weight)
    requires
        consumed.all_lte(limit),
    ensures
        consumed_after_all(messages, consumed, limit).all_lte(limit),
        consumed.all_lte(consumed_after_all(messages, consumed, limit)),
    decreases messages.len(),
{
    if messages.len() > 0 {
        lemma_budget_kept(messages.drop_last(), consumed, limit);
    }
}

/// A message without a weight marker is corrupt under every budget.
pub proof fn lemma_corrupt_whatever_the_budget(message: Seq<u8>, consumed: Weight, limit: Weight)
    requires
        weight_marker(message).is_none(),
    ensures
        outcome_of(message, consumed, limit) == ProcessOutcome::Corrupt,
        consumed_after(message, consumed, limit) == consumed,
{
}

/// A message whose required weight exceeds what is left of the budget is overweight, and the
/// meter keeps what it had consumed.
pub proof fn lemma_overweight_beyond_remaining(message: Seq<u8>, consumed: Weight, limit: Weight)
    requires
        consumed.all_lte(limit),
        required_weight(message).is_some(),
        required_weight(message).unwrap().any_gt(limit.saturating_minus(consumed)),
    ensures
        outcome_of(message, consumed, limit) == ProcessOutcome::Overweight(
            required_weight(message).unwrap(),
        ),
        consumed_after(message, consumed, limit) == consumed,
{
}

/// A message whose required weight is within what is left of the budget is accepted.
pub proof fn lemma_accepted_within_remaining(message: Seq<u8>, consumed: Weight, limit: Weight)
    requires
        consumed.all_lte(limit),
        required_weight(message).is_some(),
        !required_weight(message).unwrap().any_gt(limit.saturating_minus(consumed)),
    ensures
        outcome_of(message, consumed, limit) == ProcessOutcome::Accepted,
        consumed_after(message, consumed, limit) == consumed.plus(
            required_weight(message).unwrap(),
        ),
{
}

/// Runs `parity_scale_codec`'s `Decode::decode` for `u32` on the bytes of `message`. The
/// decoder reads four bytes from the front and takes them as a number, lowest byte first;
/// with fewer than four bytes to read it fails. What follows the four bytes is not looked at.
#[verifier::external_body]
fn decode_weight_marker(message: &[u8]) -> (marker: Option<u32>)
    ensures
        marker == weight_marker(message@),
{
    let mut input: &[u8] = message;
    match u32::decode(&mut input) {
        Ok(marker) => Some(marker),
        Err(_) => None,
    }
}

/// A message sink that debits each message's weight and records what it accepted.
#[derive(Debug)]
pub struct TestProcessMessage {
    processed: Vec<(ParaId, Vec<u8>)>,
}

impl View for TestProcessMessage {
    type V = Seq<Entry>;

    /// The accepted messages, oldest first, each with the tenant that sent it.
    closed spec fn view(&self) -> Seq<Entry> {
        self.processed@.map_values(|e: (ParaId, Vec<u8>)| (e.0, e.1@))
    }
}

impl TestProcessMessage {
    /// A sink that has accepted nothing yet.
    pub fn new() -> (sink: TestProcessMessage)
        ensures
            sink@ == Seq::<Entry>::empty(),
    {
        let sink = TestProcessMessage { processed: Vec::new() };
        assert(sink@ =~= Seq::<Entry>::empty());
        sink
    }

    /// The number of messages accepted so far.
    pub fn processed_len(&self) -> (n: usize)
        ensures
            n == self@.len(),
    {
        self.processed.len()
    }

    /// The `index`-th accepted message with its sender, oldest first, where there is one.
    pub fn processed_at(&self, index: usize) -> (entry: Option<(ParaId, Vec<u8>)>)
        ensures
            index >= self@.len() ==> entry.is_none(),
            index < self@.len() ==> entry.is_some() && entry.unwrap().0 == self@[index as int].0
                && entry.unwrap().1@ == self@[index as int].1,
    {
        if index < self.processed.len() {
            Some((self.processed[index].0, slice_to_vec(self.processed[index].1.as_slice())))
        } else {
            None
        }
    }

    /// Processes `message` against the budget in `meter`.
    ///
    /// A message without a weight marker is `Corrupt`, whatever the budget. Otherwise the
    /// marker's weight is debited all or nothing: where the budget covers it, the outcome is
    /// `Accepted`, the meter has consumed exactly that much more, and the message is recorded
    /// with its sender; where it does not, the outcome is `Overweight` with the weight
    /// required. On every outcome but `Accepted` the meter and the record stay as they were.
    /// The meter's limit never changes, and a meter that was within its limit stays within.
    pub fn process_message(
        &mut self,
        message: &[u8],
        origin: AggregateMessageOrigin,
        meter: &mut WeightMeter,
    ) -> (outcome: ProcessOutcome)
        ensures
            outcome == outcome_of(message@, old(meter).spec_consumed(), old(meter).spec_limit()),
            final(meter).spec_limit() == old(meter).spec_limit(),
            final(meter).spec_consumed() == consumed_after(
                message@,
                old(meter).spec_consumed(),
                old(meter).spec_limit(),
            ),
            old(meter).within_limit() ==> final(meter).within_limit(),
            outcome == ProcessOutcome::Accepted ==> {
                &&& final(meter).within_limit()
                &&& final(meter).spec_consumed() == old(meter).spec_consumed().plus(
                    required_weight(message@).unwrap(),
                )
                &&& final(self)@ == old(self)@.push((origin.spec_para(), message@))
            },
            outcome != ProcessOutcome::Accepted ==> {
                &&& final(meter).spec_consumed() == old(meter).spec_consumed()
                &&& final(self)@ == old(self)@
            },
    {
        let para = origin.para();
        let required = match decode_weight_marker(message) {
            Some(marker) => Weight::from_parts(marker as u64, marker as u64),
            None => {
                return ProcessOutcome::Corrupt;
            },
        };
        if !meter.try_consume(required) {
            return ProcessOutcome::Overweight(required);
        }
        let ghost before = self@;
        self.processed.push((para, slice_to_vec(message)));
        assert(self@ =~= before.push((para, message@)));
        ProcessOutcome::Accepted
    }
}

} // verus!
