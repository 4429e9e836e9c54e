//! Two-dimensional weights and the meter that budgets them.

use vstd::prelude::*;

verus! {

/// A computation budget in two dimensions: reference time and proof size.
#[derive(Clone, Copy, Debug, PartialEq, Eq, Structural)]
pub struct Weight {
    pub ref_time: u64,
    pub proof_size: u64,
}

impl Weight {
    /// Every component of `self` is at most the matching component of `other`.
    pub open spec fn all_lte(self, other: Weight) -> bool {
        self.ref_time <= other.ref_time && self.proof_size <= other.proof_size
    }

    /// The component-wise sum fits the machine width in both dimensions.
    pub open spec fn sum_fits(self, other: Weight) -> bool {
        self.ref_time + other.ref_time <= u64::MAX && self.proof_size + other.proof_size
            <= u64::MAX
    }

    /// The component-wise sum, meaningful where `sum_fits` holds.
    pub open spec fn plus(self, other: Weight) -> Weight {
        Weight {
            ref_time: (self.ref_time + other.ref_time) as u64,
            proof_size: (self.proof_size + other.proof_size) as u64,
        }
    }

    /// Some component of `self` exceeds the matching component of `other`.
    pub open spec fn any_gt(self, other: Weight) -> bool {
        self.ref_time > other.ref_time || self.proof_size > other.proof_size
    }

    /// The component-wise difference, with zero where `other` is the larger.
    pub open spec fn saturating_minus(self, other: Weight) -> Weight {
        Weight {
            ref_time: if self.ref_time >= other.ref_time {
                (self.ref_time - other.ref_time) as u64
            } else {
                0
            },
            proof_size: if self.proof_size >= other.proof_size {
                (self.proof_size - other.proof_size) as u64
            } else {
                0
            },
        }
    }

    pub fn from_parts(ref_time: u64, proof_size: u64) -> (w: Weight)
        ensures
            w == (Weight { ref_time, proof_size }),
    {
        Weight { ref_time, proof_size }
    }

    pub fn zero() -> (w: Weight)
        ensures
            w == (Weight { ref_time: 0, proof_size: 0 }),
    {
        Weight { ref_time: 0, proof_size: 0 }
    }
}

/// What a meter holding `consumed` out of `limit` holds after a debit of `w` is tried:
/// the new consumed weight where the debit fits in both dimensions, `None` where it does not.
pub open spec fn debit(consumed: Weight, limit: Weight, w: Weight) -> Option<Weight> {
    if consumed.sum_fits(w) && consumed.plus(w).all_lte(limit) {
        Some(consumed.plus(w))
    } else {
        None
    }
}

/// A debit is refused exactly when it exceeds, in some dimension, what is left of the limit.
pub proof fn lemma_debit_refused_iff_over_remaining(consumed: Weight, limit: Weight, w: Weight)
    requires
        consumed.all_lte(limit),
    ensures
        debit(consumed, limit, w).is_none() <==> w.any_gt(limit.saturating_minus(consumed)),
{
}

/// An accepted debit leaves the meter within its limit, with exactly `w` more consumed.
pub proof fn lemma_debit_accepted(consumed: Weight, limit: Weight, w: Weight)
    requires
        debit(consumed, limit, w).is_some(),
    ensures
        debit(consumed, limit, w).unwrap().all_lte(limit),
        debit(consumed, limit, w).unwrap().ref_time == consumed.ref_time + w.ref_time,
        debit(consumed, limit, w).unwrap().proof_size == consumed.proof_size + w.proof_size,
{
}

/// Runs `frame_support::weights::WeightMeter::try_consume` on a meter built from `consumed`
/// and `limit`. The meter adds `w` to what is consumed with a checked addition per component;
/// where a sum overflows, or exceeds the limit in either component, it refuses and changes
/// nothing. The result is the consumed weight after an accepted debit.
#[verifier::external_body]
fn meter_try_consume(consumed: Weight, limit: Weight, w: Weight) -> (after: Option<Weight>)
    ensures
        after == debit(consumed, limit, w),
{
    let mut meter = frame_support::weights::WeightMeter::with_consumed_and_limit(
        frame_support::weights::Weight::from_parts(consumed.ref_time, consumed.proof_size),
        frame_support::weights::Weight::from_parts(limit.ref_time, limit.proof_size),
    );
    match meter.try_consume(frame_support::weights::Weight::from_parts(w.ref_time, w.proof_size)) {
        Ok(()) => Some(
            Weight {
                ref_time: meter.consumed().ref_time(),
                proof_size: meter.consumed().proof_size(),
            },
        ),
        Err(()) => None,
    }
}

/// Meters consumed weight against a hard limit.
#[derive(Debug)]
pub struct WeightMeter {
    consumed: Weight,
    limit: Weight,
}

impl WeightMeter {
    /// The weight debited so far.
    pub closed spec fn spec_consumed(&self) -> Weight {
        self.consumed
    }

    /// The most that may ever be debited.
    pub closed spec fn spec_limit(&self) -> Weight {
        self.limit
    }

    /// What is consumed does not exceed the limit.
    pub open spec fn within_limit(&self) -> bool {
        self.spec_consumed().all_lte(self.spec_limit())
    }

    /// A meter that has consumed `consumed` out of `limit`, whichever is the larger.
    pub fn with_consumed_and_limit(consumed: Weight, limit: Weight) -> (meter: WeightMeter)
        ensures
            meter.spec_consumed() == consumed,
            meter.spec_limit() == limit,
    {
        WeightMeter { consumed, limit }
    }

    /// A fresh meter with nothing consumed.
    pub fn with_limit(limit: Weight) -> (meter: WeightMeter)
        ensures
            meter.spec_limit() == limit,
            meter.spec_consumed() == (Weight { ref_time: 0, proof_size: 0 }),
            meter.within_limit(),
    {
        WeightMeter { consumed: Weight::zero(), limit }
    }

    /// A fresh meter with the largest limit there is.
    pub fn new() -> (meter: WeightMeter)
        ensures
            meter.spec_limit() == (Weight { ref_time: u64::MAX, proof_size: u64::MAX }),
            meter.spec_consumed() == (Weight { ref_time: 0, proof_size: 0 }),
            meter.within_limit(),
    {
        WeightMeter::with_limit(Weight::from_parts(u64::MAX, u64::MAX))
    }

    #[verifier::when_used_as_spec(spec_consumed)]
    pub fn consumed(&self) -> (w: Weight)
        ensures
            w == self.spec_consumed(),
    {
        self.consumed
    }

    #[verifier::when_used_as_spec(spec_limit)]
    pub fn limit(&self) -> (w: Weight)
        ensures
            w == self.spec_limit(),
    {
        self.limit
    }

    /// What may still be debited.
    pub fn remaining(&self) -> (w: Weight)
        ensures
            w == self.spec_limit().saturating_minus(self.spec_consumed()),
    {
        Weight {
            ref_time: if self.limit.ref_time >= self.consumed.ref_time {
                self.limit.ref_time - self.consumed.ref_time
            } else {
                0
            },
            proof_size: if self.limit.proof_size >= self.consumed.proof_size {
                self.limit.proof_size - self.consumed.proof_size
            } else {
                0
            },
        }
    }

    /// Debits `w` all or nothing: on `true` the consumed weight grew by exactly `w` and is
    /// within the limit, on `false` the meter is as it was.
    pub fn try_consume(&mut self, w: Weight) -> (accepted: bool)
        ensures
            final(self).spec_limit() == old(self).spec_limit(),
            accepted == debit(old(self).spec_consumed(), old(self).spec_limit(), w).is_some(),
            accepted ==> final(self).spec_consumed() == old(self).spec_consumed().plus(w),
            accepted ==> final(self).within_limit(),
            !accepted ==> final(self).spec_consumed() == old(self).spec_consumed(),
            old(self).within_limit() ==> final(self).within_limit(),
    {
        match meter_try_consume(self.consumed, self.limit, w) {
            Some(after) => {
                self.consumed = after;
                true
            },
            None => false,
        }
    }
}

impl Clone for WeightMeter {
    fn clone(&self) -> (copy: WeightMeter)
        ensures
            copy == *self,
    {
        WeightMeter { consumed: self.consumed, limit: self.limit }
    }
}

} // verus!
