//! Counts of the rewards that validators earned.

use std::collections::HashMap;
use vstd::prelude::*;
use vstd::std_specs::hash::group_hash_axioms;

verus! {

broadcast use group_hash_axioms;

/// The index of a validator in the active set.
#[derive(Clone, Copy, Debug, PartialEq, Eq, Structural)]
pub struct ValidatorIndex(pub u32);

/// How often the validator `index` occurs in `validators`.
pub open spec fn occurrences(validators: Seq<ValidatorIndex>, index: u32) -> nat
    decreases validators.len(),
{
    if validators.len() == 0 {
        0
    } else {
        occurrences(validators.drop_last(), index) + if validators.last().0 == index {
            1nat
        } else {
            0nat
        }
    }
}

/// The rewards that `rewards` holds for the validator `index`: none where it has no entry.
pub open spec fn reward_count(rewards: Map<u32, usize>, index: u32) -> nat {
    if rewards.contains_key(index) {
        rewards[index] as nat
    } else {
        0
    }
}

/// `after` is `before` with one more reward for each occurrence of a validator in
/// `validators`, and with an entry for exactly the validators that had one or occur.
pub open spec fn rewarded(
    before: Map<u32, usize>,
    validators: Seq<ValidatorIndex>,
    after: Map<u32, usize>,
) -> bool {
    &&& forall|index: u32|
        (#[trigger] reward_count(after, index)) == reward_count(before, index) + occurrences(
            validators,
            index,
        )
    &&& forall|index: u32|
        (#[trigger] after.contains_key(index)) <==> before.contains_key(index) || occurrences(
            validators,
            index,
        ) > 0
}

/// Adds one reward in `rewards` for each validator in `validators`.
fn reward(rewards: &mut HashMap<u32, usize>, validators: &[ValidatorIndex])
    requires
        forall|index: u32|
            (#[trigger] reward_count(old(rewards)@, index)) + occurrences(validators@, index)
                <= usize::MAX,
    ensures
        rewarded(old(rewards)@, validators@, final(rewards)@),
{
    let ghost before = rewards@;
    let mut i: usize = 0;
    while i < validators.len()
        invariant
            i <= validators@.len(),
            forall|index: u32|
                (#[trigger] reward_count(before, index)) + occurrences(validators@, index)
                    <= usize::MAX,
            rewarded(before, validators@.take(i as int), rewards@),
        decreases validators@.len() - i,
    {
        let index: u32 = validators[i].0;
        let ghost so_far = rewards@;
        proof {
            assert(validators@.take(i + 1).drop_last() =~= validators@.take(i as int));
            lemma_occurrences_take(validators@, i + 1, index);
            assert(reward_count(so_far, index) == reward_count(before, index) + occurrences(
                validators@.take(i as int),
                index,
            ));
        }
        let earned: usize = match rewards.get(&index) {
            Some(count) => *count,
            None => 0,
        };
        rewards.insert(index, earned + 1);
        proof {
            assert forall|other: u32|
                (#[trigger] reward_count(rewards@, other)) == reward_count(before, other)
                    + occurrences(validators@.take(i + 1), other) by {
                assert(reward_count(so_far, other) == reward_count(before, other) + occurrences(
                    validators@.take(i as int),
                    other,
                ));
            }
            assert forall|other: u32|
                (#[trigger] rewards@.contains_key(other)) <==> before.contains_key(other)
                    || occurrences(validators@.take(i + 1), other) > 0 by {
                assert(so_far.contains_key(other) <==> before.contains_key(other) || occurrences(
                    validators@.take(i as int),
                    other,
                ) > 0);
            }
        }
        i += 1;
    }
    proof {
        assert(validators@.take(i as int) =~= validators@);
    }
}

/// A validator occurs in a prefix no more often than in the whole.
pub proof fn lemma_occurrences_take(validators: Seq<ValidatorIndex>, i: int, index: u32)
    requires
        0 <= i <= validators.len(),
    ensures
        occurrences(validators.take(i), index) <= occurrences(validators, index),
    decreases validators.len() - i,
{
    if i < validators.len() {
        lemma_occurrences_take(validators, i + 1, index);
        assert(validators.take(i + 1).drop_last() =~= validators.take(i));
    } else {
        assert(validators.take(i) =~= validators);
    }
}

/// Keeps count of the rewards for backing and for availability, validator by validator.
pub struct TestRewardValidators {
    backing: HashMap<u32, usize>,
    availability: HashMap<u32, usize>,
}

impl TestRewardValidators {
    /// The backing rewards so far, by validator.
    pub closed spec fn backing(&self) -> Map<u32, usize> {
        self.backing@
    }

    /// The availability rewards so far, by validator.
    pub closed spec fn availability(&self) -> Map<u32, usize> {
        self.availability@
    }

    /// Counters with no reward given yet.
    pub fn new() -> (counters: TestRewardValidators)
        ensures
            counters.backing() == Map::<u32, usize>::empty(),
            counters.availability() == Map::<u32, usize>::empty(),
    {
        TestRewardValidators { backing: HashMap::new(), availability: HashMap::new() }
    }

    /// Forgets every reward.
    pub fn clear(&mut self)
        ensures
            final(self).backing() == Map::<u32, usize>::empty(),
            final(self).availability() == Map::<u32, usize>::empty(),
    {
        self.backing.clear();
        self.availability.clear();
    }

    /// Gives each validator in `v` one backing reward for each time it occurs there.
    pub fn reward_backing(&mut self, v: &[ValidatorIndex])
        requires
            forall|index: u32|
                (#[trigger] reward_count(old(self).backing(), index)) + occurrences(v@, index)
                    <= usize::MAX,
        ensures
            rewarded(old(self).backing(), v@, final(self).backing()),
            final(self).availability() == old(self).availability(),
    {
        proof {
            assert forall|index: u32|
                (#[trigger] reward_count(self.backing@, index)) + occurrences(v@, index)
                    <= usize::MAX by {
                assert(reward_count(self.backing(), index) + occurrences(v@, index)
                    <= usize::MAX);
            }
        }
        reward(&mut self.backing, v);
    }

    /// Gives each validator in `v` one availability reward for each time it occurs there.
    pub fn reward_bitfields(&mut self, v: &[ValidatorIndex])
        requires
            forall|index: u32|
                (#[trigger] reward_count(old(self).availability(), index)) + occurrences(
                    v@,
                    index,
                ) <= usize::MAX,
        ensures
            rewarded(old(self).availability(), v@, final(self).availability()),
            final(self).backing() == old(self).backing(),
    {
        proof {
            assert forall|index: u32|
                (#[trigger] reward_count(self.availability@, index)) + occurrences(v@, index)
                    <= usize::MAX by {
                assert(reward_count(self.availability(), index) + occurrences(v@, index)
                    <= usize::MAX);
            }
        }
        reward(&mut self.availability, v);
    }

    /// A copy of the backing rewards, by validator.
    pub fn backing_rewards(&self) -> (rewards: HashMap<u32, usize>)
        ensures
            rewards@ == self.backing(),
    {
        self.backing.clone()
    }

    /// A copy of the availability rewards, by validator.
    pub fn availability_rewards(&self) -> (rewards: HashMap<u32, usize>)
        ensures
            rewards@ == self.availability(),
    {
        self.availability.clone()
    }
}

} // verus!
