//! The validators that a test run declares disabled.

use vstd::prelude::*;

verus! {

/// Holds the list of disabled validators, by index.
#[derive(Debug)]
pub struct MockDisabledValidators {
    disabled: Vec<u32>,
}

impl View for MockDisabledValidators {
    type V = Seq<u32>;

    closed spec fn view(&self) -> Seq<u32> {
        self.disabled@
    }
}

impl MockDisabledValidators {
    /// A holder with no validator disabled.
    pub fn new() -> (holder: MockDisabledValidators)
        ensures
            holder@ == Seq::<u32>::empty(),
    {
        MockDisabledValidators { disabled: Vec::new() }
    }

    /// Replaces the list of disabled validators.
    pub fn set_disabled_validators(&mut self, disabled: Vec<u32>)
        ensures
            final(self)@ == disabled@,
    {
        self.disabled = disabled;
    }

    /// Returns true if the given validator is disabled.
    pub fn is_disabled(&self, index: u32) -> (disabled: bool)
        ensures
            disabled == self@.contains(index),
    {
        let mut i: usize = 0;
        while i < self.disabled.len()
            invariant
                i <= self.disabled@.len(),
                forall|k: int| 0 <= k < i ==> self.disabled@[k] != index,
            decreases self.disabled@.len() - i,
        {
            if self.disabled[i] == index {
                return true;
            }
            i += 1;
        }
        false
    }

    /// The list of disabled validators, as it was set.
    pub fn disabled_validators(&self) -> (disabled: Vec<u32>)
        ensures
            disabled@ == self@,
    {
        self.disabled.clone()
    }
}

} // verus!
