//! XCM versions stored for destinations, and the rule that only stored versions are used.

use vstd::prelude::*;

verus! {

/// A version of the XCM format.
pub type XcmVersion = u32;

/// A destination, as its encoded bytes, with what was stored for it.
pub type Stored = (Seq<u8>, Option<XcmVersion>);

/// The map that `entries` spell, later entries over earlier ones.
pub open spec fn as_map(entries: Seq<Stored>) -> Map<Seq<u8>, Option<XcmVersion>>
    decreases entries.len(),
{
    if entries.len() == 0 {
        Map::empty()
    } else {
        as_map(entries.drop_last()).insert(entries.last().0, entries.last().1)
    }
}

/// No destination occurs twice in `entries`.
pub open spec fn distinct(entries: Seq<Stored>) -> bool {
    forall|i: int, j: int|
        0 <= i < j < entries.len() ==> (#[trigger] entries[i]).0 != (#[trigger] entries[j]).0
}

/// The version to wrap a message for `dest` in: the one stored for it, if one is.
pub open spec fn version_for(
    versions: Map<Seq<u8>, Option<XcmVersion>>,
    dest: Seq<u8>,
) -> Option<XcmVersion> {
    if versions.contains_key(dest) {
        versions[dest]
    } else {
        None
    }
}

proof fn lemma_as_map_absent(entries: Seq<Stored>, dest: Seq<u8>)
    requires
        forall|i: int| 0 <= i < entries.len() ==> (#[trigger] entries[i]).0 != dest,
    ensures
        !as_map(entries).contains_key(dest),
    decreases entries.len(),
{
    if entries.len() > 0 {
        lemma_as_map_absent(entries.drop_last(), dest);
    }
}

proof fn lemma_as_map_present(entries: Seq<Stored>, at: int)
    requires
        distinct(entries),
        0 <= at < entries.len(),
    ensures
        as_map(entries).contains_key(entries[at].0),
        as_map(entries)[entries[at].0] == entries[at].1,
    decreases entries.len(),
{
    if at < entries.len() - 1 {
        lemma_as_map_present(entries.drop_last(), at);
        assert(entries.drop_last()[at] == entries[at]);
        assert(entries[at].0 != entries[entries.len() - 1].0);
    }
}

proof fn lemma_as_map_update(entries: Seq<Stored>, at: int, version: Option<XcmVersion>)
    requires
        distinct(entries),
        0 <= at < entries.len(),
    ensures
        as_map(entries.update(at, (entries[at].0, version))) == as_map(entries).insert(
            entries[at].0,
            version,
        ),
        distinct(entries.update(at, (entries[at].0, version))),
    decreases entries.len(),
{
    let dest = entries[at].0;
    let updated = entries.update(at, (dest, version));
    if at == entries.len() - 1 {
        assert(updated.drop_last() =~= entries.drop_last());
        assert(as_map(updated) =~= as_map(entries).insert(dest, version));
    } else {
        lemma_as_map_update(entries.drop_last(), at, version);
        assert(entries.drop_last()[at] == entries[at]);
        assert(updated.drop_last() =~= entries.drop_last().update(at, (dest, version)));
        assert(entries[at].0 != entries[entries.len() - 1].0);
        assert(as_map(updated) =~= as_map(entries).insert(dest, version));
    }
}

fn same_bytes(a: &[u8], b: &[u8]) -> (same: bool)
    ensures
        same == (a@ == b@),
{
    if a.len() != b.len() {
        return false;
    }
    let mut i: usize = 0;
    while i < a.len()
        invariant
            a@.len() == b@.len(),
            i <= a@.len(),
            forall|k: int| 0 <= k < i ==> a@[k] == b@[k],
        decreases a@.len() - i,
    {
        if a[i] != b[i] {
            return false;
        }
        i += 1;
    }
    assert(a@ =~= b@);
    true
}

/// Wraps XCM only for destinations with a stored version.
pub struct TestUsesOnlyStoredVersionWrapper {
    stored: Vec<(Vec<u8>, Option<XcmVersion>)>,
}

impl TestUsesOnlyStoredVersionWrapper {
    spec fn entries(self) -> Seq<Stored> {
        self.stored@.map_values(|e: (Vec<u8>, Option<XcmVersion>)| (e.0@, e.1))
    }

    #[verifier::type_invariant]
    spec fn no_destination_twice(self) -> bool {
        distinct(self.entries())
    }

    /// What is stored, by destination.
    pub closed spec fn versions(&self) -> Map<Seq<u8>, Option<XcmVersion>> {
        as_map(self.entries())
    }

    /// A wrapper with nothing stored.
    pub fn new() -> (wrapper: TestUsesOnlyStoredVersionWrapper)
        ensures
            wrapper.versions() == Map::<Seq<u8>, Option<XcmVersion>>::empty(),
    {
        TestUsesOnlyStoredVersionWrapper { stored: Vec::new() }
    }

    fn position(&self, location: &[u8]) -> (at: Option<usize>)
        ensures
            match at {
                Some(at) => at < self.entries().len() && self.entries()[at as int].0
                    == location@,
                None => forall|i: int|
                    0 <= i < self.entries().len() ==> (#[trigger] self.entries()[i]).0
                        != location@,
            },
    {
        let mut i: usize = 0;
        while i < self.stored.len()
            invariant
                i <= self.stored@.len(),
                forall|k: int| 0 <= k < i ==> (#[trigger] self.entries()[k]).0 != location@,
            decreases self.stored@.len() - i,
        {
            if same_bytes(self.stored[i].0.as_slice(), location) {
                return Some(i);
            }
            i += 1;
        }
        None
    }

    /// Stores `version` for the destination `location`, in place of what was stored for it.
    pub fn set_version(&mut self, location: Vec<u8>, version: Option<XcmVersion>)
        ensures
            final(self).versions() == old(self).versions().insert(location@, version),
    {
        proof {
            use_type_invariant(&*self);
        }
        let found = self.position(location.as_slice());
        let ghost before = self.entries();
        let mut stored: Vec<(Vec<u8>, Option<XcmVersion>)> = Vec::new();
        core::mem::swap(&mut self.stored, &mut stored);
        match found {
            Some(at) => {
                stored.set(at, (location, version));
                proof {
                    lemma_as_map_update(before, at as int, version);
                    assert(stored@.map_values(|e: (Vec<u8>, Option<XcmVersion>)| (e.0@, e.1))
                        =~= before.update(at as int, (before[at as int].0, version)));
                }
            },
            None => {
                stored.push((location, version));
                proof {
                    assert(stored@.map_values(|e: (Vec<u8>, Option<XcmVersion>)| (e.0@, e.1))
                        =~= before.push((location@, version)));
                    assert(before.push((location@, version)).drop_last() =~= before);
                }
            },
        }
        self.stored = stored;
    }

    /// The version to wrap a message in that goes to `dest`: the stored one. A destination
    /// with nothing stored, or with no version stored, gets none.
    pub fn stored_version(&self, dest: &[u8]) -> (version: Option<XcmVersion>)
        ensures
            version == version_for(self.versions(), dest@),
    {
        proof {
            use_type_invariant(self);
        }
        match self.position(dest) {
            Some(at) => {
                proof {
                    lemma_as_map_present(self.entries(), at as int);
                }
                self.stored[at].1
            },
            None => {
                proof {
                    lemma_as_map_absent(self.entries(), dest@);
                }
                None
            },
        }
    }
}

} // verus!
