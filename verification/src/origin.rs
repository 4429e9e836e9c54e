//! Which message origins may act as the superuser.

use polkadot_parachain_primitives::primitives::{Id, IsSystem};
use vstd::prelude::*;

verus! {

/// The highest identifier of a system parachain.
pub const SYSTEM_INDEX_END: u32 = 1999;

/// What kind of dispatch origin a message asks to act as.
#[derive(Clone, Copy, Debug, PartialEq, Eq, Structural)]
pub enum OriginKind {
    Native,
    SovereignAccount,
    Superuser,
    Xcm,
}

/// One step of a location's path, as far as origin conversion looks at it.
#[derive(Clone, Copy, Debug, PartialEq, Eq, Structural)]
pub enum Junction {
    /// The parachain with the given identifier.
    Parachain(u32),
    /// Any step that is not a parachain.
    Other,
}

/// A relative location: `parents` steps up, then down along `interior`.
#[derive(Debug, PartialEq, Eq)]
pub struct Location {
    pub parents: u8,
    pub interior: Vec<Junction>,
}

/// The root origin of the local chain.
#[derive(Clone, Copy, Debug, PartialEq, Eq, Structural)]
pub struct Root;

/// `origin` is a sibling parachain, one step up and one down, with a system identifier.
pub open spec fn is_system_sibling(origin: Location) -> bool {
    &&& origin.parents == 1
    &&& origin.interior@.len() == 1
    &&& match origin.interior@[0] {
        Junction::Parachain(id) => id <= SYSTEM_INDEX_END,
        Junction::Other => false,
    }
}

/// Asks `polkadot_parachain_primitives`' `IsSystem::is_system` of the parachain `id`.
/// A parachain is a system parachain when its identifier is at most 1999.
#[verifier::external_body]
fn para_is_system(id: u32) -> (system: bool)
    ensures
        system == (id <= SYSTEM_INDEX_END),
{
    Id::from(id).is_system()
}

/// Lets system parachains, and nobody else, act as the superuser.
pub struct SystemParachainAsSuperuser;

impl SystemParachainAsSuperuser {
    /// Converts `origin` to the root origin where the message asks for the superuser and
    /// comes from a sibling system parachain. Every other origin is handed back unchanged.
    pub fn convert_origin(origin: Location, kind: OriginKind) -> (converted: Result<
        Root,
        Location,
    >)
        ensures
            kind == OriginKind::Superuser && is_system_sibling(origin) ==> converted == Ok::<
                Root,
                Location,
            >(Root),
            !(kind == OriginKind::Superuser && is_system_sibling(origin)) ==> converted == Err::<
                Root,
                Location,
            >(origin),
    {
        let from_system = match kind {
            OriginKind::Superuser => origin.parents == 1 && origin.interior.len() == 1
                && match origin.interior[0] {
                Junction::Parachain(id) => para_is_system(id),
                Junction::Other => false,
            },
            _ => false,
        };
        if from_system {
            Ok(Root)
        } else {
            Err(origin)
        }
    }
}

} // verus!
