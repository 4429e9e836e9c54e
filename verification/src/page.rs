//! Pages of encoded XCM programs in alternating versions.

use parity_scale_codec::Encode;
use staging_xcm::IntoVersion;
use vstd::prelude::*;

verus! {

/// The code that each instruction of a page's programs traps with.
pub const TRAP_CODE: u64 = 1;

/// The number of instructions in each of a page's programs.
pub const PROGRAM_LEN: usize = 3;

/// The number of programs on a page.
pub const PAGE_PROGRAMS: usize = 100;

/// The longest program, in instructions, that is ever encoded here.
pub const MAX_PROGRAM_LEN: usize = 100;

/// The encoding, in the XCM version `version`, of the program of `count` instructions that
/// each trap with `code`, where the program can be expressed in that version.
pub uninterp spec fn trap_program_encoding(code: u64, count: nat, version: u32) -> Option<Seq<u8>>;

/// `n` encoded programs one after another, `older` and `newer` in turn, `older` first.
pub open spec fn alternating(older: Seq<u8>, newer: Seq<u8>, n: nat) -> Seq<u8>
    decreases n,
{
    if n == 0 {
        Seq::empty()
    } else {
        alternating(older, newer, (n - 1) as nat) + if (n - 1) % 2 == 0 {
            older
        } else {
            newer
        }
    }
}

/// The page made of what the programs in the versions `older` and `newer` encode to, where
/// both can be encoded.
pub open spec fn page_of_versions(older: u32, newer: u32) -> Option<Seq<u8>> {
    match (
        trap_program_encoding(TRAP_CODE, PROGRAM_LEN as nat, older),
        trap_program_encoding(TRAP_CODE, PROGRAM_LEN as nat, newer),
    ) {
        (Some(older), Some(newer)) => Some(alternating(older, newer, PAGE_PROGRAMS as nat)),
        _ => None,
    }
}

/// Builds the program of `count` trap instructions with `code` in the latest XCM version,
/// converts it with `staging_xcm`'s `IntoVersion::into_version` to `version`, and encodes the
/// outcome with `parity_scale_codec`'s `Encode::encode`. The conversion refuses a version
/// that the crate does not know; the result says no more than that it depends on the three
/// arguments alone.
#[verifier::external_body]
fn encode_trap_program(code: u64, count: usize, version: u32) -> (encoded: Option<Vec<u8>>)
    requires
        count <= MAX_PROGRAM_LEN,
    ensures
        encoded.is_some() == trap_program_encoding(code, count as nat, version).is_some(),
        encoded.is_some() ==> encoded.unwrap()@ == trap_program_encoding(
            code,
            count as nat,
            version,
        ).unwrap(),
{
    let program = staging_xcm::latest::Xcm::<()>(
        vec![staging_xcm::latest::Instruction::Trap(code); count],
    );
    match staging_xcm::VersionedXcm::from(program).into_version(version) {
        Ok(versioned) => Some(versioned.encode()),
        Err(()) => None,
    }
}

/// Reads `staging_xcm::prelude::XCM_VERSION`, the latest XCM version, which is 5.
#[verifier::external_body]
fn latest_xcm_version() -> (version: u32)
    ensures
        version == 5,
{
    staging_xcm::prelude::XCM_VERSION
}

/// The encoded program of three traps in the XCM version `version`, where that version can
/// express it.
pub fn versioned_xcm(version: u32) -> (encoded: Option<Vec<u8>>)
    ensures
        encoded.is_some() == trap_program_encoding(
            TRAP_CODE,
            PROGRAM_LEN as nat,
            version,
        ).is_some(),
        encoded.is_some() ==> encoded.unwrap()@ == trap_program_encoding(
            TRAP_CODE,
            PROGRAM_LEN as nat,
            version,
        ).unwrap(),
{
    encode_trap_program(TRAP_CODE, PROGRAM_LEN, version)
}

/// Lays out a page of `PAGE_PROGRAMS` encoded programs: `older` where the position is even,
/// `newer` where it is odd.
pub fn page_of(older: &[u8], newer: &[u8]) -> (page: Vec<u8>)
    ensures
        page@ == alternating(older@, newer@, PAGE_PROGRAMS as nat),
{
    let mut page: Vec<u8> = Vec::new();
    let mut i: usize = 0;
    while i < PAGE_PROGRAMS
        invariant
            i <= PAGE_PROGRAMS,
            page@ == alternating(older@, newer@, i as nat),
        decreases PAGE_PROGRAMS - i,
    {
        let ghost before = page@;
        if i % 2 == 0 {
            page.extend_from_slice(older);
            assert(page@ =~= before + older@);
        } else {
            page.extend_from_slice(newer);
            assert(page@ =~= before + newer@);
        }
        i += 1;
    }
    page
}

/// A page of a hundred encoded programs that alternate between the XCM version before the
/// latest and the latest, the older first. `None` where one of the two versions cannot
/// express the program.
pub fn mk_page() -> (page: Option<Vec<u8>>)
    ensures
        page.is_some() == page_of_versions(4, 5).is_some(),
        page.is_some() ==> page.unwrap()@ == page_of_versions(4, 5).unwrap(),
{
    let newer_xcm_version = latest_xcm_version();
    let older_xcm_version = newer_xcm_version - 1;
    match (versioned_xcm(older_xcm_version), versioned_xcm(newer_xcm_version)) {
        (Some(older), Some(newer)) => Some(page_of(older.as_slice(), newer.as_slice())),
        _ => None,
    }
}

} // verus!
