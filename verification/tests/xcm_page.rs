use paged_queue::page::{mk_page, page_of, versioned_xcm};
use parity_scale_codec::{Decode, Encode};
use staging_xcm::latest::{Instruction, Xcm};
use staging_xcm::{IdentifyVersion, VersionedXcm};

#[test]
fn page_of_alternates_its_two_inputs() {
    let page = page_of(&[1, 2], &[9]);
    assert_eq!(page.len(), 150);
    for pair in page.chunks(3) {
        assert_eq!(pair, &[1, 2, 9]);
    }
    assert_eq!(page_of(&[], &[]), Vec::<u8>::new());
    assert_eq!(page_of(&[], &[7]), vec![7u8; 50]);
}

#[test]
fn versioned_xcm_encodes_three_traps_in_the_version_asked_for() {
    for version in [3u32, 4, 5] {
        let encoded = versioned_xcm(version).unwrap();
        let decoded = VersionedXcm::<()>::decode(&mut &encoded[..]).unwrap();
        assert_eq!(decoded.identify_version(), version);
        let latest: Xcm<()> = decoded.try_into().unwrap();
        assert_eq!(latest, Xcm::<()>(vec![Instruction::Trap(1); 3]));
    }
}

#[test]
fn versioned_xcm_refuses_unknown_versions() {
    assert_eq!(versioned_xcm(0), None);
    assert_eq!(versioned_xcm(2), None);
    assert_eq!(versioned_xcm(6), None);
    assert_eq!(versioned_xcm(u32::MAX), None);
}

#[test]
fn page_holds_a_hundred_programs_in_alternating_versions() {
    let page = mk_page().unwrap();
    let mut input = &page[..];
    for i in 0..100u32 {
        let decoded = VersionedXcm::<()>::decode(&mut input).unwrap();
        assert_eq!(decoded.identify_version(), if i % 2 == 0 { 4 } else { 5 });
        let latest: Xcm<()> = decoded.try_into().unwrap();
        assert_eq!(latest, Xcm::<()>(vec![Instruction::Trap(1); 3]));
    }
    assert!(input.is_empty());

    let older = VersionedXcm::<()>::from(Xcm(vec![Instruction::Trap(1); 3])).encode();
    assert_eq!(versioned_xcm(5), Some(older));
    assert_eq!(
        page,
        page_of(&versioned_xcm(4).unwrap(), &versioned_xcm(5).unwrap())
    );
}
