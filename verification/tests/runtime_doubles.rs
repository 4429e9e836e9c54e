use paged_queue::assigner::{Assignment, CoreIndex, Pallet};
use paged_queue::channel::{ChannelInfo, ChannelStatus, MockedChannelInfo, HRMP_PARA_ID};
use paged_queue::message::ParaId;
use paged_queue::origin::{Junction, Location, OriginKind, Root, SystemParachainAsSuperuser};
use paged_queue::rewards::{TestRewardValidators, ValidatorIndex};
use paged_queue::validators::MockDisabledValidators;
use std::collections::HashMap;

fn sibling(id: u32) -> Location {
    Location { parents: 1, interior: vec![Junction::Parachain(id)] }
}

#[test]
fn system_sibling_becomes_root_as_superuser() {
    assert_eq!(SystemParachainAsSuperuser::convert_origin(sibling(1000), OriginKind::Superuser), Ok(Root));
    assert_eq!(SystemParachainAsSuperuser::convert_origin(sibling(0), OriginKind::Superuser), Ok(Root));
    assert_eq!(SystemParachainAsSuperuser::convert_origin(sibling(1999), OriginKind::Superuser), Ok(Root));
}

#[test]
fn public_sibling_is_handed_back() {
    assert_eq!(
        SystemParachainAsSuperuser::convert_origin(sibling(2000), OriginKind::Superuser),
        Err(sibling(2000))
    );
    assert_eq!(
        SystemParachainAsSuperuser::convert_origin(sibling(u32::MAX), OriginKind::Superuser),
        Err(sibling(u32::MAX))
    );
}

#[test]
fn other_kinds_and_other_places_are_handed_back() {
    for kind in [OriginKind::Native, OriginKind::SovereignAccount, OriginKind::Xcm] {
        assert_eq!(SystemParachainAsSuperuser::convert_origin(sibling(1000), kind), Err(sibling(1000)));
    }
    let places = [
        Location { parents: 0, interior: vec![Junction::Parachain(1000)] },
        Location { parents: 2, interior: vec![Junction::Parachain(1000)] },
        Location { parents: 1, interior: vec![] },
        Location { parents: 1, interior: vec![Junction::Other] },
        Location { parents: 1, interior: vec![Junction::Parachain(1000), Junction::Other] },
        Location { parents: 1, interior: vec![Junction::Parachain(1000), Junction::Parachain(1001)] },
    ];
    for place in places {
        let again = Location { parents: place.parents, interior: place.interior.clone() };
        assert_eq!(SystemParachainAsSuperuser::convert_origin(place, OriginKind::Superuser), Err(again));
    }
}

#[test]
fn hrmp_para_always_has_an_open_channel() {
    let hrmp = ParaId(HRMP_PARA_ID);
    assert_eq!(HRMP_PARA_ID, 7777);
    assert_eq!(
        MockedChannelInfo::get_channel_status(hrmp, ChannelStatus::Closed),
        ChannelStatus::Ready(usize::MAX, usize::MAX)
    );
    assert_eq!(
        MockedChannelInfo::get_channel_info(hrmp, None),
        Some(ChannelInfo {
            max_capacity: u32::MAX,
            max_total_size: u32::MAX,
            max_message_size: u32::MAX,
            msg_count: 0,
            total_size: 0,
        })
    );
}

#[test]
fn other_paras_get_what_the_system_says() {
    let other = ParaId(7778);
    let known = ChannelInfo {
        max_capacity: 8,
        max_total_size: 1024,
        max_message_size: 128,
        msg_count: 3,
        total_size: 96,
    };
    assert_eq!(MockedChannelInfo::get_channel_status(other, ChannelStatus::Full), ChannelStatus::Full);
    assert_eq!(
        MockedChannelInfo::get_channel_status(other, ChannelStatus::Ready(1, 2)),
        ChannelStatus::Ready(1, 2)
    );
    assert_eq!(MockedChannelInfo::get_channel_info(other, Some(known)), Some(known));
    assert_eq!(MockedChannelInfo::get_channel_info(other, None), None);
}

#[test]
fn assignments_come_out_in_the_order_they_went_in() {
    let mut assigner = Pallet::new();
    assert_eq!(assigner.pop_assignment_for_core(CoreIndex(0)), None);
    let first = Assignment::Bulk(ParaId(1));
    let second = Assignment::Pool { para_id: ParaId(2), core_index: CoreIndex(5) };
    assigner.add_test_assignment(first);
    assigner.push_back_assignment(second);
    assigner.report_processed(first);
    assigner.assignment_duplicated(&second);
    assert_eq!(assigner.pop_assignment_for_core(CoreIndex(9)), Some(first));
    assert_eq!(assigner.pop_assignment_for_core(CoreIndex(0)), Some(second));
    assert_eq!(assigner.pop_assignment_for_core(CoreIndex(0)), None);
    assert_eq!(Pallet::get_mock_assignment(CoreIndex(3), ParaId(42)), Assignment::Bulk(ParaId(42)));
}

#[test]
fn rewards_count_every_occurrence() {
    let mut counters = TestRewardValidators::new();
    counters.reward_backing(&[ValidatorIndex(1), ValidatorIndex(2), ValidatorIndex(1)]);
    counters.reward_backing(&[ValidatorIndex(1)]);
    counters.reward_bitfields(&[ValidatorIndex(7)]);
    counters.reward_bitfields(&[]);

    let backing: HashMap<u32, usize> = [(1, 3), (2, 1)].into_iter().collect();
    let availability: HashMap<u32, usize> = [(7, 1)].into_iter().collect();
    assert_eq!(counters.backing_rewards(), backing);
    assert_eq!(counters.availability_rewards(), availability);

    counters.clear();
    assert_eq!(counters.backing_rewards(), HashMap::new());
    assert_eq!(counters.availability_rewards(), HashMap::new());
}

#[test]
fn disabled_validators_are_found_by_index() {
    let mut holder = MockDisabledValidators::new();
    assert!(!holder.is_disabled(0));
    assert_eq!(holder.disabled_validators(), Vec::<u32>::new());
    holder.set_disabled_validators(vec![3, 1, 4]);
    assert!(holder.is_disabled(3));
    assert!(holder.is_disabled(4));
    assert!(!holder.is_disabled(2));
    assert_eq!(holder.disabled_validators(), vec![3, 1, 4]);
}
