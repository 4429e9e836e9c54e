use paged_queue::footprint::{BatchFootprint, Footprint, QueueFootprint};
use paged_queue::message::{BoundedMessage, EnqueueError, ParaId, MAX_MESSAGE_LEN};
use paged_queue::notifier::{ChangeLog, QueueChange};
use paged_queue::queue::EnqueueToLocalStorage;

const A: ParaId = ParaId(1000);
const B: ParaId = ParaId(2000);

fn message(len: usize) -> BoundedMessage {
    BoundedMessage::try_from_slice(&vec![7u8; len]).unwrap()
}

fn footprint(count: u64, size: u64) -> QueueFootprint {
    QueueFootprint {
        pages: count as u32,
        ready_pages: count as u32,
        storage: Footprint { count, size },
    }
}

fn store_with_three() -> EnqueueToLocalStorage<ChangeLog> {
    let mut store = EnqueueToLocalStorage::new(ChangeLog::new());
    store.enqueue_messages(&[message(10), message(20), message(30)], A);
    store
}

#[test]
fn footprint_after_three_messages() {
    let store = store_with_three();
    assert_eq!(
        store.footprint(A),
        QueueFootprint { pages: 3, ready_pages: 3, storage: Footprint { count: 3, size: 60 } }
    );
    assert_eq!(store.len(), 3);
}

#[test]
fn unknown_origin_has_the_zero_footprint() {
    let store = store_with_three();
    assert_eq!(store.footprint(B), footprint(0, 0));
    let empty = EnqueueToLocalStorage::new(ChangeLog::new());
    assert_eq!(empty.footprint(A), footprint(0, 0));
}

#[test]
fn enqueue_messages_notifies_once_with_the_final_footprint() {
    let store = store_with_three();
    assert_eq!(store.notifier().len(), 1);
    assert_eq!(
        store.notifier().get(0),
        Some(QueueChange { origin: A, footprint: footprint(3, 60) })
    );
    assert_eq!(store.notifier().get(1), None);
}

#[test]
fn enqueue_message_notifies_each_time() {
    let mut store = EnqueueToLocalStorage::new(ChangeLog::new());
    store.enqueue_message(&message(10), A);
    store.enqueue_message(&message(5), B);
    store.enqueue_message(&message(20), A);
    assert_eq!(store.notifier().len(), 3);
    assert_eq!(store.notifier().get(0), Some(QueueChange { origin: A, footprint: footprint(1, 10) }));
    assert_eq!(store.notifier().get(1), Some(QueueChange { origin: B, footprint: footprint(1, 5) }));
    assert_eq!(store.notifier().last(), Some(QueueChange { origin: A, footprint: footprint(2, 30) }));
    assert_eq!(store.footprint(A), footprint(2, 30));
    assert_eq!(store.footprint(B), footprint(1, 5));
}

#[test]
fn enqueue_of_no_messages_still_notifies() {
    let mut store = store_with_three();
    store.enqueue_messages(&[], A);
    assert_eq!(store.notifier().len(), 2);
    assert_eq!(store.notifier().last(), Some(QueueChange { origin: A, footprint: footprint(3, 60) }));
}

#[test]
fn sweep_empties_the_queue_and_notifies_with_zero() {
    let mut store = store_with_three();
    store.sweep_queue(A);
    assert_eq!(
        store.footprint(A),
        QueueFootprint { pages: 0, ready_pages: 0, storage: Footprint { count: 0, size: 0 } }
    );
    assert_eq!(store.notifier().len(), 2);
    assert_eq!(store.notifier().last(), Some(QueueChange { origin: A, footprint: footprint(0, 0) }));
    assert_eq!(store.len(), 0);
}

#[test]
fn sweep_of_an_empty_queue_changes_nothing_and_notifies() {
    let mut store = store_with_three();
    store.sweep_queue(B);
    assert_eq!(store.footprint(A), footprint(3, 60));
    assert_eq!(store.footprint(B), footprint(0, 0));
    assert_eq!(store.notifier().last(), Some(QueueChange { origin: B, footprint: footprint(0, 0) }));
    store.sweep_queue(B);
    assert_eq!(store.notifier().len(), 3);
}

#[test]
fn sweep_leaves_other_tenants_alone() {
    let mut store = EnqueueToLocalStorage::new(ChangeLog::new());
    store.enqueue_message(&message(1), A);
    store.enqueue_message(&message(2), B);
    store.enqueue_message(&message(4), A);
    store.enqueue_message(&message(8), B);
    store.sweep_queue(A);
    assert_eq!(store.footprint(A), footprint(0, 0));
    assert_eq!(store.footprint(B), footprint(2, 10));
    assert_eq!(store.len(), 2);
    store.enqueue_message(&message(16), A);
    assert_eq!(store.footprint(A), footprint(1, 16));
}

#[test]
fn footprint_follows_every_operation() {
    let mut store = EnqueueToLocalStorage::new(ChangeLog::new());
    let mut count = 0u64;
    let mut size = 0u64;
    for round in 0..40usize {
        if round % 7 == 6 {
            store.sweep_queue(A);
            count = 0;
            size = 0;
        } else if round % 3 == 0 {
            store.enqueue_messages(&[message(round), message(2 * round)], A);
            count += 2;
            size += 3 * round as u64;
        } else {
            store.enqueue_message(&message(round), A);
            store.enqueue_message(&message(1), B);
            count += 1;
            size += round as u64;
        }
        assert_eq!(store.footprint(A), footprint(count, size));
    }
}

#[test]
fn message_length_is_checked_at_the_boundary() {
    let longest = vec![0u8; MAX_MESSAGE_LEN as usize];
    let made = BoundedMessage::try_from_slice(&longest).unwrap();
    assert_eq!(made.len(), 256);
    assert_eq!(made.as_slice(), &longest[..]);
    assert_eq!(made.to_vec(), longest);
    assert_eq!(made.clone().to_vec(), longest);

    let too_long = vec![0u8; MAX_MESSAGE_LEN as usize + 1];
    assert_eq!(BoundedMessage::try_from_slice(&too_long).err(), Some(EnqueueError::MessageTooLong));

    assert_eq!(BoundedMessage::try_from_slice(&[]).unwrap().len(), 0);
}

#[test]
fn plan_stops_at_the_page_limit() {
    let store = store_with_three();
    let candidates = [message(5), message(6), message(7), message(8)];
    let plan = store.get_batches_footprints(A, &candidates, 5);
    assert_eq!(
        plan,
        vec![
            BatchFootprint { msgs_count: 1, size_in_bytes: 5, new_pages_count: 1 },
            BatchFootprint { msgs_count: 2, size_in_bytes: 11, new_pages_count: 2 },
        ]
    );
    // Planning reads only.
    assert_eq!(store.footprint(A), footprint(3, 60));
    assert_eq!(store.notifier().len(), 1);
}

#[test]
fn plan_takes_every_candidate_when_there_is_room() {
    let store = store_with_three();
    let candidates = [message(5), message(0), message(256)];
    let plan = store.get_batches_footprints(A, &candidates, 100);
    assert_eq!(
        plan,
        vec![
            BatchFootprint { msgs_count: 1, size_in_bytes: 5, new_pages_count: 1 },
            BatchFootprint { msgs_count: 2, size_in_bytes: 5, new_pages_count: 2 },
            BatchFootprint { msgs_count: 3, size_in_bytes: 261, new_pages_count: 3 },
        ]
    );
    let exact = store.get_batches_footprints(A, &candidates, 6);
    assert_eq!(exact, plan);
    let maximal = store.get_batches_footprints(A, &candidates, u32::MAX);
    assert_eq!(maximal, plan);
}

#[test]
fn plan_is_empty_without_candidates_or_without_room() {
    let store = store_with_three();
    let candidates = [message(5), message(6)];
    assert_eq!(store.get_batches_footprints(A, &[], 0), vec![]);
    assert_eq!(store.get_batches_footprints(A, &[], 5), vec![]);
    assert_eq!(store.get_batches_footprints(A, &[], u32::MAX), vec![]);
    assert_eq!(store.get_batches_footprints(A, &candidates, 3), vec![]);
    assert_eq!(store.get_batches_footprints(A, &candidates, 2), vec![]);
    assert_eq!(store.get_batches_footprints(A, &candidates, 0), vec![]);
}

#[test]
fn plan_counts_only_the_pages_of_its_origin() {
    let store = store_with_three();
    let candidates = [message(5), message(6), message(7)];
    let plan = store.get_batches_footprints(B, &candidates, 2);
    assert_eq!(
        plan,
        vec![
            BatchFootprint { msgs_count: 1, size_in_bytes: 5, new_pages_count: 1 },
            BatchFootprint { msgs_count: 2, size_in_bytes: 11, new_pages_count: 2 },
        ]
    );
}

#[test]
fn plan_grows_and_stays_under_the_limit() {
    let store = store_with_three();
    let candidates: Vec<BoundedMessage> = (0..20).map(|i| message(i * 3)).collect();
    for limit in 0..30u32 {
        let plan = store.get_batches_footprints(A, &candidates, limit);
        let room = limit.saturating_sub(3) as usize;
        assert_eq!(plan.len(), room.min(candidates.len()));
        for (i, entry) in plan.iter().enumerate() {
            assert_eq!(entry.msgs_count, i + 1);
            assert!(3 + entry.new_pages_count <= limit);
            if i > 0 {
                assert!(plan[i - 1].msgs_count < entry.msgs_count);
                assert!(plan[i - 1].size_in_bytes <= entry.size_in_bytes);
                assert!(plan[i - 1].new_pages_count <= entry.new_pages_count);
            }
        }
    }
}
