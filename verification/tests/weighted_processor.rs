use paged_queue::message::ParaId;
use paged_queue::processor::{AggregateMessageOrigin, ProcessOutcome, TestProcessMessage, UmpQueueId};
use paged_queue::weight::{Weight, WeightMeter};

fn from_para(id: u32) -> AggregateMessageOrigin {
    AggregateMessageOrigin::Ump(UmpQueueId::Para(ParaId(id)))
}

fn marked(weight: u32, payload: &[u8]) -> Vec<u8> {
    let mut message = weight.to_le_bytes().to_vec();
    message.extend_from_slice(payload);
    message
}

#[test]
fn overweight_message_leaves_the_meter_unchanged() {
    let mut sink = TestProcessMessage::new();
    let mut meter = WeightMeter::with_limit(Weight::from_parts(50, 50));
    let message = marked(100, b"payload");

    let outcome = sink.process_message(&message, from_para(1), &mut meter);

    assert_eq!(outcome, ProcessOutcome::Overweight(Weight::from_parts(100, 100)));
    assert_eq!(meter.consumed(), Weight::zero());
    assert_eq!(meter.limit(), Weight::from_parts(50, 50));
    assert_eq!(sink.processed_len(), 0);
}

#[test]
fn accepted_message_is_debited_and_recorded() {
    let mut sink = TestProcessMessage::new();
    let mut meter = WeightMeter::with_limit(Weight::from_parts(500, 500));
    let message = marked(100, b"hello");

    let outcome = sink.process_message(&message, from_para(7), &mut meter);

    assert_eq!(outcome, ProcessOutcome::Accepted);
    assert_eq!(meter.consumed(), Weight::from_parts(100, 100));
    assert_eq!(meter.remaining(), Weight::from_parts(400, 400));
    assert_eq!(sink.processed_len(), 1);
    assert_eq!(sink.processed_at(0), Some((ParaId(7), message.clone())));
    assert_eq!(sink.processed_at(1), None);
}

#[test]
fn short_message_is_corrupt_whatever_the_budget() {
    let mut sink = TestProcessMessage::new();
    let limits = [Weight::zero(), Weight::from_parts(10, 10), Weight::from_parts(u64::MAX, u64::MAX)];
    let shorts: [&[u8]; 4] = [&[], &[1], &[1, 2], &[1, 2, 3]];
    for limit in limits {
        for short in shorts {
            let mut meter = WeightMeter::with_limit(limit);
            assert_eq!(sink.process_message(short, from_para(1), &mut meter), ProcessOutcome::Corrupt);
            assert_eq!(meter.consumed(), Weight::zero());
        }
    }
    assert_eq!(sink.processed_len(), 0);
}

#[test]
fn marker_is_read_lowest_byte_first() {
    let mut sink = TestProcessMessage::new();
    let mut meter = WeightMeter::with_limit(Weight::from_parts(u64::MAX, u64::MAX));

    assert_eq!(sink.process_message(&[1, 2, 3, 4], from_para(1), &mut meter), ProcessOutcome::Accepted);
    assert_eq!(meter.consumed(), Weight::from_parts(0x04030201, 0x04030201));

    // Bytes after the marker do not count.
    assert_eq!(
        sink.process_message(&[0, 1, 0, 0, 0xff, 0xff], from_para(1), &mut meter),
        ProcessOutcome::Accepted
    );
    assert_eq!(meter.consumed(), Weight::from_parts(0x04030201 + 256, 0x04030201 + 256));
}

#[test]
fn shared_meter_stays_within_its_limit() {
    let mut sink = TestProcessMessage::new();
    let limit = Weight::from_parts(250, 250);
    let mut meter = WeightMeter::with_limit(limit);
    let weights: [u32; 6] = [100, 100, 100, 50, 1, 0];
    let expected = [
        (ProcessOutcome::Accepted, 100u64),
        (ProcessOutcome::Accepted, 200),
        (ProcessOutcome::Overweight(Weight::from_parts(100, 100)), 200),
        (ProcessOutcome::Accepted, 250),
        (ProcessOutcome::Overweight(Weight::from_parts(1, 1)), 250),
        (ProcessOutcome::Accepted, 250),
    ];
    for (weight, (outcome, consumed)) in weights.iter().zip(expected.iter()) {
        let got = sink.process_message(&marked(*weight, b""), from_para(3), &mut meter);
        assert_eq!(got, *outcome);
        assert_eq!(meter.consumed(), Weight::from_parts(*consumed, *consumed));
        assert!(meter.consumed().ref_time <= limit.ref_time);
        assert!(meter.consumed().proof_size <= limit.proof_size);
        assert_eq!(meter.limit(), limit);
    }
    assert_eq!(sink.processed_len(), 4);
}

#[test]
fn overweight_message_passes_under_a_fresh_budget() {
    let mut sink = TestProcessMessage::new();
    let message = marked(100, b"retry");

    let mut small = WeightMeter::with_limit(Weight::from_parts(99, 1000));
    assert_eq!(
        sink.process_message(&message, from_para(2), &mut small),
        ProcessOutcome::Overweight(Weight::from_parts(100, 100))
    );

    let mut fresh = WeightMeter::with_limit(Weight::from_parts(100, 100));
    assert_eq!(sink.process_message(&message, from_para(2), &mut fresh), ProcessOutcome::Accepted);
    assert_eq!(fresh.remaining(), Weight::zero());
    assert_eq!(sink.processed_at(0), Some((ParaId(2), message)));
}

#[test]
fn one_dimension_over_the_limit_is_enough_to_refuse() {
    let mut meter = WeightMeter::with_limit(Weight::from_parts(10, 5));
    assert!(!meter.try_consume(Weight::from_parts(1, 6)));
    assert!(!meter.try_consume(Weight::from_parts(11, 1)));
    assert_eq!(meter.consumed(), Weight::zero());
    assert!(meter.try_consume(Weight::from_parts(10, 5)));
    assert_eq!(meter.consumed(), Weight::from_parts(10, 5));
    assert!(meter.try_consume(Weight::zero()));
    assert!(!meter.try_consume(Weight::from_parts(0, 1)));
}

#[test]
fn a_debit_that_overflows_is_refused() {
    let mut meter = WeightMeter::with_limit(Weight::from_parts(u64::MAX, u64::MAX));
    assert!(meter.try_consume(Weight::from_parts(u64::MAX, 1)));
    assert!(!meter.try_consume(Weight::from_parts(1, 0)));
    assert_eq!(meter.consumed(), Weight::from_parts(u64::MAX, 1));
    let copy = meter.clone();
    assert_eq!(copy.consumed(), meter.consumed());
    assert_eq!(copy.limit(), meter.limit());
}
