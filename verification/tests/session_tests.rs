//! The telemetry dispatch: acknowledgments, persistence, batch item
//! decoding, and the full two-record scenario.

use bed_gateway::schema::{
    BatchItem, BedTemp, BedTempSide, Envelope, SensorRecord, encode_batch_item, encode_envelope,
    encode_sensor, parse_envelope,
};
use bed_gateway::session::{
    BatchEnd, Effect, ItemOutcome, SessionAction, StreamStep, action_effects, decode_batch_items,
    process_envelope, session_step,
};

fn session_record() -> Envelope {
    Envelope {
        part: b"session".to_vec(),
        proto: b"raw".to_vec(),
        id: None,
        version: None,
        dev: Some(b"X1".to_vec()),
        stream: None,
    }
}

fn batch_record(id: Option<u32>, stream: Option<Vec<u8>>) -> Envelope {
    Envelope { part: b"batch".to_vec(), proto: b"raw".to_vec(), id, version: None, dev: None, stream }
}

fn bed_temp() -> SensorRecord {
    SensorRecord::BedTemp(BedTemp {
        ts: 1_700_000_100,
        mcu: 400,
        amb: 2800,
        hu: 50,
        left: BedTempSide { cen: 2500, inner: 2510, out: 2490 },
        right: BedTempSide { cen: 2600, inner: 2610, out: 2590 },
    })
}

#[test]
fn session_ack_is_fixed_regardless_of_identity() {
    let a = process_envelope(&session_record());
    let mut other = session_record();
    other.dev = Some(b"another-device".to_vec());
    other.version = Some(b"9.9".to_vec());
    let b = process_envelope(&other);
    let (ack_a, ack_b) = match (a, b) {
        (SessionAction::SessionAck { ack: x }, SessionAction::SessionAck { ack: y }) => (x, y),
        _ => panic!("expected session acknowledgments"),
    };
    assert_eq!(ack_a, ack_b);
    let (ack, n) = parse_envelope(&ack_a, 0).expect("ack decodes");
    assert_eq!(n, ack_a.len());
    assert_eq!(ack.part, b"session".to_vec());
    assert_eq!(ack.proto, b"raw".to_vec());
    assert_eq!(ack.id, None);
    assert_eq!(ack.version, None);
    assert_eq!(ack.dev, None);
    assert_eq!(ack.stream, None);
}

#[test]
fn batch_ack_echoes_id() {
    let items = encode_batch_item(&BatchItem { seq: 1, data: encode_sensor(&bed_temp()) });
    let action = process_envelope(&batch_record(Some(1234), Some(items)));
    match action {
        SessionAction::BatchHandled { id, ack, work } => {
            assert_eq!(id, 1234);
            let (e, _) = parse_envelope(&ack, 0).expect("ack decodes");
            assert_eq!(e.part, b"batch".to_vec());
            assert_eq!(e.proto, b"raw".to_vec());
            assert_eq!(e.id, Some(1234));
            assert_eq!(e.stream, None);
            assert!(work.is_some());
        },
        _ => panic!("expected a handled batch"),
    }
}

#[test]
fn batch_missing_id_is_dropped_not_fatal() {
    let action = process_envelope(&batch_record(None, Some(vec![1, 2, 3])));
    assert!(matches!(action, SessionAction::BatchMissingId));
    // The stream step still handles the record: the connection stays open.
    let bytes = encode_envelope(&batch_record(None, None));
    match session_step(&bytes) {
        StreamStep::Handled { consumed, action } => {
            assert_eq!(consumed, bytes.len());
            assert!(matches!(action, SessionAction::BatchMissingId));
        },
        _ => panic!("expected the record to be handled"),
    }
}

#[test]
fn garbage_batch_is_still_persisted() {
    let e = batch_record(Some(0x2a), Some(vec![0xff, 0xff, 0xff]));
    let action = process_envelope(&e);
    match action {
        SessionAction::BatchHandled { work: Some(w), .. } => {
            assert_eq!(w.persist.key, b"0000002a".to_vec());
            assert_eq!(w.persist.payload, encode_envelope(&e));
            assert_eq!(w.report.outcomes.len(), 0);
            assert_eq!(w.report.end, BatchEnd::Corrupted);
        },
        _ => panic!("expected persistence despite undecodable items"),
    }
}

#[test]
fn batch_without_stream_does_no_work() {
    let action = process_envelope(&batch_record(Some(5), None));
    match action {
        SessionAction::BatchHandled { id, work, .. } => {
            assert_eq!(id, 5);
            assert!(work.is_none());
        },
        _ => panic!("expected a handled batch"),
    }
}

#[test]
fn unknown_part_is_skipped() {
    let mut e = session_record();
    e.part = b"metrics".to_vec();
    assert!(matches!(process_envelope(&e), SessionAction::UnknownPart));
}

fn blob_of(items: &[(u32, Vec<u8>)]) -> Vec<u8> {
    let mut blob = Vec::new();
    for (seq, data) in items {
        blob.extend_from_slice(&encode_batch_item(&BatchItem { seq: *seq, data: data.clone() }));
    }
    blob
}

#[test]
fn item_decoding_is_idempotent_and_order_preserving() {
    let blob = blob_of(&[
        (1, encode_sensor(&bed_temp())),
        (2, vec![0xde, 0xad]),
        (3, encode_sensor(&bed_temp())),
    ]);
    let a = decode_batch_items(&blob);
    let b = decode_batch_items(&blob);
    assert_eq!(a.outcomes.len(), b.outcomes.len());
    assert_eq!(a.end, b.end);
    let seqs: Vec<u32> = a
        .outcomes
        .iter()
        .map(|o| match o {
            ItemOutcome::Decoded { seq, .. } => *seq,
            ItemOutcome::Discarded { seq } => *seq,
        })
        .collect();
    assert_eq!(seqs, vec![1, 2, 3]);
    for (x, y) in a.outcomes.iter().zip(b.outcomes.iter()) {
        match (x, y) {
            (ItemOutcome::Decoded { seq: s1, .. }, ItemOutcome::Decoded { seq: s2, .. }) => {
                assert_eq!(s1, s2)
            },
            (ItemOutcome::Discarded { seq: s1 }, ItemOutcome::Discarded { seq: s2 }) => {
                assert_eq!(s1, s2)
            },
            _ => panic!("outcomes differ between two decodes"),
        }
    }
}

#[test]
fn one_corrupt_item_among_well_formed_ones() {
    let good = encode_sensor(&bed_temp());
    let blob = blob_of(&[(10, good.clone()), (11, vec![0xff]), (12, good.clone())]);
    let report = decode_batch_items(&blob);
    assert_eq!(report.end, BatchEnd::Complete);
    assert_eq!(report.outcomes.len(), 3);
    let decoded = report
        .outcomes
        .iter()
        .filter(|o| matches!(o, ItemOutcome::Decoded { .. }))
        .count();
    assert_eq!(decoded, 2);
    assert!(matches!(report.outcomes[1], ItemOutcome::Discarded { seq: 11 }));
}

#[test]
fn mid_frame_corruption_loses_the_tail() {
    let good = encode_sensor(&bed_temp());
    let mut blob = blob_of(&[(20, good.clone())]);
    blob.extend_from_slice(&[0xff, 0x01, 0x02]);
    blob.extend_from_slice(&blob_of(&[(21, good)]));
    let report = decode_batch_items(&blob);
    assert_eq!(report.end, BatchEnd::Corrupted);
    assert_eq!(report.outcomes.len(), 1);
    assert!(matches!(report.outcomes[0], ItemOutcome::Decoded { seq: 20, .. }));
}

#[test]
fn two_record_scenario() {
    // A session handshake followed by batch 42 whose stream holds one
    // bedTemp item and one corrupt item.
    let stream = blob_of(&[(1, encode_sensor(&bed_temp())), (2, vec![0xde, 0xad])]);
    let mut wire = encode_envelope(&session_record());
    let batch = batch_record(Some(42), Some(stream));
    wire.extend_from_slice(&encode_envelope(&batch));

    let first = session_step(&wire);
    let consumed = match first {
        StreamStep::Handled { consumed, action } => {
            match action {
                SessionAction::SessionAck { ack } => {
                    let (e, _) = parse_envelope(&ack, 0).expect("ack decodes");
                    assert_eq!(e.part, b"session".to_vec());
                    assert_eq!(e.proto, b"raw".to_vec());
                },
                _ => panic!("expected the session acknowledgment"),
            }
            consumed
        },
        _ => panic!("expected the first record to be handled"),
    };

    let second = session_step(&wire[consumed..]);
    match second {
        StreamStep::Handled { consumed: c2, action } => {
            assert_eq!(consumed + c2, wire.len());
            match action {
                SessionAction::BatchHandled { id, ack, work } => {
                    assert_eq!(id, 42);
                    let (e, _) = parse_envelope(&ack, 0).expect("ack decodes");
                    assert_eq!(e.id, Some(42));
                    let w = work.expect("stream was present");
                    assert_eq!(w.persist.key, b"0000002a".to_vec());
                    assert_eq!(w.persist.payload, encode_envelope(&batch));
                    assert_eq!(w.report.end, BatchEnd::Complete);
                    assert_eq!(w.report.outcomes.len(), 2);
                    match &w.report.outcomes[0] {
                        ItemOutcome::Decoded { seq, rec } => {
                            assert_eq!(*seq, 1);
                            assert!(matches!(rec, SensorRecord::BedTemp(_)));
                        },
                        _ => panic!("expected the bedTemp item to decode"),
                    }
                    assert!(matches!(w.report.outcomes[1], ItemOutcome::Discarded { seq: 2 }));
                },
                _ => panic!("expected the batch to be handled"),
            }
        },
        _ => panic!("expected the second record to be handled"),
    }

    // A partial third record asks for more bytes instead of failing.
    let partial = &encode_envelope(&session_record())[..3];
    assert!(matches!(session_step(partial), StreamStep::NeedMore));
    // Garbage desynchronizes the stream fatally.
    assert!(matches!(session_step(&[0xff, 0x00, 0x01]), StreamStep::Fatal));
}

#[test]
fn ack_is_ordered_before_archival() {
    let action = process_envelope(&batch_record(Some(7), Some(Vec::new())));
    let (effects, report) = action_effects(action);
    assert_eq!(effects.len(), 2);
    assert!(matches!(effects[0], Effect::WriteBack { .. }));
    assert!(matches!(effects[1], Effect::Archive { .. }));
    let report = report.expect("an empty stream still reports");
    assert_eq!(report.outcomes.len(), 0);
    assert_eq!(report.end, BatchEnd::Complete);
}
