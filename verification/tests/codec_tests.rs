//! Round trips of the wire codec and cross-checks against an independent
//! CBOR implementation.

use bed_gateway::codec::DecodeErr;
use bed_gateway::schema::{
    BatchItem, BedTemp, BedTempSide, CapSense, CapSenseSide, Envelope, FrzTemp, LogRecord,
    PiezoDual, SensorRecord, encode_batch_item, encode_envelope, encode_sensor, parse_batch_item,
    parse_envelope, parse_sensor,
};
use ciborium::value::Value;

fn sample_envelope() -> Envelope {
    Envelope {
        part: b"batch".to_vec(),
        proto: b"raw".to_vec(),
        id: Some(42),
        version: None,
        dev: None,
        stream: Some(vec![1, 2, 3, 250]),
    }
}

#[test]
fn envelope_round_trip_all_fields() {
    let e = Envelope {
        part: b"session".to_vec(),
        proto: b"raw".to_vec(),
        id: Some(7),
        version: Some(b"2.1".to_vec()),
        dev: Some(b"X1".to_vec()),
        stream: Some(vec![0xa0, 0xff]),
    };
    let bytes = encode_envelope(&e);
    let (d, n) = parse_envelope(&bytes, 0).expect("decodes");
    assert_eq!(n, bytes.len());
    assert_eq!(d.part, e.part);
    assert_eq!(d.proto, e.proto);
    assert_eq!(d.id, e.id);
    assert_eq!(d.version, e.version);
    assert_eq!(d.dev, e.dev);
    assert_eq!(d.stream, e.stream);
}

#[test]
fn envelope_round_trip_sparse() {
    let e = Envelope {
        part: b"session".to_vec(),
        proto: b"raw".to_vec(),
        id: None,
        version: None,
        dev: Some(b"dev-9".to_vec()),
        stream: None,
    };
    let bytes = encode_envelope(&e);
    let (d, n) = parse_envelope(&bytes, 0).expect("decodes");
    assert_eq!(n, bytes.len());
    assert_eq!(d.id, None);
    assert_eq!(d.version, None);
    assert_eq!(d.dev, Some(b"dev-9".to_vec()));
    assert_eq!(d.stream, None);
}

#[test]
fn envelope_truncated_vs_malformed() {
    let bytes = encode_envelope(&sample_envelope());
    for cut in 1..bytes.len() {
        match parse_envelope(&bytes[..cut], 0) {
            Err(DecodeErr::Truncated) => {},
            other => panic!("prefix of {} bytes gave {:?}", cut, other.is_ok()),
        }
    }
    // Major kind 7 with argument code 31 can begin no envelope.
    assert!(matches!(parse_envelope(&[0xff, 0x00], 0), Err(DecodeErr::Malformed)));
    // A map whose first key is not "part" is structurally invalid here.
    assert!(matches!(
        parse_envelope(&[0xa1, 0x61, 0x78, 0x00], 0),
        Err(DecodeErr::Malformed)
    ));
}

#[test]
fn batch_item_round_trip() {
    let item = BatchItem { seq: 70000, data: vec![9, 8, 7] };
    let bytes = encode_batch_item(&item);
    let (d, n) = parse_batch_item(&bytes, 0).expect("decodes");
    assert_eq!(n, bytes.len());
    assert_eq!(d.seq, 70000);
    assert_eq!(d.data, vec![9, 8, 7]);
}

fn sample_bed_temp() -> SensorRecord {
    SensorRecord::BedTemp(BedTemp {
        ts: 1_700_000_001,
        mcu: 410,
        amb: 2900,
        hu: 55,
        left: BedTempSide { cen: 2500, inner: 2510, out: 2490 },
        right: BedTempSide { cen: 2600, inner: 2610, out: 2590 },
    })
}

#[test]
fn sensor_round_trip_bed_temp() {
    let r = sample_bed_temp();
    let bytes = encode_sensor(&r);
    let (d, n) = parse_sensor(&bytes, 0).expect("decodes");
    assert_eq!(n, bytes.len());
    match (&r, &d) {
        (SensorRecord::BedTemp(a), SensorRecord::BedTemp(b)) => assert_eq!(a, b),
        _ => panic!("variant changed"),
    }
}

#[test]
fn sensor_round_trip_cap_sense() {
    let r = SensorRecord::CapSense(CapSense {
        ts: 1_700_000_002,
        left: CapSenseSide { status: b"good".to_vec(), cen: 300, inner: 310, out: 290 },
        right: CapSenseSide { status: b"weak".to_vec(), cen: 100, inner: 90, out: 110 },
    });
    let bytes = encode_sensor(&r);
    let (d, n) = parse_sensor(&bytes, 0).expect("decodes");
    assert_eq!(n, bytes.len());
    match d {
        SensorRecord::CapSense(c) => {
            assert_eq!(c.ts, 1_700_000_002);
            assert_eq!(c.left.status, b"good".to_vec());
            assert_eq!(c.left.cen, 300);
            assert_eq!(c.left.inner, 310);
            assert_eq!(c.left.out, 290);
            assert_eq!(c.right.status, b"weak".to_vec());
        },
        _ => panic!("variant changed"),
    }
}

#[test]
fn sensor_round_trip_piezo_dual() {
    let r = SensorRecord::PiezoDual(PiezoDual {
        ts: 1_700_000_003,
        adc: 1,
        freq: 500,
        gain: 400,
        left1: vec![1; 33],
        left2: vec![2; 3],
        right1: vec![],
        right2: vec![255, 0, 255],
    });
    let bytes = encode_sensor(&r);
    let (d, n) = parse_sensor(&bytes, 0).expect("decodes");
    assert_eq!(n, bytes.len());
    match d {
        SensorRecord::PiezoDual(p) => {
            assert_eq!(p.adc, 1);
            assert_eq!(p.freq, 500);
            assert_eq!(p.gain, 400);
            assert_eq!(p.left1, vec![1; 33]);
            assert_eq!(p.left2, vec![2; 3]);
            assert_eq!(p.right1, Vec::<u8>::new());
            assert_eq!(p.right2, vec![255, 0, 255]);
        },
        _ => panic!("variant changed"),
    }
}

#[test]
fn sensor_round_trip_log() {
    let r = SensorRecord::LogMsg(LogRecord {
        ts: 1_700_000_004,
        msg: b"pump engaged".to_vec(),
        level: b"info".to_vec(),
    });
    let bytes = encode_sensor(&r);
    let (d, n) = parse_sensor(&bytes, 0).expect("decodes");
    assert_eq!(n, bytes.len());
    match d {
        SensorRecord::LogMsg(l) => {
            assert_eq!(l.ts, 1_700_000_004);
            assert_eq!(l.msg, b"pump engaged".to_vec());
            assert_eq!(l.level, b"info".to_vec());
        },
        _ => panic!("variant changed"),
    }
}

#[test]
fn sensor_round_trip_frz_temp() {
    let r = SensorRecord::FrzTemp(FrzTemp {
        ts: 1_700_000_005,
        amb: 2100,
        hs: 3100,
        left: 900,
        right: 950,
    });
    let bytes = encode_sensor(&r);
    let (d, n) = parse_sensor(&bytes, 0).expect("decodes");
    assert_eq!(n, bytes.len());
    match d {
        SensorRecord::FrzTemp(f) => {
            assert_eq!(f, FrzTemp { ts: 1_700_000_005, amb: 2100, hs: 3100, left: 900, right: 950 });
        },
        _ => panic!("variant changed"),
    }
}

#[test]
fn unknown_discriminator_is_malformed() {
    // A map {"type": "windSpeed", ...} matches no known shape.
    let mut v: Vec<(Value, Value)> = Vec::new();
    v.push((Value::Text("type".into()), Value::Text("windSpeed".into())));
    v.push((Value::Text("ts".into()), Value::Integer(5u8.into())));
    let mut bytes: Vec<u8> = Vec::new();
    ciborium::into_writer(&Value::Map(v), &mut bytes).expect("writes");
    assert!(matches!(parse_sensor(&bytes, 0), Err(DecodeErr::Malformed)));
}

#[test]
fn envelope_bytes_read_back_by_independent_cbor() {
    let bytes = encode_envelope(&sample_envelope());
    let v: Value = ciborium::from_reader(bytes.as_slice()).expect("valid cbor");
    let entries = match v {
        Value::Map(m) => m,
        other => panic!("expected a map, got {:?}", other),
    };
    assert_eq!(entries.len(), 4);
    assert_eq!(entries[0].0, Value::Text("part".into()));
    assert_eq!(entries[0].1, Value::Text("batch".into()));
    assert_eq!(entries[1].0, Value::Text("proto".into()));
    assert_eq!(entries[1].1, Value::Text("raw".into()));
    assert_eq!(entries[2].0, Value::Text("id".into()));
    assert_eq!(entries[2].1, Value::Integer(42u8.into()));
    assert_eq!(entries[3].0, Value::Text("stream".into()));
    assert_eq!(entries[3].1, Value::Bytes(vec![1, 2, 3, 250]));
}

#[test]
fn envelope_written_by_independent_cbor_decodes() {
    let mut m: Vec<(Value, Value)> = Vec::new();
    m.push((Value::Text("part".into()), Value::Text("session".into())));
    m.push((Value::Text("proto".into()), Value::Text("raw".into())));
    m.push((Value::Text("dev".into()), Value::Text("X1".into())));
    let mut bytes: Vec<u8> = Vec::new();
    ciborium::into_writer(&Value::Map(m), &mut bytes).expect("writes");
    let (e, n) = parse_envelope(&bytes, 0).expect("decodes");
    assert_eq!(n, bytes.len());
    assert_eq!(e.part, b"session".to_vec());
    assert_eq!(e.proto, b"raw".to_vec());
    assert_eq!(e.dev, Some(b"X1".to_vec()));
    assert_eq!(e.id, None);
    assert_eq!(e.stream, None);
}

#[test]
fn sensor_bytes_read_back_by_independent_cbor() {
    let bytes = encode_sensor(&sample_bed_temp());
    let v: Value = ciborium::from_reader(bytes.as_slice()).expect("valid cbor");
    let entries = match v {
        Value::Map(m) => m,
        other => panic!("expected a map, got {:?}", other),
    };
    assert_eq!(entries.len(), 7);
    assert_eq!(entries[0].0, Value::Text("type".into()));
    assert_eq!(entries[0].1, Value::Text("bedTemp".into()));
    assert_eq!(entries[1].0, Value::Text("ts".into()));
    assert_eq!(entries[1].1, Value::Integer(1_700_000_001u64.into()));
    match &entries[5].1 {
        Value::Map(side) => {
            assert_eq!(side[0].0, Value::Text("cen".into()));
            assert_eq!(side[0].1, Value::Integer(2500u16.into()));
            assert_eq!(side[1].0, Value::Text("in".into()));
            assert_eq!(side[2].0, Value::Text("out".into()));
        },
        other => panic!("expected a side map, got {:?}", other),
    }
}

#[test]
fn integer_widths_accepted_on_decode() {
    // The same value in a wider head form decodes identically: 10 inline,
    // as 0x18 + byte, and as 0x19 + two bytes.
    for head in [vec![0x0a], vec![0x18, 0x0a], vec![0x19, 0x00, 0x0a]] {
        let mut bytes = vec![0xa2, 0x63, b's', b'e', b'q'];
        bytes.extend_from_slice(&head);
        bytes.extend_from_slice(&[0x64, b'd', b'a', b't', b'a', 0x41, 0x05]);
        let (item, n) = parse_batch_item(&bytes, 0).expect("decodes");
        assert_eq!(n, bytes.len());
        assert_eq!(item.seq, 10);
        assert_eq!(item.data, vec![5]);
    }
}

#[test]
fn extreme_values_round_trip() {
    let e = Envelope {
        part: b"batch".to_vec(),
        proto: b"raw".to_vec(),
        id: Some(u32::MAX),
        version: None,
        dev: None,
        stream: Some(Vec::new()),
    };
    let bytes = encode_envelope(&e);
    let (d, n) = parse_envelope(&bytes, 0).expect("decodes");
    assert_eq!(n, bytes.len());
    assert_eq!(d.id, Some(u32::MAX));
    assert_eq!(d.stream, Some(Vec::new()));

    let r = SensorRecord::BedTemp(BedTemp {
        ts: u64::MAX,
        mcu: u16::MAX,
        amb: 0,
        hu: 23,
        left: BedTempSide { cen: 24, inner: 255, out: 256 },
        right: BedTempSide { cen: 65535, inner: 0, out: 1 },
    });
    let sbytes = encode_sensor(&r);
    let (ds, m) = parse_sensor(&sbytes, 0).expect("decodes");
    assert_eq!(m, sbytes.len());
    match (r, ds) {
        (SensorRecord::BedTemp(a), SensorRecord::BedTemp(b)) => assert_eq!(a, b),
        _ => panic!("variant changed"),
    }
}

#[test]
fn batch_id_wider_than_u32_is_malformed() {
    let mut m: Vec<(Value, Value)> = Vec::new();
    m.push((Value::Text("part".into()), Value::Text("batch".into())));
    m.push((Value::Text("proto".into()), Value::Text("raw".into())));
    m.push((Value::Text("id".into()), Value::Integer(0x1_0000_0000u64.into())));
    let mut bytes: Vec<u8> = Vec::new();
    ciborium::into_writer(&Value::Map(m), &mut bytes).expect("writes");
    assert!(matches!(parse_envelope(&bytes, 0), Err(DecodeErr::Malformed)));
}
