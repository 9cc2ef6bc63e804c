//! The command channel: codes, side parsing, frame shape, hex rendering,
//! and the execute decision.

use bed_gateway::command::{
    AlarmSettings, Command, CommandOutcome, ExecutePlan, Side, command_code, command_frame,
    encode_alarm_settings, execute_plan, finish_execute, parse_side,
};
use bed_gateway::hexfmt::{hex8, hex_encode};
use ciborium::value::Value;
use std::time::Instant;

#[test]
fn command_codes_match_the_table() {
    assert_eq!(command_code(Command::Hello), 0);
    assert_eq!(command_code(Command::Alarm(Side::Left)), 5);
    assert_eq!(command_code(Command::Alarm(Side::Right)), 6);
    assert_eq!(command_code(Command::Settings), 8);
    assert_eq!(command_code(Command::HeatDuration(Side::Left)), 9);
    assert_eq!(command_code(Command::HeatDuration(Side::Right)), 10);
    assert_eq!(command_code(Command::HeatLevel(Side::Left)), 11);
    assert_eq!(command_code(Command::HeatLevel(Side::Right)), 12);
    assert_eq!(command_code(Command::Prime), 13);
    assert_eq!(command_code(Command::Variables), 14);
    assert_eq!(command_code(Command::AlarmClear), 16);
}

#[test]
fn side_parameter_is_strict() {
    assert_eq!(parse_side(b"left"), Some(Side::Left));
    assert_eq!(parse_side(b"right"), Some(Side::Right));
    assert_eq!(parse_side(b"Left"), None);
    assert_eq!(parse_side(b"center"), None);
    assert_eq!(parse_side(b""), None);
}

#[test]
fn frames_have_the_line_shape() {
    assert_eq!(command_frame(0, None), b"0\n\n".to_vec());
    assert_eq!(command_frame(14, None), b"14\n\n".to_vec());
    assert_eq!(command_frame(16, None), b"16\n\n".to_vec());
    let payload = b"a1626c6200".to_vec();
    assert_eq!(command_frame(8, Some(&payload)), b"8\na1626c6200\n\n".to_vec());
}

#[test]
fn hex_rendering_is_lowercase_and_padded() {
    assert_eq!(hex_encode(&[0xde, 0xad, 0x0b, 0xee, 0xf0]), b"dead0beef0".to_vec());
    assert_eq!(hex_encode(&[]), b"".to_vec());
    assert_eq!(hex8(0x2a), b"0000002a".to_vec());
    assert_eq!(hex8(0), b"00000000".to_vec());
    assert_eq!(hex8(0xdeadbeef), b"deadbeef".to_vec());
}

#[test]
fn alarm_settings_encode_as_their_map() {
    let a = AlarmSettings { pl: 50, du: 600, pi: b"double".to_vec(), tt: 0x65af6af8 };
    let bytes = encode_alarm_settings(&a);
    let v: Value = ciborium::from_reader(bytes.as_slice()).expect("valid cbor");
    let entries = match v {
        Value::Map(m) => m,
        other => panic!("expected a map, got {:?}", other),
    };
    assert_eq!(entries.len(), 4);
    assert_eq!(entries[0].0, Value::Text("pl".into()));
    assert_eq!(entries[0].1, Value::Integer(50u8.into()));
    assert_eq!(entries[1].0, Value::Text("du".into()));
    assert_eq!(entries[1].1, Value::Integer(600u16.into()));
    assert_eq!(entries[2].0, Value::Text("pi".into()));
    assert_eq!(entries[2].1, Value::Text("double".into()));
    assert_eq!(entries[3].0, Value::Text("tt".into()));
    assert_eq!(entries[3].1, Value::Integer(0x65af6af8u64.into()));
    // The alarm command carries the hex rendering of those bytes.
    let hex = hex_encode(&bytes);
    let frame = command_frame(5, Some(&hex));
    assert!(frame.starts_with(b"5\n"));
    assert!(frame.ends_with(b"\n\n"));
}

#[test]
fn execute_without_connection_fails_fast() {
    let started = Instant::now();
    let plan = execute_plan(false, 14, None);
    assert!(matches!(plan, ExecutePlan::NotConnected));
    assert!(started.elapsed().as_millis() < 10);
}

#[test]
fn execute_with_connection_sends_the_frame() {
    let plan = execute_plan(true, 14, None);
    match plan {
        ExecutePlan::Send { frame } => assert_eq!(frame, b"14\n\n".to_vec()),
        _ => panic!("expected a send plan"),
    }
}

#[test]
fn responses_pass_through_unmodified() {
    // A connected mock firmware echoing a fixed response: whatever the read
    // produced is handed back byte for byte.
    let fixed = b"tgHeatLevelR = 0\nwaterLevel = true\n".to_vec();
    match finish_execute(fixed.clone()) {
        CommandOutcome::Response { body } => assert_eq!(body, fixed),
        _ => panic!("expected a response"),
    }
    match finish_execute(Vec::new()) {
        CommandOutcome::Response { body } => assert_eq!(body, Vec::<u8>::new()),
        _ => panic!("expected a response"),
    }
}
