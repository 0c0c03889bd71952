//! Tests for the telemetry record parser: console and error records, the
//! fallback form, version records, fault accumulation, and framing rules.

use ds_core::telemetry::{process_record, read_prefixed_string, tcp_size_valid, TelemetryEvent};
use ds_core::types::PowerData;

fn power() -> PowerData {
    PowerData {
        disable_count_comms: 0,
        disable_count_12v: 0,
        rail_faults_6v: 0,
        rail_faults_5v: 0,
        rail_faults_3v3: 0,
    }
}

fn prefixed(s: &str) -> Vec<u8> {
    let mut v = (s.len() as u16).to_be_bytes().to_vec();
    v.extend_from_slice(s.as_bytes());
    v
}

#[test]
fn stdout_record() {
    let mut payload = vec![0x0Cu8];
    payload.extend_from_slice(&2.5f32.to_be_bytes());
    payload.extend_from_slice(&7u16.to_be_bytes());
    payload.extend_from_slice(b"hello robot  \n");
    let mut p = power();
    match process_record(&payload, &mut p) {
        TelemetryEvent::Console(m) => {
            assert_eq!(m.timestamp_bits, 2.5f32.to_bits());
            assert_eq!(m.sequence, 7);
            assert_eq!(m.message, "hello robot"); // trailing whitespace stripped
            assert!(!m.is_error);
        },
        _ => panic!("expected a console entry"),
    }
}

#[test]
fn stdout_empty_message_not_emitted() {
    let mut payload = vec![0x0Cu8];
    payload.extend_from_slice(&[0, 0, 0, 0, 0, 1]);
    payload.extend_from_slice(b"   ");
    let mut p = power();
    assert!(matches!(process_record(&payload, &mut p), TelemetryEvent::Nothing));
}

#[test]
fn stdout_lossy_decoding() {
    let mut payload = vec![0x0Cu8];
    payload.extend_from_slice(&[0, 0, 0, 0, 0, 1]);
    payload.extend_from_slice(&[0xFF, 0xFE, b'o', b'k']);
    let mut p = power();
    match process_record(&payload, &mut p) {
        TelemetryEvent::Console(m) => {
            assert_eq!(m.message, "\u{FFFD}\u{FFFD}ok");
        },
        _ => panic!("expected a console entry"),
    }
}

#[test]
fn error_record() {
    let mut payload = vec![0x0Bu8];
    payload.extend_from_slice(&1.0f32.to_be_bytes());
    payload.extend_from_slice(&3u16.to_be_bytes());
    payload.extend_from_slice(&[0, 0]); // reserved
    payload.extend_from_slice(&42i32.to_be_bytes()); // error code
    payload.push(0x01); // flags: error
    payload.extend_from_slice(&prefixed("NullPointer"));
    payload.extend_from_slice(&prefixed("Robot.java:42"));
    payload.extend_from_slice(&prefixed("at foo\nat bar"));
    let mut p = power();
    match process_record(&payload, &mut p) {
        TelemetryEvent::Console(m) => {
            assert!(m.is_error);
            assert_eq!(m.sequence, 3);
            assert_eq!(m.message, "NullPointer @ Robot.java:42\nat foo\nat bar");
        },
        _ => panic!("expected a console entry"),
    }
}

#[test]
fn error_record_warning_flag() {
    let mut payload = vec![0x0Bu8];
    payload.extend_from_slice(&[0, 0, 0, 0, 0, 1, 0, 0, 0, 0, 0, 0]);
    payload.push(0x00); // flags: not an error
    payload.extend_from_slice(&prefixed("just a note"));
    let mut p = power();
    match process_record(&payload, &mut p) {
        TelemetryEvent::Console(m) => {
            assert!(!m.is_error);
            assert_eq!(m.message, "just a note");
        },
        _ => panic!("expected a console entry"),
    }
}

#[test]
fn error_record_without_location_or_stack() {
    let mut payload = vec![0x0Bu8];
    payload.extend_from_slice(&[0, 0, 0, 0, 0, 1, 0, 0, 0, 0, 0, 0, 1]);
    payload.extend_from_slice(&prefixed("lonely"));
    let mut p = power();
    match process_record(&payload, &mut p) {
        TelemetryEvent::Console(m) => {
            assert_eq!(m.message, "lonely");
        },
        _ => panic!("expected a console entry"),
    }
}

#[test]
fn error_record_short_fallback() {
    // Structured form needs 13 payload bytes; a shorter one is read as
    // standard output marked as an error.
    let mut payload = vec![0x0Bu8];
    payload.extend_from_slice(&[0, 0, 0, 0, 0, 9]);
    payload.extend_from_slice(b"oops");
    let mut p = power();
    match process_record(&payload, &mut p) {
        TelemetryEvent::Console(m) => {
            assert!(m.is_error);
            assert_eq!(m.sequence, 9);
            assert_eq!(m.message, "oops");
        },
        _ => panic!("expected a console entry"),
    }
}

#[test]
fn error_record_too_short() {
    let payload = vec![0x0Bu8, 0, 0, 0];
    let mut p = power();
    assert!(matches!(process_record(&payload, &mut p), TelemetryEvent::Nothing));
}

#[test]
fn version_record() {
    let mut payload = vec![0x0Au8];
    payload.extend_from_slice(&prefixed("FRC_roboRIO_2024_v2.1"));
    payload.extend_from_slice(&prefixed("2024.3.2"));
    payload.extend_from_slice(&prefixed("7.3.0"));
    let mut p = power();
    match process_record(&payload, &mut p) {
        TelemetryEvent::Version(v) => {
            assert_eq!(v.image_version, "FRC_roboRIO_2024_v2.1");
            assert_eq!(v.wpilib_version, "2024.3.2");
            assert_eq!(v.rio_version, "7.3.0");
        },
        _ => panic!("expected version info"),
    }
}

#[test]
fn power_faults_accumulate_across_records() {
    let mut p = power();
    let mut disable = vec![0x04u8];
    disable.extend_from_slice(&3u16.to_be_bytes());
    disable.extend_from_slice(&5u16.to_be_bytes());
    match process_record(&disable, &mut p) {
        TelemetryEvent::Power(snap) => {
            assert_eq!(snap.disable_count_comms, 3);
            assert_eq!(snap.disable_count_12v, 5);
            assert_eq!(snap.rail_faults_6v, 0);
        },
        _ => panic!("expected a power snapshot"),
    }
    let mut rails = vec![0x05u8];
    rails.extend_from_slice(&1u16.to_be_bytes());
    rails.extend_from_slice(&2u16.to_be_bytes());
    rails.extend_from_slice(&4u16.to_be_bytes());
    match process_record(&rails, &mut p) {
        TelemetryEvent::Power(snap) => {
            // The earlier disable counts stay in the combined snapshot.
            assert_eq!(snap.disable_count_comms, 3);
            assert_eq!(snap.disable_count_12v, 5);
            assert_eq!(snap.rail_faults_6v, 1);
            assert_eq!(snap.rail_faults_5v, 2);
            assert_eq!(snap.rail_faults_3v3, 4);
        },
        _ => panic!("expected a power snapshot"),
    }
}

#[test]
fn short_fault_records_ignored() {
    let mut p = power();
    assert!(matches!(process_record(&[0x04, 0, 1], &mut p), TelemetryEvent::Nothing));
    assert!(matches!(process_record(&[0x05, 0, 1, 0, 2], &mut p), TelemetryEvent::Nothing));
    assert_eq!(p.disable_count_comms, 0);
}

#[test]
fn unknown_tag_ignored() {
    let mut p = power();
    assert!(matches!(process_record(&[0x00, 1, 2, 3], &mut p), TelemetryEvent::Nothing));
    assert!(matches!(process_record(&[], &mut p), TelemetryEvent::Nothing));
}

#[test]
fn prefixed_string_reads() {
    let mut data = prefixed("abc ");
    data.extend_from_slice(&prefixed("xy"));
    let (s, next) = read_prefixed_string(&data, 0).unwrap();
    assert_eq!(s, "abc"); // trailing space stripped
    assert_eq!(next, 6);
    let (s2, next2) = read_prefixed_string(&data, next).unwrap();
    assert_eq!(s2, "xy");
    assert_eq!(next2, 10);
}

#[test]
fn prefixed_string_out_of_bounds() {
    let data = [0u8, 5, b'a'];
    assert!(read_prefixed_string(&data, 0).is_none());
    assert!(read_prefixed_string(&data, 2).is_none());
}

#[test]
fn size_rule() {
    assert!(!tcp_size_valid(0));
    assert!(tcp_size_valid(1));
    assert!(tcp_size_valid(32768));
    assert!(!tcp_size_valid(32769));
}
