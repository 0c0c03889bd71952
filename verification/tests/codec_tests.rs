//! Tests for the wire codec: outbound frame layout, joystick quantization,
//! the date/time record, and the inbound status parser.

use ds_core::codec::{build_outbound_packet, days_to_date, parse_inbound_packet};
use ds_core::types::{Alliance, DiagnosticData, DsState, JoystickState, Mode, RobotState};

fn plain_state() -> DsState {
    DsState {
        mode: Mode::Teleoperated,
        enabled: false,
        estop: false,
        alliance: Alliance::Red1,
        request_reboot: false,
        request_restart_code: false,
        game_data: String::new(),
    }
}

#[test]
fn header_layout_and_sequence() {
    let state = plain_state();
    let js: Vec<JoystickState> = Vec::new();
    // Sequence 0x1234 is not a multiple of 50, so no date record follows.
    let pkt = build_outbound_packet(0x1234, &state, &js, 0, 0);
    assert_eq!(pkt.len(), 6);
    assert_eq!(pkt[0], 0x12);
    assert_eq!(pkt[1], 0x34);
    assert_eq!(pkt[2], 0x01);
    assert_eq!(pkt[3], 0x00);
    assert_eq!(pkt[4], 0x00);
    assert_eq!(pkt[5], 0x00);
}

#[test]
fn control_byte_bits() {
    let mut state = plain_state();
    state.enabled = true;
    state.mode = Mode::Autonomous;
    let js: Vec<JoystickState> = Vec::new();
    let pkt = build_outbound_packet(1, &state, &js, 0, 0);
    assert_eq!(pkt[3], 0x06); // enabled bit 2 + autonomous bits

    let mut stopped = plain_state();
    stopped.estop = true;
    stopped.mode = Mode::Test;
    let pkt = build_outbound_packet(1, &stopped, &js, 0, 0);
    assert_eq!(pkt[3], 0x81); // estop bit 7 + test bits
}

#[test]
fn request_byte_bits() {
    let mut state = plain_state();
    state.request_reboot = true;
    let js: Vec<JoystickState> = Vec::new();
    let pkt = build_outbound_packet(1, &state, &js, 0, 0);
    assert_eq!(pkt[4], 0x08);

    let mut state = plain_state();
    state.request_restart_code = true;
    let pkt = build_outbound_packet(1, &state, &js, 0, 0);
    assert_eq!(pkt[4], 0x04);
}

#[test]
fn alliance_bytes() {
    let js: Vec<JoystickState> = Vec::new();
    let stations = [
        (Alliance::Red1, 0u8),
        (Alliance::Red2, 1),
        (Alliance::Red3, 2),
        (Alliance::Blue1, 3),
        (Alliance::Blue2, 4),
        (Alliance::Blue3, 5),
    ];
    for (a, b) in stations {
        let mut state = plain_state();
        state.alliance = a;
        let pkt = build_outbound_packet(1, &state, &js, 0, 0);
        assert_eq!(pkt[5], b);
    }
}

#[test]
fn joystick_encoding() {
    // One joystick: full-scale first axes, buttons 0 and 7, POV south.
    let mut js = JoystickState::default();
    js.axes[0] = 127;
    js.axes[1] = -127;
    js.buttons[0] = true;
    js.buttons[7] = true;
    js.povs[0] = 180;
    let state = plain_state();
    let pkt = build_outbound_packet(1, &state, &vec![js], 0, 0);
    assert_eq!(pkt.len(), 6 + 15);
    let rec = &pkt[6..21];
    assert_eq!(rec[0], 14); // size: tag + payload, excluding itself
    assert_eq!(rec[1], 0x0C);
    assert_eq!(rec[2], 6); // axis count
    assert_eq!(&rec[3..9], &[127, 129, 0, 0, 0, 0]);
    assert_eq!(rec[9], 16); // button count
    assert_eq!(rec[10], 0x81);
    assert_eq!(rec[11], 0x00);
    assert_eq!(rec[12], 1); // POV count
    assert_eq!(rec[13], 0x00);
    assert_eq!(rec[14], 0xB4);
}

#[test]
fn six_joysticks_in_slot_order() {
    let mut sticks = Vec::new();
    for k in 0..6 {
        let mut js = JoystickState::default();
        js.axes[0] = k as i8;
        sticks.push(js);
    }
    let state = plain_state();
    let pkt = build_outbound_packet(1, &state, &sticks, 0, 0);
    assert_eq!(pkt.len(), 6 + 6 * 15);
    for k in 0..6 {
        let rec = &pkt[6 + 15 * k..6 + 15 * (k + 1)];
        assert_eq!(rec[0], 14);
        assert_eq!(rec[1], 0x0C);
        assert_eq!(rec[3], k as u8);
    }
}

#[test]
fn datetime_record_every_fiftieth_tick() {
    let state = plain_state();
    let js: Vec<JoystickState> = Vec::new();
    // 2023-11-14 22:13:20 UTC.
    let pkt = build_outbound_packet(50, &state, &js, 1_700_000_000, 123_456);
    assert_eq!(pkt.len(), 6 + 12);
    let rec = &pkt[6..18];
    assert_eq!(rec[0], 11);
    assert_eq!(rec[1], 0x0F);
    assert_eq!(&rec[2..6], &123_456u32.to_be_bytes());
    assert_eq!(rec[6], 20); // second
    assert_eq!(rec[7], 13); // minute
    assert_eq!(rec[8], 22); // hour
    assert_eq!(rec[9], 14); // day
    assert_eq!(rec[10], 10); // month, zero-indexed November
    assert_eq!(rec[11], 123); // year - 1900
}

#[test]
fn datetime_absent_between_fiftieth_ticks() {
    let state = plain_state();
    let js: Vec<JoystickState> = Vec::new();
    let pkt = build_outbound_packet(49, &state, &js, 1_700_000_000, 0);
    assert_eq!(pkt.len(), 6);
}

#[test]
fn epoch_start_date() {
    assert_eq!(days_to_date(0), (1970, 1, 1));
}

#[test]
fn leap_days() {
    assert_eq!(days_to_date(11016), (2000, 2, 29));
    assert_eq!(days_to_date(19782), (2024, 2, 29));
    assert_eq!(days_to_date(19675), (2023, 11, 14));
}

#[test]
fn datetime_year_byte_wraps() {
    // The year is sent as `year - 1900` truncated to a byte, so 2156 wraps
    // to zero.
    assert_eq!(days_to_date(68009), (2156, 3, 15));
    let state = plain_state();
    let js: Vec<JoystickState> = Vec::new();
    let pkt = build_outbound_packet(100, &state, &js, 5_876_003_109, 0);
    let rec = &pkt[6..18];
    assert_eq!(rec[6], 9); // second
    assert_eq!(rec[7], 5); // minute
    assert_eq!(rec[8], 7); // hour
    assert_eq!(rec[9], 15); // day
    assert_eq!(rec[10], 2); // month, zero-indexed March
    assert_eq!(rec[11], 0); // (2156 - 1900) mod 256
}

#[test]
fn game_data_record() {
    let mut state = plain_state();
    state.game_data = "RLR".to_string();
    let js: Vec<JoystickState> = Vec::new();
    let pkt = build_outbound_packet(1, &state, &js, 0, 0);
    assert_eq!(pkt.len(), 6 + 6);
    assert_eq!(pkt[6], 5); // size: tag + length byte + 3 data bytes
    assert_eq!(pkt[7], 0x10);
    assert_eq!(pkt[8], 3);
    assert_eq!(&pkt[9..12], b"RLR");
}

#[test]
fn inbound_header_fields() {
    let mut robot = RobotState::default();
    let mut diag = DiagnosticData::default();
    // seq 0x0102, status: estop+brownout+enabled+autonomous, trace: code
    // running, battery 12.5 V.
    let frame = [0x01u8, 0x02, 0x00, 0x96, 0x20, 0x0C, 0x80];
    parse_inbound_packet(&frame, &mut robot, &mut diag);
    assert_eq!(robot.sequence_number, 0x0102);
    assert!(robot.connected);
    assert!(robot.estopped);
    assert!(robot.brownout);
    assert!(robot.enabled);
    assert!(robot.code_running);
    assert_eq!(robot.mode, Mode::Autonomous);
    assert_eq!(robot.battery_voltage_q8, 0x0C80);
}

#[test]
fn inbound_short_frame_dropped() {
    let mut robot = RobotState::default();
    let mut diag = DiagnosticData::default();
    let frame = [0x01u8, 0x02, 0x00, 0x84, 0x20, 0x0C];
    parse_inbound_packet(&frame, &mut robot, &mut diag);
    assert!(!robot.connected);
    assert_eq!(robot.sequence_number, 0);
}

#[test]
fn inbound_disk_and_ram_tags() {
    let mut robot = RobotState::default();
    let mut diag = DiagnosticData::default();
    let mut frame = vec![0u8, 0, 0, 0, 0, 0, 0];
    // Disk tag: size 5 = tag + 4 bytes.
    frame.extend_from_slice(&[5, 0x04, 0x00, 0x00, 0x00, 0x2A]);
    // RAM tag: size 5, value bits of 1.5f32.
    frame.extend_from_slice(&[5, 0x06]);
    frame.extend_from_slice(&1.5f32.to_bits().to_be_bytes());
    parse_inbound_packet(&frame, &mut robot, &mut diag);
    assert_eq!(diag.disk_usage, 42);
    assert_eq!(diag.ram_usage_bits, 1.5f32.to_bits());
}

#[test]
fn inbound_cpu_tag_mean_inputs() {
    let mut robot = RobotState::default();
    let mut diag = DiagnosticData::default();
    let mut frame = vec![0u8, 0, 0, 0, 0, 0, 0];
    // CPU tag with two cores: size = 1 tag + 1 count + 8 data.
    frame.extend_from_slice(&[10, 0x05, 2]);
    frame.extend_from_slice(&25.0f32.to_bits().to_be_bytes());
    frame.extend_from_slice(&75.0f32.to_bits().to_be_bytes());
    parse_inbound_packet(&frame, &mut robot, &mut diag);
    assert_eq!(diag.cpu_core_bits.len(), 2);
    assert_eq!(diag.cpu_core_bits[0], 25.0f32.to_bits());
    assert_eq!(diag.cpu_core_bits[1], 75.0f32.to_bits());
}

#[test]
fn inbound_can_tag() {
    let mut robot = RobotState::default();
    let mut diag = DiagnosticData::default();
    let mut frame = vec![0u8, 0, 0, 0, 0, 0, 0];
    let mut payload = Vec::new();
    payload.extend_from_slice(&0.75f32.to_bits().to_be_bytes());
    payload.extend_from_slice(&7u32.to_be_bytes());
    payload.extend_from_slice(&9u32.to_be_bytes());
    payload.extend_from_slice(&[0, 0]); // further optional fields
    frame.push(1 + payload.len() as u8);
    frame.push(0x0E);
    frame.extend_from_slice(&payload);
    parse_inbound_packet(&frame, &mut robot, &mut diag);
    assert_eq!(diag.can_utilization_bits, 0.75f32.to_bits());
    assert_eq!(diag.can_bus_off, 7);
    assert_eq!(diag.can_tx_full, 9);
}

#[test]
fn inbound_unknown_tag_skipped() {
    let mut robot = RobotState::default();
    let mut diag = DiagnosticData::default();
    let mut frame = vec![0u8, 0, 0, 0, 0, 0, 0];
    frame.extend_from_slice(&[3, 0x7F, 1, 2]); // unknown tag, skipped by size
    frame.extend_from_slice(&[5, 0x04, 0, 0, 0, 9]);
    parse_inbound_packet(&frame, &mut robot, &mut diag);
    assert_eq!(diag.disk_usage, 9);
}

#[test]
fn inbound_malformed_size_stops_parsing() {
    let mut robot = RobotState::default();
    let mut diag = DiagnosticData::default();
    let mut frame = vec![0u8, 0, 0, 0, 0, 0, 0];
    frame.extend_from_slice(&[200, 0x04, 0, 0]); // size runs past the frame
    parse_inbound_packet(&frame, &mut robot, &mut diag);
    assert!(robot.connected); // header still read
    assert_eq!(diag.disk_usage, 0); // tag ignored
}

#[test]
fn mode_bits_round_trip() {
    for m in [Mode::Teleoperated, Mode::Autonomous, Mode::Test] {
        assert_eq!(Mode::from_bits(m.to_bits()), m);
    }
    assert_eq!(Mode::to_bits(Mode::Teleoperated), 0x00);
    assert_eq!(Mode::to_bits(Mode::Autonomous), 0x02);
    assert_eq!(Mode::to_bits(Mode::Test), 0x01);
    // Decoding masks the low two bits.
    assert_eq!(Mode::from_bits(0x86), Mode::Autonomous);
    assert_eq!(Mode::from_bits(0x03), Mode::Teleoperated);
}
