//! Tests for the control loop: command handling, safety interlocks, the
//! link watchdog, and the one-shot request bits.

use ds_core::control::ControlLoop;
use ds_core::types::{Alliance, DsCommand, JoystickState, Mode};

fn inbound_frame(status: u8, battery_hi: u8, battery_lo: u8) -> Vec<u8> {
    vec![0, 1, 0, status, 0x20, battery_hi, battery_lo]
}

#[test]
fn enable_handshake() {
    let mut cl = ControlLoop::new(0);
    cl.apply_command(DsCommand::SetTeamNumber(0));
    assert_eq!(cl.target_ip, "127.0.0.1");
    cl.apply_command(DsCommand::SetMode(Mode::Teleoperated));
    cl.apply_command(DsCommand::Enable);
    assert!(cl.ds.enabled);
    // The robot answers: enabled, 12.5 V.
    cl.handle_inbound(&inbound_frame(0x04, 0x0C, 0x80), 40);
    assert!(cl.robot.connected);
    assert!(cl.robot.enabled);
    assert_eq!(cl.robot.battery_voltage_q8, 3200); // 12.5 * 256
}

#[test]
fn disconnect_recovery() {
    let mut cl = ControlLoop::new(0);
    cl.apply_command(DsCommand::Enable);
    cl.handle_inbound(&inbound_frame(0x04, 0x0C, 0x80), 100);
    assert!(cl.robot.connected);

    // No inbound for more than a second: the watchdog fires on the tick.
    let js: Vec<JoystickState> = Vec::new();
    let _ = cl.send_tick(&js, 1200, 0, 0);
    assert!(!cl.robot.connected);
    assert!(!cl.robot.enabled);
    assert!(!cl.robot.code_running);
    assert_eq!(cl.robot.battery_voltage_q8, 0);
    assert!(!cl.ds.enabled);

    // The first frame after the loss re-establishes the link.
    cl.handle_inbound(&inbound_frame(0x00, 0x0C, 0x00), 1300);
    assert!(cl.robot.connected);
}

#[test]
fn watchdog_clears_estop_on_link_loss() {
    let mut cl = ControlLoop::new(0);
    cl.handle_inbound(&inbound_frame(0x00, 0x0C, 0x00), 100);
    cl.apply_command(DsCommand::EStop);
    assert!(cl.ds.estop);
    let js: Vec<JoystickState> = Vec::new();
    let _ = cl.send_tick(&js, 1200, 0, 0);
    assert!(!cl.ds.estop); // cleared so a power-cycled robot can re-enable
}

#[test]
fn estop_sticky_against_commands() {
    let mut cl = ControlLoop::new(0);
    cl.apply_command(DsCommand::EStop);
    cl.apply_command(DsCommand::Enable);
    assert!(!cl.ds.enabled);
    cl.apply_command(DsCommand::SetMode(Mode::Autonomous));
    cl.apply_command(DsCommand::SetAlliance(Alliance::Blue2));
    cl.apply_command(DsCommand::Enable);
    assert!(!cl.ds.enabled);
    assert!(cl.ds.estop);
}

#[test]
fn estop_clear_on_reboot() {
    let mut cl = ControlLoop::new(0);
    cl.apply_command(DsCommand::EStop);
    cl.apply_command(DsCommand::RebootRio);
    assert!(!cl.ds.estop);
    let js: Vec<JoystickState> = Vec::new();
    // The next outbound frame carries estop 0 and the reboot request bit.
    let pkt = cl.send_tick(&js, 10, 0, 0);
    assert_eq!(pkt[3] & 0x80, 0);
    assert_eq!(pkt[4] & 0x08, 0x08);
    // The one-shot is cleared after the flush: the following frame is clean.
    let pkt = cl.send_tick(&js, 30, 0, 0);
    assert_eq!(pkt[4], 0);
}

#[test]
fn restart_code_one_shot() {
    let mut cl = ControlLoop::new(0);
    cl.apply_command(DsCommand::RestartCode);
    let js: Vec<JoystickState> = Vec::new();
    let pkt = cl.send_tick(&js, 10, 0, 0);
    assert_eq!(pkt[4] & 0x04, 0x04);
    let pkt = cl.send_tick(&js, 30, 0, 0);
    assert_eq!(pkt[4], 0);
}

#[test]
fn mode_switch_disables() {
    let mut cl = ControlLoop::new(0);
    cl.apply_command(DsCommand::Enable);
    assert!(cl.ds.enabled);
    cl.apply_command(DsCommand::SetMode(Mode::Test));
    assert!(!cl.ds.enabled);
    assert_eq!(cl.ds.mode, Mode::Test);
}

#[test]
fn team_number_sets_address_and_resets_status() {
    let mut cl = ControlLoop::new(0);
    cl.handle_inbound(&inbound_frame(0x04, 0x0C, 0x80), 10);
    assert!(cl.robot.connected);
    cl.apply_command(DsCommand::SetTeamNumber(1234));
    assert_eq!(cl.team_number, 1234);
    assert_eq!(cl.target_ip, "10.12.34.2");
    assert!(!cl.robot.connected);
    assert_eq!(cl.robot.battery_voltage_q8, 0);
}

#[test]
fn target_ip_override_resets_status() {
    let mut cl = ControlLoop::new(0);
    cl.handle_inbound(&inbound_frame(0x04, 0x0C, 0x80), 10);
    cl.apply_command(DsCommand::SetTargetIp("10.0.0.7".to_string()));
    assert_eq!(cl.target_ip, "10.0.0.7");
    assert!(!cl.robot.connected);
}

#[test]
fn sequence_wraps() {
    let mut cl = ControlLoop::new(0);
    cl.sequence = 0xFFFF;
    let js: Vec<JoystickState> = Vec::new();
    let pkt = cl.send_tick(&js, 10, 0, 0);
    assert_eq!(&pkt[0..2], &[0xFF, 0xFF]);
    assert_eq!(cl.sequence, 0);
}

#[test]
fn game_data_accepted_up_to_limit() {
    let mut cl = ControlLoop::new(0);
    cl.apply_command(DsCommand::SetGameData("RLR".to_string()));
    assert_eq!(cl.ds.game_data, "RLR");
    // Longer than 64 bytes: rejected, state unchanged.
    let long = "x".repeat(65);
    cl.apply_command(DsCommand::SetGameData(long));
    assert_eq!(cl.ds.game_data, "RLR");
}

#[test]
fn disable_command() {
    let mut cl = ControlLoop::new(0);
    cl.apply_command(DsCommand::Enable);
    cl.apply_command(DsCommand::Disable);
    assert!(!cl.ds.enabled);
}
