//! Tests for the gamepad manager: D-pad encoding, slot assignment, slot
//! locks, reordering, input events, and the published snapshot.

use ds_core::gamepad::{
    axis_index, button_index, dpad_to_pov, GamepadManager, PadAxis, PadButton,
};

#[test]
fn dpad_full_table() {
    // (up, right, down, left) -> angle, for all sixteen combinations.
    let cases = [
        ((false, false, false, false), -1),
        ((true, false, false, false), 0),
        ((true, true, false, false), 45),
        ((false, true, false, false), 90),
        ((false, true, true, false), 135),
        ((false, false, true, false), 180),
        ((false, false, true, true), 225),
        ((false, false, false, true), 270),
        ((true, false, false, true), 315),
        ((true, false, true, false), -1),
        ((false, true, false, true), -1),
        ((true, true, true, false), -1),
        ((true, true, false, true), -1),
        ((true, false, true, true), -1),
        ((false, true, true, true), -1),
        ((true, true, true, true), -1),
    ];
    for ((u, r, d, l), want) in cases {
        assert_eq!(dpad_to_pov(u, r, d, l), want, "({u},{r},{d},{l})");
    }
}

#[test]
fn axis_and_button_tables() {
    assert_eq!(axis_index(PadAxis::LeftStickX), 0);
    assert_eq!(axis_index(PadAxis::LeftStickY), 1);
    assert_eq!(axis_index(PadAxis::LeftZ), 2);
    assert_eq!(axis_index(PadAxis::RightStickX), 3);
    assert_eq!(axis_index(PadAxis::RightStickY), 4);
    assert_eq!(axis_index(PadAxis::RightZ), 5);

    assert_eq!(button_index(PadButton::South), Some(0));
    assert_eq!(button_index(PadButton::Start), Some(7));
    assert_eq!(button_index(PadButton::Unknown), Some(15));
    assert_eq!(button_index(PadButton::DpadUp), None);
}

#[test]
fn connect_assigns_lowest_slots() {
    let mut mgr = GamepadManager::new();
    mgr.handle_connected(10, "Pad A".to_string());
    mgr.handle_connected(11, "Pad B".to_string());
    let up = mgr.get_gamepad_update();
    assert_eq!(up.gamepads.len(), 2);
    assert_eq!(up.gamepads[0].slot, 0);
    assert_eq!(up.gamepads[1].slot, 1);
    assert_eq!(mgr.gamepad_count(), 2);
}

#[test]
fn slot_lock_persistence() {
    let mut mgr = GamepadManager::new();
    // Connect device A: slot 0. Lock it.
    mgr.handle_connected(1, "Pad A".to_string());
    mgr.lock_slot(0);
    // Disconnect A, connect a different device: it goes to slot 1.
    mgr.handle_disconnected(1);
    mgr.handle_connected(2, "Pad B".to_string());
    let up = mgr.get_gamepad_update();
    assert_eq!(up.gamepads.len(), 1);
    assert_eq!(up.gamepads[0].slot, 1);
    // Reconnect A: it returns to its locked slot 0.
    mgr.handle_connected(3, "Pad A".to_string());
    let up = mgr.get_gamepad_update();
    assert_eq!(up.gamepads.len(), 2);
    assert_eq!(up.gamepads[1].slot, 0);
    assert_eq!(up.gamepads[1].name, "Pad A");
}

#[test]
fn unlock_frees_slot() {
    let mut mgr = GamepadManager::new();
    mgr.handle_connected(1, "Pad A".to_string());
    mgr.lock_slot(0);
    mgr.handle_disconnected(1);
    mgr.unlock_slot(0);
    mgr.handle_connected(2, "Pad B".to_string());
    let up = mgr.get_gamepad_update();
    assert_eq!(up.gamepads[0].slot, 0);
}

#[test]
fn locked_slots_table() {
    let mut mgr = GamepadManager::new();
    mgr.handle_connected(1, "Pad A".to_string());
    mgr.lock_slot(0);
    let locks = mgr.get_locked_slots();
    assert_eq!(locks.len(), 6);
    assert_eq!(locks[0].as_deref(), Some("Pad A"));
    assert!(locks[1].is_none());
    // Locking an empty slot does nothing.
    mgr.lock_slot(3);
    assert!(mgr.get_locked_slots()[3].is_none());
}

#[test]
fn move_to_slot_moves_and_swaps() {
    let mut mgr = GamepadManager::new();
    mgr.handle_connected(1, "Pad A".to_string()); // slot 0
    mgr.handle_connected(2, "Pad B".to_string()); // slot 1

    // Move to an empty slot.
    mgr.move_to_slot(1, 4);
    let up = mgr.get_gamepad_update();
    assert_eq!(up.gamepads[1].slot, 4);

    // Swap two occupied slots.
    mgr.move_to_slot(0, 4);
    let up = mgr.get_gamepad_update();
    assert_eq!(up.gamepads[0].slot, 4);
    assert_eq!(up.gamepads[1].slot, 0);

    // Out-of-range and identity moves do nothing.
    mgr.move_to_slot(4, 6);
    mgr.move_to_slot(4, 4);
    let up2 = mgr.get_gamepad_update();
    assert_eq!(up2.gamepads[0].slot, 4);
    // Moving from an empty slot does nothing.
    mgr.move_to_slot(2, 3);
    let up3 = mgr.get_gamepad_update();
    assert_eq!(up3.gamepads[0].slot, 4);
    assert_eq!(up3.gamepads[1].slot, 0);
}

#[test]
fn axis_event_updates_state() {
    let mut mgr = GamepadManager::new();
    mgr.handle_connected(1, "Pad A".to_string());
    mgr.handle_axis_event(1, PadAxis::LeftStickY, -64);
    mgr.handle_axis_event(99, PadAxis::LeftStickX, 5); // unknown device: ignored
    let up = mgr.get_gamepad_update();
    assert_eq!(up.gamepads[0].axes, vec![0, -64, 0, 0, 0, 0]);
}

#[test]
fn button_event_updates_state() {
    let mut mgr = GamepadManager::new();
    mgr.handle_connected(1, "Pad A".to_string());
    mgr.handle_button_event(1, PadButton::Start, true);
    let up = mgr.get_gamepad_update();
    assert!(up.gamepads[0].buttons[7]);
    assert!(!up.gamepads[0].buttons[0]);
    mgr.handle_button_event(1, PadButton::Start, false);
    let up = mgr.get_gamepad_update();
    assert!(!up.gamepads[0].buttons[7]);
}

#[test]
fn dpad_events_drive_pov() {
    let mut mgr = GamepadManager::new();
    mgr.handle_connected(1, "Pad A".to_string());
    mgr.handle_button_event(1, PadButton::DpadUp, true);
    assert_eq!(mgr.get_gamepad_update().gamepads[0].povs[0], 0);
    mgr.handle_button_event(1, PadButton::DpadRight, true);
    assert_eq!(mgr.get_gamepad_update().gamepads[0].povs[0], 45);
    mgr.handle_button_event(1, PadButton::DpadUp, false);
    assert_eq!(mgr.get_gamepad_update().gamepads[0].povs[0], 90);
    mgr.handle_button_event(1, PadButton::DpadRight, false);
    assert_eq!(mgr.get_gamepad_update().gamepads[0].povs[0], -1);
}

#[test]
fn snapshot_covers_slots() {
    let mut mgr = GamepadManager::new();
    // No gamepads: one default entry.
    let snap = mgr.compute_snapshot();
    assert_eq!(snap.len(), 1);
    assert_eq!(snap[0].povs[0], -1);

    mgr.handle_connected(1, "Pad A".to_string()); // slot 0
    mgr.handle_connected(2, "Pad B".to_string()); // slot 1
    mgr.move_to_slot(1, 3);
    mgr.handle_axis_event(2, PadAxis::LeftStickX, 42);
    let snap = mgr.compute_snapshot();
    assert_eq!(snap.len(), 4); // up to the highest occupied slot
    assert_eq!(snap[3].axes[0], 42);
    assert_eq!(snap[1].axes[0], 0); // empty slot carries the default
    assert_eq!(snap[2].povs[0], -1);
}

#[test]
fn disconnect_removes_device() {
    let mut mgr = GamepadManager::new();
    mgr.handle_connected(1, "Pad A".to_string());
    mgr.handle_connected(2, "Pad B".to_string());
    mgr.handle_disconnected(1);
    assert_eq!(mgr.gamepad_count(), 1);
    let up = mgr.get_gamepad_update();
    assert_eq!(up.gamepads[0].name, "Pad B");
    // Its old slot is reusable.
    mgr.handle_connected(3, "Pad C".to_string());
    assert_eq!(mgr.get_gamepad_update().gamepads[1].slot, 0);
}

#[test]
fn update_reports_locked_flag() {
    let mut mgr = GamepadManager::new();
    mgr.handle_connected(1, "Pad A".to_string());
    mgr.handle_connected(2, "Pad B".to_string());
    mgr.lock_slot(0);
    let up = mgr.get_gamepad_update();
    assert!(up.gamepads[0].locked);
    assert!(!up.gamepads[1].locked);
    assert_eq!(up.gamepads[0].id, up.gamepads[0].slot);
}
