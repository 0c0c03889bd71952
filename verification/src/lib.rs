//! Driver-station protocol core: wire codec, control-loop state machine,
//! telemetry record parsing, gamepad slot management, and target-address
//! derivation for a competition robot controller.

pub mod codec;
pub mod control;
pub mod gamepad;
pub mod net;
pub mod telemetry;
pub mod types;

use vstd::prelude::*;

verus! {

} // verus!
