//! Core data model: robot modes, alliance stations, driver-station state,
//! commands, and the typed records produced by the wire parsers.
//!
//! Quantities that the wire carries as IEEE-754 floats are held as their raw
//! big-endian bit patterns (`*_bits` fields); battery voltage is held in
//! fixed-point 1/256-volt units exactly as the status frame carries it.

use vstd::prelude::*;

verus! {

/// Robot operating mode, carried in the low two bits of the control byte.
#[derive(Debug, Clone, Copy, PartialEq, Eq, Structural)]
pub enum Mode {
    Teleoperated,
    Autonomous,
    Test,
}

impl Mode {
    /// The two-bit wire encoding of this mode.
    pub open spec fn to_bits_spec(self) -> u8 {
        match self {
            Mode::Teleoperated => 0x00,
            Mode::Autonomous => 0x02,
            Mode::Test => 0x01,
        }
    }

    pub fn to_bits(self) -> (r: u8)
        ensures
            r == self.to_bits_spec(),
    {
        match self {
            Mode::Teleoperated => 0x00,
            Mode::Autonomous => 0x02,
            Mode::Test => 0x01,
        }
    }

    /// The mode denoted by the low two bits of a status or control byte.
    pub open spec fn from_bits_spec(bits: u8) -> Mode {
        if bits & 0x03 == 0x02 {
            Mode::Autonomous
        } else if bits & 0x03 == 0x01 {
            Mode::Test
        } else {
            Mode::Teleoperated
        }
    }

    pub fn from_bits(bits: u8) -> (r: Self)
        ensures
            r == Mode::from_bits_spec(bits),
    {
        let low = bits & 0x03;
        if low == 0x02 {
            Mode::Autonomous
        } else if low == 0x01 {
            Mode::Test
        } else {
            Mode::Teleoperated
        }
    }
}

/// Decoding the two-bit encoding of a mode recovers the mode.
pub proof fn lemma_mode_bits_round_trip(m: Mode)
    ensures
        Mode::from_bits_spec(m.to_bits_spec()) == m,
{
    assert(0x00u8 & 0x03 == 0x00) by (bit_vector);
    assert(0x01u8 & 0x03 == 0x01) by (bit_vector);
    assert(0x02u8 & 0x03 == 0x02) by (bit_vector);
}

/// Alliance station, encoded as a byte 0..5 in every control frame.
#[derive(Debug, Clone, Copy, PartialEq, Eq, Structural)]
pub enum Alliance {
    Red1,
    Red2,
    Red3,
    Blue1,
    Blue2,
    Blue3,
}

impl Alliance {
    /// The wire encoding of this alliance station.
    pub open spec fn to_byte_spec(self) -> u8 {
        match self {
            Alliance::Red1 => 0,
            Alliance::Red2 => 1,
            Alliance::Red3 => 2,
            Alliance::Blue1 => 3,
            Alliance::Blue2 => 4,
            Alliance::Blue3 => 5,
        }
    }

    pub fn to_byte(self) -> (r: u8)
        ensures
            r == self.to_byte_spec(),
    {
        match self {
            Alliance::Red1 => 0,
            Alliance::Red2 => 1,
            Alliance::Red3 => 2,
            Alliance::Blue1 => 3,
            Alliance::Blue2 => 4,
            Alliance::Blue3 => 5,
        }
    }
}

impl Default for Alliance {
    fn default() -> (r: Self)
        ensures
            r == Alliance::Red1,
    {
        Alliance::Red1
    }
}

/// Internal state of the driver station control loop.
#[derive(Debug, Clone)]
pub struct DsState {
    pub mode: Mode,
    pub enabled: bool,
    pub estop: bool,
    pub alliance: Alliance,
    pub request_reboot: bool,
    pub request_restart_code: bool,
    /// Optional game-specific data, at most 64 bytes, sent when non-empty.
    pub game_data: String,
}

/// Ghost image of `DsState`, with the game data as a character sequence.
pub ghost struct DsStateView {
    pub mode: Mode,
    pub enabled: bool,
    pub estop: bool,
    pub alliance: Alliance,
    pub request_reboot: bool,
    pub request_restart_code: bool,
    pub game_data: Seq<char>,
}

impl View for DsState {
    type V = DsStateView;

    open spec fn view(&self) -> DsStateView {
        DsStateView {
            mode: self.mode,
            enabled: self.enabled,
            estop: self.estop,
            alliance: self.alliance,
            request_reboot: self.request_reboot,
            request_restart_code: self.request_restart_code,
            game_data: self.game_data@,
        }
    }
}

impl DsState {
    /// Enabling is only ever valid while not emergency-stopped, and the game
    /// data payload must fit the one-byte length of its tag record.
    pub open spec fn wf(self) -> bool {
        (self.enabled ==> !self.estop) && vstd::utf8::encode_utf8(self.game_data@).len() <= 64
    }

    /// The state before any command: teleoperated, disabled, no stop latched,
    /// red alliance one, no pending requests, no game data.
    pub open spec fn initial_view() -> DsStateView {
        DsStateView {
            mode: Mode::Teleoperated,
            enabled: false,
            estop: false,
            alliance: Alliance::Red1,
            request_reboot: false,
            request_restart_code: false,
            game_data: Seq::empty(),
        }
    }
}

impl Default for DsState {
    fn default() -> (r: Self)
        ensures
            r.mode == Mode::Teleoperated,
            !r.enabled,
            !r.estop,
            r.alliance == Alliance::Red1,
            !r.request_reboot,
            !r.request_restart_code,
            r.game_data@ == Seq::<char>::empty(),
            r@ == DsState::initial_view(),
            r.wf(),
    {
        let s = DsState {
            mode: Mode::Teleoperated,
            enabled: false,
            estop: false,
            alliance: Alliance::Red1,
            request_reboot: false,
            request_restart_code: false,
            game_data: String::new(),
        };
        proof {
            assert(vstd::utf8::encode_utf8(s.game_data@) =~= Seq::<u8>::empty());
        }
        s
    }
}

/// Commands sent from the user interface to the control loop.
#[derive(Debug)]
pub enum DsCommand {
    SetTeamNumber(u32),
    SetMode(Mode),
    Enable,
    Disable,
    EStop,
    SetAlliance(Alliance),
    RebootRio,
    RestartCode,
    SetTargetIp(String),
    SetGameData(String),
}

/// Ghost image of `DsCommand`, with string payloads as character sequences.
pub ghost enum DsCommandView {
    SetTeamNumber(u32),
    SetMode(Mode),
    Enable,
    Disable,
    EStop,
    SetAlliance(Alliance),
    RebootRio,
    RestartCode,
    SetTargetIp(Seq<char>),
    SetGameData(Seq<char>),
}

impl View for DsCommand {
    type V = DsCommandView;

    open spec fn view(&self) -> DsCommandView {
        match self {
            DsCommand::SetTeamNumber(n) => DsCommandView::SetTeamNumber(*n),
            DsCommand::SetMode(m) => DsCommandView::SetMode(*m),
            DsCommand::Enable => DsCommandView::Enable,
            DsCommand::Disable => DsCommandView::Disable,
            DsCommand::EStop => DsCommandView::EStop,
            DsCommand::SetAlliance(a) => DsCommandView::SetAlliance(*a),
            DsCommand::RebootRio => DsCommandView::RebootRio,
            DsCommand::RestartCode => DsCommandView::RestartCode,
            DsCommand::SetTargetIp(ip) => DsCommandView::SetTargetIp(ip@),
            DsCommand::SetGameData(d) => DsCommandView::SetGameData(d@),
        }
    }
}

/// Robot status as reported by inbound UDP frames.
///
/// Battery voltage is kept in 1/256-volt units: the high byte is whole volts,
/// the low byte the fractional part, exactly as the frame carries them.
#[derive(Debug, Clone, PartialEq, Eq, Structural)]
pub struct RobotState {
    pub connected: bool,
    pub code_running: bool,
    pub enabled: bool,
    pub estopped: bool,
    pub mode: Mode,
    pub battery_voltage_q8: u16,
    pub brownout: bool,
    pub sequence_number: u16,
}

impl RobotState {
    /// The status all fields take before any frame has been received.
    pub open spec fn initial() -> RobotState {
        RobotState {
            connected: false,
            code_running: false,
            enabled: false,
            estopped: false,
            mode: Mode::Teleoperated,
            battery_voltage_q8: 0,
            brownout: false,
            sequence_number: 0,
        }
    }
}

impl Default for RobotState {
    fn default() -> (r: Self)
        ensures
            r == RobotState::initial(),
    {
        RobotState {
            connected: false,
            code_running: false,
            enabled: false,
            estopped: false,
            mode: Mode::Teleoperated,
            battery_voltage_q8: 0,
            brownout: false,
            sequence_number: 0,
        }
    }
}

/// One joystick of the snapshot: six axes already quantized to the wire's
/// signed-byte range, sixteen buttons, and one point-of-view hat angle.
#[derive(Debug, Clone, PartialEq)]
pub struct JoystickState {
    pub axes: Vec<i8>,
    pub buttons: Vec<bool>,
    pub povs: Vec<i16>,
}

impl JoystickState {
    /// The fixed shape of a joystick: 6 axes, 16 buttons, 1 POV.
    pub open spec fn wf(self) -> bool {
        self.axes@.len() == 6 && self.buttons@.len() == 16 && self.povs@.len() == 1
    }

    /// A value copy of this joystick state.
    pub fn duplicate(&self) -> (r: Self)
        ensures
            r.axes@ == self.axes@,
            r.buttons@ == self.buttons@,
            r.povs@ == self.povs@,
    {
        let r = JoystickState {
            axes: self.axes.clone(),
            buttons: self.buttons.clone(),
            povs: self.povs.clone(),
        };
        proof {
            assert(r.axes@ =~= self.axes@);
            assert(r.buttons@ =~= self.buttons@);
            assert(r.povs@ =~= self.povs@);
        }
        r
    }
}

impl Default for JoystickState {
    fn default() -> (r: Self)
        ensures
            r.wf(),
            r.axes@ == Seq::new(6, |i: int| 0i8),
            r.buttons@ == Seq::new(16, |i: int| false),
            r.povs@ == seq![-1i16],
    {
        let r = JoystickState { axes: vec![0i8; 6], buttons: vec![false; 16], povs: vec![-1i16] };
        proof {
            assert(r.axes@ =~= Seq::new(6, |i: int| 0i8));
            assert(r.buttons@ =~= Seq::new(16, |i: int| false));
            assert(r.povs@ =~= seq![-1i16]);
        }
        r
    }
}

/// Robot-side diagnostics accumulated from inbound UDP tag records.
///
/// `cpu_core_bits` holds the per-core usage floats as raw bits; the mean the
/// display wants is floating-point work left to the caller.
#[derive(Debug, Clone, PartialEq)]
pub struct DiagnosticData {
    pub cpu_core_bits: Vec<u32>,
    pub ram_usage_bits: u32,
    pub disk_usage: u32,
    pub can_utilization_bits: u32,
    pub can_bus_off: u32,
    pub can_tx_full: u32,
}

/// Ghost image of `DiagnosticData`, with the per-core list as a sequence.
pub ghost struct DiagnosticDataView {
    pub cpu_core_bits: Seq<u32>,
    pub ram_usage_bits: u32,
    pub disk_usage: u32,
    pub can_utilization_bits: u32,
    pub can_bus_off: u32,
    pub can_tx_full: u32,
}

impl View for DiagnosticData {
    type V = DiagnosticDataView;

    open spec fn view(&self) -> DiagnosticDataView {
        DiagnosticDataView {
            cpu_core_bits: self.cpu_core_bits@,
            ram_usage_bits: self.ram_usage_bits,
            disk_usage: self.disk_usage,
            can_utilization_bits: self.can_utilization_bits,
            can_bus_off: self.can_bus_off,
            can_tx_full: self.can_tx_full,
        }
    }
}

impl DiagnosticData {
    /// The diagnostics before any tag record has been seen.
    pub open spec fn initial_view() -> DiagnosticDataView {
        DiagnosticDataView {
            cpu_core_bits: Seq::empty(),
            ram_usage_bits: 0,
            disk_usage: 0,
            can_utilization_bits: 0,
            can_bus_off: 0,
            can_tx_full: 0,
        }
    }
}

impl Default for DiagnosticData {
    fn default() -> (r: Self)
        ensures
            r.cpu_core_bits@ == Seq::<u32>::empty(),
            r.ram_usage_bits == 0,
            r.disk_usage == 0,
            r.can_utilization_bits == 0,
            r.can_bus_off == 0,
            r.can_tx_full == 0,
            r@ == DiagnosticData::initial_view(),
    {
        let r = DiagnosticData {
            cpu_core_bits: Vec::new(),
            ram_usage_bits: 0,
            disk_usage: 0,
            can_utilization_bits: 0,
            can_bus_off: 0,
            can_tx_full: 0,
        };
        proof {
            assert(r.cpu_core_bits@ =~= Seq::<u32>::empty());
        }
        r
    }
}

/// Power-rail fault counters accumulated across telemetry records.
#[derive(Debug, Clone, Copy, PartialEq, Eq, Structural)]
pub struct PowerData {
    pub disable_count_comms: u16,
    pub disable_count_12v: u16,
    pub rail_faults_6v: u16,
    pub rail_faults_5v: u16,
    pub rail_faults_3v3: u16,
}

impl Default for PowerData {
    fn default() -> (r: Self)
        ensures
            r.disable_count_comms == 0,
            r.disable_count_12v == 0,
            r.rail_faults_6v == 0,
            r.rail_faults_5v == 0,
            r.rail_faults_3v3 == 0,
    {
        PowerData {
            disable_count_comms: 0,
            disable_count_12v: 0,
            rail_faults_6v: 0,
            rail_faults_5v: 0,
            rail_faults_3v3: 0,
        }
    }
}

/// Local network and link health, published alongside robot status.
#[derive(Debug, Clone)]
pub struct ConnectionStatus {
    pub enet_link: bool,
    pub enet_ip: Option<String>,
    pub robot_radio: bool,
    pub robot: bool,
    pub robot_ip: Option<String>,
    pub fms: bool,
    pub wifi: bool,
    pub usb: bool,
}

impl Default for ConnectionStatus {
    fn default() -> (r: Self)
        ensures
            !r.enet_link,
            r.enet_ip is None,
            !r.robot_radio,
            !r.robot,
            r.robot_ip is None,
            !r.fms,
            !r.wifi,
            !r.usb,
    {
        ConnectionStatus {
            enet_link: false,
            enet_ip: None,
            robot_radio: false,
            robot: false,
            robot_ip: None,
            fms: false,
            wifi: false,
            usb: false,
        }
    }
}

/// One console line from the robot's telemetry stream.
///
/// The timestamp is the raw bits of the IEEE-754 single the record carries
/// (seconds since robot boot).
#[derive(Debug, Clone, PartialEq)]
pub struct ConsoleMessage {
    pub timestamp_bits: u32,
    pub message: String,
    pub is_error: bool,
    pub sequence: u16,
}

/// Robot controller version strings from the telemetry stream.
#[derive(Debug, Clone, PartialEq)]
pub struct VersionInfo {
    pub image_version: String,
    pub wpilib_version: String,
    pub rio_version: String,
}

/// One gamepad as shown to the user interface.
#[derive(Debug, Clone, PartialEq)]
pub struct GamepadInfo {
    pub id: usize,
    pub name: String,
    pub slot: usize,
    pub axes: Vec<i8>,
    pub buttons: Vec<bool>,
    pub povs: Vec<i16>,
    pub locked: bool,
}

/// The full set of connected gamepads, published on change.
#[derive(Debug, Clone, PartialEq)]
pub struct GamepadUpdate {
    pub gamepads: Vec<GamepadInfo>,
}

} // verus!
