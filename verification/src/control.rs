//! The control loop: owns the driver-station state, applies commands in FIFO
//! order, synthesizes one outbound frame per send tick, applies the link
//! watchdog, and folds inbound status frames into the robot state.

use vstd::prelude::*;

use crate::codec::{build_outbound_packet, frame_spec, parse_inbound_packet, scan_tags,
    status_of_frame};
use crate::net::{team_ip_chars, team_to_ip};
use crate::types::{DiagnosticData, DsCommand, DsCommandView, DsState, DsStateView, JoystickState,
    RobotState};

verus! {

/// What one command does to the driver-station state.
///
/// Enabling is silently rejected while emergency-stopped; switching mode or
/// team disables; a reboot request clears the emergency stop; game data is
/// accepted only up to its 64-byte limit.
pub open spec fn ds_after(v: DsStateView, c: DsCommandView) -> DsStateView {
    match c {
        DsCommandView::SetTeamNumber(_) => DsStateView { enabled: false, ..v },
        DsCommandView::SetMode(m) => DsStateView { mode: m, enabled: false, ..v },
        DsCommandView::Enable => if !v.estop {
            DsStateView { enabled: true, ..v }
        } else {
            v
        },
        DsCommandView::Disable => DsStateView { enabled: false, ..v },
        DsCommandView::EStop => DsStateView { estop: true, enabled: false, ..v },
        DsCommandView::SetAlliance(a) => DsStateView { alliance: a, ..v },
        DsCommandView::RebootRio => DsStateView {
            request_reboot: true,
            estop: false,
            enabled: false,
            ..v
        },
        DsCommandView::RestartCode => DsStateView { request_restart_code: true, ..v },
        DsCommandView::SetTargetIp(_) => v,
        DsCommandView::SetGameData(d) => if vstd::utf8::encode_utf8(d).len() <= 64 {
            DsStateView { game_data: d, ..v }
        } else {
            v
        },
    }
}

/// The driver-station state after a whole command sequence, applied in order.
pub open spec fn ds_after_all(v: DsStateView, cmds: Seq<DsCommandView>) -> DsStateView
    decreases cmds.len(),
{
    if cmds.len() == 0 {
        v
    } else {
        ds_after_all(ds_after(v, cmds[0]), cmds.drop_first())
    }
}

/// Emergency-stop stickiness: once the stop is latched and the robot
/// disabled, no sequence of commands without a reboot request — in
/// particular any mix of Enable, SetMode and SetAlliance — re-enables the
/// robot or clears the latch.
pub proof fn lemma_estop_sticky(v: DsStateView, cmds: Seq<DsCommandView>)
    requires
        v.estop,
        !v.enabled,
        forall|i: int|
            0 <= i < cmds.len() ==> !((#[trigger] cmds[i]) matches DsCommandView::RebootRio),
    ensures
        ds_after_all(v, cmds).estop,
        !ds_after_all(v, cmds).enabled,
    decreases cmds.len(),
{
    if cmds.len() > 0 {
        let v1 = ds_after(v, cmds[0]);
        assert(v1.estop && !v1.enabled);
        lemma_estop_sticky(v1, cmds.drop_first());
    }
}

/// Commands preserve the safety invariant: the robot is never enabled while
/// emergency-stopped.
pub proof fn lemma_command_preserves_safety(v: DsStateView, c: DsCommandView)
    requires
        v.enabled ==> !v.estop,
    ensures
        ds_after(v, c).enabled ==> !ds_after(v, c).estop,
{
}

/// The control loop's whole state: driver-station state, addressing, the
/// last seen robot status and diagnostics, the outbound sequence number, and
/// the watchdog's timestamp of the last inbound datagram.
pub struct ControlLoop {
    pub ds: DsState,
    pub team_number: u32,
    pub target_ip: String,
    pub robot: RobotState,
    pub diag: DiagnosticData,
    pub sequence: u16,
    pub last_recv_ms: u64,
}

impl ControlLoop {
    pub open spec fn wf(self) -> bool {
        self.ds.wf()
    }

    /// A fresh control loop: defaults everywhere, targeting loopback.
    pub fn new(start_ms: u64) -> (r: Self)
        ensures
            r.wf(),
            r.ds@ == DsState::initial_view(),
            r.team_number == 0,
            r.target_ip@ == team_ip_chars(0),
            r.robot == RobotState::initial(),
            r.diag@ == DiagnosticData::initial_view(),
            r.sequence == 0,
            r.last_recv_ms == start_ms,
    {
        ControlLoop {
            ds: DsState::default(),
            team_number: 0,
            target_ip: team_to_ip(0),
            robot: RobotState::default(),
            diag: DiagnosticData::default(),
            sequence: 0,
            last_recv_ms: start_ms,
        }
    }

    /// Apply one command.
    ///
    /// The driver-station state moves to `ds_after`; setting the team number
    /// or overriding the target address re-derives or replaces the address
    /// and resets the robot status to its defaults.
    pub fn apply_command(&mut self, cmd: DsCommand)
        requires
            old(self).wf(),
        ensures
            final(self).wf(),
            final(self).ds@ == ds_after(old(self).ds@, cmd@),
            final(self).diag@ == old(self).diag@,
            final(self).sequence == old(self).sequence,
            final(self).last_recv_ms == old(self).last_recv_ms,
            (match cmd@ {
                DsCommandView::SetTeamNumber(n) => final(self).team_number == n
                    && final(self).target_ip@ == team_ip_chars(n)
                    && final(self).robot == RobotState::initial(),
                DsCommandView::SetTargetIp(ip) => final(self).team_number == old(self).team_number
                    && final(self).target_ip@ == ip && final(self).robot == RobotState::initial(),
                _ => final(self).team_number == old(self).team_number && final(self).target_ip@
                    == old(self).target_ip@ && final(self).robot == old(self).robot,
            }),
    {
        match cmd {
            DsCommand::SetTeamNumber(team) => {
                self.team_number = team;
                self.target_ip = team_to_ip(team);
                self.robot = RobotState::default();
                self.ds.enabled = false;
            },
            DsCommand::SetMode(mode) => {
                self.ds.mode = mode;
                self.ds.enabled = false;
            },
            DsCommand::Enable => {
                if !self.ds.estop {
                    self.ds.enabled = true;
                }
            },
            DsCommand::Disable => {
                self.ds.enabled = false;
            },
            DsCommand::EStop => {
                self.ds.estop = true;
                self.ds.enabled = false;
            },
            DsCommand::SetAlliance(alliance) => {
                self.ds.alliance = alliance;
            },
            DsCommand::RebootRio => {
                self.ds.request_reboot = true;
                self.ds.estop = false;
                self.ds.enabled = false;
            },
            DsCommand::RestartCode => {
                self.ds.request_restart_code = true;
            },
            DsCommand::SetTargetIp(ip) => {
                self.target_ip = ip;
                self.robot = RobotState::default();
            },
            DsCommand::SetGameData(data) => {
                if data.as_str().as_bytes().len() <= 64 {
                    self.ds.game_data = data;
                }
            },
        }
    }

    /// One 20 ms send tick: encode the outbound frame from the current state
    /// and snapshot, advance the wrapping sequence number, clear the one-shot
    /// request bits, and run the link watchdog.
    ///
    /// Watchdog: with no inbound datagram for more than a second, the robot
    /// status falls to disconnected — battery zero, code not running,
    /// disabled — and, on the transition out of a live link, the emergency
    /// stop is cleared so the robot can be enabled again after a power cycle.
    pub fn send_tick(
        &mut self,
        joysticks: &Vec<JoystickState>,
        now_ms: u64,
        epoch_secs: u64,
        epoch_micros: u32,
    ) -> (pkt: Vec<u8>)
        requires
            old(self).wf(),
            now_ms >= old(self).last_recv_ms,
            joysticks@.len() <= 6,
            forall|i: int| 0 <= i < joysticks@.len() ==> (#[trigger] joysticks@[i]).wf(),
        ensures
            final(self).wf(),
            pkt@ == frame_spec(
                old(self).sequence,
                old(self).ds,
                joysticks@,
                epoch_secs,
                epoch_micros,
            ),
            final(self).sequence == ((old(self).sequence + 1) % 0x10000) as u16,
            !final(self).ds.request_reboot,
            !final(self).ds.request_restart_code,
            final(self).ds.mode == old(self).ds.mode,
            final(self).ds.alliance == old(self).ds.alliance,
            final(self).ds.game_data@ == old(self).ds.game_data@,
            final(self).team_number == old(self).team_number,
            final(self).target_ip@ == old(self).target_ip@,
            final(self).diag@ == old(self).diag@,
            final(self).last_recv_ms == old(self).last_recv_ms,
            now_ms - old(self).last_recv_ms > 1000 ==> final(self).robot == (RobotState {
                connected: false,
                battery_voltage_q8: 0,
                code_running: false,
                enabled: false,
                ..old(self).robot
            }),
            now_ms - old(self).last_recv_ms <= 1000 ==> final(self).robot == old(self).robot,
            (now_ms - old(self).last_recv_ms > 1000 && old(self).robot.connected)
                ==> (!final(self).ds.estop && !final(self).ds.enabled),
            !(now_ms - old(self).last_recv_ms > 1000 && old(self).robot.connected)
                ==> (final(self).ds.estop == old(self).ds.estop && final(self).ds.enabled == old(
                self,
            ).ds.enabled),
    {
        let pkt = build_outbound_packet(
            self.sequence,
            &self.ds,
            joysticks,
            epoch_secs,
            epoch_micros,
        );

        if self.sequence == 0xFFFF {
            self.sequence = 0;
        } else {
            self.sequence = self.sequence + 1;
        }

        self.ds.request_reboot = false;
        self.ds.request_restart_code = false;

        if now_ms - self.last_recv_ms > 1000 {
            if self.robot.connected {
                self.ds.estop = false;
                self.ds.enabled = false;
            }
            self.robot.connected = false;
            self.robot.battery_voltage_q8 = 0;
            self.robot.code_running = false;
            self.robot.enabled = false;
        }

        pkt
    }

    /// Fold one inbound datagram into the robot status and diagnostics and
    /// feed the watchdog. Frames shorter than seven bytes are dropped.
    pub fn handle_inbound(&mut self, data: &[u8], now_ms: u64)
        requires
            old(self).wf(),
        ensures
            final(self).wf(),
            final(self).last_recv_ms == now_ms,
            data@.len() < 7 ==> final(self).robot == old(self).robot && final(self).diag@ == old(
                self,
            ).diag@,
            data@.len() >= 7 ==> final(self).robot == status_of_frame(data@),
            data@.len() >= 7 ==> final(self).diag@ == scan_tags(data@, 7, old(self).diag@),
            final(self).ds@ == old(self).ds@,
            final(self).team_number == old(self).team_number,
            final(self).target_ip@ == old(self).target_ip@,
            final(self).sequence == old(self).sequence,
    {
        parse_inbound_packet(data, &mut self.robot, &mut self.diag);
        self.last_recv_ms = now_ms;
    }
}

} // verus!
