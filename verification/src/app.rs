//! The application's state and everything that its buttons, timers and workers do to it.
//!
//! Times are nanoseconds since some fixed moment. Messages for the workers are returned, to be put
//! into their channels.

use vstd::prelude::*;
use crate::bytes::{i16_at, i16_wire, i32_at, i32_wire, lemma_i16_round_trip};
use crate::can_worker::{
    can_step_of, CanDeed, CanHappening, CanId, CanProtocol, CanReport, CanWorker, FromCanWorker,
    ToCanWorker,
};
use crate::framing::{extract, frame_of, lemma_frame_round_trip};
use crate::link::{lines, logged, Link, LinkState};
use crate::mit_protocol::{
    feedback_of, motor_preset, pack_cmd, packed, preset_of, MitCodes, MitFeedback, MotorLimits,
    ENTER_MOTOR_MODE, EXIT_MOTOR_MODE, MOTOR_PRESET_COUNT, SET_ZERO_POSITION,
};
use crate::protocol::{
    self, is_values, lemma_pos_spd_payload_round_trip, lemma_value_payload_round_trip,
    value_payload, values_of, CommId, MotorValues,
};
use crate::serial_worker::{
    lemma_frame_is_reported, report_of, step_of, FromWorker, Happening, Report, ToWorker,
    WorkerState,
};
use crate::servo_can::{self, can_id_of, CanPacketId, ServoCanValues};
use crate::single::Single;

verus! {

/// Which driver mode is on screen.
#[derive(Clone, Copy, Debug, PartialEq, Eq, Structural)]
pub enum Mode {
    Servo,
    Mit,
}

/// How servo-mode commands travel.
#[derive(Clone, Copy, Debug, PartialEq, Eq, Structural)]
pub enum ServoTransport {
    Serial,
    Can,
}

/// How MIT mode talks to the driver. Serial carries debug commands only.
#[derive(Clone, Copy, Debug, PartialEq, Eq, Structural)]
pub enum MitTransport {
    Can,
    Serial,
}

/// The servo-mode control that is on screen.
#[derive(Clone, Copy, Debug, PartialEq, Eq, Structural)]
pub enum ControlTab {
    Duty,
    Current,
    Brake,
    Velocity,
    Position,
    PosVelocity,
    Handbrake,
    LoopMode,
    Origin,
}

/// The control has a CAN command: all but handbrake and loop mode do.
pub open spec fn has_can_command(tab: ControlTab) -> bool {
    tab != ControlTab::Handbrake && tab != ControlTab::LoopMode
}

/// Tells whether a control has a CAN command.
pub fn tab_supports_can(tab: ControlTab) -> (supported: bool)
    ensures
        supported == has_can_command(tab),
{
    match tab {
        ControlTab::Handbrake | ControlTab::LoopMode => false,
        _ => true,
    }
}

/// What MIT mode is to command.
#[derive(Clone, Copy, Debug, PartialEq, Eq, Structural)]
pub struct MitTargets {
    pub position_rad: Single,
    pub velocity_rad_s: Single,
    pub kp: Single,
    pub kd: Single,
    pub torque_nm: Single,
}

/// A servo-mode command, with its values in the wire units of the transports.
#[derive(Clone, Copy, Debug, PartialEq, Eq, Structural)]
pub enum ServoCommand {
    /// In units of 1/100000.
    Duty(i32),
    /// In milliamperes.
    Current(i32),
    /// In milliamperes.
    Brake(i32),
    /// In ERPM.
    Velocity(i32),
    /// In millionths of a degree for serial and in ten-thousandths for CAN.
    Position { serial: i32, can: i32 },
    /// In thousandths of a degree for serial and in ten-thousandths for CAN, in ERPM, and in ERPM
    /// per second.
    PosVelocity { serial: i32, can: i32, erpm: i32, accel: i32 },
    /// In milliamperes.
    Handbrake(i32),
    MultiLoop,
    SingleLoop,
    /// Permanent or until power is lost.
    Origin(bool),
}

impl ServoCommand {
    /// The control that the command belongs to.
    pub open spec fn tab(self) -> ControlTab {
        match self {
            ServoCommand::Duty(_) => ControlTab::Duty,
            ServoCommand::Current(_) => ControlTab::Current,
            ServoCommand::Brake(_) => ControlTab::Brake,
            ServoCommand::Velocity(_) => ControlTab::Velocity,
            ServoCommand::Position { .. } => ControlTab::Position,
            ServoCommand::PosVelocity { .. } => ControlTab::PosVelocity,
            ServoCommand::Handbrake(_) => ControlTab::Handbrake,
            ServoCommand::MultiLoop => ControlTab::LoopMode,
            ServoCommand::SingleLoop => ControlTab::LoopMode,
            ServoCommand::Origin(_) => ControlTab::Origin,
        }
    }

    /// The payload of the command's serial frame.
    pub open spec fn serial_payload(self) -> Seq<u8> {
        match self {
            ServoCommand::Duty(v) => value_payload(CommId::SetDuty, v),
            ServoCommand::Current(v) => value_payload(CommId::SetCurrent, v),
            ServoCommand::Brake(v) => value_payload(CommId::SetCurrentBrake, v),
            ServoCommand::Velocity(v) => value_payload(CommId::SetRpm, v),
            ServoCommand::Position { serial, .. } => value_payload(CommId::SetPos, serial),
            ServoCommand::PosVelocity { serial, erpm, accel, .. } => protocol::pos_spd_payload(
                serial,
                erpm,
                accel,
            ),
            ServoCommand::Handbrake(v) => value_payload(CommId::SetHandbrake, v),
            ServoCommand::MultiLoop => value_payload(CommId::SetPosMulti, 0),
            ServoCommand::SingleLoop => value_payload(CommId::SetPosSingle, 0),
            ServoCommand::Origin(permanent) => protocol::origin_payload(permanent),
        }
    }

    /// The identifier and data of the command's CAN frame, if it has one.
    pub open spec fn can_frame(self, motor_id: u8) -> Option<(int, Seq<u8>)> {
        match self {
            ServoCommand::Duty(v) => Some((can_id_of(CanPacketId::SetDuty, motor_id), i32_wire(v))),
            ServoCommand::Current(v) => Some(
                (can_id_of(CanPacketId::SetCurrent, motor_id), i32_wire(v)),
            ),
            ServoCommand::Brake(v) => Some(
                (can_id_of(CanPacketId::SetCurrentBrake, motor_id), i32_wire(v)),
            ),
            ServoCommand::Velocity(v) => Some(
                (can_id_of(CanPacketId::SetRpm, motor_id), i32_wire(v)),
            ),
            ServoCommand::Position { can, .. } => Some(
                (can_id_of(CanPacketId::SetPos, motor_id), i32_wire(can)),
            ),
            ServoCommand::PosVelocity { can, erpm, accel, .. } => Some(
                (
                    can_id_of(CanPacketId::SetPosSpd, motor_id),
                    servo_can::pos_spd_data(can, erpm, accel),
                ),
            ),
            ServoCommand::Handbrake(_) => None,
            ServoCommand::MultiLoop => None,
            ServoCommand::SingleLoop => None,
            ServoCommand::Origin(permanent) => Some(
                (
                    can_id_of(CanPacketId::SetOriginHere, motor_id),
                    servo_can::origin_data(permanent),
                ),
            ),
        }
    }
}

/// A message for one of the servo-mode workers, if there is any.
pub enum Outgoing {
    Nothing,
    Serial(ToWorker),
    Can(ToCanWorker),
}

/// A message, with its bytes as a sequence.
pub ghost enum Message {
    Nothing,
    SerialFrame(Seq<u8>),
    SerialDisconnect,
    StandardFrame(int, Seq<u8>),
    ExtendedFrame(int, Seq<u8>),
    CanDisconnect,
}

impl View for ToWorker {
    type V = Message;

    open spec fn view(&self) -> Message {
        match *self {
            ToWorker::Send(bytes) => Message::SerialFrame(bytes@),
            ToWorker::Disconnect => Message::SerialDisconnect,
        }
    }
}

impl View for ToCanWorker {
    type V = Message;

    open spec fn view(&self) -> Message {
        match *self {
            ToCanWorker::SendStd(id, data) => Message::StandardFrame(id as int, data@),
            ToCanWorker::SendExt(id, data) => Message::ExtendedFrame(id as int, data@),
            ToCanWorker::Disconnect => Message::CanDisconnect,
        }
    }
}

impl View for Outgoing {
    type V = Message;

    open spec fn view(&self) -> Message {
        match *self {
            Outgoing::Nothing => Message::Nothing,
            Outgoing::Serial(message) => message@,
            Outgoing::Can(message) => message@,
        }
    }
}

/// The message in an option.
pub open spec fn serial_message(message: Option<ToWorker>) -> Message {
    match message {
        Some(message) => message@,
        None => Message::Nothing,
    }
}

/// The message in an option.
pub open spec fn can_message(message: Option<ToCanWorker>) -> Message {
    match message {
        Some(message) => message@,
        None => Message::Nothing,
    }
}

/// The messages in a list.
pub open spec fn can_messages(list: Seq<ToCanWorker>) -> Seq<Message> {
    list.map_values(|message: ToCanWorker| message@)
}

/// The application's state, with its texts as characters.
pub ghost struct AppState {
    pub mode: Mode,
    pub servo_transport: ServoTransport,
    pub ports: Seq<Seq<char>>,
    pub selected_port: Option<Seq<char>>,
    pub baud: u32,
    pub serial: LinkState,
    pub values: Option<MotorValues>,
    pub last_values_at: Option<u64>,
    pub poll_live: bool,
    pub last_poll_sent: u64,
    pub servo_can_iface: Seq<char>,
    pub servo_can_motor_id: u8,
    pub servo_can: LinkState,
    pub servo_can_values: Option<ServoCanValues>,
    pub servo_can_last_values_at: Option<u64>,
    pub tab: ControlTab,
    pub duty: Single,
    pub current_a: Single,
    pub brake_a: Single,
    pub rpm: Single,
    pub pos_deg: Single,
    pub pos_spd_deg: Single,
    pub pos_spd_erpm: i32,
    pub pos_spd_accel: i32,
    pub handbrake_a: Single,
    pub origin_permanent: bool,
    pub mit_transport: MitTransport,
    pub can_iface: Seq<char>,
    pub mit_can_id: u16,
    pub motor_preset: usize,
    pub mit: LinkState,
    pub mit_control_enabled: bool,
    pub mit_target_pos_rad: Single,
    pub mit_target_vel_rad_s: Single,
    pub mit_kp: Single,
    pub mit_kd: Single,
    pub mit_torque_nm: Single,
    pub mit_feedback: Option<MitFeedback>,
    pub mit_last_feedback_at: Option<u64>,
    pub mit_send_stream: bool,
    pub mit_last_stream_sent: u64,
}

/// The application's state.
pub struct MotorApp {
    pub mode: Mode,
    pub servo_transport: ServoTransport,
    pub ports: Vec<String>,
    pub selected_port: Option<String>,
    pub baud: u32,
    /// The serial connection, shared by servo mode and MIT mode's debug commands.
    pub serial: Link,
    pub values: Option<MotorValues>,
    pub last_values_at: Option<u64>,
    pub poll_live: bool,
    pub last_poll_sent: u64,
    pub servo_can_iface: String,
    pub servo_can_motor_id: u8,
    pub servo_can: Link,
    pub servo_can_values: Option<ServoCanValues>,
    pub servo_can_last_values_at: Option<u64>,
    pub tab: ControlTab,
    pub duty: Single,
    pub current_a: Single,
    pub brake_a: Single,
    pub rpm: Single,
    pub pos_deg: Single,
    pub pos_spd_deg: Single,
    pub pos_spd_erpm: i32,
    pub pos_spd_accel: i32,
    pub handbrake_a: Single,
    pub origin_permanent: bool,
    pub mit_transport: MitTransport,
    pub can_iface: String,
    pub mit_can_id: u16,
    pub motor_preset: usize,
    pub mit: Link,
    pub mit_control_enabled: bool,
    pub mit_target_pos_rad: Single,
    pub mit_target_vel_rad_s: Single,
    pub mit_kp: Single,
    pub mit_kd: Single,
    pub mit_torque_nm: Single,
    pub mit_feedback: Option<MitFeedback>,
    pub mit_last_feedback_at: Option<u64>,
    pub mit_send_stream: bool,
    pub mit_last_stream_sent: u64,
}

/// The text in an option.
pub open spec fn text_in(text: Option<String>) -> Option<Seq<char>> {
    match text {
        Some(text) => Some(text@),
        None => None,
    }
}

impl View for MotorApp {
    type V = AppState;

    open spec fn view(&self) -> AppState {
        AppState {
            mode: self.mode,
            servo_transport: self.servo_transport,
            ports: lines(self.ports@),
            selected_port: text_in(self.selected_port),
            baud: self.baud,
            serial: self.serial@,
            values: self.values,
            last_values_at: self.last_values_at,
            poll_live: self.poll_live,
            last_poll_sent: self.last_poll_sent,
            servo_can_iface: self.servo_can_iface@,
            servo_can_motor_id: self.servo_can_motor_id,
            servo_can: self.servo_can@,
            servo_can_values: self.servo_can_values,
            servo_can_last_values_at: self.servo_can_last_values_at,
            tab: self.tab,
            duty: self.duty,
            current_a: self.current_a,
            brake_a: self.brake_a,
            rpm: self.rpm,
            pos_deg: self.pos_deg,
            pos_spd_deg: self.pos_spd_deg,
            pos_spd_erpm: self.pos_spd_erpm,
            pos_spd_accel: self.pos_spd_accel,
            handbrake_a: self.handbrake_a,
            origin_permanent: self.origin_permanent,
            mit_transport: self.mit_transport,
            can_iface: self.can_iface@,
            mit_can_id: self.mit_can_id,
            motor_preset: self.motor_preset,
            mit: self.mit@,
            mit_control_enabled: self.mit_control_enabled,
            mit_target_pos_rad: self.mit_target_pos_rad,
            mit_target_vel_rad_s: self.mit_target_vel_rad_s,
            mit_kp: self.mit_kp,
            mit_kd: self.mit_kd,
            mit_torque_nm: self.mit_torque_nm,
            mit_feedback: self.mit_feedback,
            mit_last_feedback_at: self.mit_last_feedback_at,
            mit_send_stream: self.mit_send_stream,
            mit_last_stream_sent: self.mit_last_stream_sent,
        }
    }
}

/// The time between two requests for the motor's values.
pub const POLL_INTERVAL_NS: u64 = 100_000_000;

/// The time between two commands of an MIT-mode stream.
pub const STREAM_INTERVAL_NS: u64 = 20_000_000;

/// More than `interval` has passed since `since`.
pub open spec fn overdue(since: u64, now: u64, interval: u64) -> bool {
    now - since > interval
}

fn is_overdue(since: u64, now: u64, interval: u64) -> (due: bool)
    ensures
        due == overdue(since, now, interval),
{
    now > since && now - since > interval
}

/// The last reason for a disconnection among the reports, if there is one.
pub open spec fn last_reason(events: Seq<(Report, u64)>) -> Option<Seq<char>>
    decreases events.len(),
{
    if events.len() == 0 {
        None
    } else {
        match events.last().0 {
            Report::Disconnected(reason) => Some(reason),
            _ => last_reason(events.drop_last()),
        }
    }
}

/// The last reason for a disconnection among the reports, if there is one.
pub open spec fn last_can_reason(events: Seq<(CanReport, u64)>) -> Option<Seq<char>>
    decreases events.len(),
{
    if events.len() == 0 {
        None
    } else {
        match events.last().0 {
            CanReport::Disconnected(reason) => Some(reason),
            _ => last_can_reason(events.drop_last()),
        }
    }
}

impl AppState {
    /// Every connection is in a proper state and the motor model is a known one.
    pub open spec fn wf(self) -> bool {
        &&& self.serial.wf()
        &&& self.servo_can.wf()
        &&& self.mit.wf()
        &&& self.motor_preset < MOTOR_PRESET_COUNT
    }

    /// The state at the start.
    pub open spec fn initial(now: u64) -> AppState {
        AppState {
            mode: Mode::Servo,
            servo_transport: ServoTransport::Serial,
            ports: Seq::empty(),
            selected_port: None,
            baud: 921_600,
            serial: LinkState::idle(),
            values: None,
            last_values_at: None,
            poll_live: true,
            last_poll_sent: now,
            servo_can_iface: "can0"@,
            servo_can_motor_id: 1,
            servo_can: LinkState::idle(),
            servo_can_values: None,
            servo_can_last_values_at: None,
            tab: ControlTab::Velocity,
            duty: Single::zero_spec(),
            current_a: Single::zero_spec(),
            brake_a: Single::zero_spec(),
            rpm: Single::zero_spec(),
            pos_deg: Single::zero_spec(),
            pos_spd_deg: Single::zero_spec(),
            pos_spd_erpm: 5000,
            pos_spd_accel: 30000,
            handbrake_a: Single::zero_spec(),
            origin_permanent: false,
            mit_transport: MitTransport::Can,
            can_iface: "can0"@,
            mit_can_id: 1,
            motor_preset: 0,
            mit: LinkState::idle(),
            mit_control_enabled: false,
            mit_target_pos_rad: Single::zero_spec(),
            mit_target_vel_rad_s: Single::zero_spec(),
            mit_kp: Single::zero_spec(),
            mit_kd: Single::zero_spec(),
            mit_torque_nm: Single::zero_spec(),
            mit_feedback: None,
            mit_last_feedback_at: None,
            mit_send_stream: false,
            mit_last_stream_sent: now,
        }
    }

    /// After the list of ports has been read; nothing has been found when it could not be read.
    /// The first port is selected if none was.
    pub open spec fn with_ports(self, found: Seq<Seq<char>>) -> AppState {
        AppState {
            ports: found,
            selected_port: if self.selected_port is None && found.len() > 0 {
                Some(found[0])
            } else {
                self.selected_port
            },
            ..self
        }
    }

    /// After a serial frame has been handed over for sending, and the message that goes out.
    pub open spec fn serial_sent(self, frame: Seq<u8>) -> (AppState, Message) {
        (
            AppState { serial: self.serial.asked(), ..self },
            if self.serial.attached {
                Message::SerialFrame(frame)
            } else {
                Message::Nothing
            },
        )
    }

    /// After a servo-mode CAN frame has been handed over for sending, and the message that goes
    /// out.
    pub open spec fn servo_can_sent(self, id: int, data: Seq<u8>) -> (AppState, Message) {
        (
            AppState { servo_can: self.servo_can.asked(), ..self },
            if self.servo_can.attached {
                Message::ExtendedFrame(id, data)
            } else {
                Message::Nothing
            },
        )
    }

    /// After an MIT-mode frame has been handed over for sending, and the message that goes out.
    pub open spec fn mit_sent(self, data: Seq<u8>) -> (AppState, Message) {
        (
            AppState { mit: self.mit.asked(), ..self },
            if self.mit.attached {
                Message::StandardFrame(self.mit_can_id as int, data)
            } else {
                Message::Nothing
            },
        )
    }

    /// After a command in both forms has been handed over: the selected transport's form is sent.
    pub open spec fn dispatched(self, frame: Seq<u8>, can: (int, Seq<u8>)) -> (AppState, Message) {
        match self.servo_transport {
            ServoTransport::Serial => self.serial_sent(frame),
            ServoTransport::Can => self.servo_can_sent(can.0, can.1),
        }
    }

    /// After a servo-mode command has been given. Over CAN, a command that has no CAN frame is
    /// not available.
    pub open spec fn commanded(self, command: ServoCommand) -> (AppState, Message) {
        match self.servo_transport {
            ServoTransport::Serial => self.serial_sent(frame_of(command.serial_payload())),
            ServoTransport::Can => match command.can_frame(self.servo_can_motor_id) {
                Some((id, data)) => self.servo_can_sent(id, data),
                None => (self, Message::Nothing),
            },
        }
    }

    /// After the stop button in servo mode: a brake command without current goes out, and the
    /// duty, current, brake and speed inputs are zero.
    pub open spec fn servo_stopped(self) -> (AppState, Message) {
        let (sent, message) = self.commanded(ServoCommand::Brake(0));
        (
            AppState {
                duty: Single::zero_spec(),
                current_a: Single::zero_spec(),
                brake_a: Single::zero_spec(),
                rpm: Single::zero_spec(),
                ..sent
            },
            message,
        )
    }

    /// It is time to ask for the motor's values.
    pub open spec fn poll_due(self, now: u64) -> bool {
        &&& self.serial.connected
        &&& self.servo_transport == ServoTransport::Serial
        &&& self.poll_live
        &&& overdue(self.last_poll_sent, now, POLL_INTERVAL_NS)
    }

    /// It is time for the next command of the MIT-mode stream.
    pub open spec fn stream_due(self, now: u64) -> bool {
        &&& self.mit.connected
        &&& self.mit_control_enabled
        &&& self.mit_send_stream
        &&& overdue(self.mit_last_stream_sent, now, STREAM_INTERVAL_NS)
    }

    /// After one report of the serial worker other than that the connection is gone.
    pub open spec fn serial_reported(self, event: (Report, u64)) -> AppState {
        match event.0 {
            Report::Connected => AppState { serial: self.serial.opened(), ..self },
            Report::Disconnected(_) => self,
            Report::Values(values) => AppState {
                values: Some(values),
                last_values_at: Some(event.1),
                ..self
            },
            Report::Log(line) => AppState { serial: self.serial.noted(line), ..self },
        }
    }

    /// After such reports, in order.
    pub open spec fn serial_reports(self, events: Seq<(Report, u64)>) -> AppState
        decreases events.len(),
    {
        if events.len() == 0 {
            self
        } else {
            self.serial_reports(events.drop_last()).serial_reported(events.last())
        }
    }

    /// After all waiting reports of the serial worker. The connection is given up behind all the
    /// other reports, for the last reason that was reported. Without a worker there are none.
    pub open spec fn serial_drained(self, events: Seq<(Report, u64)>) -> AppState {
        if !self.serial.attached {
            self
        } else {
            let reported = self.serial_reports(events);
            match last_reason(events) {
                Some(reason) => AppState { serial: reported.serial.lost(reason), ..reported },
                None => reported,
            }
        }
    }

    /// After one report of the servo-mode CAN worker other than that the connection is gone.
    pub open spec fn servo_can_reported(self, event: (CanReport, u64)) -> AppState {
        match event.0 {
            CanReport::Connected => AppState { servo_can: self.servo_can.opened(), ..self },
            CanReport::Disconnected(_) => self,
            CanReport::MitFeedback(_) => self,
            CanReport::ServoValues(values) => AppState {
                servo_can_values: Some(values),
                servo_can_last_values_at: Some(event.1),
                ..self
            },
            CanReport::Log(line) => AppState { servo_can: self.servo_can.noted(line), ..self },
        }
    }

    /// After such reports, in order.
    pub open spec fn servo_can_reports(self, events: Seq<(CanReport, u64)>) -> AppState
        decreases events.len(),
    {
        if events.len() == 0 {
            self
        } else {
            self.servo_can_reports(events.drop_last()).servo_can_reported(events.last())
        }
    }

    /// After all waiting reports of the servo-mode CAN worker.
    pub open spec fn servo_can_drained(self, events: Seq<(CanReport, u64)>) -> AppState {
        if !self.servo_can.attached {
            self
        } else {
            let reported = self.servo_can_reports(events);
            match last_can_reason(events) {
                Some(reason) => AppState {
                    servo_can: reported.servo_can.lost(reason),
                    ..reported
                },
                None => reported,
            }
        }
    }

    /// After one report of the MIT-mode worker other than that the connection is gone.
    pub open spec fn mit_reported(self, event: (CanReport, u64)) -> AppState {
        match event.0 {
            CanReport::Connected => AppState { mit: self.mit.opened(), ..self },
            CanReport::Disconnected(_) => self,
            CanReport::MitFeedback(feedback) => AppState {
                mit_feedback: Some(feedback),
                mit_last_feedback_at: Some(event.1),
                ..self
            },
            CanReport::ServoValues(_) => self,
            CanReport::Log(line) => AppState { mit: self.mit.noted(line), ..self },
        }
    }

    /// After such reports, in order.
    pub open spec fn mit_reports(self, events: Seq<(CanReport, u64)>) -> AppState
        decreases events.len(),
    {
        if events.len() == 0 {
            self
        } else {
            self.mit_reports(events.drop_last()).mit_reported(events.last())
        }
    }

    /// After all waiting reports of the MIT-mode worker. Losing the connection disables control.
    pub open spec fn mit_drained(self, events: Seq<(CanReport, u64)>) -> AppState {
        if !self.mit.attached {
            self
        } else {
            let reported = self.mit_reports(events);
            match last_can_reason(events) {
                Some(reason) => AppState {
                    mit: reported.mit.lost(reason),
                    mit_control_enabled: false,
                    ..reported
                },
                None => reported,
            }
        }
    }
}

/// Reports with their times, with their texts as characters.
pub open spec fn timed_reports(events: Seq<(FromWorker, u64)>) -> Seq<(Report, u64)> {
    events.map_values(|event: (FromWorker, u64)| (event.0@, event.1))
}

/// Reports with their times, with their texts as characters.
pub open spec fn timed_can_reports(events: Seq<(FromCanWorker, u64)>) -> Seq<(CanReport, u64)> {
    events.map_values(|event: (FromCanWorker, u64)| (event.0@, event.1))
}

impl MotorApp {
    /// The state at the start, without any port.
    pub fn initial(now: u64) -> (app: Self)
        ensures
            app@ == AppState::initial(now),
            app@.wf(),
    {
        let app = MotorApp {
            mode: Mode::Servo,
            servo_transport: ServoTransport::Serial,
            ports: Vec::new(),
            selected_port: None,
            baud: 921_600,
            serial: Link::new(),
            values: None,
            last_values_at: None,
            poll_live: true,
            last_poll_sent: now,
            servo_can_iface: "can0".to_owned(),
            servo_can_motor_id: 1,
            servo_can: Link::new(),
            servo_can_values: None,
            servo_can_last_values_at: None,
            tab: ControlTab::Velocity,
            duty: Single::zero(),
            current_a: Single::zero(),
            brake_a: Single::zero(),
            rpm: Single::zero(),
            pos_deg: Single::zero(),
            pos_spd_deg: Single::zero(),
            pos_spd_erpm: 5000,
            pos_spd_accel: 30000,
            handbrake_a: Single::zero(),
            origin_permanent: false,
            mit_transport: MitTransport::Can,
            can_iface: "can0".to_owned(),
            mit_can_id: 1,
            motor_preset: 0,
            mit: Link::new(),
            mit_control_enabled: false,
            mit_target_pos_rad: Single::zero(),
            mit_target_vel_rad_s: Single::zero(),
            mit_kp: Single::zero(),
            mit_kd: Single::zero(),
            mit_torque_nm: Single::zero(),
            mit_feedback: None,
            mit_last_feedback_at: None,
            mit_send_stream: false,
            mit_last_stream_sent: now,
        };
        assert(lines(app.ports@) =~= Seq::<Seq<char>>::empty());
        app
    }

    /// The state at the start, with the ports that are there.
    pub fn new(now: u64, found: Option<Vec<String>>) -> (app: Self)
        ensures
            app@ == AppState::initial(now).with_ports(
                match found {
                    Some(ports) => lines(ports@),
                    None => Seq::empty(),
                },
            ),
            app@.wf(),
    {
        let mut app: MotorApp = MotorApp::initial(now);
        app.refresh_ports(found);
        app
    }

    /// The ranges of the selected motor model.
    pub fn current_limits(&self) -> (limits: MotorLimits)
        requires
            self@.motor_preset < MOTOR_PRESET_COUNT,
        ensures
            limits == preset_of(self@.motor_preset as int),
    {
        motor_preset(self.motor_preset)
    }

    /// Takes over the list of ports, `None` if it could not be read.
    pub fn refresh_ports(&mut self, found: Option<Vec<String>>)
        ensures
            final(self)@ == old(self)@.with_ports(
                match found {
                    Some(ports) => lines(ports@),
                    None => Seq::empty(),
                },
            ),
            old(self)@.wf() ==> final(self)@.wf(),
    {
        self.ports = match found {
            Some(ports) => ports,
            None => Vec::new(),
        };
        assert(found is None ==> lines(self.ports@) =~= Seq::<Seq<char>>::empty());
        if self.selected_port.is_none() && self.ports.len() > 0 {
            self.selected_port = Some(self.ports[0].clone());
        }
    }

    /// Starts a serial connection. Returns the port and the baud rate that the worker is to open.
    pub fn serial_connect(&mut self) -> (target: Option<(String, u32)>)
        ensures
            match target {
                Some((port, baud)) => {
                    &&& old(self)@.selected_port == Some(port@)
                    &&& baud == old(self)@.baud
                    &&& final(self)@ == (AppState {
                        serial: old(self)@.serial.started(),
                        ..old(self)@
                    })
                },
                None => {
                    &&& old(self)@.selected_port is None
                    &&& final(self)@ == (AppState {
                        serial: LinkState {
                            status: "No port selected"@,
                            ..old(self)@.serial
                        },
                        ..old(self)@
                    })
                },
            },
            old(self)@.wf() ==> final(self)@.wf(),
    {
        match &self.selected_port {
            None => {
                self.serial.status = "No port selected".to_owned();
                None
            },
            Some(port) => {
                let port: String = port.clone();
                self.serial.start();
                Some((port, self.baud))
            },
        }
    }

    /// Ends the serial connection.
    pub fn serial_disconnect(&mut self) -> (message: Option<ToWorker>)
        ensures
            serial_message(message) == (if old(self)@.serial.attached {
                Message::SerialDisconnect
            } else {
                Message::Nothing
            }),
            final(self)@ == (AppState { serial: old(self)@.serial.released(), ..old(self)@ }),
            old(self)@.wf() ==> final(self)@.wf(),
    {
        if self.serial.release() {
            Some(ToWorker::Disconnect)
        } else {
            None
        }
    }

    /// Sends a serial frame, if there is a worker to send it.
    pub fn serial_send(&mut self, frame: Vec<u8>) -> (message: Option<ToWorker>)
        ensures
            (final(self)@, serial_message(message)) == old(self)@.serial_sent(frame@),
            old(self)@.wf() ==> final(self)@.wf(),
    {
        if self.serial.ask() {
            Some(ToWorker::Send(frame))
        } else {
            None
        }
    }

    /// Takes in the waiting reports of the serial worker, with the times of their arrival.
    pub fn drain_serial_events(&mut self, events: Vec<(FromWorker, u64)>)
        ensures
            final(self)@ == old(self)@.serial_drained(timed_reports(events@)),
            old(self)@.wf() ==> final(self)@.wf(),
    {
        if !self.serial.attached {
            return ;
        }
        let ghost all = timed_reports(events@);
        let mut reason: Option<String> = None;
        assert(all.take(0) =~= Seq::<(Report, u64)>::empty());
        for event in iter: events
            invariant
                iter.seq() == events@,
                all == timed_reports(events@),
                self@ == old(self)@.serial_reports(all.take(iter.index() as int)),
                text_in(reason) == last_reason(all.take(iter.index() as int)),
                self@.serial.attached,
                old(self)@.wf() ==> self@.wf(),
        {
            proof {
                let taken = all.take(iter.index() + 1);
                assert(taken.drop_last() =~= all.take(iter.index() as int));
                assert(taken.last() == (event.0@, event.1));
            }
            match event.0 {
                FromWorker::Connected => self.serial.open(),
                FromWorker::Disconnected(text) => reason = Some(text),
                FromWorker::Values(values) => {
                    self.values = Some(values);
                    self.last_values_at = Some(event.1);
                },
                FromWorker::Log(line) => self.serial.note(line),
            }
        }
        assert(all.take(all.len() as int) =~= all);
        if let Some(text) = reason {
            self.serial.lose(text);
        }
    }

    /// Starts a servo-mode CAN connection. Returns the worker that is to be run.
    pub fn servo_can_connect(&mut self) -> (worker: CanWorker)
        ensures
            worker.iface@ == old(self)@.servo_can_iface,
            worker.protocol == CanProtocol::ServoCan,
            final(self)@ == (AppState { servo_can: old(self)@.servo_can.started(), ..old(self)@ }),
            old(self)@.wf() ==> final(self)@.wf(),
    {
        self.servo_can.start();
        CanWorker::new(self.servo_can_iface.clone(), CanProtocol::ServoCan)
    }

    /// Ends the servo-mode CAN connection.
    pub fn servo_can_disconnect(&mut self) -> (message: Option<ToCanWorker>)
        ensures
            can_message(message) == (if old(self)@.servo_can.attached {
                Message::CanDisconnect
            } else {
                Message::Nothing
            }),
            final(self)@ == (AppState { servo_can: old(self)@.servo_can.released(), ..old(self)@ }),
            old(self)@.wf() ==> final(self)@.wf(),
    {
        if self.servo_can.release() {
            Some(ToCanWorker::Disconnect)
        } else {
            None
        }
    }

    /// Sends a servo-mode CAN frame, if there is a worker to send it.
    pub fn servo_can_send(&mut self, id: u32, data: Vec<u8>) -> (message: Option<ToCanWorker>)
        ensures
            (final(self)@, can_message(message)) == old(self)@.servo_can_sent(id as int, data@),
            old(self)@.wf() ==> final(self)@.wf(),
    {
        if self.servo_can.ask() {
            Some(ToCanWorker::SendExt(id, data))
        } else {
            None
        }
    }

    /// Takes in the waiting reports of the servo-mode CAN worker, with the times of their arrival.
    pub fn drain_servo_can_events(&mut self, events: Vec<(FromCanWorker, u64)>)
        ensures
            final(self)@ == old(self)@.servo_can_drained(timed_can_reports(events@)),
            old(self)@.wf() ==> final(self)@.wf(),
    {
        if !self.servo_can.attached {
            return ;
        }
        let ghost all = timed_can_reports(events@);
        let mut reason: Option<String> = None;
        assert(all.take(0) =~= Seq::<(CanReport, u64)>::empty());
        for event in iter: events
            invariant
                iter.seq() == events@,
                all == timed_can_reports(events@),
                self@ == old(self)@.servo_can_reports(all.take(iter.index() as int)),
                text_in(reason) == last_can_reason(all.take(iter.index() as int)),
                self@.servo_can.attached,
                old(self)@.wf() ==> self@.wf(),
        {
            proof {
                let taken = all.take(iter.index() + 1);
                assert(taken.drop_last() =~= all.take(iter.index() as int));
                assert(taken.last() == (event.0@, event.1));
            }
            match event.0 {
                FromCanWorker::Connected => self.servo_can.open(),
                FromCanWorker::Disconnected(text) => reason = Some(text),
                FromCanWorker::ServoValues(values) => {
                    self.servo_can_values = Some(values);
                    self.servo_can_last_values_at = Some(event.1);
                },
                FromCanWorker::MitFeedback(_) => {},
                FromCanWorker::Log(line) => self.servo_can.note(line),
            }
        }
        assert(all.take(all.len() as int) =~= all);
        if let Some(text) = reason {
            self.servo_can.lose(text);
        }
    }

    /// Sends a command over the selected transport, in that transport's form.
    pub fn servo_dispatch(&mut self, serial_frame: Vec<u8>, can_frame: (u32, Vec<u8>)) -> (message:
        Outgoing)
        ensures
            (final(self)@, message@) == old(self)@.dispatched(
                serial_frame@,
                (can_frame.0 as int, can_frame.1@),
            ),
            old(self)@.wf() ==> final(self)@.wf(),
    {
        match self.servo_transport {
            ServoTransport::Serial => match self.serial_send(serial_frame) {
                Some(message) => Outgoing::Serial(message),
                None => Outgoing::Nothing,
            },
            ServoTransport::Can => match self.servo_can_send(can_frame.0, can_frame.1) {
                Some(message) => Outgoing::Can(message),
                None => Outgoing::Nothing,
            },
        }
    }

    /// Sends a command that has no CAN form, if the selected transport is serial.
    fn serial_only(&mut self, frame: Vec<u8>) -> (message: Outgoing)
        ensures
            (final(self)@, message@) == (match old(self)@.servo_transport {
                ServoTransport::Serial => old(self)@.serial_sent(frame@),
                ServoTransport::Can => (old(self)@, Message::Nothing),
            }),
            old(self)@.wf() ==> final(self)@.wf(),
    {
        match self.servo_transport {
            ServoTransport::Serial => match self.serial_send(frame) {
                Some(message) => Outgoing::Serial(message),
                None => Outgoing::Nothing,
            },
            ServoTransport::Can => Outgoing::Nothing,
        }
    }

    /// Gives a servo-mode command.
    pub fn servo_command(&mut self, command: ServoCommand) -> (message: Outgoing)
        ensures
            (final(self)@, message@) == old(self)@.commanded(command),
            old(self)@.wf() ==> final(self)@.wf(),
    {
        let motor_id: u8 = self.servo_can_motor_id;
        match command {
            ServoCommand::Duty(duty) => self.servo_dispatch(
                protocol::set_duty(duty),
                servo_can::set_duty(motor_id, duty),
            ),
            ServoCommand::Current(milliamps) => self.servo_dispatch(
                protocol::set_current(milliamps),
                servo_can::set_current(motor_id, milliamps),
            ),
            ServoCommand::Brake(milliamps) => self.servo_dispatch(
                protocol::set_current_brake(milliamps),
                servo_can::set_current_brake(motor_id, milliamps),
            ),
            ServoCommand::Velocity(erpm) => self.servo_dispatch(
                protocol::set_rpm(erpm),
                servo_can::set_rpm(motor_id, erpm),
            ),
            ServoCommand::Position { serial, can } => self.servo_dispatch(
                protocol::set_pos(serial),
                servo_can::set_pos(motor_id, can),
            ),
            ServoCommand::PosVelocity { serial, can, erpm, accel } => self.servo_dispatch(
                protocol::set_pos_spd(serial, erpm, accel),
                servo_can::set_pos_spd(motor_id, can, erpm, accel),
            ),
            ServoCommand::Handbrake(milliamps) => self.serial_only(
                protocol::set_handbrake(milliamps),
            ),
            ServoCommand::MultiLoop => self.serial_only(protocol::set_pos_multi_loop()),
            ServoCommand::SingleLoop => self.serial_only(protocol::set_pos_single_loop()),
            ServoCommand::Origin(permanent) => self.servo_dispatch(
                protocol::set_origin(permanent),
                servo_can::set_origin(motor_id, permanent),
            ),
        }
    }

    /// Stops the motor: brakes without current and clears the inputs.
    pub fn servo_stop(&mut self) -> (message: Outgoing)
        ensures
            (final(self)@, message@) == old(self)@.servo_stopped(),
            old(self)@.wf() ==> final(self)@.wf(),
    {
        let message: Outgoing = self.servo_command(ServoCommand::Brake(0));
        self.duty = Single::zero();
        self.current_a = Single::zero();
        self.brake_a = Single::zero();
        self.rpm = Single::zero();
        message
    }

    /// Tells whether the control on screen can be used over the selected transport.
    pub fn tab_available(&self) -> (available: bool)
        ensures
            available == (self@.servo_transport == ServoTransport::Serial || has_can_command(
                self@.tab,
            )),
    {
        match self.servo_transport {
            ServoTransport::Serial => true,
            ServoTransport::Can => tab_supports_can(self.tab),
        }
    }

    /// Whether the selected servo-mode transport is connected, and its status line.
    pub fn servo_connection(&self) -> (shown: (bool, String))
        ensures
            (shown.0, shown.1@) == (match self@.servo_transport {
                ServoTransport::Serial => (self@.serial.connected, self@.serial.status),
                ServoTransport::Can => (self@.servo_can.connected, self@.servo_can.status),
            }),
    {
        match self.servo_transport {
            ServoTransport::Serial => (self.serial.connected, self.serial.status.clone()),
            ServoTransport::Can => (self.servo_can.connected, self.servo_can.status.clone()),
        }
    }

    /// Asks for the motor's values.
    pub fn request_values(&mut self) -> (message: Option<ToWorker>)
        ensures
            (final(self)@, serial_message(message)) == old(self)@.serial_sent(
                frame_of(seq![CommId::GetValues.byte()]),
            ),
            old(self)@.wf() ==> final(self)@.wf(),
    {
        self.serial_send(protocol::get_values())
    }

    /// Asks for the motor's values when it is time to do so.
    pub fn poll(&mut self, now: u64) -> (message: Option<ToWorker>)
        ensures
            (final(self)@, serial_message(message)) == (if old(self)@.poll_due(now) {
                let (sent, message) = old(self)@.serial_sent(
                    frame_of(seq![CommId::GetValues.byte()]),
                );
                (AppState { last_poll_sent: now, ..sent }, message)
            } else {
                (old(self)@, Message::Nothing)
            }),
            old(self)@.wf() ==> final(self)@.wf(),
    {
        let serial: bool = match self.servo_transport {
            ServoTransport::Serial => true,
            ServoTransport::Can => false,
        };
        if self.serial.connected && serial && self.poll_live && is_overdue(
            self.last_poll_sent,
            now,
            POLL_INTERVAL_NS,
        ) {
            let message: Option<ToWorker> = self.request_values();
            self.last_poll_sent = now;
            message
        } else {
            None
        }
    }

    /// Sends a text command to the driver's debug console.
    pub fn debug_command(&mut self, text: &str) -> (message: Option<ToWorker>)
        ensures
            (final(self)@, serial_message(message)) == old(self)@.serial_sent(
                frame_of(protocol::terminal_payload(text@)),
            ),
            old(self)@.wf() ==> final(self)@.wf(),
    {
        self.serial_send(protocol::terminal_cmd(text))
    }

    /// Starts an MIT-mode connection for the selected motor model. Returns the worker that is to be
    /// run.
    pub fn mit_connect(&mut self) -> (worker: CanWorker)
        requires
            old(self)@.motor_preset < MOTOR_PRESET_COUNT,
        ensures
            worker.iface@ == old(self)@.can_iface,
            worker.protocol == CanProtocol::Mit(preset_of(old(self)@.motor_preset as int)),
            final(self)@ == (AppState { mit: old(self)@.mit.started(), ..old(self)@ }),
            old(self)@.wf() ==> final(self)@.wf(),
    {
        let limits: MotorLimits = self.current_limits();
        self.mit.start();
        CanWorker::new(self.can_iface.clone(), CanProtocol::Mit(limits))
    }

    /// Ends the MIT-mode connection and disables control.
    pub fn mit_disconnect(&mut self) -> (message: Option<ToCanWorker>)
        ensures
            can_message(message) == (if old(self)@.mit.attached {
                Message::CanDisconnect
            } else {
                Message::Nothing
            }),
            final(self)@ == (AppState {
                mit: old(self)@.mit.released(),
                mit_control_enabled: false,
                ..old(self)@
            }),
            old(self)@.wf() ==> final(self)@.wf(),
    {
        self.mit_control_enabled = false;
        if self.mit.release() {
            Some(ToCanWorker::Disconnect)
        } else {
            None
        }
    }

    /// Sends an MIT-mode frame, if there is a worker to send it.
    pub fn mit_send(&mut self, data: [u8; 8]) -> (message: Option<ToCanWorker>)
        ensures
            (final(self)@, can_message(message)) == old(self)@.mit_sent(data@),
            old(self)@.wf() ==> final(self)@.wf(),
    {
        if self.mit.ask() {
            Some(ToCanWorker::SendStd(self.mit_can_id, data))
        } else {
            None
        }
    }

    /// Makes the driver accept commands.
    pub fn mit_enable(&mut self) -> (message: Option<ToCanWorker>)
        ensures
            ({
                let (sent, out) = old(self)@.mit_sent(ENTER_MOTOR_MODE@);
                &&& can_message(message) == out
                &&& final(self)@ == (AppState { mit_control_enabled: true, ..sent })
            }),
            old(self)@.wf() ==> final(self)@.wf(),
    {
        let message: Option<ToCanWorker> = self.mit_send(ENTER_MOTOR_MODE);
        self.mit_control_enabled = true;
        message
    }

    /// Makes the driver stop accepting commands.
    pub fn mit_disable(&mut self) -> (message: Option<ToCanWorker>)
        ensures
            ({
                let (sent, out) = old(self)@.mit_sent(EXIT_MOTOR_MODE@);
                &&& can_message(message) == out
                &&& final(self)@ == (AppState { mit_control_enabled: false, ..sent })
            }),
            old(self)@.wf() ==> final(self)@.wf(),
    {
        let message: Option<ToCanWorker> = self.mit_send(EXIT_MOTOR_MODE);
        self.mit_control_enabled = false;
        message
    }

    /// Makes the current position the zero position.
    pub fn mit_set_zero(&mut self) -> (message: Option<ToCanWorker>)
        ensures
            (final(self)@, can_message(message)) == old(self)@.mit_sent(SET_ZERO_POSITION@),
            old(self)@.wf() ==> final(self)@.wf(),
    {
        self.mit_send(SET_ZERO_POSITION)
    }

    /// The inputs of MIT mode.
    pub fn mit_targets(&self) -> (targets: MitTargets)
        ensures
            targets == (MitTargets {
                position_rad: self@.mit_target_pos_rad,
                velocity_rad_s: self@.mit_target_vel_rad_s,
                kp: self@.mit_kp,
                kd: self@.mit_kd,
                torque_nm: self@.mit_torque_nm,
            }),
    {
        MitTargets {
            position_rad: self.mit_target_pos_rad,
            velocity_rad_s: self.mit_target_vel_rad_s,
            kp: self.mit_kp,
            kd: self.mit_kd,
            torque_nm: self.mit_torque_nm,
        }
    }

    /// Sends a control command with the codes of the inputs.
    pub fn mit_send_command(&mut self, codes: &MitCodes) -> (message: Option<ToCanWorker>)
        ensures
            (final(self)@, can_message(message)) == old(self)@.mit_sent(packed(*codes)),
            old(self)@.wf() ==> final(self)@.wf(),
    {
        self.mit_send(pack_cmd(codes))
    }

    /// Tells whether it is time for the next command of the stream.
    pub fn stream_is_due(&self, now: u64) -> (due: bool)
        ensures
            due == self@.stream_due(now),
    {
        self.mit.connected && self.mit_control_enabled && self.mit_send_stream && is_overdue(
            self.mit_last_stream_sent,
            now,
            STREAM_INTERVAL_NS,
        )
    }

    /// Sends the next command of the stream when it is time to do so.
    pub fn stream(&mut self, codes: &MitCodes, now: u64) -> (message: Option<ToCanWorker>)
        ensures
            (final(self)@, can_message(message)) == (if old(self)@.stream_due(now) {
                let (sent, message) = old(self)@.mit_sent(packed(*codes));
                (AppState { mit_last_stream_sent: now, ..sent }, message)
            } else {
                (old(self)@, Message::Nothing)
            }),
            old(self)@.wf() ==> final(self)@.wf(),
    {
        if self.stream_is_due(now) {
            let message: Option<ToCanWorker> = self.mit_send_command(codes);
            self.mit_last_stream_sent = now;
            message
        } else {
            None
        }
    }

    /// Begins a stop in MIT mode: clears velocity, torque and position gain. Returns what the last
    /// command is to say, with enough damping that the motor does not spin freely.
    pub fn mit_stop_targets(&mut self) -> (targets: MitTargets)
        ensures
            final(self)@ == (AppState {
                mit_target_vel_rad_s: Single::zero_spec(),
                mit_torque_nm: Single::zero_spec(),
                mit_kp: Single::zero_spec(),
                ..old(self)@
            }),
            targets == (MitTargets {
                position_rad: old(self)@.mit_target_pos_rad,
                velocity_rad_s: Single::zero_spec(),
                kp: Single::zero_spec(),
                kd: old(self)@.mit_kd.at_least_half_spec(),
                torque_nm: Single::zero_spec(),
            }),
            old(self)@.wf() ==> final(self)@.wf(),
    {
        self.mit_target_vel_rad_s = Single::zero();
        self.mit_torque_nm = Single::zero();
        self.mit_kp = Single::zero();
        MitTargets {
            position_rad: self.mit_target_pos_rad,
            velocity_rad_s: Single::zero(),
            kp: Single::zero(),
            kd: self.mit_kd.at_least_half(),
            torque_nm: Single::zero(),
        }
    }

    /// Ends a stop in MIT mode: sends the last command, with the codes of its targets, and disables
    /// control.
    pub fn mit_stop(&mut self, codes: &MitCodes) -> (messages: Vec<ToCanWorker>)
        ensures
            can_messages(messages@) == (if old(self)@.mit.attached {
                seq![
                    Message::StandardFrame(old(self)@.mit_can_id as int, packed(*codes)),
                    Message::StandardFrame(old(self)@.mit_can_id as int, EXIT_MOTOR_MODE@),
                ]
            } else {
                Seq::empty()
            }),
            final(self)@ == (AppState {
                mit: old(self)@.mit.asked(),
                mit_control_enabled: false,
                ..old(self)@
            }),
            old(self)@.wf() ==> final(self)@.wf(),
    {
        let mut messages: Vec<ToCanWorker> = Vec::new();
        if let Some(message) = self.mit_send_command(codes) {
            messages.push(message);
        }
        if let Some(message) = self.mit_disable() {
            messages.push(message);
        }
        assert(can_messages(messages@) =~= (if old(self)@.mit.attached {
            seq![
                Message::StandardFrame(old(self)@.mit_can_id as int, packed(*codes)),
                Message::StandardFrame(old(self)@.mit_can_id as int, EXIT_MOTOR_MODE@),
            ]
        } else {
            Seq::empty()
        }));
        messages
    }

    /// Takes in the waiting reports of the MIT-mode worker, with the times of their arrival.
    pub fn drain_mit_events(&mut self, events: Vec<(FromCanWorker, u64)>)
        ensures
            final(self)@ == old(self)@.mit_drained(timed_can_reports(events@)),
            old(self)@.wf() ==> final(self)@.wf(),
    {
        if !self.mit.attached {
            return ;
        }
        let ghost all = timed_can_reports(events@);
        let mut reason: Option<String> = None;
        assert(all.take(0) =~= Seq::<(CanReport, u64)>::empty());
        for event in iter: events
            invariant
                iter.seq() == events@,
                all == timed_can_reports(events@),
                self@ == old(self)@.mit_reports(all.take(iter.index() as int)),
                text_in(reason) == last_can_reason(all.take(iter.index() as int)),
                self@.mit.attached,
                old(self)@.wf() ==> self@.wf(),
        {
            proof {
                let taken = all.take(iter.index() + 1);
                assert(taken.drop_last() =~= all.take(iter.index() as int));
                assert(taken.last() == (event.0@, event.1));
            }
            match event.0 {
                FromCanWorker::Connected => self.mit.open(),
                FromCanWorker::Disconnected(text) => reason = Some(text),
                FromCanWorker::MitFeedback(feedback) => {
                    self.mit_feedback = Some(feedback);
                    self.mit_last_feedback_at = Some(event.1);
                },
                FromCanWorker::ServoValues(_) => {},
                FromCanWorker::Log(line) => self.mit.note(line),
            }
        }
        assert(all.take(all.len() as int) =~= all);
        if let Some(text) = reason {
            self.mit.lose(text);
            self.mit_control_enabled = false;
        }
    }

    /// Tells whether anything is connected, so that the screen has to keep up with it.
    pub fn any_connected(&self) -> (any: bool)
        ensures
            any == (self@.serial.connected || self@.servo_can.connected || self@.mit.connected),
    {
        self.serial.connected || self.servo_can.connected || self.mit.connected
    }
}

/// The controls with a CAN command are those whose commands have a CAN frame.
pub proof fn lemma_can_frames_match_tabs(command: ServoCommand, motor_id: u8)
    ensures
        command.can_frame(motor_id) is Some <==> has_can_command(command.tab()),
{
}

/// Only the selected transport is used: with serial selected no CAN frame goes out, with CAN
/// selected no serial frame does, and the other connection stays as it is.
pub proof fn lemma_transport_is_respected(state: AppState, command: ServoCommand)
    ensures
        ({
            let (after, message) = state.commanded(command);
            &&& state.servo_transport == ServoTransport::Serial ==> !(message is ExtendedFrame)
                && after.servo_can == state.servo_can
            &&& state.servo_transport == ServoTransport::Can ==> !(message is SerialFrame)
                && after.serial == state.serial
            &&& !(message is StandardFrame)
            &&& after.mit == state.mit
        }),
{
}

/// A command given over an attached serial connection goes out as one frame, and whoever parses
/// that frame gets exactly the command's payload.
pub proof fn lemma_command_reaches_the_driver(state: AppState, command: ServoCommand)
    requires
        state.servo_transport == ServoTransport::Serial,
        state.serial.attached,
    ensures
        ({
            let frame = frame_of(command.serial_payload());
            &&& state.commanded(command) == (state, Message::SerialFrame(frame))
            &&& extract(frame) == (Some(command.serial_payload()), Seq::<u8>::empty())
        }),
{
    let payload = command.serial_payload();
    let empty = Seq::<u8>::empty();
    assert(payload.len() <= 255);
    lemma_frame_round_trip(payload, empty);
    assert(frame_of(payload) + empty =~= frame_of(payload));
}

/// A command given over an attached CAN connection, if it has a CAN form, goes out as one frame
/// under an extended identifier, and the worker writes exactly that frame to the bus.
pub proof fn lemma_command_reaches_the_bus(
    state: AppState,
    command: ServoCommand,
    iface: Seq<char>,
    protocol: CanProtocol,
)
    requires
        state.servo_transport == ServoTransport::Can,
        state.servo_can.attached,
    ensures
        command.can_frame(state.servo_can_motor_id) matches Some((id, data)) ==> {
            let raw = CanId::Extended(id as u32);
            &&& 0 <= id <= u32::MAX
            &&& state.commanded(command) == (state, Message::ExtendedFrame(id, data))
            &&& can_step_of(iface, protocol, CanHappening::Send(raw, data)) == (
                None::<CanReport>,
                CanDeed::Write(raw, data),
            )
        },
{
}

/// A reply that the serial worker receives as a frame of its own ends up on screen: its values are
/// shown, with the time of their arrival.
pub proof fn lemma_reply_is_shown(
    state: AppState,
    worker: WorkerState,
    payload: Seq<u8>,
    arrival: u64,
)
    requires
        state.serial.attached,
        worker.pending == Seq::<u8>::empty(),
        is_values(payload),
        payload.len() <= 255,
    ensures
        ({
            let outcome = step_of(worker, Happening::Received(frame_of(payload)));
            let after = state.serial_drained(seq![(outcome.reports[0], arrival)]);
            &&& outcome.reports.len() == 1
            &&& after == (AppState {
                values: Some(values_of(payload)),
                last_values_at: Some(arrival),
                ..state
            })
        }),
{
    lemma_frame_is_reported(worker, payload);
    let events = seq![(report_of(payload), arrival)];
    assert(events.drop_last() =~= Seq::<(Report, u64)>::empty());
    assert(state.serial_reports(events.drop_last()) == state);
    assert(last_reason(events.drop_last()) is None);
}

proof fn lemma_one_can_report(state: AppState, report: CanReport, arrival: u64)
    requires
        !(report is Disconnected),
    ensures
        ({
            let events = seq![(report, arrival)];
            &&& state.servo_can.attached ==> state.servo_can_drained(events)
                == state.servo_can_reported((report, arrival))
            &&& state.mit.attached ==> state.mit_drained(events) == state.mit_reported(
                (report, arrival),
            )
        }),
{
    let events = seq![(report, arrival)];
    assert(events.drop_last() =~= Seq::<(CanReport, u64)>::empty());
    assert(state.servo_can_reports(events.drop_last()) == state);
    assert(state.mit_reports(events.drop_last()) == state);
    assert(last_can_reason(events.drop_last()) is None);
}

/// A telemetry upload that the servo-mode CAN worker receives ends up on screen: its values are
/// shown, with the time of their arrival.
pub proof fn lemma_upload_is_shown(
    state: AppState,
    iface: Seq<char>,
    raw: u32,
    data: Seq<u8>,
    arrival: u64,
)
    requires
        state.servo_can.attached,
        raw as int / 256 == servo_can::UPLOAD_FUNCTION_ID,
        data.len() == 8,
    ensures
        can_step_of(
            iface,
            CanProtocol::ServoCan,
            CanHappening::Data(CanId::Extended(raw), data),
        ).0 matches Some(report) && state.servo_can_drained(seq![(report, arrival)]) == (AppState {
            servo_can_values: Some(servo_can::upload_of(data)),
            servo_can_last_values_at: Some(arrival),
            ..state
        }),
{
    lemma_one_can_report(state, CanReport::ServoValues(servo_can::upload_of(data)), arrival);
}

/// A feedback frame that the MIT-mode worker receives ends up on screen: its readings are shown,
/// with the time of their arrival.
pub proof fn lemma_feedback_is_shown(
    state: AppState,
    iface: Seq<char>,
    limits: MotorLimits,
    raw: u16,
    data: Seq<u8>,
    arrival: u64,
)
    requires
        state.mit.attached,
        data.len() == 8,
    ensures
        can_step_of(
            iface,
            CanProtocol::Mit(limits),
            CanHappening::Data(CanId::Standard(raw), data),
        ).0 matches Some(report) && state.mit_drained(seq![(report, arrival)]) == (AppState {
            mit_feedback: Some(feedback_of(limits, data)),
            mit_last_feedback_at: Some(arrival),
            ..state
        }),
{
    lemma_one_can_report(state, CanReport::MitFeedback(feedback_of(limits, data)), arrival);
}

/// Duty and current count in the same wire units over both transports, so that one number serves
/// a command in both its forms.
pub proof fn lemma_transports_share_scales()
    ensures
        protocol::DUTY_SCALE == servo_can::DUTY_SCALE,
        protocol::CURRENT_SCALE == servo_can::CURRENT_SCALE,
{
}

/// Stopping in servo mode commands a brake without current over the selected transport, whenever
/// that transport has a worker, and clears the inputs.
pub proof fn lemma_stop_always_brakes(state: AppState)
    ensures
        ({
            let (after, message) = state.servo_stopped();
            &&& state.servo_transport == ServoTransport::Serial && state.serial.attached
                ==> message == Message::SerialFrame(
                frame_of(value_payload(CommId::SetCurrentBrake, 0)),
            )
            &&& state.servo_transport == ServoTransport::Can && state.servo_can.attached
                ==> message == Message::ExtendedFrame(
                can_id_of(CanPacketId::SetCurrentBrake, state.servo_can_motor_id),
                i32_wire(0),
            )
            &&& after.duty == Single::zero_spec()
            &&& after.current_a == Single::zero_spec()
            &&& after.brake_a == Single::zero_spec()
            &&& after.rpm == Single::zero_spec()
        }),
{
}

/// Values are asked for at most once per interval: after a request, none is due before more than
/// the interval has passed.
pub proof fn lemma_poll_rate(state: AppState, now: u64, later: u64)
    ensures
        (AppState { last_poll_sent: now, ..state }).poll_due(later) ==> later - now
            > POLL_INTERVAL_NS,
        (AppState { mit_last_stream_sent: now, ..state }).stream_due(later) ==> later - now
            > STREAM_INTERVAL_NS,
{
}

proof fn lemma_reports_keep_attached(state: AppState, events: Seq<(Report, u64)>)
    ensures
        state.serial_reports(events).serial.attached == state.serial.attached,
    decreases events.len(),
{
    if events.len() > 0 {
        lemma_reports_keep_attached(state, events.drop_last());
    }
}

proof fn lemma_can_reports_keep_attached(state: AppState, events: Seq<(CanReport, u64)>)
    ensures
        state.servo_can_reports(events).servo_can.attached == state.servo_can.attached,
        state.mit_reports(events).mit.attached == state.mit.attached,
    decreases events.len(),
{
    if events.len() > 0 {
        lemma_can_reports_keep_attached(state, events.drop_last());
    }
}

/// A reported disconnection prevails over whatever else was reported with it: the connection is
/// given up, and the last reason becomes the status and the last line of the log.
pub proof fn lemma_disconnection_prevails(state: AppState, events: Seq<(Report, u64)>)
    requires
        state.serial.attached,
    ensures
        last_reason(events) matches Some(reason) ==> {
            let link = state.serial_drained(events).serial;
            !link.attached && !link.connected && link.status == reason && link.log.last() == reason
        },
        last_reason(events) is None ==> state.serial_drained(events).serial.attached,
{
    lemma_reports_keep_attached(state, events);
}

/// The same for the two CAN connections; losing the MIT-mode connection also disables control.
pub proof fn lemma_can_disconnection_prevails(state: AppState, events: Seq<(CanReport, u64)>)
    ensures
        last_can_reason(events) matches Some(reason) ==> {
            &&& state.servo_can.attached ==> {
                let link = state.servo_can_drained(events).servo_can;
                !link.attached && !link.connected && link.status == reason && link.log.last()
                    == reason
            }
            &&& state.mit.attached ==> {
                let after = state.mit_drained(events);
                !after.mit.attached && !after.mit.connected && after.mit.status == reason
                    && after.mit.log.last() == reason && !after.mit_control_enabled
            }
        },
        last_can_reason(events) is None ==> {
            &&& state.servo_can_drained(events).servo_can.attached == state.servo_can.attached
            &&& state.mit_drained(events).mit.attached == state.mit.attached
        },
{
    lemma_can_reports_keep_attached(state, events);
}

proof fn lemma_serial_reports_concat(
    state: AppState,
    first: Seq<(Report, u64)>,
    second: Seq<(Report, u64)>,
)
    ensures
        state.serial_reports(first + second) == state.serial_reports(first).serial_reports(second),
        last_reason(second) is None ==> last_reason(first + second) == last_reason(first),
        last_reason(second) is Some ==> last_reason(first + second) == last_reason(second),
    decreases second.len(),
{
    if second.len() == 0 {
        assert(first + second =~= first);
    } else {
        lemma_serial_reports_concat(state, first, second.drop_last());
        assert((first + second).drop_last() =~= first + second.drop_last());
        assert((first + second).last() == second.last());
    }
}

/// As long as the connection lasts, it does not matter how often the reports are taken in.
pub proof fn lemma_drains_can_be_split(
    state: AppState,
    first: Seq<(Report, u64)>,
    second: Seq<(Report, u64)>,
)
    requires
        last_reason(first) is None,
    ensures
        state.serial_drained(first + second) == state.serial_drained(first).serial_drained(second),
{
    lemma_serial_reports_concat(state, first, second);
    lemma_reports_keep_attached(state, first);
}

proof fn lemma_can_reports_concat(
    state: AppState,
    first: Seq<(CanReport, u64)>,
    second: Seq<(CanReport, u64)>,
)
    ensures
        state.servo_can_reports(first + second) == state.servo_can_reports(
            first,
        ).servo_can_reports(second),
        state.mit_reports(first + second) == state.mit_reports(first).mit_reports(second),
        last_can_reason(second) is None ==> last_can_reason(first + second) == last_can_reason(
            first,
        ),
        last_can_reason(second) is Some ==> last_can_reason(first + second) == last_can_reason(
            second,
        ),
    decreases second.len(),
{
    if second.len() == 0 {
        assert(first + second =~= first);
    } else {
        lemma_can_reports_concat(state, first, second.drop_last());
        assert((first + second).drop_last() =~= first + second.drop_last());
        assert((first + second).last() == second.last());
    }
}

/// The same for the two CAN connections.
pub proof fn lemma_can_drains_can_be_split(
    state: AppState,
    first: Seq<(CanReport, u64)>,
    second: Seq<(CanReport, u64)>,
)
    requires
        last_can_reason(first) is None,
    ensures
        state.servo_can_drained(first + second) == state.servo_can_drained(
            first,
        ).servo_can_drained(second),
        state.mit_drained(first + second) == state.mit_drained(first).mit_drained(second),
{
    lemma_can_reports_concat(state, first, second);
    lemma_can_reports_keep_attached(state, first);
}

/// More than an interval has passed, whatever the two times are: what decides is their difference
/// alone. A request is due exactly when, with the connection up, serial selected and live telemetry
/// on, more than a tenth of a second has passed since the last one; the next command of an MIT
/// stream exactly when, with the connection up, control enabled and the stream on, more than a
/// fiftieth has.
pub proof fn lemma_timers_go_by_the_difference(
    state: AppState,
    now: u64,
    since: u64,
    interval: u64,
    later: u64,
)
    ensures
        since + interval < now ==> overdue(since, now, interval),
        since + interval >= now ==> !overdue(since, now, interval),
        since + later <= u64::MAX && now + later <= u64::MAX ==> overdue(
            (since + later) as u64,
            (now + later) as u64,
            interval,
        ) == overdue(since, now, interval),
        state.serial.connected && state.servo_transport is Serial && state.poll_live && now
            - state.last_poll_sent > 100_000_000 ==> state.poll_due(now),
        state.poll_due(now) ==> state.serial.connected && state.servo_transport is Serial
            && state.poll_live && now - state.last_poll_sent > 100_000_000,
        state.mit.connected && state.mit_control_enabled && state.mit_send_stream && now
            - state.mit_last_stream_sent > 20_000_000 ==> state.stream_due(now),
        state.stream_due(now) ==> state.mit.connected && state.mit_control_enabled
            && state.mit_send_stream && now - state.mit_last_stream_sent > 20_000_000,
        POLL_INTERVAL_NS == 100_000_000,
        STREAM_INTERVAL_NS == 20_000_000,
{
}

/// The controls that have a CAN command, one by one.
pub proof fn lemma_controls_over_can()
    ensures
        has_can_command(ControlTab::Duty),
        has_can_command(ControlTab::Current),
        has_can_command(ControlTab::Brake),
        has_can_command(ControlTab::Velocity),
        has_can_command(ControlTab::Position),
        has_can_command(ControlTab::PosVelocity),
        !has_can_command(ControlTab::Handbrake),
        !has_can_command(ControlTab::LoopMode),
        has_can_command(ControlTab::Origin),
{
}

/// Every command's serial payload begins with the command's own identifier and gives back the
/// numbers that the command was made with, whatever they are.
pub proof fn lemma_serial_payload_tells_the_command(command: ServoCommand)
    ensures
        ({
            let p = command.serial_payload();
            &&& command matches ServoCommand::Duty(v) ==> p.len() == 5 && p[0] == 5 && i32_at(p, 1)
                == v
            &&& command matches ServoCommand::Current(v) ==> p.len() == 5 && p[0] == 6 && i32_at(
                p,
                1,
            ) == v
            &&& command matches ServoCommand::Brake(v) ==> p.len() == 5 && p[0] == 7 && i32_at(p, 1)
                == v
            &&& command matches ServoCommand::Velocity(v) ==> p.len() == 5 && p[0] == 8 && i32_at(
                p,
                1,
            ) == v
            &&& command matches ServoCommand::Position { serial, .. } ==> p.len() == 5 && p[0] == 9
                && i32_at(p, 1) == serial
            &&& command matches ServoCommand::PosVelocity { serial, erpm, accel, .. } ==> p.len()
                == 13 && p[0] == 91 && i32_at(p, 1) == serial && i32_at(p, 5) == erpm && i32_at(
                p,
                9,
            ) == accel
            &&& command matches ServoCommand::Handbrake(v) ==> p.len() == 5 && p[0] == 10 && i32_at(
                p,
                1,
            ) == v
            &&& command is MultiLoop ==> p.len() == 5 && p[0] == 92 && i32_at(p, 1) == 0
            &&& command is SingleLoop ==> p.len() == 5 && p[0] == 93 && i32_at(p, 1) == 0
            &&& command matches ServoCommand::Origin(permanent) ==> p.len() == 2 && p[0] == 95
                && p[1] == (if permanent {
                1u8
            } else {
                0u8
            })
        }),
{
    match command {
        ServoCommand::Duty(v) => lemma_value_payload_round_trip(CommId::SetDuty, v),
        ServoCommand::Current(v) => lemma_value_payload_round_trip(CommId::SetCurrent, v),
        ServoCommand::Brake(v) => lemma_value_payload_round_trip(CommId::SetCurrentBrake, v),
        ServoCommand::Velocity(v) => lemma_value_payload_round_trip(CommId::SetRpm, v),
        ServoCommand::Position { serial, .. } => lemma_value_payload_round_trip(
            CommId::SetPos,
            serial,
        ),
        ServoCommand::PosVelocity { serial, erpm, accel, .. } => lemma_pos_spd_payload_round_trip(
            serial,
            erpm,
            accel,
        ),
        ServoCommand::Handbrake(v) => lemma_value_payload_round_trip(CommId::SetHandbrake, v),
        ServoCommand::MultiLoop => lemma_value_payload_round_trip(CommId::SetPosMulti, 0),
        ServoCommand::SingleLoop => lemma_value_payload_round_trip(CommId::SetPosSingle, 0),
        ServoCommand::Origin(_) => {},
    }
}

/// Every command's CAN frame, where it has one, is addressed to the motor in the command's own
/// control mode and gives back the numbers that the command was made with, whatever they are.
pub proof fn lemma_can_frame_tells_the_command(command: ServoCommand, motor_id: u8)
    ensures
        command matches ServoCommand::Duty(v) ==> (command.can_frame(motor_id) matches Some((id, d))
            && id == motor_id && d.len() == 4 && i32_at(d, 0) == v),
        command matches ServoCommand::Current(v) ==> (command.can_frame(motor_id) matches Some(
            (id, d),
        ) && id == 0x100 + motor_id && d.len() == 4 && i32_at(d, 0) == v),
        command matches ServoCommand::Brake(v) ==> (command.can_frame(motor_id) matches Some((id, d))
            && id == 0x200 + motor_id && d.len() == 4 && i32_at(d, 0) == v),
        command matches ServoCommand::Velocity(v) ==> (command.can_frame(motor_id) matches Some(
            (id, d),
        ) && id == 0x300 + motor_id && d.len() == 4 && i32_at(d, 0) == v),
        command matches ServoCommand::Position { can, .. } ==> (command.can_frame(
            motor_id,
        ) matches Some((id, d)) && id == 0x400 + motor_id && d.len() == 4 && i32_at(d, 0) == can),
        command matches ServoCommand::PosVelocity { can, erpm, accel, .. } ==> (command.can_frame(
            motor_id,
        ) matches Some((id, d)) && id == 0x600 + motor_id && d.len() == 8 && i32_at(d, 0) == can
            && i16_at(d, 4) == servo_can::wire_i16(erpm) && i16_at(d, 6) == servo_can::wire_i16(
            accel,
        )),
        command is Handbrake || command is MultiLoop || command is SingleLoop ==> command.can_frame(
            motor_id,
        ) is None,
        command matches ServoCommand::Origin(permanent) ==> (command.can_frame(
            motor_id,
        ) matches Some((id, d)) && id == 0x500 + motor_id && d.len() == 1 && d[0] == (if permanent {
            1u8
        } else {
            0u8
        })),
{
    match command {
        ServoCommand::Duty(v) => servo_can::lemma_i32_data_round_trip(v),
        ServoCommand::Current(v) => servo_can::lemma_i32_data_round_trip(v),
        ServoCommand::Brake(v) => servo_can::lemma_i32_data_round_trip(v),
        ServoCommand::Velocity(v) => servo_can::lemma_i32_data_round_trip(v),
        ServoCommand::Position { can, .. } => servo_can::lemma_i32_data_round_trip(can),
        ServoCommand::PosVelocity { can, erpm, accel, .. } => {
            let empty = Seq::<u8>::empty();
            let d = servo_can::pos_spd_data(can, erpm, accel);
            let (p, s, a) = (
                i32_wire(can),
                i16_wire(servo_can::wire_i16(erpm)),
                i16_wire(servo_can::wire_i16(accel)),
            );
            servo_can::lemma_pos_spd_data_round_trip(can, erpm, accel, false);
            lemma_i16_round_trip(p, servo_can::wire_i16(erpm), a);
            lemma_i16_round_trip(p + s, servo_can::wire_i16(accel), empty);
            assert(p + s + a =~= d);
            assert(p + s + a + empty =~= d);
        },
        _ => {},
    }
}

/// What goes out: a frame goes to the worker of its connection as it was given, if there is a worker,
/// and otherwise nothing goes out and the status says so. Nothing else changes.
pub proof fn lemma_what_goes_out(state: AppState, bytes: Seq<u8>, id: int)
    ensures
        state.serial.attached ==> state.serial_sent(bytes) == (state, Message::SerialFrame(bytes)),
        !state.serial.attached ==> state.serial_sent(bytes) == (
            AppState {
                serial: LinkState { status: "Not connected"@, ..state.serial },
                ..state
            },
            Message::Nothing,
        ),
        state.servo_can.attached ==> state.servo_can_sent(id, bytes) == (
            state,
            Message::ExtendedFrame(id, bytes),
        ),
        !state.servo_can.attached ==> state.servo_can_sent(id, bytes) == (
            AppState {
                servo_can: LinkState { status: "Not connected"@, ..state.servo_can },
                ..state
            },
            Message::Nothing,
        ),
        state.mit.attached ==> state.mit_sent(bytes) == (
            state,
            Message::StandardFrame(state.mit_can_id as int, bytes),
        ),
        !state.mit.attached ==> state.mit_sent(bytes) == (
            AppState { mit: LinkState { status: "Not connected"@, ..state.mit }, ..state },
            Message::Nothing,
        ),
{
}

/// A command is what it would be to send its frame over the selected transport; over CAN, one
/// without a CAN frame is nothing. Of two forms that are handed over, the selected transport's is
/// sent.
pub proof fn lemma_commands_are_sends(
    state: AppState,
    command: ServoCommand,
    frame: Seq<u8>,
    can: (int, Seq<u8>),
)
    ensures
        state.servo_transport is Serial ==> state.commanded(command) == state.serial_sent(
            frame_of(command.serial_payload()),
        ),
        state.servo_transport is Can ==> (command.can_frame(state.servo_can_motor_id) matches Some(
            (id, data),
        ) ==> state.commanded(command) == state.servo_can_sent(id, data)),
        state.servo_transport is Can && command.can_frame(state.servo_can_motor_id) is None
            ==> state.commanded(command) == (state, Message::Nothing),
        state.servo_transport is Serial ==> state.dispatched(frame, can) == state.serial_sent(frame),
        state.servo_transport is Can ==> state.dispatched(frame, can) == state.servo_can_sent(
            can.0,
            can.1,
        ),
{
}

/// Stopping sends what a brake command without current sends, and of the state changes what that
/// command changes and the four inputs, which become zero.
pub proof fn lemma_stop_is_a_brake(state: AppState)
    ensures
        ({
            let (braked, message) = state.commanded(ServoCommand::Brake(0));
            let zero = Single { bits: 0 };
            state.servo_stopped() == (
                AppState { duty: zero, current_a: zero, brake_a: zero, rpm: zero, ..braked },
                message,
            )
        }),
{
}

/// The list of ports becomes the one that was found. A port that was selected stays selected; if
/// there was none, the first one found is. Nothing else changes.
pub proof fn lemma_ports_are_taken_over(state: AppState, found: Seq<Seq<char>>)
    ensures
        ({
            let after = state.with_ports(found);
            &&& after.ports == found
            &&& state.selected_port is Some ==> after.selected_port == state.selected_port
            &&& state.selected_port is None && found.len() == 0 ==> after.selected_port is None
            &&& state.selected_port is None && found.len() > 0 ==> after.selected_port == Some(
                found[0],
            )
            &&& after == (AppState {
                ports: after.ports,
                selected_port: after.selected_port,
                ..state
            })
        }),
{
}

/// The last reason is that of the last disconnection: adding one makes it the last, and adding any
/// other report changes nothing.
pub proof fn lemma_last_reason_is_the_last(
    events: Seq<(Report, u64)>,
    can_events: Seq<(CanReport, u64)>,
    report: Report,
    can_report: CanReport,
    at: u64,
)
    ensures
        last_reason(Seq::empty()) is None,
        report matches Report::Disconnected(r) ==> last_reason(events.push((report, at))) == Some(r),
        !(report is Disconnected) ==> last_reason(events.push((report, at))) == last_reason(events),
        last_can_reason(Seq::empty()) is None,
        can_report matches CanReport::Disconnected(r) ==> last_can_reason(
            can_events.push((can_report, at)),
        ) == Some(r),
        !(can_report is Disconnected) ==> last_can_reason(can_events.push((can_report, at)))
            == last_can_reason(can_events),
{
    assert(events.push((report, at)).drop_last() =~= events);
    assert(can_events.push((can_report, at)).drop_last() =~= can_events);
}

/// What one more report of the serial worker does: it connects, shows values with their time of
/// arrival, or adds a line to the log, and changes nothing else.
pub proof fn lemma_one_more_serial_report(
    state: AppState,
    events: Seq<(Report, u64)>,
    report: Report,
    at: u64,
)
    ensures
        state.serial_reports(Seq::empty()) == state,
        ({
            let before = state.serial_reports(events);
            let after = state.serial_reports(events.push((report, at)));
            &&& report is Connected ==> after == (AppState {
                serial: LinkState { connected: true, status: "Connected"@, ..before.serial },
                ..before
            })
            &&& report is Disconnected ==> after == before
            &&& report matches Report::Values(v) ==> after == (AppState {
                values: Some(v),
                last_values_at: Some(at),
                ..before
            })
            &&& report matches Report::Log(line) ==> after == (AppState {
                serial: LinkState { log: logged(before.serial.log, line), ..before.serial },
                ..before
            })
        }),
{
    assert(events.push((report, at)).drop_last() =~= events);
}

/// The same for the servo-mode CAN worker, which shows telemetry and passes over MIT feedback.
pub proof fn lemma_one_more_servo_can_report(
    state: AppState,
    events: Seq<(CanReport, u64)>,
    report: CanReport,
    at: u64,
)
    ensures
        state.servo_can_reports(Seq::empty()) == state,
        ({
            let before = state.servo_can_reports(events);
            let after = state.servo_can_reports(events.push((report, at)));
            &&& report is Connected ==> after == (AppState {
                servo_can: LinkState { connected: true, status: "Connected"@, ..before.servo_can },
                ..before
            })
            &&& report is Disconnected || report is MitFeedback ==> after == before
            &&& report matches CanReport::ServoValues(v) ==> after == (AppState {
                servo_can_values: Some(v),
                servo_can_last_values_at: Some(at),
                ..before
            })
            &&& report matches CanReport::Log(line) ==> after == (AppState {
                servo_can: LinkState {
                    log: logged(before.servo_can.log, line),
                    ..before.servo_can
                },
                ..before
            })
        }),
{
    assert(events.push((report, at)).drop_last() =~= events);
}

/// The same for the MIT-mode worker, which shows feedback and passes over servo telemetry.
pub proof fn lemma_one_more_mit_report(
    state: AppState,
    events: Seq<(CanReport, u64)>,
    report: CanReport,
    at: u64,
)
    ensures
        state.mit_reports(Seq::empty()) == state,
        ({
            let before = state.mit_reports(events);
            let after = state.mit_reports(events.push((report, at)));
            &&& report is Connected ==> after == (AppState {
                mit: LinkState { connected: true, status: "Connected"@, ..before.mit },
                ..before
            })
            &&& report is Disconnected || report is ServoValues ==> after == before
            &&& report matches CanReport::MitFeedback(f) ==> after == (AppState {
                mit_feedback: Some(f),
                mit_last_feedback_at: Some(at),
                ..before
            })
            &&& report matches CanReport::Log(line) ==> after == (AppState {
                mit: LinkState { log: logged(before.mit.log, line), ..before.mit },
                ..before
            })
        }),
{
    assert(events.push((report, at)).drop_last() =~= events);
}

/// Draining is taking in all the reports and then, if one of them was a disconnection, giving the
/// connection up with the last reason as its status and its newest log line; without a worker it is
/// nothing. MIT control is disabled with the connection.
pub proof fn lemma_draining(
    state: AppState,
    events: Seq<(Report, u64)>,
    can_events: Seq<(CanReport, u64)>,
)
    ensures
        !state.serial.attached ==> state.serial_drained(events) == state,
        !state.servo_can.attached ==> state.servo_can_drained(can_events) == state,
        !state.mit.attached ==> state.mit_drained(can_events) == state,
        state.serial.attached && last_reason(events) is None ==> state.serial_drained(events)
            == state.serial_reports(events),
        state.servo_can.attached && last_can_reason(can_events) is None ==> state.servo_can_drained(
            can_events,
        ) == state.servo_can_reports(can_events),
        state.mit.attached && last_can_reason(can_events) is None ==> state.mit_drained(can_events)
            == state.mit_reports(can_events),
        state.serial.attached ==> (last_reason(events) matches Some(reason) ==> {
            let all = state.serial_reports(events);
            state.serial_drained(events) == (AppState {
                serial: LinkState {
                    attached: false,
                    connected: false,
                    status: reason,
                    log: logged(all.serial.log, reason),
                },
                ..all
            })
        }),
        state.servo_can.attached ==> (last_can_reason(can_events) matches Some(reason) ==> {
            let all = state.servo_can_reports(can_events);
            state.servo_can_drained(can_events) == (AppState {
                servo_can: LinkState {
                    attached: false,
                    connected: false,
                    status: reason,
                    log: logged(all.servo_can.log, reason),
                },
                ..all
            })
        }),
        state.mit.attached ==> (last_can_reason(can_events) matches Some(reason) ==> {
            let all = state.mit_reports(can_events);
            state.mit_drained(can_events) == (AppState {
                mit: LinkState {
                    attached: false,
                    connected: false,
                    status: reason,
                    log: logged(all.mit.log, reason),
                },
                mit_control_enabled: false,
                ..all
            })
        }),
{
}

/// The start: servo mode over serial at 921600 baud with live telemetry, motor 1 of the first model,
/// interface can0, every connection idle, nothing received, and every input zero but the speed and
/// acceleration of a position-velocity command.
pub proof fn lemma_start(now: u64)
    ensures
        ({
            let s = AppState::initial(now);
            let zero = Single { bits: 0 };
            &&& s.mode is Servo && s.servo_transport is Serial && s.mit_transport is Can
            &&& s.tab is Velocity
            &&& s.ports.len() == 0 && s.selected_port is None && s.baud == 921_600
            &&& s.serial == LinkState::idle() && s.servo_can == LinkState::idle()
            &&& s.mit == LinkState::idle()
            &&& s.values is None && s.servo_can_values is None && s.mit_feedback is None
            &&& s.last_values_at is None && s.servo_can_last_values_at is None
            &&& s.mit_last_feedback_at is None
            &&& s.poll_live && !s.mit_send_stream && !s.mit_control_enabled && !s.origin_permanent
            &&& s.last_poll_sent == now && s.mit_last_stream_sent == now
            &&& s.servo_can_iface == "can0"@ && s.can_iface == "can0"@
            &&& s.servo_can_motor_id == 1 && s.mit_can_id == 1 && s.motor_preset == 0
            &&& s.pos_spd_erpm == 5000 && s.pos_spd_accel == 30000
            &&& s.duty == zero && s.current_a == zero && s.brake_a == zero && s.rpm == zero
            &&& s.pos_deg == zero && s.pos_spd_deg == zero && s.handbrake_a == zero
            &&& s.mit_target_pos_rad == zero && s.mit_target_vel_rad_s == zero
            &&& s.mit_kp == zero && s.mit_kd == zero && s.mit_torque_nm == zero
        }),
{
}

/// The view of the state hides nothing: it has every field, texts by their characters.
pub proof fn lemma_app_view(app: MotorApp, i: int)
    ensures
        app@.mode == app.mode,
        app@.servo_transport == app.servo_transport,
        app@.baud == app.baud,
        app@.values == app.values,
        app@.last_values_at == app.last_values_at,
        app@.poll_live == app.poll_live,
        app@.last_poll_sent == app.last_poll_sent,
        app@.servo_can_motor_id == app.servo_can_motor_id,
        app@.servo_can_values == app.servo_can_values,
        app@.servo_can_last_values_at == app.servo_can_last_values_at,
        app@.tab == app.tab,
        app@.duty == app.duty,
        app@.current_a == app.current_a,
        app@.brake_a == app.brake_a,
        app@.rpm == app.rpm,
        app@.pos_deg == app.pos_deg,
        app@.pos_spd_deg == app.pos_spd_deg,
        app@.pos_spd_erpm == app.pos_spd_erpm,
        app@.pos_spd_accel == app.pos_spd_accel,
        app@.handbrake_a == app.handbrake_a,
        app@.origin_permanent == app.origin_permanent,
        app@.mit_transport == app.mit_transport,
        app@.mit_can_id == app.mit_can_id,
        app@.motor_preset == app.motor_preset,
        app@.mit_control_enabled == app.mit_control_enabled,
        app@.mit_target_pos_rad == app.mit_target_pos_rad,
        app@.mit_target_vel_rad_s == app.mit_target_vel_rad_s,
        app@.mit_kp == app.mit_kp,
        app@.mit_kd == app.mit_kd,
        app@.mit_torque_nm == app.mit_torque_nm,
        app@.mit_feedback == app.mit_feedback,
        app@.mit_last_feedback_at == app.mit_last_feedback_at,
        app@.mit_send_stream == app.mit_send_stream,
        app@.mit_last_stream_sent == app.mit_last_stream_sent,
        app@.serial == app.serial@,
        app@.servo_can == app.servo_can@,
        app@.mit == app.mit@,
        app@.servo_can_iface == app.servo_can_iface@,
        app@.can_iface == app.can_iface@,
        app.selected_port is None ==> app@.selected_port is None,
        app.selected_port matches Some(port) ==> app@.selected_port == Some(port@),
        app@.ports.len() == app.ports@.len(),
        0 <= i < app.ports@.len() ==> app@.ports[i] == app.ports@[i]@,
{
}

/// The views of messages and of timed reports hide nothing: kind, identifier, bytes and time are
/// those of the message or report.
pub proof fn lemma_message_views(
    to_serial: ToWorker,
    to_can: ToCanWorker,
    list: Seq<ToCanWorker>,
    events: Seq<(FromWorker, u64)>,
    can_events: Seq<(FromCanWorker, u64)>,
    i: int,
)
    ensures
        to_serial matches ToWorker::Send(b) ==> to_serial@ == Message::SerialFrame(b@),
        to_serial is Disconnect ==> to_serial@ is SerialDisconnect,
        to_can matches ToCanWorker::SendStd(id, d) ==> to_can@ == Message::StandardFrame(
            id as int,
            d@,
        ),
        to_can matches ToCanWorker::SendExt(id, d) ==> to_can@ == Message::ExtendedFrame(
            id as int,
            d@,
        ),
        to_can is Disconnect ==> to_can@ is CanDisconnect,
        Outgoing::Nothing@ is Nothing,
        Outgoing::Serial(to_serial)@ == to_serial@,
        Outgoing::Can(to_can)@ == to_can@,
        serial_message(None) is Nothing,
        serial_message(Some(to_serial)) == to_serial@,
        can_message(None) is Nothing,
        can_message(Some(to_can)) == to_can@,
        can_messages(list).len() == list.len(),
        0 <= i < list.len() ==> can_messages(list)[i] == list[i]@,
        timed_reports(events).len() == events.len(),
        0 <= i < events.len() ==> timed_reports(events)[i] == (events[i].0@, events[i].1),
        timed_can_reports(can_events).len() == can_events.len(),
        0 <= i < can_events.len() ==> timed_can_reports(can_events)[i] == (
            can_events[i].0@,
            can_events[i].1,
        ),
{
}

/// What the questions to the state are answered with.
pub proof fn lemma_app_answers(
    app: &MotorApp,
    tab: ControlTab,
    yes: bool,
    limits: MotorLimits,
    shown: (bool, String),
    targets: MitTargets,
    now: u64,
)
    ensures
        call_ensures(tab_supports_can, (tab,), yes) ==> yes == (!(tab is Handbrake) && !(tab
            is LoopMode)),
        call_ensures(MotorApp::tab_available, (app,), yes) ==> yes == (app.servo_transport is Serial
            || (!(app.tab is Handbrake) && !(app.tab is LoopMode))),
        call_ensures(MotorApp::current_limits, (app,), limits) ==> limits == preset_of(
            app.motor_preset as int,
        ),
        call_ensures(MotorApp::servo_connection, (app,), shown) && app.servo_transport is Serial
            ==> shown.0 == app.serial.connected && shown.1@ == app.serial.status@,
        call_ensures(MotorApp::servo_connection, (app,), shown) && app.servo_transport is Can
            ==> shown.0 == app.servo_can.connected && shown.1@ == app.servo_can.status@,
        call_ensures(MotorApp::mit_targets, (app,), targets) ==> {
            &&& targets.position_rad == app.mit_target_pos_rad
            &&& targets.velocity_rad_s == app.mit_target_vel_rad_s
            &&& targets.kp == app.mit_kp
            &&& targets.kd == app.mit_kd
            &&& targets.torque_nm == app.mit_torque_nm
        },
        call_ensures(MotorApp::stream_is_due, (app, now), yes) ==> yes == (app.mit.connected
            && app.mit_control_enabled && app.mit_send_stream && now - app.mit_last_stream_sent
            > 20_000_000),
        call_ensures(MotorApp::any_connected, (app,), yes) ==> yes == (app.serial.connected
            || app.servo_can.connected || app.mit.connected),
{
}

/// What starting, connecting and disconnecting do: the selected port, interface and model are what
/// the worker gets, only the connection's own state changes, and a worker that is there is told of
/// a disconnection. MIT control ends with its connection.
pub proof fn lemma_app_connections(
    app: &mut MotorApp,
    new: MotorApp,
    now: u64,
    found: Option<Vec<String>>,
    target: Option<(String, u32)>,
    to_serial: Option<ToWorker>,
    to_can: Option<ToCanWorker>,
    worker: CanWorker,
)
    ensures
        call_ensures(MotorApp::initial, (now,), new) ==> new@ == AppState::initial(now),
        call_ensures(MotorApp::new, (now, found), new) && found is None ==> new@
            == AppState::initial(now).with_ports(Seq::empty()),
        call_ensures(MotorApp::new, (now, found), new) ==> (found matches Some(ports) ==> new@
            == AppState::initial(now).with_ports(lines(ports@))),
        call_ensures(MotorApp::refresh_ports, (app, found), ()) && found is None ==> final(app)@
            == old(app)@.with_ports(Seq::empty()),
        call_ensures(MotorApp::refresh_ports, (app, found), ()) ==> (found matches Some(ports)
            ==> final(app)@ == old(app)@.with_ports(lines(ports@))),
        call_ensures(MotorApp::serial_connect, (app,), target) && old(app)@.selected_port is None
            ==> target is None && final(app)@ == (AppState {
            serial: LinkState { status: "No port selected"@, ..old(app)@.serial },
            ..old(app)@
        }),
        call_ensures(MotorApp::serial_connect, (app,), target) ==> (
        old(app)@.selected_port matches Some(port) ==> (target matches Some((name, baud)) && name@
            == port && baud == old(app).baud && final(app)@ == (AppState {
            serial: LinkState { attached: true, status: "Connecting..."@, ..old(app)@.serial },
            ..old(app)@
        }))),
        call_ensures(MotorApp::serial_disconnect, (app,), to_serial) ==> {
            &&& old(app).serial.attached ==> serial_message(to_serial) is SerialDisconnect
            &&& !old(app).serial.attached ==> serial_message(to_serial) is Nothing
            &&& final(app)@ == (AppState {
                serial: LinkState {
                    attached: false,
                    connected: false,
                    status: "Not connected"@,
                    ..old(app)@.serial
                },
                ..old(app)@
            })
        },
        call_ensures(MotorApp::servo_can_connect, (app,), worker) ==> {
            &&& worker.iface@ == old(app).servo_can_iface@
            &&& worker.protocol is ServoCan
            &&& final(app)@ == (AppState {
                servo_can: LinkState {
                    attached: true,
                    status: "Connecting..."@,
                    ..old(app)@.servo_can
                },
                ..old(app)@
            })
        },
        call_ensures(MotorApp::servo_can_disconnect, (app,), to_can) ==> {
            &&& old(app).servo_can.attached ==> can_message(to_can) is CanDisconnect
            &&& !old(app).servo_can.attached ==> can_message(to_can) is Nothing
            &&& final(app)@ == (AppState {
                servo_can: LinkState {
                    attached: false,
                    connected: false,
                    status: "Not connected"@,
                    ..old(app)@.servo_can
                },
                ..old(app)@
            })
        },
        call_ensures(MotorApp::mit_connect, (app,), worker) ==> {
            &&& worker.iface@ == old(app).can_iface@
            &&& worker.protocol == CanProtocol::Mit(preset_of(old(app).motor_preset as int))
            &&& final(app)@ == (AppState {
                mit: LinkState { attached: true, status: "Connecting..."@, ..old(app)@.mit },
                ..old(app)@
            })
        },
        call_ensures(MotorApp::mit_disconnect, (app,), to_can) ==> {
            &&& old(app).mit.attached ==> can_message(to_can) is CanDisconnect
            &&& !old(app).mit.attached ==> can_message(to_can) is Nothing
            &&& final(app)@ == (AppState {
                mit: LinkState {
                    attached: false,
                    connected: false,
                    status: "Not connected"@,
                    ..old(app)@.mit
                },
                mit_control_enabled: false,
                ..old(app)@
            })
        },
{
}

/// What the servo-mode operations do. A poll that is due sends a request for values and remembers
/// the time; one that is not due does nothing.
pub proof fn lemma_app_servo_operations(
    app: &mut MotorApp,
    frame: Vec<u8>,
    id: u32,
    text: &str,
    command: ServoCommand,
    now: u64,
    to_serial: Option<ToWorker>,
    to_can: Option<ToCanWorker>,
    out: Outgoing,
)
    ensures
        call_ensures(MotorApp::serial_send, (app, frame), to_serial) ==> (
            final(app)@,
            serial_message(to_serial),
        ) == old(app)@.serial_sent(frame@),
        call_ensures(MotorApp::servo_can_send, (app, id, frame), to_can) ==> (
            final(app)@,
            can_message(to_can),
        ) == old(app)@.servo_can_sent(id as int, frame@),
        call_ensures(MotorApp::servo_command, (app, command), out) ==> (final(app)@, out@) == old(
            app,
        )@.commanded(command),
        call_ensures(MotorApp::servo_stop, (app,), out) ==> (final(app)@, out@) == old(
            app,
        )@.servo_stopped(),
        call_ensures(MotorApp::request_values, (app,), to_serial) ==> (
            final(app)@,
            serial_message(to_serial),
        ) == old(app)@.serial_sent(frame_of(seq![4u8])),
        call_ensures(MotorApp::debug_command, (app, text), to_serial) ==> (
            final(app)@,
            serial_message(to_serial),
        ) == old(app)@.serial_sent(frame_of(protocol::terminal_payload(text@))),
        call_ensures(MotorApp::poll, (app, now), to_serial) ==> {
            let due = old(app).serial.connected && old(app).servo_transport is Serial && old(
                app,
            ).poll_live && now - old(app).last_poll_sent > 100_000_000;
            let (sent, message) = old(app)@.serial_sent(frame_of(seq![4u8]));
            &&& due ==> serial_message(to_serial) == message && final(app)@ == (AppState {
                last_poll_sent: now,
                ..sent
            })
            &&& !due ==> serial_message(to_serial) is Nothing && final(app)@ == old(app)@
        },
{
}

/// Of a command in two forms, the selected transport's goes out.
pub proof fn lemma_app_dispatch(
    app: &mut MotorApp,
    frame: Vec<u8>,
    can_frame: (u32, Vec<u8>),
    out: Outgoing,
)
    ensures
        call_ensures(MotorApp::servo_dispatch, (app, frame, can_frame), out) && old(
            app,
        ).servo_transport is Serial ==> (final(app)@, out@) == old(app)@.serial_sent(frame@),
        call_ensures(MotorApp::servo_dispatch, (app, frame, can_frame), out) && old(
            app,
        ).servo_transport is Can ==> (final(app)@, out@) == old(app)@.servo_can_sent(
            can_frame.0 as int,
            can_frame.1@,
        ),
{
}

/// What the MIT-mode operations do: mode switches go out and set whether control is enabled,
/// commands go out packed, a stream that is due sends one and remembers the time. A stop clears
/// velocity, torque and position gain, keeps the position, damps by at least one half, and sends the
/// command and then the switch out of motor mode.
pub proof fn lemma_app_mit_operations(
    app: &mut MotorApp,
    data: [u8; 8],
    codes: &MitCodes,
    now: u64,
    targets: MitTargets,
    out: Option<ToCanWorker>,
    list: Vec<ToCanWorker>,
)
    ensures
        call_ensures(MotorApp::mit_send, (app, data), out) ==> (final(app)@, can_message(out))
            == old(app)@.mit_sent(data@),
        call_ensures(MotorApp::mit_enable, (app,), out) ==> {
            let (sent, message) = old(app)@.mit_sent(ENTER_MOTOR_MODE@);
            can_message(out) == message && final(app)@ == (AppState {
                mit_control_enabled: true,
                ..sent
            })
        },
        call_ensures(MotorApp::mit_disable, (app,), out) ==> {
            let (sent, message) = old(app)@.mit_sent(EXIT_MOTOR_MODE@);
            can_message(out) == message && final(app)@ == (AppState {
                mit_control_enabled: false,
                ..sent
            })
        },
        call_ensures(MotorApp::mit_set_zero, (app,), out) ==> (final(app)@, can_message(out))
            == old(app)@.mit_sent(SET_ZERO_POSITION@),
        call_ensures(MotorApp::mit_send_command, (app, codes), out) ==> (
            final(app)@,
            can_message(out),
        ) == old(app)@.mit_sent(packed(*codes)),
        call_ensures(MotorApp::stream, (app, codes, now), out) ==> {
            let due = old(app).mit.connected && old(app).mit_control_enabled && old(
                app,
            ).mit_send_stream && now - old(app).mit_last_stream_sent > 20_000_000;
            let (sent, message) = old(app)@.mit_sent(packed(*codes));
            &&& due ==> can_message(out) == message && final(app)@ == (AppState {
                mit_last_stream_sent: now,
                ..sent
            })
            &&& !due ==> can_message(out) is Nothing && final(app)@ == old(app)@
        },
        call_ensures(MotorApp::mit_stop_targets, (app,), targets) ==> {
            let zero = Single { bits: 0 };
            &&& targets.position_rad == old(app).mit_target_pos_rad
            &&& targets.velocity_rad_s == zero && targets.kp == zero && targets.torque_nm == zero
            &&& targets.kd == old(app).mit_kd.at_least_half_spec()
            &&& final(app)@ == (AppState {
                mit_target_vel_rad_s: zero,
                mit_torque_nm: zero,
                mit_kp: zero,
                ..old(app)@
            })
        },
        call_ensures(MotorApp::mit_stop, (app, codes), list) && old(app).mit.attached ==> {
            &&& list@.len() == 2
            &&& list@[0]@ == Message::StandardFrame(old(app).mit_can_id as int, packed(*codes))
            &&& list@[1]@ == Message::StandardFrame(old(app).mit_can_id as int, EXIT_MOTOR_MODE@)
            &&& final(app)@ == (AppState { mit_control_enabled: false, ..old(app)@ })
        },
        call_ensures(MotorApp::mit_stop, (app, codes), list) && !old(app).mit.attached ==> {
            &&& list@.len() == 0
            &&& final(app)@ == (AppState {
                mit: LinkState { status: "Not connected"@, ..old(app)@.mit },
                mit_control_enabled: false,
                ..old(app)@
            })
        },
{
    if call_ensures(MotorApp::mit_stop, (app, codes), list) {
        assert(can_messages(list@).len() == list@.len());
        if list@.len() == 2 {
            assert(can_messages(list@)[0] == list@[0]@ && can_messages(list@)[1] == list@[1]@);
        }
    }
}

/// What taking in the workers' reports does.
pub proof fn lemma_app_drains(
    app: &mut MotorApp,
    events: Vec<(FromWorker, u64)>,
    can_events: Vec<(FromCanWorker, u64)>,
)
    ensures
        call_ensures(MotorApp::drain_serial_events, (app, events), ()) ==> final(app)@ == old(
            app,
        )@.serial_drained(timed_reports(events@)),
        call_ensures(MotorApp::drain_servo_can_events, (app, can_events), ()) ==> final(app)@
            == old(app)@.servo_can_drained(timed_can_reports(can_events@)),
        call_ensures(MotorApp::drain_mit_events, (app, can_events), ()) ==> final(app)@ == old(
            app,
        )@.mit_drained(timed_can_reports(can_events@)),
{
}

} // verus!
