//! The application's state: connections, commands, timers and reports.

use ak_motor::app::{
    tab_supports_can, ControlTab, MitTransport, Mode, MotorApp, Outgoing, ServoCommand,
    ServoTransport, POLL_INTERVAL_NS, STREAM_INTERVAL_NS,
};
use ak_motor::can_worker::{
    CanAction, CanId, CanInput, CanProtocol, FromCanWorker, ToCanWorker,
};
use ak_motor::framing::encode_frame;
use ak_motor::link::{push_capped, Link, LOG_CAPACITY};
use ak_motor::mit_protocol::{
    motor_preset, pack_cmd, unpack_reply, MitCodes, MitFeedback, ENTER_MOTOR_MODE,
    EXIT_MOTOR_MODE, SET_ZERO_POSITION,
};
use ak_motor::protocol::{self, FrameParser, MotorValues};
use ak_motor::serial_worker::{FromWorker, SerialInput, SerialWorker, ToWorker};
use ak_motor::servo_can::{self, ServoCanValues};
use ak_motor::single::Single;

fn number(value: f32) -> Single {
    Single { bits: value.to_bits() }
}

fn two_ports() -> Option<Vec<String>> {
    Some(vec!["ttyA".to_string(), "ttyB".to_string()])
}

/// An application with a serial connection.
fn serial_app() -> MotorApp {
    let mut app = MotorApp::new(0, two_ports());
    app.serial_connect();
    app.drain_serial_events(vec![(FromWorker::Connected, 1)]);
    app
}

/// An application with a servo-mode CAN connection.
fn can_app() -> MotorApp {
    let mut app = MotorApp::new(0, None);
    app.servo_transport = ServoTransport::Can;
    app.servo_can_connect();
    app.drain_servo_can_events(vec![(FromCanWorker::Connected, 1)]);
    app
}

/// An application with an MIT-mode connection.
fn mit_app() -> MotorApp {
    let mut app = MotorApp::new(0, None);
    app.mode = Mode::Mit;
    app.mit_connect();
    app.drain_mit_events(vec![(FromCanWorker::Connected, 1)]);
    app
}

fn some_codes() -> MitCodes {
    MitCodes { position: 1, velocity: 2, kp: 3, kd: 4, torque: 5 }
}

/// The frame of a serial message.
fn frame(message: Option<ToWorker>) -> Option<Vec<u8>> {
    match message {
        Some(ToWorker::Send(bytes)) => Some(bytes),
        _ => None,
    }
}

/// The frame of an MIT-mode message.
fn mit_frame(message: Option<ToCanWorker>) -> Option<(u16, [u8; 8])> {
    match message {
        Some(ToCanWorker::SendStd(id, data)) => Some((id, data)),
        _ => None,
    }
}

#[test]
fn the_application_starts_idle() {
    let app = MotorApp::new(7, two_ports());
    assert_eq!(app.mode, Mode::Servo);
    assert_eq!(app.servo_transport, ServoTransport::Serial);
    assert_eq!(app.mit_transport, MitTransport::Can);
    assert_eq!(app.tab, ControlTab::Velocity);
    assert_eq!(app.baud, 921_600);
    assert_eq!(app.ports, vec!["ttyA", "ttyB"]);
    assert_eq!(app.selected_port.as_deref(), Some("ttyA"));
    assert_eq!(app.serial.status, "Not connected");
    assert_eq!(app.servo_can_iface, "can0");
    assert_eq!(app.can_iface, "can0");
    assert_eq!((app.servo_can_motor_id, app.mit_can_id, app.motor_preset), (1, 1, 0));
    assert_eq!((app.pos_spd_erpm, app.pos_spd_accel), (5000, 30000));
    assert!(app.poll_live && !app.mit_send_stream && !app.mit_control_enabled);
    assert_eq!((app.last_poll_sent, app.mit_last_stream_sent), (7, 7));
    assert!(!app.any_connected());
}

#[test]
fn a_selected_port_stays_selected() {
    let mut app = MotorApp::new(0, None);
    assert!(app.ports.is_empty());
    assert_eq!(app.selected_port, None);
    app.refresh_ports(two_ports());
    assert_eq!(app.selected_port.as_deref(), Some("ttyA"));
    app.selected_port = Some("ttyB".to_string());
    app.refresh_ports(Some(vec!["ttyC".to_string()]));
    assert_eq!(app.selected_port.as_deref(), Some("ttyB"));
    assert_eq!(app.ports, vec!["ttyC"]);
    app.refresh_ports(None);
    assert!(app.ports.is_empty());
}

#[test]
fn connecting_needs_a_port() {
    let mut app = MotorApp::new(0, None);
    assert!(app.serial_connect().is_none());
    assert_eq!(app.serial.status, "No port selected");
    app.refresh_ports(two_ports());
    assert_eq!(app.serial_connect(), Some(("ttyA".to_string(), 921_600)));
    assert_eq!(app.serial.status, "Connecting...");
    assert!(!app.serial.connected);
}

#[test]
fn a_serial_connection_comes_and_goes() {
    let mut app = serial_app();
    assert!(app.serial.connected && app.any_connected());
    assert_eq!(app.serial.status, "Connected");
    assert_eq!(app.servo_connection(), (true, "Connected".to_string()));
    assert!(matches!(app.serial_disconnect(), Some(ToWorker::Disconnect)));
    assert_eq!(app.servo_connection(), (false, "Not connected".to_string()));
    assert!(app.serial_disconnect().is_none());
    assert!(app.serial_send(vec![1]).is_none());
}

#[test]
fn sending_without_a_worker_is_answered_by_the_status() {
    let mut app = MotorApp::new(0, two_ports());
    app.serial.status = "old".to_string();
    app.servo_can.status = "old".to_string();
    app.mit.status = "old".to_string();
    assert!(app.serial_send(vec![1]).is_none());
    assert!(app.servo_can_send(1, vec![1]).is_none());
    assert!(app.mit_send([0; 8]).is_none());
    assert_eq!(app.serial.status, "Not connected");
    assert_eq!(app.servo_can.status, "Not connected");
    assert_eq!(app.mit.status, "Not connected");
}

#[test]
fn serial_reports_are_taken_in() {
    let mut app = serial_app();
    let values = MotorValues { motor_id: 3, ..MotorValues::default() };
    app.drain_serial_events(vec![
        (FromWorker::Log("one".to_string()), 10),
        (FromWorker::Values(MotorValues::default()), 11),
        (FromWorker::Values(values), 12),
    ]);
    assert_eq!(app.values, Some(values));
    assert_eq!(app.last_values_at, Some(12));
    assert_eq!(app.serial.log, vec!["one"]);
}

#[test]
fn the_last_disconnection_prevails() {
    let mut app = serial_app();
    app.drain_serial_events(vec![
        (FromWorker::Disconnected("first".to_string()), 5),
        (FromWorker::Connected, 6),
        (FromWorker::Disconnected("last".to_string()), 7),
        (FromWorker::Log("line".to_string()), 8),
    ]);
    assert!(!app.serial.connected && !app.serial.attached);
    assert_eq!(app.serial.status, "last");
    assert_eq!(app.serial.log, vec!["line", "last"]);
    app.drain_serial_events(vec![(FromWorker::Connected, 9)]);
    assert!(!app.serial.connected);
}

#[test]
fn reports_can_be_taken_in_piece_by_piece() {
    let mut once = serial_app();
    once.drain_serial_events(vec![
        (FromWorker::Log("a".to_string()), 5),
        (FromWorker::Log("b".to_string()), 6),
        (FromWorker::Disconnected("c".to_string()), 7),
    ]);
    let mut twice = serial_app();
    twice.drain_serial_events(vec![(FromWorker::Log("a".to_string()), 5)]);
    twice.drain_serial_events(vec![
        (FromWorker::Log("b".to_string()), 6),
        (FromWorker::Disconnected("c".to_string()), 7),
    ]);
    assert_eq!(once.serial.log, twice.serial.log);
    assert_eq!(once.serial.status, twice.serial.status);
    assert_eq!(once.serial.log, vec!["a", "b", "c"]);
}

#[test]
fn a_servo_can_connection_comes_and_goes() {
    let mut app = MotorApp::new(0, None);
    app.servo_transport = ServoTransport::Can;
    app.servo_can_iface = "vcan3".to_string();
    let worker = app.servo_can_connect();
    assert_eq!(worker.iface, "vcan3");
    assert!(matches!(worker.protocol, CanProtocol::ServoCan));
    assert_eq!(app.servo_connection(), (false, "Connecting...".to_string()));
    let values = ServoCanValues { temperature_c: 50, ..ServoCanValues::default() };
    app.drain_servo_can_events(vec![
        (FromCanWorker::Connected, 1),
        (FromCanWorker::MitFeedback(MitFeedback::default()), 2),
        (FromCanWorker::ServoValues(values), 3),
        (FromCanWorker::Log("x".to_string()), 4),
    ]);
    assert_eq!(app.servo_connection(), (true, "Connected".to_string()));
    assert_eq!(app.servo_can_values, Some(values));
    assert_eq!(app.servo_can_last_values_at, Some(3));
    assert!(app.mit_feedback.is_none());
    assert!(matches!(app.servo_can_disconnect(), Some(ToCanWorker::Disconnect)));
    assert!(app.servo_can_disconnect().is_none());
    assert!(!app.servo_can.connected);
}

#[test]
fn a_lost_can_connection_is_given_up() {
    let mut app = can_app();
    app.drain_servo_can_events(vec![(FromCanWorker::Disconnected("down".to_string()), 2)]);
    assert!(!app.servo_can.connected && !app.servo_can.attached);
    assert_eq!(app.servo_can.status, "down");
    assert_eq!(app.servo_can.log, vec!["down"]);
    let mut app = mit_app();
    app.mit_enable();
    app.drain_mit_events(vec![(FromCanWorker::Disconnected("off".to_string()), 2)]);
    assert!(!app.mit.connected && !app.mit.attached && !app.mit_control_enabled);
    assert_eq!(app.mit.log, vec!["off"]);
}

#[test]
fn every_control_but_two_works_over_can() {
    let tabs = [
        (ControlTab::Duty, true),
        (ControlTab::Current, true),
        (ControlTab::Brake, true),
        (ControlTab::Velocity, true),
        (ControlTab::Position, true),
        (ControlTab::PosVelocity, true),
        (ControlTab::Handbrake, false),
        (ControlTab::LoopMode, false),
        (ControlTab::Origin, true),
    ];
    let mut app = MotorApp::new(0, None);
    for (tab, supported) in tabs {
        assert_eq!(tab_supports_can(tab), supported);
        app.tab = tab;
        app.servo_transport = ServoTransport::Can;
        assert_eq!(app.tab_available(), supported);
        app.servo_transport = ServoTransport::Serial;
        assert!(app.tab_available());
    }
}

/// All servo-mode commands, with their serial frames and, for motor 1, their CAN frames.
fn all_commands() -> Vec<(ServoCommand, Vec<u8>, Option<(u32, Vec<u8>)>)> {
    vec![
        (ServoCommand::Duty(7), protocol::set_duty(7), Some(servo_can::set_duty(1, 7))),
        (ServoCommand::Current(-7), protocol::set_current(-7), Some(servo_can::set_current(1, -7))),
        (
            ServoCommand::Brake(8),
            protocol::set_current_brake(8),
            Some(servo_can::set_current_brake(1, 8)),
        ),
        (ServoCommand::Velocity(9), protocol::set_rpm(9), Some(servo_can::set_rpm(1, 9))),
        (
            ServoCommand::Position { serial: 10, can: 11 },
            protocol::set_pos(10),
            Some(servo_can::set_pos(1, 11)),
        ),
        (
            ServoCommand::PosVelocity { serial: 12, can: 13, erpm: 140, accel: 150 },
            protocol::set_pos_spd(12, 140, 150),
            Some(servo_can::set_pos_spd(1, 13, 140, 150)),
        ),
        (ServoCommand::Handbrake(16), protocol::set_handbrake(16), None),
        (ServoCommand::MultiLoop, protocol::set_pos_multi_loop(), None),
        (ServoCommand::SingleLoop, protocol::set_pos_single_loop(), None),
        (
            ServoCommand::Origin(true),
            protocol::set_origin(true),
            Some(servo_can::set_origin(1, true)),
        ),
    ]
}

#[test]
fn commands_take_the_selected_transport() {
    let mut app = serial_app();
    app.servo_can_connect();
    for (command, serial, can) in all_commands() {
        app.servo_transport = ServoTransport::Serial;
        match app.servo_command(command) {
            Outgoing::Serial(ToWorker::Send(bytes)) => assert_eq!(bytes, serial),
            _ => panic!("no serial frame"),
        }
        app.servo_transport = ServoTransport::Can;
        match (app.servo_command(command), can) {
            (Outgoing::Can(ToCanWorker::SendExt(id, data)), Some(expected)) => {
                assert_eq!((id, data), expected);
            }
            (Outgoing::Nothing, None) => {}
            _ => panic!("wrong frame"),
        }
    }
}

#[test]
fn a_command_frame_parses_back_to_its_payload() {
    let mut app = serial_app();
    match app.servo_command(ServoCommand::Velocity(1000)) {
        Outgoing::Serial(ToWorker::Send(bytes)) => {
            let mut parser = FrameParser::new();
            parser.feed(&bytes);
            assert_eq!(parser.next_frame(), Some(vec![0x08, 0x00, 0x00, 0x03, 0xE8]));
            assert_eq!(parser.next_frame(), None);
        }
        _ => panic!("no serial frame"),
    }
}

#[test]
fn commands_without_a_worker_go_nowhere() {
    let mut app = MotorApp::new(0, two_ports());
    assert!(matches!(app.servo_command(ServoCommand::Duty(1)), Outgoing::Nothing));
    app.servo_transport = ServoTransport::Can;
    app.servo_can.status = "old".to_string();
    assert!(matches!(app.servo_command(ServoCommand::Handbrake(1)), Outgoing::Nothing));
    assert_eq!(app.servo_can.status, "old");
    assert!(matches!(app.servo_command(ServoCommand::Duty(1)), Outgoing::Nothing));
    assert_eq!(app.servo_can.status, "Not connected");
}

#[test]
fn stopping_brakes_and_clears_the_inputs() {
    let mut app = serial_app();
    app.duty = number(0.5);
    app.current_a = number(1.0);
    app.brake_a = number(2.0);
    app.rpm = number(3.0);
    app.pos_deg = number(4.0);
    match app.servo_stop() {
        Outgoing::Serial(ToWorker::Send(bytes)) => {
            assert_eq!(bytes, protocol::set_current_brake(0));
        }
        _ => panic!("no serial frame"),
    }
    assert_eq!(app.duty, number(0.0));
    assert_eq!(app.current_a, number(0.0));
    assert_eq!(app.brake_a, number(0.0));
    assert_eq!(app.rpm, number(0.0));
    assert_eq!(app.pos_deg, number(4.0));
    let mut app = can_app();
    app.servo_can_motor_id = 9;
    match app.servo_stop() {
        Outgoing::Can(ToCanWorker::SendExt(id, data)) => {
            assert_eq!((id, data), servo_can::set_current_brake(9, 0));
        }
        _ => panic!("no CAN frame"),
    }
}

#[test]
fn dispatch_takes_one_of_two_forms() {
    let mut app = serial_app();
    match app.servo_dispatch(vec![1], (2, vec![3])) {
        Outgoing::Serial(ToWorker::Send(bytes)) => assert_eq!(bytes, vec![1]),
        _ => panic!("no serial frame"),
    }
    let mut app = can_app();
    match app.servo_dispatch(vec![1], (2, vec![3])) {
        Outgoing::Can(ToCanWorker::SendExt(id, data)) => assert_eq!((id, data), (2, vec![3])),
        _ => panic!("no CAN frame"),
    }
}

#[test]
fn values_are_polled_at_intervals() {
    let mut app = serial_app();
    assert_eq!(frame(app.poll(POLL_INTERVAL_NS)), None);
    let first = POLL_INTERVAL_NS + 1;
    assert_eq!(frame(app.poll(first)), Some(protocol::get_values()));
    assert_eq!(app.last_poll_sent, first);
    assert_eq!(frame(app.poll(first + POLL_INTERVAL_NS)), None);
    assert_eq!(frame(app.poll(first - 1)), None);
    app.poll_live = false;
    assert_eq!(frame(app.poll(u64::MAX)), None);
    app.poll_live = true;
    app.servo_transport = ServoTransport::Can;
    assert_eq!(frame(app.poll(u64::MAX)), None);
    app.servo_transport = ServoTransport::Serial;
    assert_eq!(frame(app.poll(u64::MAX)), Some(protocol::get_values()));
    assert_eq!(frame(app.request_values()), Some(protocol::get_values()));
    let mut idle = MotorApp::new(0, two_ports());
    assert_eq!(frame(idle.poll(u64::MAX)), None);
}

#[test]
fn debug_commands_go_over_serial() {
    let mut app = serial_app();
    assert_eq!(frame(app.debug_command("calibrate")), Some(protocol::terminal_cmd("calibrate")));
    app.serial_disconnect();
    assert_eq!(frame(app.debug_command("exit")), None);
}

#[test]
fn an_mit_connection_uses_the_selected_model() {
    let mut app = MotorApp::new(0, None);
    app.motor_preset = 5;
    assert_eq!(app.current_limits().name, "AK80-64");
    let worker = app.mit_connect();
    assert_eq!(worker.iface, "can0");
    match worker.protocol {
        CanProtocol::Mit(limits) => assert_eq!(limits.name, motor_preset(5).name),
        CanProtocol::ServoCan => panic!("wrong protocol"),
    }
    let feedback = MitFeedback { driver_id: 2, ..MitFeedback::default() };
    app.drain_mit_events(vec![
        (FromCanWorker::Connected, 1),
        (FromCanWorker::ServoValues(ServoCanValues::default()), 2),
        (FromCanWorker::MitFeedback(feedback), 3),
        (FromCanWorker::Log("x".to_string()), 4),
    ]);
    assert!(app.mit.connected);
    assert_eq!(app.mit_feedback, Some(feedback));
    assert_eq!(app.mit_last_feedback_at, Some(3));
    assert!(app.servo_can_values.is_none());
    assert_eq!(app.mit.log, vec!["x"]);
    app.mit_enable();
    assert!(matches!(app.mit_disconnect(), Some(ToCanWorker::Disconnect)));
    assert!(!app.mit.connected && !app.mit_control_enabled);
    assert_eq!(app.mit.status, "Not connected");
    assert!(app.mit_disconnect().is_none());
}

#[test]
fn mode_switches_go_to_the_motor() {
    let mut app = mit_app();
    app.mit_can_id = 127;
    assert_eq!(mit_frame(app.mit_enable()), Some((127, ENTER_MOTOR_MODE)));
    assert!(app.mit_control_enabled);
    assert_eq!(mit_frame(app.mit_set_zero()), Some((127, SET_ZERO_POSITION)));
    assert_eq!(mit_frame(app.mit_disable()), Some((127, EXIT_MOTOR_MODE)));
    assert!(!app.mit_control_enabled);
    let mut idle = MotorApp::new(0, None);
    assert_eq!(mit_frame(idle.mit_enable()), None);
    assert!(idle.mit_control_enabled);
}

#[test]
fn commands_are_streamed_at_intervals() {
    let mut app = mit_app();
    let codes = some_codes();
    assert_eq!(mit_frame(app.mit_send_command(&codes)), Some((1, pack_cmd(&codes))));
    app.mit_enable();
    assert!(!app.stream_is_due(u64::MAX));
    app.mit_send_stream = true;
    assert!(!app.stream_is_due(STREAM_INTERVAL_NS));
    assert_eq!(mit_frame(app.stream(&codes, STREAM_INTERVAL_NS)), None);
    let first = STREAM_INTERVAL_NS + 1;
    assert_eq!(mit_frame(app.stream(&codes, first)), Some((1, pack_cmd(&codes))));
    assert_eq!(app.mit_last_stream_sent, first);
    assert_eq!(mit_frame(app.stream(&codes, first + STREAM_INTERVAL_NS)), None);
    app.mit_disable();
    assert!(!app.stream_is_due(u64::MAX));
}

#[test]
fn stopping_mit_mode_damps_and_disables() {
    let mut app = mit_app();
    app.mit_enable();
    app.mit_target_pos_rad = number(1.5);
    app.mit_target_vel_rad_s = number(2.0);
    app.mit_kp = number(100.0);
    app.mit_kd = number(0.25);
    app.mit_torque_nm = number(3.0);
    let before = app.mit_targets();
    assert_eq!(before.torque_nm, number(3.0));
    let targets = app.mit_stop_targets();
    assert_eq!(targets.position_rad, number(1.5));
    assert_eq!(targets.velocity_rad_s, number(0.0));
    assert_eq!(targets.kp, number(0.0));
    assert_eq!(targets.kd, number(0.5));
    assert_eq!(targets.torque_nm, number(0.0));
    let after = app.mit_targets();
    assert_eq!(after.position_rad, number(1.5));
    assert_eq!(after.kd, number(0.25));
    assert_eq!(after.kp, number(0.0));
    let codes = some_codes();
    let messages = app.mit_stop(&codes);
    let frames: Vec<_> = messages.into_iter().map(|message| mit_frame(Some(message))).collect();
    assert_eq!(frames, vec![Some((1, pack_cmd(&codes))), Some((1, EXIT_MOTOR_MODE))]);
    assert!(!app.mit_control_enabled);
    let mut idle = MotorApp::new(0, None);
    assert!(idle.mit_stop(&codes).is_empty());
}

#[test]
fn damping_is_at_least_one_half() {
    let cases = [
        (0.0, 0.5),
        (-0.0, 0.5),
        (-3.0, 0.5),
        (0.499, 0.5),
        (0.5, 0.5),
        (0.501, 0.501),
        (5.0, 5.0),
        (f32::INFINITY, f32::INFINITY),
        (f32::NEG_INFINITY, 0.5),
        (f32::NAN, 0.5),
    ];
    for (value, expected) in cases {
        assert_eq!(f32::from_bits(number(value).at_least_half().bits), expected);
        assert_eq!(f32::max(value, 0.5), expected);
    }
    assert_eq!(Single::zero(), number(0.0));
}

#[test]
fn logs_keep_their_newest_lines() {
    let mut log = Vec::new();
    for i in 0..LOG_CAPACITY + 3 {
        push_capped(&mut log, format!("{}", i));
    }
    assert_eq!(log.len(), 200);
    assert_eq!(log[0], "3");
    assert_eq!(log[199], "202");
}

#[test]
fn links_go_through_their_states() {
    let mut link = Link::new();
    assert!(!link.ask());
    link.start();
    assert!(link.ask() && !link.connected);
    link.open();
    assert!(link.connected);
    link.note("n".to_string());
    link.lose("r".to_string());
    assert!(!link.connected && !link.ask());
    assert_eq!(link.status, "Not connected");
    assert_eq!(link.log, vec!["n", "r"]);
    link.start();
    assert!(link.release());
    assert!(!link.release());
}

#[test]
fn a_reply_ends_up_on_screen() {
    let mut payload = vec![0u8; 73];
    payload[0] = 0x04;
    payload[58] = 9;
    let mut worker = SerialWorker::new("ttyA".to_string());
    let step = worker.step(SerialInput::Received(encode_frame(&payload)));
    let mut app = serial_app();
    app.drain_serial_events(step.events.into_iter().map(|event| (event, 77)).collect());
    assert_eq!(app.values, Some(MotorValues { motor_id: 9, ..MotorValues::default() }));
    assert_eq!(app.last_values_at, Some(77));
}

#[test]
fn a_command_reaches_the_bus() {
    let mut app = MotorApp::new(0, None);
    app.servo_transport = ServoTransport::Can;
    app.servo_can_motor_id = 104;
    let worker = app.servo_can_connect();
    match app.servo_command(ServoCommand::Velocity(1000)) {
        Outgoing::Can(message) => match worker.step(CanInput::Command(message)).action {
            CanAction::Write(id, data) => {
                assert_eq!(id, CanId::Extended(0x368));
                assert_eq!(data, vec![0x00, 0x00, 0x03, 0xE8]);
            }
            _ => panic!("nothing is written"),
        },
        _ => panic!("no CAN frame"),
    }
}

#[test]
fn can_reports_can_be_taken_in_piece_by_piece() {
    let events = || {
        vec![
            (FromCanWorker::Log("a".to_string()), 5),
            (FromCanWorker::ServoValues(ServoCanValues::default()), 6),
            (FromCanWorker::MitFeedback(MitFeedback::default()), 7),
            (FromCanWorker::Disconnected("c".to_string()), 8),
        ]
    };
    for cut in 0..4 {
        let (mut once, mut twice) = (can_app(), can_app());
        once.drain_servo_can_events(events());
        let mut first = events();
        let second = first.split_off(cut);
        twice.drain_servo_can_events(first);
        twice.drain_servo_can_events(second);
        assert_eq!(once.servo_can.log, vec!["a", "c"]);
        assert_eq!(once.servo_can.log, twice.servo_can.log);
        assert_eq!(once.servo_can_last_values_at, twice.servo_can_last_values_at);
        assert_eq!(once.servo_can.status, twice.servo_can.status);
        let (mut once, mut twice) = (mit_app(), mit_app());
        once.drain_mit_events(events());
        let mut first = events();
        let second = first.split_off(cut);
        twice.drain_mit_events(first);
        twice.drain_mit_events(second);
        assert_eq!(once.mit.log, twice.mit.log);
        assert_eq!(once.mit_last_feedback_at, twice.mit_last_feedback_at);
        assert_eq!(once.mit.status, twice.mit.status);
    }
}

#[test]
fn uploads_and_feedback_end_up_on_screen() {
    let mut app = MotorApp::new(0, None);
    let worker = app.servo_can_connect();
    let data = vec![0xFF, 0xA8, 0, 0, 0, 0, 0x32, 0];
    let step = worker.step(CanInput::Data(CanId::Extended(0x2901), data));
    app.drain_servo_can_events(step.event.into_iter().map(|event| (event, 5)).collect());
    let shown = ServoCanValues {
        position_tenths_deg: -88,
        temperature_c: 50,
        ..ServoCanValues::default()
    };
    assert_eq!(app.servo_can_values, Some(shown));
    assert_eq!(app.servo_can_last_values_at, Some(5));
    let worker = app.mit_connect();
    let data = [7, 0x80, 0, 0, 0, 0, 65, 0];
    let step = worker.step(CanInput::Data(CanId::Standard(0), data.to_vec()));
    app.drain_mit_events(step.event.into_iter().map(|event| (event, 6)).collect());
    assert_eq!(app.mit_feedback, Some(unpack_reply(&motor_preset(0), &data)));
    assert_eq!(app.mit_last_feedback_at, Some(6));
}

#[test]
fn wire_units_are_shared_or_not() {
    assert_eq!(protocol::DUTY_SCALE, servo_can::DUTY_SCALE);
    assert_eq!(protocol::CURRENT_SCALE, servo_can::CURRENT_SCALE);
    assert_eq!(protocol::POSITION_SCALE, 100 * servo_can::POSITION_SCALE);
    assert_eq!(protocol::REPLY_TEMPERATURE_SCALE, 10);
    assert_eq!(protocol::REPLY_CURRENT_SCALE, 100);
    assert_eq!(protocol::REPLY_DUTY_SCALE, 1000);
    assert_eq!(protocol::REPLY_INPUT_VOLTAGE_SCALE, 10);
    assert_eq!(protocol::REPLY_POSITION_SCALE, 1000);
    assert_eq!(protocol::REPLY_DQ_VOLTAGE_SCALE, 1000);
    assert_eq!(servo_can::UPLOAD_POSITION_SCALE, 10);
    assert_eq!(servo_can::UPLOAD_CURRENT_SCALE, 100);
}
