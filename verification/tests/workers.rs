//! The decisions of the two workers.

use ak_motor::can_worker::{
    CanAction, CanId, CanInput, CanProtocol, CanStep, CanWorker, FromCanWorker, ToCanWorker,
};
use ak_motor::framing::encode_frame;
use ak_motor::mit_protocol::{motor_preset, ENTER_MOTOR_MODE};
use ak_motor::protocol::set_rpm;
use ak_motor::serial_worker::{
    report_payload, FromWorker, SerialAction, SerialInput, SerialStep, SerialWorker, ToWorker,
};
use ak_motor::servo_can::{set_current_brake, set_pos_spd};

/// The events of a step, in words, and its action.
fn serial_words(step: SerialStep) -> (Vec<String>, String) {
    let events = step
        .events
        .into_iter()
        .map(|event| match event {
            FromWorker::Connected => "connected".to_string(),
            FromWorker::Disconnected(reason) => format!("gone: {}", reason),
            FromWorker::Values(values) => format!("values of motor {}", values.motor_id),
            FromWorker::Log(line) => format!("log: {}", line),
        })
        .collect();
    let action = match step.action {
        SerialAction::PollCommands => "poll".to_string(),
        SerialAction::Write(bytes) => format!("write {:?}", bytes),
        SerialAction::Read => "read".to_string(),
        SerialAction::Stop => "stop".to_string(),
    };
    (events, action)
}

fn serial_step(worker: &mut SerialWorker, input: SerialInput) -> (Vec<String>, String) {
    serial_words(worker.step(input))
}

fn words(events: &[&str], action: &str) -> (Vec<String>, String) {
    (events.iter().map(|event| event.to_string()).collect(), action.to_string())
}

/// A reply with the motor's values, as a frame.
fn values_frame(motor_id: u8) -> Vec<u8> {
    let mut payload = vec![0u8; 73];
    payload[0] = 0x04;
    payload[58] = motor_id;
    encode_frame(&payload)
}

#[test]
fn a_port_is_opened_or_not() {
    let mut worker = SerialWorker::new("/dev/ttyUSB0".to_string());
    assert_eq!(
        serial_step(&mut worker, SerialInput::OpenFailed("No such device".to_string())),
        words(&["gone: Failed to open /dev/ttyUSB0: No such device"], "stop")
    );
    assert_eq!(serial_step(&mut worker, SerialInput::Opened), words(&["connected"], "poll"));
}

#[test]
fn serial_commands_are_carried_out() {
    let mut worker = SerialWorker::new("p".to_string());
    let send = SerialInput::Command(ToWorker::Send(vec![1, 2]));
    assert_eq!(serial_step(&mut worker, send), words(&[], "write [1, 2]"));
    assert_eq!(serial_step(&mut worker, SerialInput::Written), words(&[], "read"));
    assert_eq!(
        serial_step(&mut worker, SerialInput::WriteFailed("broken pipe".to_string())),
        words(&["gone: Write error: broken pipe"], "stop")
    );
    assert_eq!(serial_step(&mut worker, SerialInput::NoCommand), words(&[], "read"));
    assert_eq!(serial_step(&mut worker, SerialInput::CommandsClosed), words(&[], "stop"));
    assert_eq!(
        serial_step(&mut worker, SerialInput::Command(ToWorker::Disconnect)),
        words(&["gone: Disconnected"], "stop")
    );
}

#[test]
fn serial_reads_are_reported() {
    let mut worker = SerialWorker::new("p".to_string());
    assert_eq!(serial_step(&mut worker, SerialInput::ReadTimedOut), words(&[], "poll"));
    assert_eq!(serial_step(&mut worker, SerialInput::Received(vec![])), words(&[], "poll"));
    let mut bytes = vec![0xAA];
    bytes.extend(values_frame(9));
    bytes.extend(encode_frame(&[0x15, 0x6F, 0x6B]));
    bytes.extend(encode_frame(&[0x16, 0x0A, 0xFF]));
    assert_eq!(
        serial_step(&mut worker, SerialInput::Received(bytes)),
        words(
            &["values of motor 9", "log: ok", "log: RX frame (3 bytes): 16 0A FF"],
            "poll"
        )
    );
    assert_eq!(
        serial_step(&mut worker, SerialInput::ReadFailed("gone".to_string())),
        words(&["gone: Read error: gone"], "stop")
    );
}

#[test]
fn reads_can_be_split_anywhere() {
    let mut stream = vec![0x02];
    stream.extend(values_frame(1));
    stream.extend(encode_frame(&[]));
    stream.extend(values_frame(2));
    let mut worker = SerialWorker::new("p".to_string());
    let (whole, _) = serial_step(&mut worker, SerialInput::Received(stream.clone()));
    assert_eq!(
        whole,
        vec!["values of motor 1", "log: RX frame (0 bytes): ", "values of motor 2"]
    );
    for cut in 0..=stream.len() {
        let mut worker = SerialWorker::new("p".to_string());
        let first = SerialInput::Received(stream[..cut].to_vec());
        let second = SerialInput::Received(stream[cut..].to_vec());
        let (mut seen, _) = serial_step(&mut worker, first);
        let (rest, _) = serial_step(&mut worker, second);
        seen.extend(rest);
        assert_eq!(seen, whole);
    }
}

#[test]
fn a_broken_text_is_logged_repaired() {
    match report_payload(&[0x15, 0xC3, 0x28]) {
        FromWorker::Log(line) => assert_eq!(line, "\u{FFFD}("),
        _ => panic!("no log line"),
    }
}

#[test]
fn a_sent_frame_is_written_as_it_is() {
    let mut worker = SerialWorker::new("p".to_string());
    let frame = set_rpm(1000);
    match worker.step(SerialInput::Command(ToWorker::Send(frame.clone()))).action {
        SerialAction::Write(bytes) => assert_eq!(bytes, frame),
        _ => panic!("nothing is written"),
    }
}

/// The event of a step, in words, and its action.
fn can_words(step: CanStep) -> (String, String) {
    let event = match step.event {
        None => "-".to_string(),
        Some(FromCanWorker::Connected) => "connected".to_string(),
        Some(FromCanWorker::Disconnected(reason)) => format!("gone: {}", reason),
        Some(FromCanWorker::MitFeedback(feedback)) => {
            format!("feedback {} {}", feedback.driver_id, feedback.position.code)
        }
        Some(FromCanWorker::ServoValues(values)) => {
            format!("values {}", values.position_tenths_deg)
        }
        Some(FromCanWorker::Log(line)) => format!("log: {}", line),
    };
    let action = match step.action {
        CanAction::PollCommands => "poll".to_string(),
        CanAction::Write(id, data) => format!("write {:?} {:?}", id, data),
        CanAction::Read => "read".to_string(),
        CanAction::Stop => "stop".to_string(),
    };
    (event, action)
}

fn can_pair(event: &str, action: &str) -> (String, String) {
    (event.to_string(), action.to_string())
}

fn servo_worker() -> CanWorker {
    CanWorker::new("can0".to_string(), CanProtocol::ServoCan)
}

fn mit_worker() -> CanWorker {
    CanWorker::new("can1".to_string(), CanProtocol::Mit(motor_preset(0)))
}

#[test]
fn a_can_interface_is_opened_or_not() {
    let worker = servo_worker();
    assert_eq!(
        can_words(worker.step(CanInput::OpenFailed("No such device".to_string()))),
        can_pair("gone: Failed to open CAN interface can0: No such device", "stop")
    );
    assert_eq!(
        can_words(worker.step(CanInput::TimeoutFailed("bad".to_string()))),
        can_pair("gone: Failed to set read timeout on can0: bad", "stop")
    );
    assert_eq!(can_words(worker.step(CanInput::Opened)), can_pair("connected", "poll"));
}

#[test]
fn can_commands_are_carried_out() {
    let worker = servo_worker();
    assert_eq!(can_words(worker.step(CanInput::NoCommand)), can_pair("-", "read"));
    assert_eq!(can_words(worker.step(CanInput::CommandsClosed)), can_pair("-", "stop"));
    assert_eq!(
        can_words(worker.step(CanInput::Command(ToCanWorker::Disconnect))),
        can_pair("gone: Disconnected", "stop")
    );
    assert_eq!(can_words(worker.step(CanInput::Written)), can_pair("-", "read"));
    assert_eq!(
        can_words(worker.step(CanInput::WriteFailed("full".to_string()))),
        can_pair("gone: CAN write error: full", "stop")
    );
}

#[test]
fn standard_identifiers_have_eleven_bits() {
    let worker = mit_worker();
    match worker.step(CanInput::Command(ToCanWorker::SendStd(0x7FF, ENTER_MOTOR_MODE))).action {
        CanAction::Write(id, data) => {
            assert_eq!(id, CanId::Standard(0x7FF));
            assert_eq!(data, ENTER_MOTOR_MODE.to_vec());
        }
        _ => panic!("nothing is written"),
    }
    assert_eq!(
        can_words(worker.step(CanInput::Command(ToCanWorker::SendStd(0x800, [0; 8])))),
        can_pair("log: Invalid standard CAN id: 2048", "poll")
    );
    assert_eq!(
        can_words(worker.step(CanInput::Command(ToCanWorker::SendStd(65535, [0; 8])))),
        can_pair("log: Invalid standard CAN id: 65535", "poll")
    );
}

#[test]
fn extended_identifiers_have_twenty_nine_bits() {
    let worker = servo_worker();
    match worker.step(CanInput::Command(ToCanWorker::SendExt(0x1FFF_FFFF, vec![1]))).action {
        CanAction::Write(id, data) => {
            assert_eq!(id, CanId::Extended(0x1FFF_FFFF));
            assert_eq!(data, vec![1]);
        }
        _ => panic!("nothing is written"),
    }
    assert_eq!(
        can_words(worker.step(CanInput::Command(ToCanWorker::SendExt(0x2000_0000, vec![])))),
        can_pair("log: Invalid extended CAN id: 536870912", "poll")
    );
}

#[test]
fn frames_have_at_most_eight_bytes() {
    let worker = servo_worker();
    assert_eq!(
        can_words(worker.step(CanInput::Command(ToCanWorker::SendExt(1, vec![0; 9])))),
        can_pair("log: Failed to build CAN frame", "read")
    );
    match worker.step(CanInput::Command(ToCanWorker::SendExt(1, vec![7; 8]))).action {
        CanAction::Write(_, data) => assert_eq!(data, vec![7; 8]),
        _ => panic!("nothing is written"),
    }
    match worker.step(CanInput::Command(ToCanWorker::SendExt(1, vec![]))).action {
        CanAction::Write(_, data) => assert!(data.is_empty()),
        _ => panic!("nothing is written"),
    }
}

#[test]
fn servo_commands_can_be_sent() {
    let worker = servo_worker();
    for (id, data) in [set_current_brake(255, -1), set_pos_spd(0, i32::MAX, 1, 2)] {
        let step = worker.step(CanInput::Command(ToCanWorker::SendExt(id, data.clone())));
        assert!(step.event.is_none());
        match step.action {
            CanAction::Write(written, bytes) => {
                assert_eq!(written, CanId::Extended(id));
                assert_eq!(bytes, data);
            }
            _ => panic!("nothing is written"),
        }
    }
}

#[test]
fn received_frames_go_by_protocol_and_identifier() {
    let upload = vec![0xFF, 0xA8, 0, 0, 0, 0, 0x32, 0];
    let standard = CanId::Standard(0);
    let telemetry = CanId::Extended(0x2901);
    let read = |worker: &CanWorker, id: CanId, data: &[u8]| {
        can_words(worker.step(CanInput::Data(id, data.to_vec())))
    };
    assert_eq!(read(&servo_worker(), telemetry, &upload), can_pair("values -88", "poll"));
    assert_eq!(read(&servo_worker(), CanId::Extended(0x301), &upload), can_pair("-", "poll"));
    assert_eq!(read(&servo_worker(), telemetry, &upload[..7]), can_pair("-", "poll"));
    assert_eq!(read(&servo_worker(), standard, &upload), can_pair("-", "poll"));
    let reply = vec![5, 0x80, 0x01, 0, 0, 0, 40, 0];
    assert_eq!(read(&mit_worker(), standard, &reply), can_pair("feedback 5 32769", "poll"));
    assert_eq!(read(&mit_worker(), standard, &reply[..6]), can_pair("-", "poll"));
    assert_eq!(read(&mit_worker(), telemetry, &upload), can_pair("-", "poll"));
}

#[test]
fn other_can_reads_are_handled() {
    let worker = mit_worker();
    assert_eq!(can_words(worker.step(CanInput::OtherFrame)), can_pair("-", "poll"));
    assert_eq!(can_words(worker.step(CanInput::ReadTimedOut)), can_pair("-", "poll"));
    assert_eq!(
        can_words(worker.step(CanInput::ReadFailed("down".to_string()))),
        can_pair("gone: CAN read error: down", "stop")
    );
}

#[test]
fn a_serial_run_begins_connected_and_ends_disconnected() {
    let mut worker = SerialWorker::new("p".to_string());
    let inputs = vec![
        SerialInput::Opened,
        SerialInput::NoCommand,
        SerialInput::Received(encode_frame(&[0x15, 0x41])),
        SerialInput::Command(ToWorker::Send(vec![1])),
        SerialInput::Written,
        SerialInput::ReadTimedOut,
        SerialInput::Command(ToWorker::Disconnect),
    ];
    let mut reports = Vec::new();
    let mut actions = Vec::new();
    for input in inputs {
        let (events, action) = serial_step(&mut worker, input);
        reports.extend(events);
        actions.push(action);
    }
    assert_eq!(reports, vec!["connected", "log: A", "gone: Disconnected"]);
    assert_eq!(actions, vec!["poll", "read", "poll", "write [1]", "read", "poll", "stop"]);
}

#[test]
fn a_can_run_begins_connected_and_ends_disconnected() {
    let worker = servo_worker();
    let inputs = vec![
        CanInput::Opened,
        CanInput::Command(ToCanWorker::SendExt(0x2000_0000, vec![])),
        CanInput::NoCommand,
        CanInput::Data(CanId::Extended(0x2901), vec![0; 8]),
        CanInput::Command(ToCanWorker::SendExt(1, vec![2])),
        CanInput::WriteFailed("full".to_string()),
    ];
    let mut reports = Vec::new();
    let mut last = String::new();
    for input in inputs {
        let (event, action) = can_words(worker.step(input));
        reports.push(event);
        last = action;
    }
    assert_eq!(
        reports,
        vec![
            "connected",
            "log: Invalid extended CAN id: 536870912",
            "-",
            "values 0",
            "-",
            "gone: CAN write error: full",
        ]
    );
    assert_eq!(last, "stop");
}

#[test]
fn without_socketcan_nothing_is_opened() {
    assert_eq!(
        can_words(mit_worker().no_socketcan()),
        can_pair(
            "gone: Failed to open CAN interface can1: CAN control requires SocketCAN, which is \
             Linux-only. Use a Serial transport instead on this platform.",
            "stop"
        )
    );
}
