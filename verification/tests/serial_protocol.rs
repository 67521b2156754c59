//! The serial protocol: checksums, frames, commands and replies.

use ak_motor::bytes::{push_i16, push_i32, read_i16, read_i32};
use ak_motor::framing::encode_frame;
use ak_motor::protocol::{
    crc16, fault_code_name, get_values, i32_payload, parse_get_values, parse_print, set_current,
    set_current_brake, set_duty, set_handbrake, set_origin, set_pos, set_pos_multi_loop,
    set_pos_single_loop, set_pos_spd, set_rpm, terminal_cmd, CommId, FrameParser, MotorValues,
    CURRENT_SCALE, DUTY_SCALE, POSITION_SCALE, POS_SPD_SCALE, VALUES_LEN,
};
use ak_motor::text::{decimal_string, hex, join2, join4};

/// A physical value in wire units.
fn units(value: f32, scale: i32) -> i32 {
    (value * scale as f32) as i32
}

/// All payloads that a parser delivers for some bytes.
fn payloads(bytes: &[u8]) -> Vec<Vec<u8>> {
    let mut parser = FrameParser::new();
    parser.feed(bytes);
    drain(&mut parser)
}

fn drain(parser: &mut FrameParser) -> Vec<Vec<u8>> {
    let mut out = Vec::new();
    while let Some(payload) = parser.next_frame() {
        out.push(payload);
    }
    out
}

#[test]
fn crc_matches_manual_examples() {
    assert_eq!(crc16(&[0x04]), 0x4084);
    assert_eq!(crc16(&[0x08, 0x00, 0x00, 0x03, 0xE8]), 0x2B58);
    assert_eq!(crc16(&[0x09, 0x0A, 0xBA, 0x95, 0x00]), 0x1EF7);
}

#[test]
fn set_rpm_matches_manual_example() {
    assert_eq!(
        set_rpm(1000.0f32 as i32),
        vec![0x02, 0x05, 0x08, 0x00, 0x00, 0x03, 0xE8, 0x2B, 0x58, 0x03]
    );
    assert_eq!(
        set_rpm(-1000.0f32 as i32),
        vec![0x02, 0x05, 0x08, 0xFF, 0xFF, 0xFC, 0x18, 0x43, 0x78, 0x03]
    );
}

#[test]
fn set_pos_matches_manual_example() {
    assert_eq!(
        set_pos(units(180.0, POSITION_SCALE)),
        vec![0x02, 0x05, 0x09, 0x0A, 0xBA, 0x95, 0x00, 0x1E, 0xF7, 0x03]
    );
    assert_eq!(
        set_pos(units(90.0, POSITION_SCALE)),
        vec![0x02, 0x05, 0x09, 0x05, 0x5D, 0x4A, 0x80, 0x7B, 0x29, 0x03]
    );
}

#[test]
fn set_duty_matches_manual_example() {
    assert_eq!(
        set_duty(units(0.20, DUTY_SCALE)),
        vec![0x02, 0x05, 0x05, 0x00, 0x00, 0x4E, 0x20, 0x29, 0xF6, 0x03]
    );
    assert_eq!(
        set_duty(units(-0.20, DUTY_SCALE)),
        vec![0x02, 0x05, 0x05, 0xFF, 0xFF, 0xB1, 0xE0, 0x77, 0x85, 0x03]
    );
}

#[test]
fn set_current_matches_manual_example() {
    assert_eq!(
        set_current(units(5.0, CURRENT_SCALE)),
        vec![0x02, 0x05, 0x06, 0x00, 0x00, 0x13, 0x88, 0x8B, 0x25, 0x03]
    );
}

#[test]
fn set_pos_spd_matches_manual_example() {
    // 180 degrees, 5000 ERPM, accel 30000
    assert_eq!(
        set_pos_spd(units(180.0, POS_SPD_SCALE), 5000, 30000),
        vec![
            0x02, 0x0D, 0x5B, 0x00, 0x02, 0xBF, 0x20, 0x00, 0x00, 0x13, 0x88, 0x00, 0x00, 0x75,
            0x30, 0xA5, 0xAC, 0x03
        ]
    );
}

#[test]
fn get_values_matches_manual_example() {
    assert_eq!(get_values(), vec![0x02, 0x01, 0x04, 0x40, 0x84, 0x03]);
}

#[test]
fn terminal_cmd_matches_manual_examples() {
    assert_eq!(
        terminal_cmd("encoder"),
        vec![0x02, 0x08, 0x14, 0x65, 0x6E, 0x63, 0x6F, 0x64, 0x65, 0x72, 0xB0, 0x4C, 0x03]
    );
    assert_eq!(
        terminal_cmd("calibrate"),
        vec![
            0x02, 0x0A, 0x14, 0x63, 0x61, 0x6C, 0x69, 0x62, 0x72, 0x61, 0x74, 0x65, 0x76, 0xA5,
            0x03
        ]
    );
    assert_eq!(
        terminal_cmd("exit"),
        vec![0x02, 0x05, 0x14, 0x65, 0x78, 0x69, 0x74, 0x96, 0xC3, 0x03]
    );
}

#[test]
fn parse_print_decodes_console_text() {
    let payload = [vec![0x15u8], b"hello".to_vec()].concat();
    assert_eq!(parse_print(&payload), Some("hello".to_string()));
    assert_eq!(parse_print(&[0x04, 0x01]), None);
}

#[test]
fn frame_parser_extracts_and_resyncs() {
    let mut p = FrameParser::new();
    let mut junk = vec![0xAA, 0xBB];
    junk.extend_from_slice(&set_rpm(1000.0f32 as i32));
    junk.extend_from_slice(&set_pos(units(90.0, POSITION_SCALE)));
    p.feed(&junk);
    let f1 = p.next_frame().unwrap();
    assert_eq!(f1, vec![0x08, 0x00, 0x00, 0x03, 0xE8]);
    let f2 = p.next_frame().unwrap();
    assert_eq!(f2, vec![0x09, 0x05, 0x5D, 0x4A, 0x80]);
    assert!(p.next_frame().is_none());
}

#[test]
fn crc_of_nothing_and_of_the_usual_check_string() {
    assert_eq!(crc16(&[]), 0);
    assert_eq!(crc16(b"123456789"), 0x31C3);
}

#[test]
fn crc_continues_over_leading_zeros() {
    assert_eq!(crc16(&[0, 0, 0x04]), crc16(&[0x04]));
}

#[test]
fn crc_of_a_message_with_its_crc_is_zero() {
    assert_eq!(crc16(&[0x04, 0x40, 0x84]), 0);
    assert_eq!(crc16(&[0x08, 0x00, 0x00, 0x03, 0xE8, 0x2B, 0x58]), 0);
}

#[test]
fn crc_tells_changed_bytes() {
    let whole = crc16(&[0x08, 0x00, 0x00, 0x03, 0xE8]);
    for byte in 0u8..=255 {
        if byte != 0x03 {
            assert_ne!(crc16(&[0x08, 0x00, 0x00, byte, 0xE8]), whole);
        }
    }
}

#[test]
fn integers_are_big_endian_and_read_back() {
    let mut out = vec![0xAA];
    push_i32(&mut out, -2);
    push_i16(&mut out, -300);
    push_i32(&mut out, i32::MIN);
    push_i16(&mut out, i16::MAX);
    assert_eq!(
        out,
        vec![0xAA, 0xFF, 0xFF, 0xFF, 0xFE, 0xFE, 0xD4, 0x80, 0x00, 0x00, 0x00, 0x7F, 0xFF]
    );
    assert_eq!(read_i32(&out, 1), -2);
    assert_eq!(read_i16(&out, 5), -300);
    assert_eq!(read_i32(&out, 7), i32::MIN);
    assert_eq!(read_i16(&out, 11), i16::MAX);
}

#[test]
fn frames_of_all_lengths_round_trip() {
    for len in [0usize, 1, 2, 73, 254, 255] {
        let payload: Vec<u8> = (0..len).map(|i| (i % 251) as u8).collect();
        let frame = encode_frame(&payload);
        assert_eq!(frame.len(), len + 5);
        assert_eq!(frame[1] as usize, len);
        assert_eq!(payloads(&frame), vec![payload]);
    }
}

#[test]
fn an_overlong_payload_has_its_length_cut_to_a_byte() {
    let frame = encode_frame(&[0xAB; 256]);
    assert_eq!(frame.len(), 261);
    assert_eq!(frame[1], 0);
    assert!(payloads(&frame).is_empty());
}

#[test]
fn frames_come_out_in_order() {
    let mut stream = Vec::new();
    let sent: Vec<Vec<u8>> = vec![vec![1], vec![2, 2], vec![], vec![3, 2, 2]];
    for payload in &sent {
        stream.extend_from_slice(&encode_frame(payload));
    }
    assert_eq!(payloads(&stream), sent);
}

#[test]
fn the_cut_of_the_stream_does_not_matter() {
    let mut stream = vec![0x02, 0x00, 0x55];
    stream.extend_from_slice(&encode_frame(&[2, 3, 2, 3]));
    stream.extend_from_slice(&[0x02, 0x01]);
    stream.extend_from_slice(&encode_frame(&[9]));
    let whole = payloads(&stream);
    for cut in 0..=stream.len() {
        let mut parser = FrameParser::new();
        parser.feed(&stream[..cut]);
        let mut seen = drain(&mut parser);
        parser.feed(&stream[cut..]);
        seen.extend(drain(&mut parser));
        assert_eq!(seen, whole);
    }
    let mut parser = FrameParser::new();
    let mut seen = Vec::new();
    for byte in &stream {
        parser.feed(&[*byte]);
        seen.extend(drain(&mut parser));
    }
    assert_eq!(seen, whole);
}

#[test]
fn an_incomplete_frame_waits_and_stays() {
    let frame = encode_frame(&[7, 8, 9]);
    let mut parser = FrameParser::new();
    parser.feed(&frame[..5]);
    assert!(parser.next_frame().is_none());
    assert!(parser.next_frame().is_none());
    parser.feed(&frame[5..]);
    assert_eq!(parser.next_frame(), Some(vec![7, 8, 9]));
    assert_eq!(parser.next_frame(), None);
}

#[test]
fn damaged_frames_are_rejected() {
    let payload = [0x08, 0x00, 0x00, 0x03, 0xE8];
    let frame = encode_frame(&payload);
    for place in 2..7 {
        let mut damaged = frame.clone();
        damaged[place] ^= 0x40;
        assert!(payloads(&damaged).is_empty());
    }
    let mut wrong_crc = frame.clone();
    wrong_crc[7] ^= 1;
    assert!(payloads(&wrong_crc).is_empty());
    let mut wrong_tail = frame.clone();
    wrong_tail[9] = 0x04;
    assert!(payloads(&wrong_tail).is_empty());
}

#[test]
fn a_frame_behind_a_false_start_is_found() {
    let mut stream = vec![0x02, 0x01, 0xFF, 0xFF, 0xFF, 0xFF];
    stream.extend_from_slice(&encode_frame(&[0x15, 0x41]));
    assert_eq!(payloads(&stream), vec![vec![0x15, 0x41]]);
}

#[test]
fn every_command_identifier_has_its_byte() {
    let ids = [
        (CommId::FwVersion, 0),
        (CommId::JumpToBootloader, 1),
        (CommId::EraseNewApp, 2),
        (CommId::WriteNewAppData, 3),
        (CommId::GetValues, 4),
        (CommId::SetDuty, 5),
        (CommId::SetCurrent, 6),
        (CommId::SetCurrentBrake, 7),
        (CommId::SetRpm, 8),
        (CommId::SetPos, 9),
        (CommId::SetHandbrake, 10),
        (CommId::SetDetect, 11),
        (CommId::TerminalCmd, 20),
        (CommId::Print, 21),
        (CommId::RotorPosition, 22),
        (CommId::GetValuesSetup, 50),
        (CommId::SetPosSpd, 91),
        (CommId::SetPosMulti, 92),
        (CommId::SetPosSingle, 93),
        (CommId::SetPosUnlimited, 94),
        (CommId::SetPosOrigin, 95),
    ];
    for (id, byte) in ids {
        assert_eq!(id.to_byte(), byte);
    }
}

#[test]
fn remaining_commands_carry_their_payloads() {
    assert_eq!(i32_payload(CommId::SetRpm, -1), vec![8, 0xFF, 0xFF, 0xFF, 0xFF]);
    assert_eq!(payloads(&set_current_brake(2500)), vec![vec![7, 0, 0, 0x09, 0xC4]]);
    assert_eq!(payloads(&set_handbrake(-1)), vec![vec![10, 0xFF, 0xFF, 0xFF, 0xFF]]);
    assert_eq!(payloads(&set_pos_multi_loop()), vec![vec![92, 0, 0, 0, 0]]);
    assert_eq!(payloads(&set_pos_single_loop()), vec![vec![93, 0, 0, 0, 0]]);
    assert_eq!(payloads(&set_origin(false)), vec![vec![95, 0]]);
    assert_eq!(payloads(&set_origin(true)), vec![vec![95, 1]]);
}

#[test]
fn print_text_is_decoded_and_repaired() {
    let text = "Grad \u{B0}, Ohm \u{2126}";
    let payload = [vec![0x15u8], text.as_bytes().to_vec()].concat();
    assert_eq!(parse_print(&payload), Some(text.to_string()));
    assert_eq!(parse_print(&[0x15, 0x41, 0xFF, 0x42]), Some("A\u{FFFD}B".to_string()));
    assert_eq!(parse_print(&[0x15]), Some(String::new()));
    assert_eq!(parse_print(&[]), None);
}

fn sample_reply() -> (MotorValues, Vec<u8>) {
    let values = MotorValues {
        mos_temp_tenths_c: 253,
        motor_temp_tenths_c: -15,
        output_current_centi_a: 1234,
        input_current_centi_a: -56,
        id_current_centi_a: 78,
        iq_current_centi_a: -90123,
        duty_thousandths: -250,
        speed_erpm: 100_000,
        input_voltage_tenths_v: 481,
        fault_code: 5,
        position_milli_deg: -179_999,
        motor_id: 104,
        vd_milli_v: -1,
        vq_milli_v: 2_000_000,
    };
    let mut payload = vec![0x04];
    push_i16(&mut payload, values.mos_temp_tenths_c);
    push_i16(&mut payload, values.motor_temp_tenths_c);
    push_i32(&mut payload, values.output_current_centi_a);
    push_i32(&mut payload, values.input_current_centi_a);
    push_i32(&mut payload, values.id_current_centi_a);
    push_i32(&mut payload, values.iq_current_centi_a);
    push_i16(&mut payload, values.duty_thousandths);
    push_i32(&mut payload, values.speed_erpm);
    push_i16(&mut payload, values.input_voltage_tenths_v);
    payload.extend_from_slice(&[0xEE; 24]);
    payload.push(values.fault_code);
    push_i32(&mut payload, values.position_milli_deg);
    payload.push(values.motor_id);
    payload.extend_from_slice(&[0xDD; 6]);
    push_i32(&mut payload, values.vd_milli_v);
    push_i32(&mut payload, values.vq_milli_v);
    (values, payload)
}

#[test]
fn values_are_read_from_their_places() {
    let (values, payload) = sample_reply();
    assert_eq!(payload.len(), VALUES_LEN);
    assert_eq!(parse_get_values(&payload), Some(values));
    let mut longer = payload.clone();
    longer.extend_from_slice(&[1, 2, 3]);
    assert_eq!(parse_get_values(&longer), Some(values));
}

#[test]
fn other_payloads_are_no_values() {
    let (_, payload) = sample_reply();
    assert_eq!(parse_get_values(&payload[..72]), None);
    let mut other = payload.clone();
    other[0] = 0x15;
    assert_eq!(parse_get_values(&other), None);
    assert_eq!(parse_get_values(&[]), None);
    assert!(parse_print(&payload).is_none());
    assert!(parse_print(&other).is_some());
}

#[test]
fn faults_have_names() {
    assert_eq!(fault_code_name(0), "None");
    assert_eq!(fault_code_name(1), "Over voltage");
    assert_eq!(fault_code_name(7), "Driver gate over-voltage");
    assert_eq!(fault_code_name(12), "Encoder sin/cos below min amplitude");
    assert_eq!(fault_code_name(18), "Unbalanced currents");
    assert_eq!(fault_code_name(19), "Unknown");
    assert_eq!(fault_code_name(255), "Unknown");
}

#[test]
fn texts_are_put_together() {
    assert_eq!(hex(&[]), "");
    assert_eq!(hex(&[0x0A]), "0A");
    assert_eq!(hex(&[0x00, 0x9F, 0xFF]), "00 9F FF");
    assert_eq!(decimal_string(0), "0");
    assert_eq!(decimal_string(9), "9");
    assert_eq!(decimal_string(10), "10");
    assert_eq!(decimal_string(536_870_912), "536870912");
    assert_eq!(join2("a", "b"), "ab");
    assert_eq!(join4("a", "", "c", "d"), "acd");
}
