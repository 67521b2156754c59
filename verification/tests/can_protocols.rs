//! The two CAN protocols: servo mode and MIT mode.

use ak_motor::mit_protocol::{
    motor_preset, pack_cmd, unpack_reply, MitCodes, MotorLimits, Reading, ENTER_MOTOR_MODE,
    EXIT_MOTOR_MODE, FIELD_BITS, FIELD_CODE_MAX, MOTOR_PRESET_COUNT, POSITION_BITS,
    POSITION_CODE_MAX, SET_ZERO_POSITION,
};
use ak_motor::servo_can::{
    can_id, function_id, i32_bytes, parse_upload, set_current, set_current_brake, set_duty,
    set_origin, set_pos, set_pos_spd, set_rpm, CanPacketId, ServoCanValues, DUTY_SCALE,
    POSITION_SCALE, UPLOAD_FUNCTION_ID,
};
use ak_motor::single::Single;

/// A physical value in wire units.
fn units(value: f32, scale: i32) -> i32 {
    (value * scale as f32) as i32
}

/// The bit pattern of a number.
fn single(number: f32) -> Single {
    Single { bits: number.to_bits() }
}

/// The number with a bit pattern.
fn number(single: Single) -> f32 {
    f32::from_bits(single.bits)
}

/// The code of a value in a range.
fn code(value: f32, min: Single, max: Single, bits: u32) -> u32 {
    let (low, high) = (number(min), number(max));
    ((value.clamp(low, high) - low) * ((1u32 << bits) as f32 / (high - low))) as u32
}

/// The codes of a control command.
fn codes(limits: &MotorLimits, p: f32, v: f32, kp: f32, kd: f32, t: f32) -> MitCodes {
    MitCodes {
        position: code(p, limits.p_min, limits.p_max, POSITION_BITS),
        velocity: code(v, limits.v_min, limits.v_max, FIELD_BITS),
        kp: code(kp, limits.kp_min, limits.kp_max, FIELD_BITS),
        kd: code(kd, limits.kd_min, limits.kd_max, FIELD_BITS),
        torque: code(t, limits.t_min, limits.t_max, FIELD_BITS),
    }
}

/// The value of a reading.
fn value(reading: Reading) -> f32 {
    let (low, high) = (number(reading.min), number(reading.max));
    reading.code as f32 * (high - low) / ((1u32 << reading.bits) - 1) as f32 + low
}

#[test]
fn decodes_real_captured_frame() {
    // Captured live from candump can0: `00002900 [8] FF A8 00 00 00 00 32 00`
    // extended id 0x2900 = function 0x29 (telemetry upload), motor id 0x00.
    let ext_id = 0x2900u32;
    assert_eq!(function_id(ext_id), UPLOAD_FUNCTION_ID);
    assert_eq!(ext_id & 0xFF, 0); // motor id

    let data = [0xFF, 0xA8, 0x00, 0x00, 0x00, 0x00, 0x32, 0x00];
    let v = parse_upload(&data).unwrap();
    assert!((v.position_tenths_deg as f32 * 0.1 - (-8.8)).abs() < 1e-4);
    assert_eq!(v.speed_erpm as f32, 0.0);
    assert_eq!(v.current_centi_a as f32 * 0.01, 0.0);
    assert_eq!(v.temperature_c, 50);
    assert_eq!(v.fault_code, 0);
}

#[test]
fn set_pos_matches_can_example_scale() {
    // 180 degrees -> 1,800,000 (pos * 10000)
    let (id, data) = set_pos(1, units(180.0, POSITION_SCALE));
    assert_eq!(id, (4u32 << 8) | 1);
    assert_eq!(data, 1_800_000i32.to_be_bytes().to_vec());
}

#[test]
fn set_rpm_matches_can_example_scale() {
    let (id, data) = set_rpm(1, 1000.0f32 as i32);
    assert_eq!(id, (3u32 << 8) | 1);
    assert_eq!(data, 1000i32.to_be_bytes().to_vec());
}

#[test]
fn set_pos_spd_packs_erpm_at_1_to_10_scale() {
    // 180 deg, 5000 ERPM, 30000 ERPM/s -> wire speed=500, wire accel=3000
    let (id, data) = set_pos_spd(1, units(180.0, POSITION_SCALE), 5000, 30000);
    assert_eq!(id, (6u32 << 8) | 1);
    let mut expected = 1_800_000i32.to_be_bytes().to_vec();
    expected.extend_from_slice(&500i16.to_be_bytes());
    expected.extend_from_slice(&3000i16.to_be_bytes());
    assert_eq!(data, expected);
}

#[test]
fn roundtrip_zero() {
    let limits = motor_preset(0);
    let cmd = pack_cmd(&codes(&limits, 0.0, 0.0, 0.0, 0.0, 0.0));
    // p_int/v_int/kp_int/kd_int/t_int should all be their mid-scale/zero values.
    assert_eq!(cmd.len(), 8);
    assert_eq!(cmd, [0x80, 0x00, 0x80, 0x00, 0x00, 0x00, 0x08, 0x00]);
}

#[test]
fn pack_matches_bit_layout() {
    let limits = MotorLimits {
        name: "test",
        p_min: single(-12.5),
        p_max: single(12.5),
        v_min: single(-30.0),
        v_max: single(30.0),
        t_min: single(-18.0),
        t_max: single(18.0),
        kp_min: single(0.0),
        kp_max: single(500.0),
        kd_min: single(0.0),
        kd_max: single(5.0),
    };
    let cmd = pack_cmd(&codes(&limits, 0.0, 0.0, 0.0, 0.0, 0.0));
    // p=0 -> mid code (span 25 rad over 16 bits): p_int = (0 - -12.5) * (65536/25) = 32768
    assert_eq!(cmd[0], (32768u32 >> 8) as u8);
    assert_eq!(cmd[1], (32768u32 & 0xFF) as u8);
}

#[test]
fn identifiers_tell_mode_and_motor() {
    let modes = [
        (CanPacketId::SetDuty, 0),
        (CanPacketId::SetCurrent, 1),
        (CanPacketId::SetCurrentBrake, 2),
        (CanPacketId::SetRpm, 3),
        (CanPacketId::SetPos, 4),
        (CanPacketId::SetOriginHere, 5),
        (CanPacketId::SetPosSpd, 6),
    ];
    let mut seen = Vec::new();
    for (mode, number) in modes {
        assert_eq!(mode.to_number(), number);
        for motor_id in [0u8, 1, 104, 255] {
            let id = can_id(mode, motor_id);
            assert_eq!(id, number * 256 + motor_id as u32);
            assert_eq!(function_id(id), number);
            assert_ne!(function_id(id), UPLOAD_FUNCTION_ID);
            assert!(!seen.contains(&id));
            seen.push(id);
        }
    }
}

#[test]
fn servo_commands_carry_their_values() {
    assert_eq!(i32_bytes(-2), vec![0xFF, 0xFF, 0xFF, 0xFE]);
    assert_eq!(
        set_duty(2, units(0.20, DUTY_SCALE)),
        (0x002, 20_000i32.to_be_bytes().to_vec())
    );
    assert_eq!(set_current(2, -5000), (0x102, (-5000i32).to_be_bytes().to_vec()));
    assert_eq!(set_current_brake(255, 0), (0x2FF, vec![0, 0, 0, 0]));
    assert_eq!(set_origin(1, false), (0x501, vec![0]));
    assert_eq!(set_origin(1, true), (0x501, vec![1]));
}

#[test]
fn speed_on_the_wire_is_rounded_toward_zero_and_limited() {
    let wire = |erpm: i32, accel: i32| {
        let (_, data) = set_pos_spd(1, 0, erpm, accel);
        (i16::from_be_bytes([data[4], data[5]]), i16::from_be_bytes([data[6], data[7]]))
    };
    assert_eq!(wire(19, -19), (1, -1));
    assert_eq!(wire(327_670, -327_680), (32767, -32768));
    assert_eq!(wire(327_689, 400_000), (32767, 32767));
    assert_eq!(wire(i32::MIN, i32::MAX), (-32768, 32767));
}

#[test]
fn uploads_have_eight_bytes() {
    let data = [0x0E, 0x10, 0xFC, 0x18, 0x01, 0xF4, 0xF6, 0x05];
    assert_eq!(
        parse_upload(&data),
        Some(ServoCanValues {
            position_tenths_deg: 3600,
            speed_erpm: -10_000,
            current_centi_a: 500,
            temperature_c: -10,
            fault_code: 5,
        })
    );
    assert_eq!(parse_upload(&data[..7]), None);
    assert_eq!(parse_upload(&[0; 9]), None);
    assert_eq!(parse_upload(&[]), None);
}

#[test]
fn presets_are_the_known_models() {
    let expected = [
        ("AK10-9", 50.0, 65.0),
        ("AK60-6", 45.0, 15.0),
        ("AK70-10", 50.0, 25.0),
        ("AK80-6", 76.0, 12.0),
        ("AK80-9", 50.0, 18.0),
        ("AK80-64", 8.0, 144.0),
        ("AK80-8", 37.5, 32.0),
        ("AK45-36", 6.0, 34.0),
        ("AK45-10", 20.0, 8.0),
        ("AK40-10", 45.5, 5.0),
    ];
    assert_eq!(expected.len(), MOTOR_PRESET_COUNT);
    for (index, (name, v_abs, t_abs)) in expected.into_iter().enumerate() {
        let limits = motor_preset(index);
        assert_eq!(limits.name, name);
        assert_eq!((limits.p_min, limits.p_max), (single(-12.5), single(12.5)));
        assert_eq!((limits.v_min, limits.v_max), (single(-v_abs), single(v_abs)));
        assert_eq!((limits.t_min, limits.t_max), (single(-t_abs), single(t_abs)));
        assert_eq!((limits.kp_min, limits.kp_max), (single(0.0), single(500.0)));
        assert_eq!((limits.kd_min, limits.kd_max), (single(0.0), single(5.0)));
    }
}

#[test]
fn any_limits_can_be_used() {
    let limits = MotorLimits { t_max: single(0.123), t_min: single(-7.0), ..motor_preset(0) };
    let feedback = unpack_reply(&limits, &[1, 0, 0, 0, 0, 0, 0, 0]);
    assert_eq!(feedback.torque.min, single(-0.123));
    assert_eq!(feedback.torque.max, single(0.123));
}

#[test]
fn negation_is_that_of_the_numbers() {
    for x in [0.0f32, -0.0, 1.0, -12.5, f32::MAX, f32::MIN_POSITIVE, f32::INFINITY] {
        assert_eq!(single(x).negated(), single(-x));
        assert_eq!(single(x).negated().negated(), single(x));
    }
}

#[test]
fn codes_are_packed_side_by_side() {
    let cmd = pack_cmd(&MitCodes {
        position: 0x1234,
        velocity: 0x567,
        kp: 0x89A,
        kd: 0xBCD,
        torque: 0xEF0,
    });
    assert_eq!(cmd, [0x12, 0x34, 0x56, 0x78, 0x9A, 0xBC, 0xDE, 0xF0]);
}

#[test]
fn codes_beyond_their_fields_are_limited() {
    let cmd = pack_cmd(&MitCodes {
        position: 0x10000,
        velocity: 0x1000,
        kp: u32::MAX,
        kd: 0xFFF,
        torque: 0x1000,
    });
    assert_eq!(cmd, [0xFF; 8]);
    let limits = motor_preset(3);
    assert_eq!(pack_cmd(&codes(&limits, 12.5, 76.0, 500.0, 5.0, 12.0)), [0xFF; 8]);
    assert_eq!(pack_cmd(&codes(&limits, -99.0, -99.0, -1.0, -1.0, -99.0)), [0x00; 8]);
}

#[test]
fn different_codes_have_different_bytes() {
    let base = MitCodes { position: 7, velocity: 7, kp: 7, kd: 7, torque: 7 };
    let others = [
        MitCodes { position: 8, ..base },
        MitCodes { velocity: 8, ..base },
        MitCodes { kp: 8, ..base },
        MitCodes { kd: 8, ..base },
        MitCodes { torque: 8, ..base },
    ];
    for other in others {
        assert_ne!(pack_cmd(&other), pack_cmd(&base));
    }
}

#[test]
fn commands_below_the_end_of_scale_are_no_mode_switches() {
    let top = MitCodes {
        position: POSITION_CODE_MAX,
        velocity: FIELD_CODE_MAX,
        kp: FIELD_CODE_MAX,
        kd: FIELD_CODE_MAX - 1,
        torque: 0xFFC,
    };
    assert_ne!(pack_cmd(&top), ENTER_MOTOR_MODE);
    // With every other field at its end of scale, a torque code is the same bits as a mode switch.
    let end = MitCodes { kd: FIELD_CODE_MAX, ..top };
    assert_eq!(pack_cmd(&end), ENTER_MOTOR_MODE);
    assert_eq!(pack_cmd(&MitCodes { torque: 0xFFD, ..end }), EXIT_MOTOR_MODE);
    assert_eq!(pack_cmd(&MitCodes { torque: 0xFFE, ..end }), SET_ZERO_POSITION);
}

#[test]
fn feedback_is_read_from_its_places() {
    let limits = motor_preset(4);
    let feedback = unpack_reply(&limits, &[3, 0xFF, 0xFF, 0x12, 0x34, 0x56, 65, 2]);
    assert_eq!(feedback.driver_id, 3);
    assert_eq!(feedback.position, Reading {
            code: 0xFFFF,
            bits: 16,
            min: single(-12.5),
            max: single(12.5),
        });
    assert_eq!(feedback.speed, Reading {
            code: 0x123,
            bits: 12,
            min: single(-50.0),
            max: single(50.0),
        });
    assert_eq!(feedback.torque, Reading {
            code: 0x456,
            bits: 12,
            min: single(-18.0),
            max: single(18.0),
        });
    assert_eq!(feedback.temperature_c, 25);
    assert_eq!(feedback.error, 2);
}

#[test]
fn readings_reach_both_ends_of_their_ranges() {
    let limits = motor_preset(9);
    let low = unpack_reply(&limits, &[1, 0, 0, 0, 0, 0, 0, 0]);
    assert_eq!(value(low.position), -12.5);
    assert_eq!(value(low.speed), -45.5);
    assert_eq!(value(low.torque), -5.0);
    assert_eq!(low.temperature_c, -40);
    let high = unpack_reply(&limits, &[1, 0xFF, 0xFF, 0xFF, 0xFF, 0xFF, 0xFF, 0]);
    assert_eq!(value(high.position), 12.5);
    assert_eq!(value(high.speed), 45.5);
    assert_eq!(value(high.torque), 5.0);
    assert_eq!(high.temperature_c, 215);
}
