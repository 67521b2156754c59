//! The servo-mode CAN protocol: extended identifiers of the form `control mode * 256 + motor id`,
//! with values as big-endian integers in the data bytes.
//!
//! Commands take their values as integers in wire units. Position uses 10000 units per degree
//! here, not the 1000000 of the serial command.

use vstd::prelude::*;
use crate::bytes::{
    i16_at, i16_wire, i32_at, i32_wire, lemma_i16_round_trip, lemma_i32_round_trip, push_i16,
    push_i32, read_i16,
};

verus! {

/// Wire units of a duty cycle of 1.
pub const DUTY_SCALE: i32 = 100_000;

/// Wire units of one ampere.
pub const CURRENT_SCALE: i32 = 1_000;

/// Wire units of one degree.
pub const POSITION_SCALE: i32 = 10_000;

/// The control modes of a servo-mode CAN frame.
#[derive(Clone, Copy, Debug, PartialEq, Eq, Structural)]
pub enum CanPacketId {
    SetDuty,
    SetCurrent,
    SetCurrentBrake,
    SetRpm,
    SetPos,
    SetOriginHere,
    SetPosSpd,
}

impl CanPacketId {
    /// The number of the control mode.
    pub open spec fn number(self) -> u32 {
        match self {
            CanPacketId::SetDuty => 0,
            CanPacketId::SetCurrent => 1,
            CanPacketId::SetCurrentBrake => 2,
            CanPacketId::SetRpm => 3,
            CanPacketId::SetPos => 4,
            CanPacketId::SetOriginHere => 5,
            CanPacketId::SetPosSpd => 6,
        }
    }

    /// Returns the number of the control mode.
    pub fn to_number(self) -> (number: u32)
        ensures
            number == self.number(),
    {
        match self {
            CanPacketId::SetDuty => 0,
            CanPacketId::SetCurrent => 1,
            CanPacketId::SetCurrentBrake => 2,
            CanPacketId::SetRpm => 3,
            CanPacketId::SetPos => 4,
            CanPacketId::SetOriginHere => 5,
            CanPacketId::SetPosSpd => 6,
        }
    }
}

/// The extended identifier that addresses `motor_id` in a control mode.
pub open spec fn can_id_of(mode: CanPacketId, motor_id: u8) -> int {
    mode.number() * 256 + motor_id
}

/// Builds the extended identifier of a servo-mode control frame.
pub fn can_id(mode: CanPacketId, motor_id: u8) -> (id: u32)
    ensures
        id == can_id_of(mode, motor_id),
{
    mode.to_number() * 256 + motor_id as u32
}

/// The wire bytes of one 32-bit value.
pub fn i32_bytes(v: i32) -> (data: Vec<u8>)
    ensures
        data@ == i32_wire(v),
{
    let mut data: Vec<u8> = Vec::with_capacity(4);
    push_i32(&mut data, v);
    assert(data@ =~= i32_wire(v));
    data
}

/// Commands a duty cycle, in units of 1/`DUTY_SCALE`.
pub fn set_duty(motor_id: u8, duty: i32) -> (frame: (u32, Vec<u8>))
    ensures
        frame.0 == can_id_of(CanPacketId::SetDuty, motor_id),
        frame.1@ == i32_wire(duty),
{
    (can_id(CanPacketId::SetDuty, motor_id), i32_bytes(duty))
}

/// Commands a current, in milliamperes.
pub fn set_current(motor_id: u8, milliamps: i32) -> (frame: (u32, Vec<u8>))
    ensures
        frame.0 == can_id_of(CanPacketId::SetCurrent, motor_id),
        frame.1@ == i32_wire(milliamps),
{
    (can_id(CanPacketId::SetCurrent, motor_id), i32_bytes(milliamps))
}

/// Commands a brake current, in milliamperes.
pub fn set_current_brake(motor_id: u8, milliamps: i32) -> (frame: (u32, Vec<u8>))
    ensures
        frame.0 == can_id_of(CanPacketId::SetCurrentBrake, motor_id),
        frame.1@ == i32_wire(milliamps),
{
    (can_id(CanPacketId::SetCurrentBrake, motor_id), i32_bytes(milliamps))
}

/// Commands a speed, in electrical revolutions per minute.
pub fn set_rpm(motor_id: u8, erpm: i32) -> (frame: (u32, Vec<u8>))
    ensures
        frame.0 == can_id_of(CanPacketId::SetRpm, motor_id),
        frame.1@ == i32_wire(erpm),
{
    (can_id(CanPacketId::SetRpm, motor_id), i32_bytes(erpm))
}

/// Commands a position, in ten-thousandths of a degree.
pub fn set_pos(motor_id: u8, position: i32) -> (frame: (u32, Vec<u8>))
    ensures
        frame.0 == can_id_of(CanPacketId::SetPos, motor_id),
        frame.1@ == i32_wire(position),
{
    (can_id(CanPacketId::SetPos, motor_id), i32_bytes(position))
}

/// The data of a set-origin command.
pub open spec fn origin_data(permanent: bool) -> Seq<u8> {
    seq![
        if permanent {
            1u8
        } else {
            0u8
        },
    ]
}

/// Makes the current position the origin: until power is lost, or permanently (models with two
/// encoders only).
pub fn set_origin(motor_id: u8, permanent: bool) -> (frame: (u32, Vec<u8>))
    ensures
        frame.0 == can_id_of(CanPacketId::SetOriginHere, motor_id),
        frame.1@ == origin_data(permanent),
{
    let mut data: Vec<u8> = Vec::with_capacity(1);
    data.push(
        if permanent {
            1u8
        } else {
            0u8
        },
    );
    assert(data@ =~= origin_data(permanent));
    (can_id(CanPacketId::SetOriginHere, motor_id), data)
}

/// A tenth of `v`, rounded toward zero.
pub open spec fn tenth(v: i32) -> int {
    if v >= 0 {
        v as int / 10
    } else {
        -(-(v as int) / 10)
    }
}

/// A speed or an acceleration in the 16-bit wire field, which counts in tens and saturates.
pub open spec fn wire_i16(v: i32) -> i16 {
    if tenth(v) < i16::MIN {
        i16::MIN
    } else if tenth(v) > i16::MAX {
        i16::MAX
    } else {
        tenth(v) as i16
    }
}

fn to_wire_i16(v: i32) -> (wire: i16)
    ensures
        wire == wire_i16(v),
{
    let tens: i64 = if v >= 0 {
        v as i64 / 10
    } else {
        -((-(v as i64)) / 10)
    };
    if tens < -32768 {
        -32768
    } else if tens > 32767 {
        32767
    } else {
        tens as i16
    }
}

/// The data of a position-velocity command.
pub open spec fn pos_spd_data(position: i32, erpm: i32, accel_erpm_per_s: i32) -> Seq<u8> {
    i32_wire(position) + i16_wire(wire_i16(erpm)) + i16_wire(wire_i16(accel_erpm_per_s))
}

/// Commands a position in ten-thousandths of a degree, with a speed in ERPM and an acceleration in
/// ERPM per second. Both are true values: the wire field's units of ten are made here.
pub fn set_pos_spd(motor_id: u8, position: i32, erpm: i32, accel_erpm_per_s: i32) -> (frame: (
    u32,
    Vec<u8>,
))
    ensures
        frame.0 == can_id_of(CanPacketId::SetPosSpd, motor_id),
        frame.1@ == pos_spd_data(position, erpm, accel_erpm_per_s),
{
    let mut data: Vec<u8> = Vec::with_capacity(8);
    push_i32(&mut data, position);
    push_i16(&mut data, to_wire_i16(erpm));
    push_i16(&mut data, to_wire_i16(accel_erpm_per_s));
    assert(data@ =~= pos_spd_data(position, erpm, accel_erpm_per_s));
    (can_id(CanPacketId::SetPosSpd, motor_id), data)
}

/// Wire units of one degree in a telemetry upload.
pub const UPLOAD_POSITION_SCALE: i32 = 10;

/// Wire units of one ampere in a telemetry upload.
pub const UPLOAD_CURRENT_SCALE: i32 = 100;

/// A timed telemetry upload, each field in the unit that the wire uses for it, but for the speed,
/// which the wire counts in tens.
#[derive(Clone, Copy, Debug, Default, PartialEq, Eq, Structural)]
pub struct ServoCanValues {
    /// Tenths of a degree.
    pub position_tenths_deg: i16,
    /// Electrical revolutions per minute.
    pub speed_erpm: i32,
    /// Hundredths of an ampere.
    pub current_centi_a: i16,
    pub temperature_c: i8,
    pub fault_code: u8,
}

/// The function id of a telemetry upload.
pub const UPLOAD_FUNCTION_ID: u32 = 0x29;

/// Extracts the function id, everything above the motor id, from an extended identifier.
pub fn function_id(ext_id: u32) -> (id: u32)
    ensures
        id == ext_id as int / 256,
{
    ext_id / 256
}

/// The signed 8-bit number with the bit pattern of `byte`.
pub open spec fn signed_byte(byte: u8) -> i8 {
    if byte >= 128 {
        (byte - 256) as i8
    } else {
        byte as i8
    }
}

/// The telemetry values at their places in the data.
pub open spec fn upload_of(data: Seq<u8>) -> ServoCanValues {
    ServoCanValues {
        position_tenths_deg: i16_at(data, 0),
        speed_erpm: (i16_at(data, 2) * 10) as i32,
        current_centi_a: i16_at(data, 4),
        temperature_c: signed_byte(data[6]),
        fault_code: data[7],
    }
}

/// Reads the data of a telemetry upload, which has exactly eight bytes.
pub fn parse_upload(data: &[u8]) -> (values: Option<ServoCanValues>)
    ensures
        values == (if data@.len() == 8 {
            Some(upload_of(data@))
        } else {
            None
        }),
{
    if data.len() != 8 {
        return None;
    }
    let temperature: u8 = data[6];
    let temperature_c: i8 = if temperature >= 128 {
        (temperature as i16 - 256) as i8
    } else {
        temperature as i8
    };
    Some(
        ServoCanValues {
            position_tenths_deg: read_i16(data, 0),
            speed_erpm: read_i16(data, 2) as i32 * 10,
            current_centi_a: read_i16(data, 4),
            temperature_c,
            fault_code: data[7],
        },
    )
}

/// An identifier tells its control mode and its motor, and is never that of a telemetry upload.
pub proof fn lemma_can_id_parts(mode: CanPacketId, motor_id: u8)
    ensures
        can_id_of(mode, motor_id) / 256 == mode.number(),
        can_id_of(mode, motor_id) % 256 == motor_id,
        can_id_of(mode, motor_id) / 256 != UPLOAD_FUNCTION_ID,
{
}

/// Different control modes or motors have different identifiers.
pub proof fn lemma_can_ids_are_distinct(mode1: CanPacketId, motor1: u8, mode2: CanPacketId, motor2: u8)
    requires
        can_id_of(mode1, motor1) == can_id_of(mode2, motor2),
    ensures
        mode1 == mode2,
        motor1 == motor2,
{
    lemma_can_id_parts(mode1, motor1);
    lemma_can_id_parts(mode2, motor2);
}

/// A true speed within the documented range loses less than ten units on the wire and keeps its
/// sign; one outside of it goes to the end of the range.
pub proof fn lemma_wire_i16_accuracy(v: i32)
    ensures
        -327670 <= v <= 327670 ==> -10 < wire_i16(v) * 10 - v < 10,
        v > 327670 ==> wire_i16(v) == i16::MAX,
        v < -327680 ==> wire_i16(v) == i16::MIN,
        v >= 0 ==> wire_i16(v) >= 0,
        v <= 0 ==> wire_i16(v) <= 0,
{
}

/// The identifier of each control mode is its number times 256, plus the motor's.
pub proof fn lemma_can_id_values(motor_id: u8)
    ensures
        can_id_of(CanPacketId::SetDuty, motor_id) == motor_id,
        can_id_of(CanPacketId::SetCurrent, motor_id) == 0x100 + motor_id,
        can_id_of(CanPacketId::SetCurrentBrake, motor_id) == 0x200 + motor_id,
        can_id_of(CanPacketId::SetRpm, motor_id) == 0x300 + motor_id,
        can_id_of(CanPacketId::SetPos, motor_id) == 0x400 + motor_id,
        can_id_of(CanPacketId::SetOriginHere, motor_id) == 0x500 + motor_id,
        can_id_of(CanPacketId::SetPosSpd, motor_id) == 0x600 + motor_id,
        UPLOAD_FUNCTION_ID == 0x29,
{
}

/// A number in the 16-bit field is the true one in tens, rounded toward zero, as far as the field
/// reaches, and the end of the field beyond.
pub proof fn lemma_wire_i16_counts_in_tens(v: i32)
    ensures
        0 <= v < 327_680 ==> wire_i16(v) * 10 <= v < wire_i16(v) * 10 + 10,
        -327_690 < v <= 0 ==> wire_i16(v) * 10 - 10 < v <= wire_i16(v) * 10,
        v >= 327_680 ==> wire_i16(v) == 32767,
        v <= -327_690 ==> wire_i16(v) == -32768,
{
}

/// A single value in a command's data is read back, whatever it is.
pub proof fn lemma_i32_data_round_trip(value: i32)
    ensures
        i32_wire(value).len() == 4,
        i32_at(i32_wire(value), 0) == value,
{
    let empty = Seq::<u8>::empty();
    lemma_i32_round_trip(empty, value, empty);
    assert(empty + i32_wire(value) + empty =~= i32_wire(value));
}

/// A position-velocity command gives back its position, whatever that is, and its speed and
/// acceleration in tens; an origin command is one byte, 1 for a permanent origin and 0 for another.
pub proof fn lemma_pos_spd_data_round_trip(
    position: i32,
    erpm: i32,
    accel_erpm_per_s: i32,
    permanent: bool,
)
    ensures
        ({
            let d = pos_spd_data(position, erpm, accel_erpm_per_s);
            let speed = i16_at(d, 4) * 10;
            let accel = i16_at(d, 6) * 10;
            &&& d.len() == 8
            &&& i32_at(d, 0) == position
            &&& 0 <= erpm < 327_680 ==> speed <= erpm < speed + 10
            &&& -327_690 < erpm <= 0 ==> speed - 10 < erpm <= speed
            &&& erpm >= 327_680 ==> speed == 327_670
            &&& erpm <= -327_690 ==> speed == -327_680
            &&& 0 <= accel_erpm_per_s < 327_680 ==> accel <= accel_erpm_per_s < accel + 10
            &&& -327_690 < accel_erpm_per_s <= 0 ==> accel - 10 < accel_erpm_per_s <= accel
            &&& accel_erpm_per_s >= 327_680 ==> accel == 327_670
            &&& accel_erpm_per_s <= -327_690 ==> accel == -327_680
        }),
        origin_data(permanent) == seq![
            if permanent {
                1u8
            } else {
                0u8
            },
        ],
{
    let empty = Seq::<u8>::empty();
    let d = pos_spd_data(position, erpm, accel_erpm_per_s);
    let speed = wire_i16(erpm);
    let accel = wire_i16(accel_erpm_per_s);
    lemma_i32_round_trip(empty, position, i16_wire(speed) + i16_wire(accel));
    assert(empty + i32_wire(position) + (i16_wire(speed) + i16_wire(accel)) =~= d);
    lemma_i16_round_trip(i32_wire(position), speed, i16_wire(accel));
    assert(i32_wire(position) + i16_wire(speed) + i16_wire(accel) =~= d);
    lemma_i16_round_trip(i32_wire(position) + i16_wire(speed), accel, empty);
    assert(i32_wire(position) + i16_wire(speed) + i16_wire(accel) + empty =~= d);
    lemma_wire_i16_counts_in_tens(erpm);
    lemma_wire_i16_counts_in_tens(accel_erpm_per_s);
}

/// What a driver puts into a telemetry upload is what is read from it: position and current of
/// either sign as they are, the speed in tens, the temperature as a signed byte.
pub proof fn lemma_upload_round_trip(
    position: i16,
    speed: i16,
    current: i16,
    temperature: u8,
    fault: u8,
)
    ensures
        ({
            let data = i16_wire(position) + i16_wire(speed) + i16_wire(current) + seq![
                temperature,
                fault,
            ];
            let v = upload_of(data);
            &&& data.len() == 8
            &&& v.position_tenths_deg == position
            &&& v.speed_erpm == 10 * speed
            &&& v.current_centi_a == current
            &&& v.temperature_c == temperature || v.temperature_c == temperature - 256
            &&& v.fault_code == fault
        }),
{
    let empty = Seq::<u8>::empty();
    let tail = seq![temperature, fault];
    let (p, s, c) = (i16_wire(position), i16_wire(speed), i16_wire(current));
    let data = p + s + c + tail;
    lemma_i16_round_trip(empty, position, s + c + tail);
    assert(empty + p + (s + c + tail) =~= data);
    lemma_i16_round_trip(p, speed, c + tail);
    assert(p + s + (c + tail) =~= data);
    lemma_i16_round_trip(p + s, current, tail);
}

/// The wire units of every quantity.
pub proof fn lemma_can_scales()
    ensures
        DUTY_SCALE == 100_000,
        CURRENT_SCALE == 1_000,
        POSITION_SCALE == 10_000,
        UPLOAD_POSITION_SCALE == 10,
        UPLOAD_CURRENT_SCALE == 100,
{
}

/// Every command is addressed to its motor in its own control mode and carries what it was made
/// from, whatever that is.
pub proof fn lemma_servo_can_commands(
    motor_id: u8,
    value: i32,
    erpm: i32,
    accel: i32,
    permanent: bool,
    frame: (u32, Vec<u8>),
)
    ensures
        call_ensures(set_duty, (motor_id, value), frame) ==> frame.0 == 0x000 + motor_id && frame.1@.len()
            == 4 && i32_at(frame.1@, 0) == value,
        call_ensures(set_current, (motor_id, value), frame) ==> frame.0 == 0x100 + motor_id && frame.1@.len()
            == 4 && i32_at(frame.1@, 0) == value,
        call_ensures(set_current_brake, (motor_id, value), frame) ==> frame.0 == 0x200 + motor_id && frame.1@.len()
            == 4 && i32_at(frame.1@, 0) == value,
        call_ensures(set_rpm, (motor_id, value), frame) ==> frame.0 == 0x300 + motor_id && frame.1@.len()
            == 4 && i32_at(frame.1@, 0) == value,
        call_ensures(set_pos, (motor_id, value), frame) ==> frame.0 == 0x400 + motor_id && frame.1@.len()
            == 4 && i32_at(frame.1@, 0) == value,
        call_ensures(set_origin, (motor_id, permanent), frame) ==> frame.0 == 0x500 + motor_id
            && frame.1@ == seq![
            if permanent {
                1u8
            } else {
                0u8
            },
        ],
        call_ensures(set_pos_spd, (motor_id, value, erpm, accel), frame) ==> frame.0 == 0x600
            + motor_id && frame.1@.len() == 8 && i32_at(frame.1@, 0) == value && i16_at(frame.1@, 4)
            == wire_i16(erpm) && i16_at(frame.1@, 6) == wire_i16(accel),
{
    let empty = Seq::<u8>::empty();
    lemma_i32_data_round_trip(value);
    lemma_pos_spd_data_round_trip(value, erpm, accel, permanent);
    let (p, s, a) = (i32_wire(value), i16_wire(wire_i16(erpm)), i16_wire(wire_i16(accel)));
    let d = pos_spd_data(value, erpm, accel);
    lemma_i16_round_trip(p, wire_i16(erpm), a);
    lemma_i16_round_trip(p + s, wire_i16(accel), empty);
    assert(p + s + a =~= d);
    assert(p + s + a + empty =~= d);
}

/// What the other operations give: identifiers that are put together and taken apart, wire bytes,
/// and the values of an upload for exactly eight bytes.
pub proof fn lemma_servo_can_operations(
    mode: CanPacketId,
    motor_id: u8,
    id: u32,
    v: i32,
    bytes: Vec<u8>,
    number: u32,
    data: &[u8],
    values: Option<ServoCanValues>,
)
    ensures
        call_ensures(CanPacketId::to_number, (mode,), number) ==> number * 256 + motor_id
            == can_id_of(mode, motor_id),
        call_ensures(can_id, (mode, motor_id), id) ==> id == can_id_of(mode, motor_id),
        call_ensures(function_id, (id,), number) ==> number * 256 <= id < number * 256 + 256,
        call_ensures(i32_bytes, (v,), bytes) ==> bytes@ == i32_wire(v),
        call_ensures(parse_upload, (data,), values) ==> {
            &&& values is Some <==> data@.len() == 8
            &&& values matches Some(shown) ==> shown == upload_of(data@)
        },
{
}

} // verus!
