//! The servo-mode serial protocol: command payloads and their frames, replies and fault codes.
//!
//! Commands take and replies give their values as integers in wire units; the `*_SCALE` constants
//! give the number of wire units in one physical unit.

use vstd::prelude::*;
use vstd::slice::slice_subrange;
use vstd::string::*;
use vstd::utf8::*;
use crate::bytes::{
    i16_at, i16_wire, i32_at, i32_wire, lemma_i16_round_trip, lemma_i32_round_trip, push_i32,
    read_i16, read_i32,
};
use crate::crc::crc16_spec;
use crate::framing::{
    encode_frame, extract, frame_of, lemma_frame_bytes, lemma_frame_round_trip,
};
pub use crate::crc::crc16;
pub use crate::framing::FrameParser;

verus! {

/// Wire units of a duty cycle of 1.
pub const DUTY_SCALE: i32 = 100_000;

/// Wire units of one ampere.
pub const CURRENT_SCALE: i32 = 1_000;

/// Wire units of one degree in a plain position command.
pub const POSITION_SCALE: i32 = 1_000_000;

/// Wire units of one degree in a position-velocity command.
pub const POS_SPD_SCALE: i32 = 1_000;

/// Command and reply identifiers, the first byte of every payload.
#[derive(Clone, Copy, Debug, PartialEq, Eq, Structural)]
pub enum CommId {
    FwVersion,
    JumpToBootloader,
    EraseNewApp,
    WriteNewAppData,
    GetValues,
    SetDuty,
    SetCurrent,
    SetCurrentBrake,
    SetRpm,
    SetPos,
    SetHandbrake,
    SetDetect,
    /// Sends a text command to the driver's debug console; the answer comes back as `Print`.
    TerminalCmd,
    /// Text that the driver's debug console prints.
    Print,
    RotorPosition,
    GetValuesSetup,
    SetPosSpd,
    SetPosMulti,
    SetPosSingle,
    SetPosUnlimited,
    SetPosOrigin,
}

impl CommId {
    /// The identifier's byte on the wire.
    pub open spec fn byte(self) -> u8 {
        match self {
            CommId::FwVersion => 0,
            CommId::JumpToBootloader => 1,
            CommId::EraseNewApp => 2,
            CommId::WriteNewAppData => 3,
            CommId::GetValues => 4,
            CommId::SetDuty => 5,
            CommId::SetCurrent => 6,
            CommId::SetCurrentBrake => 7,
            CommId::SetRpm => 8,
            CommId::SetPos => 9,
            CommId::SetHandbrake => 10,
            CommId::SetDetect => 11,
            CommId::TerminalCmd => 20,
            CommId::Print => 21,
            CommId::RotorPosition => 22,
            CommId::GetValuesSetup => 50,
            CommId::SetPosSpd => 91,
            CommId::SetPosMulti => 92,
            CommId::SetPosSingle => 93,
            CommId::SetPosUnlimited => 94,
            CommId::SetPosOrigin => 95,
        }
    }

    /// Returns the identifier's byte on the wire.
    pub fn to_byte(self) -> (byte: u8)
        ensures
            byte == self.byte(),
    {
        match self {
            CommId::FwVersion => 0,
            CommId::JumpToBootloader => 1,
            CommId::EraseNewApp => 2,
            CommId::WriteNewAppData => 3,
            CommId::GetValues => 4,
            CommId::SetDuty => 5,
            CommId::SetCurrent => 6,
            CommId::SetCurrentBrake => 7,
            CommId::SetRpm => 8,
            CommId::SetPos => 9,
            CommId::SetHandbrake => 10,
            CommId::SetDetect => 11,
            CommId::TerminalCmd => 20,
            CommId::Print => 21,
            CommId::RotorPosition => 22,
            CommId::GetValuesSetup => 50,
            CommId::SetPosSpd => 91,
            CommId::SetPosMulti => 92,
            CommId::SetPosSingle => 93,
            CommId::SetPosUnlimited => 94,
            CommId::SetPosOrigin => 95,
        }
    }
}

/// No two identifiers share a byte.
pub proof fn lemma_comm_ids_are_distinct(a: CommId, b: CommId)
    requires
        a.byte() == b.byte(),
    ensures
        a == b,
{
}

/// The payload of a command with one 32-bit value.
pub open spec fn value_payload(id: CommId, value: i32) -> Seq<u8> {
    seq![id.byte()] + i32_wire(value)
}

/// Builds the payload of a command with one 32-bit value.
pub fn i32_payload(id: CommId, value: i32) -> (payload: Vec<u8>)
    ensures
        payload@ == value_payload(id, value),
{
    let mut payload: Vec<u8> = Vec::with_capacity(5);
    payload.push(id.to_byte());
    push_i32(&mut payload, value);
    assert(payload@ =~= value_payload(id, value));
    payload
}

/// Commands a duty cycle, in units of 1/`DUTY_SCALE`.
pub fn set_duty(duty: i32) -> (frame: Vec<u8>)
    ensures
        frame@ == frame_of(value_payload(CommId::SetDuty, duty)),
{
    encode_frame(i32_payload(CommId::SetDuty, duty).as_slice())
}

/// Commands a current, in milliamperes.
pub fn set_current(milliamps: i32) -> (frame: Vec<u8>)
    ensures
        frame@ == frame_of(value_payload(CommId::SetCurrent, milliamps)),
{
    encode_frame(i32_payload(CommId::SetCurrent, milliamps).as_slice())
}

/// Commands a brake current, in milliamperes.
pub fn set_current_brake(milliamps: i32) -> (frame: Vec<u8>)
    ensures
        frame@ == frame_of(value_payload(CommId::SetCurrentBrake, milliamps)),
{
    encode_frame(i32_payload(CommId::SetCurrentBrake, milliamps).as_slice())
}

/// Commands a speed, in electrical revolutions per minute.
pub fn set_rpm(erpm: i32) -> (frame: Vec<u8>)
    ensures
        frame@ == frame_of(value_payload(CommId::SetRpm, erpm)),
{
    encode_frame(i32_payload(CommId::SetRpm, erpm).as_slice())
}

/// Commands a position, in millionths of a degree.
pub fn set_pos(microdegrees: i32) -> (frame: Vec<u8>)
    ensures
        frame@ == frame_of(value_payload(CommId::SetPos, microdegrees)),
{
    encode_frame(i32_payload(CommId::SetPos, microdegrees).as_slice())
}

/// Commands a handbrake current, in milliamperes.
pub fn set_handbrake(milliamps: i32) -> (frame: Vec<u8>)
    ensures
        frame@ == frame_of(value_payload(CommId::SetHandbrake, milliamps)),
{
    encode_frame(i32_payload(CommId::SetHandbrake, milliamps).as_slice())
}

/// The payload of a position-velocity command.
pub open spec fn pos_spd_payload(millidegrees: i32, erpm: i32, accel: i32) -> Seq<u8> {
    seq![CommId::SetPosSpd.byte()] + i32_wire(millidegrees) + i32_wire(erpm) + i32_wire(accel)
}

/// Commands a position in thousandths of a degree, with a speed and an acceleration.
pub fn set_pos_spd(millidegrees: i32, erpm: i32, accel: i32) -> (frame: Vec<u8>)
    ensures
        frame@ == frame_of(pos_spd_payload(millidegrees, erpm, accel)),
{
    let mut payload: Vec<u8> = Vec::with_capacity(13);
    payload.push(CommId::SetPosSpd.to_byte());
    push_i32(&mut payload, millidegrees);
    push_i32(&mut payload, erpm);
    push_i32(&mut payload, accel);
    assert(payload@ =~= pos_spd_payload(millidegrees, erpm, accel));
    encode_frame(payload.as_slice())
}

/// Selects the multi-loop position mode.
pub fn set_pos_multi_loop() -> (frame: Vec<u8>)
    ensures
        frame@ == frame_of(value_payload(CommId::SetPosMulti, 0)),
{
    encode_frame(i32_payload(CommId::SetPosMulti, 0).as_slice())
}

/// Selects the single-loop position mode.
pub fn set_pos_single_loop() -> (frame: Vec<u8>)
    ensures
        frame@ == frame_of(value_payload(CommId::SetPosSingle, 0)),
{
    encode_frame(i32_payload(CommId::SetPosSingle, 0).as_slice())
}

/// The payload of a set-origin command.
pub open spec fn origin_payload(permanent: bool) -> Seq<u8> {
    seq![
        CommId::SetPosOrigin.byte(),
        if permanent {
            1u8
        } else {
            0u8
        },
    ]
}

/// Makes the current position the origin: until power is lost, or permanently.
pub fn set_origin(permanent: bool) -> (frame: Vec<u8>)
    ensures
        frame@ == frame_of(origin_payload(permanent)),
{
    let mut payload: Vec<u8> = Vec::with_capacity(2);
    payload.push(CommId::SetPosOrigin.to_byte());
    payload.push(
        if permanent {
            1u8
        } else {
            0u8
        },
    );
    assert(payload@ =~= origin_payload(permanent));
    encode_frame(payload.as_slice())
}

/// Asks for the motor's values.
pub fn get_values() -> (frame: Vec<u8>)
    ensures
        frame@ == frame_of(seq![CommId::GetValues.byte()]),
{
    let mut payload: Vec<u8> = Vec::with_capacity(1);
    payload.push(CommId::GetValues.to_byte());
    assert(payload@ =~= seq![CommId::GetValues.byte()]);
    encode_frame(payload.as_slice())
}

/// The payload of a debug-console command: its identifier and the text in UTF-8.
pub open spec fn terminal_payload(text: Seq<char>) -> Seq<u8> {
    seq![CommId::TerminalCmd.byte()] + encode_utf8(text)
}

/// Builds a debug-console command, such as `calibrate`.
pub fn terminal_cmd(text: &str) -> (frame: Vec<u8>)
    ensures
        frame@ == frame_of(terminal_payload(text@)),
{
    let mut payload: Vec<u8> = Vec::new();
    payload.push(CommId::TerminalCmd.to_byte());
    payload.extend_from_slice(text.as_bytes());
    assert(payload@ =~= terminal_payload(text@));
    encode_frame(payload.as_slice())
}

/// The text that `String::from_utf8_lossy` makes of `bytes`.
pub uninterp spec fn utf8_lossy(bytes: Seq<u8>) -> Seq<char>;

/// `String::from_utf8_lossy` of std. Nothing is claimed of how malformed input is cut into
/// replaced pieces beyond that the text depends on the bytes alone. Valid UTF-8 is decoded as it
/// stands; in the text of anything else there is a replacement character.
#[verifier::external_body]
fn from_utf8_lossy(bytes: &[u8]) -> (text: String)
    ensures
        text@ == utf8_lossy(bytes@),
        valid_utf8(bytes@) ==> text@ == decode_utf8(bytes@),
        !valid_utf8(bytes@) ==> text@.contains('\u{FFFD}'),
{
    String::from_utf8_lossy(bytes).into_owned()
}

/// The text in `bytes`: decoded where they are UTF-8, patched up where they are not.
pub open spec fn text_of(bytes: Seq<u8>) -> Seq<char> {
    if valid_utf8(bytes) {
        decode_utf8(bytes)
    } else {
        utf8_lossy(bytes)
    }
}

/// The payload is console text.
pub open spec fn is_print(payload: Seq<u8>) -> bool {
    payload.len() > 0 && payload[0] == CommId::Print.byte()
}

/// Reads a payload as the driver's console text, if it is that.
pub fn parse_print(payload: &[u8]) -> (text: Option<String>)
    ensures
        text is Some <==> is_print(payload@),
        text matches Some(t) ==> t@ == text_of(payload@.skip(1)),
        text matches Some(t) ==> valid_utf8(payload@.skip(1)) || t@.contains('\u{FFFD}'),
{
    if payload.len() == 0 || payload[0] != CommId::Print.to_byte() {
        return None;
    }
    let rest: &[u8] = slice_subrange(payload, 1, payload.len());
    assert(rest@ =~= payload@.skip(1));
    Some(from_utf8_lossy(rest))
}

/// Console text arrives as it was printed: what is read from a `Print` payload that carries some
/// text in UTF-8 is that text.
pub proof fn lemma_print_round_trip(text: Seq<char>)
    ensures
        ({
            let payload = seq![CommId::Print.byte()] + encode_utf8(text);
            is_print(payload) && text_of(payload.skip(1)) == text
        }),
{
    let payload = seq![CommId::Print.byte()] + encode_utf8(text);
    assert(payload.skip(1) =~= encode_utf8(text));
    encode_utf8_valid_utf8(text);
    encode_utf8_decode_utf8(text);
}

/// Wire units of one degree Celsius in a reply.
pub const REPLY_TEMPERATURE_SCALE: i32 = 10;

/// Wire units of one ampere in a reply.
pub const REPLY_CURRENT_SCALE: i32 = 100;

/// Wire units of a duty cycle of 1 in a reply.
pub const REPLY_DUTY_SCALE: i32 = 1_000;

/// Wire units of one volt of input voltage in a reply.
pub const REPLY_INPUT_VOLTAGE_SCALE: i32 = 10;

/// Wire units of one degree in a reply.
pub const REPLY_POSITION_SCALE: i32 = 1_000;

/// Wire units of one volt of Vd and Vq in a reply.
pub const REPLY_DQ_VOLTAGE_SCALE: i32 = 1_000;

/// The driver's reply to `get_values`, each field in the unit that the wire uses for it.
#[derive(Clone, Copy, Debug, Default, PartialEq, Eq, Structural)]
pub struct MotorValues {
    /// Tenths of a degree Celsius.
    pub mos_temp_tenths_c: i16,
    /// Tenths of a degree Celsius.
    pub motor_temp_tenths_c: i16,
    /// Hundredths of an ampere.
    pub output_current_centi_a: i32,
    /// Hundredths of an ampere.
    pub input_current_centi_a: i32,
    /// Hundredths of an ampere.
    pub id_current_centi_a: i32,
    /// Hundredths of an ampere.
    pub iq_current_centi_a: i32,
    /// Thousandths.
    pub duty_thousandths: i16,
    /// Electrical revolutions per minute.
    pub speed_erpm: i32,
    /// Tenths of a volt.
    pub input_voltage_tenths_v: i16,
    pub fault_code: u8,
    /// Thousandths of a degree.
    pub position_milli_deg: i32,
    pub motor_id: u8,
    /// Thousandths of a volt.
    pub vd_milli_v: i32,
    /// Thousandths of a volt.
    pub vq_milli_v: i32,
}

/// The length of the shortest reply that holds all values.
pub const VALUES_LEN: usize = 73;

/// The payload is a reply that holds all values.
pub open spec fn is_values(payload: Seq<u8>) -> bool {
    payload.len() >= VALUES_LEN && payload[0] == CommId::GetValues.byte()
}

/// The values at their places in the reply. Bytes 29 to 52 and 59 to 64 are reserved.
pub open spec fn values_of(payload: Seq<u8>) -> MotorValues {
    MotorValues {
        mos_temp_tenths_c: i16_at(payload, 1),
        motor_temp_tenths_c: i16_at(payload, 3),
        output_current_centi_a: i32_at(payload, 5),
        input_current_centi_a: i32_at(payload, 9),
        id_current_centi_a: i32_at(payload, 13),
        iq_current_centi_a: i32_at(payload, 17),
        duty_thousandths: i16_at(payload, 21),
        speed_erpm: i32_at(payload, 23),
        input_voltage_tenths_v: i16_at(payload, 27),
        fault_code: payload[53],
        position_milli_deg: i32_at(payload, 54),
        motor_id: payload[58],
        vd_milli_v: i32_at(payload, 65),
        vq_milli_v: i32_at(payload, 69),
    }
}

/// Reads a 16-bit integer and moves behind it.
pub fn get_i16(buf: &[u8], idx: &mut usize) -> (value: i16)
    requires
        *old(idx) + 2 <= buf@.len(),
    ensures
        value == i16_at(buf@, *old(idx) as int),
        *final(idx) == *old(idx) + 2,
{
    let value: i16 = read_i16(buf, *idx);
    assert(*idx + 2 <= buf.len());
    *idx = *idx + 2;
    value
}

/// Reads a 32-bit integer and moves behind it.
pub fn get_i32(buf: &[u8], idx: &mut usize) -> (value: i32)
    requires
        *old(idx) + 4 <= buf@.len(),
    ensures
        value == i32_at(buf@, *old(idx) as int),
        *final(idx) == *old(idx) + 4,
{
    let value: i32 = read_i32(buf, *idx);
    assert(*idx + 4 <= buf.len());
    *idx = *idx + 4;
    value
}

/// Reads a payload, with its leading identifier, as the reply to `get_values`, if it is that.
pub fn parse_get_values(payload: &[u8]) -> (values: Option<MotorValues>)
    ensures
        values == (if is_values(payload@) {
            Some(values_of(payload@))
        } else {
            None
        }),
{
    if payload.len() < VALUES_LEN || payload[0] != CommId::GetValues.to_byte() {
        return None;
    }
    let mut i: usize = 1;
    let mos_temp_tenths_c: i16 = get_i16(payload, &mut i);
    let motor_temp_tenths_c: i16 = get_i16(payload, &mut i);
    let output_current_centi_a: i32 = get_i32(payload, &mut i);
    let input_current_centi_a: i32 = get_i32(payload, &mut i);
    let id_current_centi_a: i32 = get_i32(payload, &mut i);
    let iq_current_centi_a: i32 = get_i32(payload, &mut i);
    let duty_thousandths: i16 = get_i16(payload, &mut i);
    let speed_erpm: i32 = get_i32(payload, &mut i);
    let input_voltage_tenths_v: i16 = get_i16(payload, &mut i);
    i = i + 24;
    let fault_code: u8 = payload[i];
    i = i + 1;
    let position_milli_deg: i32 = get_i32(payload, &mut i);
    let motor_id: u8 = payload[i];
    i = i + 1;
    i = i + 6;
    let vd_milli_v: i32 = get_i32(payload, &mut i);
    let vq_milli_v: i32 = get_i32(payload, &mut i);
    Some(
        MotorValues {
            mos_temp_tenths_c,
            motor_temp_tenths_c,
            output_current_centi_a,
            input_current_centi_a,
            id_current_centi_a,
            iq_current_centi_a,
            duty_thousandths,
            speed_erpm,
            input_voltage_tenths_v,
            fault_code,
            position_milli_deg,
            motor_id,
            vd_milli_v,
            vq_milli_v,
        },
    )
}

/// The bytes of a reply that carries `values`, with some reserved bytes.
pub open spec fn values_payload(
    values: MotorValues,
    reserved1: Seq<u8>,
    reserved2: Seq<u8>,
) -> Seq<u8> {
    seq![CommId::GetValues.byte()] + i16_wire(values.mos_temp_tenths_c) + i16_wire(
        values.motor_temp_tenths_c,
    ) + i32_wire(values.output_current_centi_a) + i32_wire(values.input_current_centi_a) + i32_wire(
        values.id_current_centi_a,
    ) + i32_wire(values.iq_current_centi_a) + i16_wire(values.duty_thousandths) + i32_wire(
        values.speed_erpm,
    ) + i16_wire(values.input_voltage_tenths_v) + reserved1 + seq![values.fault_code] + i32_wire(
        values.position_milli_deg,
    ) + seq![values.motor_id] + reserved2 + i32_wire(values.vd_milli_v) + i32_wire(
        values.vq_milli_v,
    )
}

/// The values that a driver puts into its reply are the values that are read from it, whatever
/// the reserved bytes hold and whatever follows.
pub proof fn lemma_values_round_trip(
    values: MotorValues,
    reserved1: Seq<u8>,
    reserved2: Seq<u8>,
    rest: Seq<u8>,
)
    requires
        reserved1.len() == 24,
        reserved2.len() == 6,
    ensures
        is_values(values_payload(values, reserved1, reserved2) + rest),
        values_of(values_payload(values, reserved1, reserved2) + rest) == values,
{
    let p = values_payload(values, reserved1, reserved2) + rest;
    assert(p.subrange(1, 3) =~= i16_wire(values.mos_temp_tenths_c));
    assert(p.subrange(3, 5) =~= i16_wire(values.motor_temp_tenths_c));
    assert(p.subrange(5, 9) =~= i32_wire(values.output_current_centi_a));
    assert(p.subrange(9, 13) =~= i32_wire(values.input_current_centi_a));
    assert(p.subrange(13, 17) =~= i32_wire(values.id_current_centi_a));
    assert(p.subrange(17, 21) =~= i32_wire(values.iq_current_centi_a));
    assert(p.subrange(21, 23) =~= i16_wire(values.duty_thousandths));
    assert(p.subrange(23, 27) =~= i32_wire(values.speed_erpm));
    assert(p.subrange(27, 29) =~= i16_wire(values.input_voltage_tenths_v));
    assert(p.subrange(54, 58) =~= i32_wire(values.position_milli_deg));
    assert(p.subrange(65, 69) =~= i32_wire(values.vd_milli_v));
    assert(p.subrange(69, 73) =~= i32_wire(values.vq_milli_v));
    lemma_i16_found(p, 1, values.mos_temp_tenths_c);
    lemma_i16_found(p, 3, values.motor_temp_tenths_c);
    lemma_i32_found(p, 5, values.output_current_centi_a);
    lemma_i32_found(p, 9, values.input_current_centi_a);
    lemma_i32_found(p, 13, values.id_current_centi_a);
    lemma_i32_found(p, 17, values.iq_current_centi_a);
    lemma_i16_found(p, 21, values.duty_thousandths);
    lemma_i32_found(p, 23, values.speed_erpm);
    lemma_i16_found(p, 27, values.input_voltage_tenths_v);
    lemma_i32_found(p, 54, values.position_milli_deg);
    lemma_i32_found(p, 65, values.vd_milli_v);
    lemma_i32_found(p, 69, values.vq_milli_v);
}

proof fn lemma_i32_found(buf: Seq<u8>, at: int, value: i32)
    requires
        0 <= at,
        at + 4 <= buf.len(),
        buf.subrange(at, at + 4) == i32_wire(value),
    ensures
        i32_at(buf, at) == value,
{
    lemma_i32_round_trip(buf.take(at), value, buf.skip(at + 4));
    assert(buf.take(at) + i32_wire(value) + buf.skip(at + 4) =~= buf);
}

proof fn lemma_i16_found(buf: Seq<u8>, at: int, value: i16)
    requires
        0 <= at,
        at + 2 <= buf.len(),
        buf.subrange(at, at + 2) == i16_wire(value),
    ensures
        i16_at(buf, at) == value,
{
    lemma_i16_round_trip(buf.take(at), value, buf.skip(at + 2));
    assert(buf.take(at) + i16_wire(value) + buf.skip(at + 2) =~= buf);
}

/// No payload is both a reply with values and console text.
pub proof fn lemma_reply_kinds_are_disjoint(payload: Seq<u8>)
    ensures
        !(is_values(payload) && is_print(payload)),
{
}

/// The name of a fault code.
pub open spec fn fault_name(code: u8) -> Seq<char> {
    match code {
        0 => "None"@,
        1 => "Over voltage"@,
        2 => "Under voltage"@,
        3 => "Driver fault"@,
        4 => "Motor over-current"@,
        5 => "MOS over-temperature"@,
        6 => "Motor over-temperature"@,
        7 => "Driver gate over-voltage"@,
        8 => "Driver gate under-voltage"@,
        9 => "MCU under-voltage"@,
        10 => "Booting from watchdog reset"@,
        11 => "Encoder SPI fault"@,
        12 => "Encoder sin/cos below min amplitude"@,
        13 => "Encoder sin/cos above max amplitude"@,
        14 => "Flash corruption"@,
        15 => "Current sensor 1 offset fault"@,
        16 => "Current sensor 2 offset fault"@,
        17 => "Current sensor 3 offset fault"@,
        18 => "Unbalanced currents"@,
        _ => "Unknown"@,
    }
}

/// Returns the name of a fault code.
pub fn fault_code_name(code: u8) -> (name: &'static str)
    ensures
        name@ == fault_name(code),
{
    match code {
        0 => "None",
        1 => "Over voltage",
        2 => "Under voltage",
        3 => "Driver fault",
        4 => "Motor over-current",
        5 => "MOS over-temperature",
        6 => "Motor over-temperature",
        7 => "Driver gate over-voltage",
        8 => "Driver gate under-voltage",
        9 => "MCU under-voltage",
        10 => "Booting from watchdog reset",
        11 => "Encoder SPI fault",
        12 => "Encoder sin/cos below min amplitude",
        13 => "Encoder sin/cos above max amplitude",
        14 => "Flash corruption",
        15 => "Current sensor 1 offset fault",
        16 => "Current sensor 2 offset fault",
        17 => "Current sensor 3 offset fault",
        18 => "Unbalanced currents",
        _ => "Unknown",
    }
}

/// The bytes of the identifiers.
pub proof fn lemma_comm_id_bytes()
    ensures
        CommId::FwVersion.byte() == 0,
        CommId::JumpToBootloader.byte() == 1,
        CommId::EraseNewApp.byte() == 2,
        CommId::WriteNewAppData.byte() == 3,
        CommId::GetValues.byte() == 4,
        CommId::SetDuty.byte() == 5,
        CommId::SetCurrent.byte() == 6,
        CommId::SetCurrentBrake.byte() == 7,
        CommId::SetRpm.byte() == 8,
        CommId::SetPos.byte() == 9,
        CommId::SetHandbrake.byte() == 10,
        CommId::SetDetect.byte() == 11,
        CommId::TerminalCmd.byte() == 20,
        CommId::Print.byte() == 21,
        CommId::RotorPosition.byte() == 22,
        CommId::GetValuesSetup.byte() == 50,
        CommId::SetPosSpd.byte() == 91,
        CommId::SetPosMulti.byte() == 92,
        CommId::SetPosSingle.byte() == 93,
        CommId::SetPosUnlimited.byte() == 94,
        CommId::SetPosOrigin.byte() == 95,
{
}

/// A command with one value is its identifier and then the value, from which the value is read
/// back whatever it is.
pub proof fn lemma_value_payload_round_trip(id: CommId, value: i32)
    ensures
        ({
            let p = value_payload(id, value);
            p.len() == 5 && p[0] == id.byte() && i32_at(p, 1) == value
        }),
{
    let empty = Seq::<u8>::empty();
    lemma_i32_round_trip(seq![id.byte()], value, empty);
    assert(seq![id.byte()] + i32_wire(value) + empty =~= value_payload(id, value));
}

/// A position-velocity command gives back its three numbers, whatever they are.
pub proof fn lemma_pos_spd_payload_round_trip(millidegrees: i32, erpm: i32, accel: i32)
    ensures
        ({
            let p = pos_spd_payload(millidegrees, erpm, accel);
            &&& p.len() == 13
            &&& p[0] == 91
            &&& i32_at(p, 1) == millidegrees
            &&& i32_at(p, 5) == erpm
            &&& i32_at(p, 9) == accel
        }),
{
    let p = pos_spd_payload(millidegrees, erpm, accel);
    assert(p.subrange(1, 5) =~= i32_wire(millidegrees));
    assert(p.subrange(5, 9) =~= i32_wire(erpm));
    assert(p.subrange(9, 13) =~= i32_wire(accel));
    lemma_i32_found(p, 1, millidegrees);
    lemma_i32_found(p, 5, erpm);
    lemma_i32_found(p, 9, accel);
}

/// An origin command is two bytes, the second of which tells a permanent origin from another; a
/// console command is one byte and then the text, from which the text is decoded again.
pub proof fn lemma_other_payloads(permanent: bool, text: Seq<char>)
    ensures
        origin_payload(permanent).len() == 2,
        origin_payload(permanent)[0] == 95,
        permanent ==> origin_payload(permanent)[1] == 1,
        !permanent ==> origin_payload(permanent)[1] == 0,
        terminal_payload(text)[0] == 20,
        terminal_payload(text).skip(1) == encode_utf8(text),
        decode_utf8(terminal_payload(text).skip(1)) == text,
{
    assert(terminal_payload(text).skip(1) =~= encode_utf8(text));
    encode_utf8_decode_utf8(text);
}

/// Console text is what has 21 as its first byte. Its characters are decoded where they can be, and
/// handed to the lossy decoder where they cannot.
pub proof fn lemma_print_is_recognised(payload: Seq<u8>, bytes: Seq<u8>)
    ensures
        is_print(payload) <==> payload.len() >= 1 && payload[0] == 21,
        valid_utf8(bytes) ==> text_of(bytes) == decode_utf8(bytes),
        !valid_utf8(bytes) ==> text_of(bytes) == utf8_lossy(bytes),
{
}

/// A reply with values is what has 4 as its first byte and at least 73 bytes, and each value is
/// the big-endian number at its own place.
pub proof fn lemma_values_are_at_their_places(p: Seq<u8>)
    ensures
        is_values(p) <==> p.len() >= 73 && p[0] == 4,
        ({
            let v = values_of(p);
            &&& v.mos_temp_tenths_c == i16_at(p, 1)
            &&& v.motor_temp_tenths_c == i16_at(p, 3)
            &&& v.output_current_centi_a == i32_at(p, 5)
            &&& v.input_current_centi_a == i32_at(p, 9)
            &&& v.id_current_centi_a == i32_at(p, 13)
            &&& v.iq_current_centi_a == i32_at(p, 17)
            &&& v.duty_thousandths == i16_at(p, 21)
            &&& v.speed_erpm == i32_at(p, 23)
            &&& v.input_voltage_tenths_v == i16_at(p, 27)
            &&& v.fault_code == p[53]
            &&& v.position_milli_deg == i32_at(p, 54)
            &&& v.motor_id == p[58]
            &&& v.vd_milli_v == i32_at(p, 65)
            &&& v.vq_milli_v == i32_at(p, 69)
        }),
{
}

/// The name of every fault code.
pub proof fn lemma_fault_names(code: u8)
    ensures
        code == 0 ==> fault_name(code) == "None"@,
        code == 1 ==> fault_name(code) == "Over voltage"@,
        code == 2 ==> fault_name(code) == "Under voltage"@,
        code == 3 ==> fault_name(code) == "Driver fault"@,
        code == 4 ==> fault_name(code) == "Motor over-current"@,
        code == 5 ==> fault_name(code) == "MOS over-temperature"@,
        code == 6 ==> fault_name(code) == "Motor over-temperature"@,
        code == 7 ==> fault_name(code) == "Driver gate over-voltage"@,
        code == 8 ==> fault_name(code) == "Driver gate under-voltage"@,
        code == 9 ==> fault_name(code) == "MCU under-voltage"@,
        code == 10 ==> fault_name(code) == "Booting from watchdog reset"@,
        code == 11 ==> fault_name(code) == "Encoder SPI fault"@,
        code == 12 ==> fault_name(code) == "Encoder sin/cos below min amplitude"@,
        code == 13 ==> fault_name(code) == "Encoder sin/cos above max amplitude"@,
        code == 14 ==> fault_name(code) == "Flash corruption"@,
        code == 15 ==> fault_name(code) == "Current sensor 1 offset fault"@,
        code == 16 ==> fault_name(code) == "Current sensor 2 offset fault"@,
        code == 17 ==> fault_name(code) == "Current sensor 3 offset fault"@,
        code == 18 ==> fault_name(code) == "Unbalanced currents"@,
        code > 18 ==> fault_name(code) == "Unknown"@,
{
}

/// The wire units of every quantity.
pub proof fn lemma_serial_scales()
    ensures
        DUTY_SCALE == 100_000,
        CURRENT_SCALE == 1_000,
        POSITION_SCALE == 1_000_000,
        POS_SPD_SCALE == 1_000,
        REPLY_TEMPERATURE_SCALE == 10,
        REPLY_CURRENT_SCALE == 100,
        REPLY_DUTY_SCALE == 1_000,
        REPLY_INPUT_VOLTAGE_SCALE == 10,
        REPLY_POSITION_SCALE == 1_000,
        REPLY_DQ_VOLTAGE_SCALE == 1_000,
{
}

/// The ten bytes are a frame around an identifier and a big-endian value.
pub open spec fn carries(frame: Seq<u8>, id: u8, value: i32) -> bool {
    &&& frame.len() == 10
    &&& frame[0] == 0x02
    &&& frame[1] == 5
    &&& frame[2] == id
    &&& i32_at(frame, 3) == value
    &&& frame[7] * 256 + frame[8] == crc16_spec(frame.subrange(2, 7))
    &&& frame[9] == 0x03
}

proof fn lemma_value_frame(id: CommId, value: i32)
    ensures
        carries(frame_of(value_payload(id, value)), id.byte(), value),
{
    let p = value_payload(id, value);
    let f = frame_of(p);
    lemma_frame_bytes(p);
    assert(f.subrange(2, 7) =~= p);
    assert(f.subrange(3, 7) =~= i32_wire(value)) by {
        assert forall|j: int| 0 <= j < 4 implies f.subrange(3, 7)[j] == i32_wire(value)[j] by {
            assert(f[j + 3] == p[j + 1]);
        }
    }
    lemma_i32_found(f, 3, value);
}

/// Every command with one value sends that value, whatever it is, behind its own identifier.
pub proof fn lemma_value_commands(value: i32, frame: Vec<u8>)
    ensures
        call_ensures(set_duty, (value,), frame) ==> carries(frame@, 5, value),
        call_ensures(set_current, (value,), frame) ==> carries(frame@, 6, value),
        call_ensures(set_current_brake, (value,), frame) ==> carries(frame@, 7, value),
        call_ensures(set_rpm, (value,), frame) ==> carries(frame@, 8, value),
        call_ensures(set_pos, (value,), frame) ==> carries(frame@, 9, value),
        call_ensures(set_handbrake, (value,), frame) ==> carries(frame@, 10, value),
        call_ensures(set_pos_multi_loop, (), frame) ==> carries(frame@, 92, 0),
        call_ensures(set_pos_single_loop, (), frame) ==> carries(frame@, 93, 0),
{
    lemma_value_frame(CommId::SetDuty, value);
    lemma_value_frame(CommId::SetCurrent, value);
    lemma_value_frame(CommId::SetCurrentBrake, value);
    lemma_value_frame(CommId::SetRpm, value);
    lemma_value_frame(CommId::SetPos, value);
    lemma_value_frame(CommId::SetHandbrake, value);
    lemma_value_frame(CommId::SetPosMulti, 0);
    lemma_value_frame(CommId::SetPosSingle, 0);
}

/// A position-velocity command is delivered by a parser with the three numbers that it was made
/// from.
pub proof fn lemma_pos_spd_command(millidegrees: i32, erpm: i32, accel: i32, frame: Vec<u8>)
    requires
        call_ensures(set_pos_spd, (millidegrees, erpm, accel), frame),
    ensures
        extract(frame@).0 matches Some(p) && p.len() == 13 && p[0] == 91 && i32_at(p, 1)
            == millidegrees && i32_at(p, 5) == erpm && i32_at(p, 9) == accel,
{
    lemma_pos_spd_payload_round_trip(millidegrees, erpm, accel);
    lemma_delivered(pos_spd_payload(millidegrees, erpm, accel));
}

/// An origin command is a frame around its two bytes.
pub proof fn lemma_origin_command(permanent: bool, frame: Vec<u8>)
    requires
        call_ensures(set_origin, (permanent,), frame),
    ensures
        ({
            let f = frame@;
            let p = seq![
                95u8,
                if permanent {
                    1u8
                } else {
                    0u8
                },
            ];
            let n = p.len() as int;
            &&& f.len() == n + 5
            &&& f[0] == 0x02 && f[1] == n && f[4 + n] == 0x03
            &&& f.subrange(2, 2 + n) == p
            &&& f[2 + n] * 256 + f[3 + n] == crc16_spec(p)
        }),
{
    lemma_frame_bytes(origin_payload(permanent));
}

/// A request for values is a frame around its one byte.
pub proof fn lemma_get_values_command(frame: Vec<u8>)
    requires
        call_ensures(get_values, (), frame),
    ensures
        ({
            let f = frame@;
            let p = seq![4u8];
            let n = p.len() as int;
            &&& f.len() == n + 5
            &&& f[0] == 0x02 && f[1] == n && f[4 + n] == 0x03
            &&& f.subrange(2, 2 + n) == p
            &&& f[2 + n] * 256 + f[3 + n] == crc16_spec(p)
        }),
{
    lemma_frame_bytes(seq![4u8]);
}

/// A console command of up to 254 bytes is a frame around its identifier and its text.
pub proof fn lemma_terminal_command(text: &str, frame: Vec<u8>)
    requires
        call_ensures(terminal_cmd, (text,), frame),
        encode_utf8(text@).len() <= 254,
    ensures
        ({
            let f = frame@;
            let p = seq![20u8] + encode_utf8(text@);
            let n = p.len() as int;
            &&& f.len() == n + 5
            &&& f[0] == 0x02 && f[1] == n && f[4 + n] == 0x03
            &&& f.subrange(2, 2 + n) == p
            &&& f[2 + n] * 256 + f[3 + n] == crc16_spec(p)
        }),
{
    lemma_frame_bytes(terminal_payload(text@));
}

proof fn lemma_delivered(payload: Seq<u8>)
    requires
        payload.len() <= 255,
    ensures
        extract(frame_of(payload)).0 == Some(payload),
{
    let empty = Seq::<u8>::empty();
    lemma_frame_round_trip(payload, empty);
    assert(frame_of(payload) + empty =~= frame_of(payload));
}

/// What reading a reply gives: values for a long enough payload with 4 in front, text for one with
/// 21 in front, and nothing for any other; and each fault code's name.
pub proof fn lemma_reading_replies(
    payload: &[u8],
    values: Option<MotorValues>,
    text: Option<String>,
    id: CommId,
    byte: u8,
    name: &'static str,
)
    ensures
        call_ensures(parse_get_values, (payload,), values) ==> {
            &&& values is Some <==> payload@.len() >= 73 && payload@[0] == 4
            &&& values matches Some(v) ==> v == values_of(payload@)
        },
        call_ensures(parse_print, (payload,), text) ==> {
            &&& text is Some <==> payload@.len() >= 1 && payload@[0] == 21
            &&& text matches Some(t) ==> t@ == text_of(payload@.skip(1))
        },
        call_ensures(fault_code_name, (byte,), name) ==> name@ == fault_name(byte),
        call_ensures(CommId::to_byte, (id,), byte) ==> byte == id.byte(),
{
}

/// Reading one number after another: each read gives the number at the index and moves the index
/// behind it.
pub proof fn lemma_reading_in_turn(buf: &[u8], idx: &mut usize, wide: i32, narrow: i16)
    ensures
        call_ensures(get_i16, (buf, idx), narrow) ==> narrow == i16_at(buf@, *old(idx) as int)
            && *final(idx) == *old(idx) + 2,
        call_ensures(get_i32, (buf, idx), wide) ==> wide == i32_at(buf@, *old(idx) as int)
            && *final(idx) == *old(idx) + 4,
{
}

} // verus!
