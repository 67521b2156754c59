//! The MIT-mode CAN protocol: position, velocity, gains and torque as fixed-point codes packed into
//! eight data bytes under a standard identifier.

use vstd::arithmetic::power2::lemma2_to64;
use vstd::prelude::*;
use crate::single::{lemma_magnitude_is_positive, lemma_negation, lemma_tenths, Single};

verus! {

/// Makes the driver accept commands.
pub const ENTER_MOTOR_MODE: [u8; 8] = [0xFF, 0xFF, 0xFF, 0xFF, 0xFF, 0xFF, 0xFF, 0xFC];

/// Makes the driver stop accepting commands.
pub const EXIT_MOTOR_MODE: [u8; 8] = [0xFF, 0xFF, 0xFF, 0xFF, 0xFF, 0xFF, 0xFF, 0xFD];

/// Makes the current position the zero position.
pub const SET_ZERO_POSITION: [u8; 8] = [0xFF, 0xFF, 0xFF, 0xFF, 0xFF, 0xFF, 0xFF, 0xFE];

/// The width of a position code.
pub const POSITION_BITS: u32 = 16;

/// The width of every other code.
pub const FIELD_BITS: u32 = 12;

/// The largest position code.
pub const POSITION_CODE_MAX: u32 = 0xFFFF;

/// The largest code of every other field.
pub const FIELD_CODE_MAX: u32 = 0xFFF;

/// The parameter ranges of a motor model: position in rad, velocity in rad/s, torque in N m, and
/// the two gains.
#[derive(Clone, Copy, Debug)]
pub struct MotorLimits {
    pub name: &'static str,
    pub p_min: Single,
    pub p_max: Single,
    pub v_min: Single,
    pub v_max: Single,
    pub t_min: Single,
    pub t_max: Single,
    pub kp_min: Single,
    pub kp_max: Single,
    pub kd_min: Single,
    pub kd_max: Single,
}

impl MotorLimits {
    /// Every range is a proper one, and position, velocity and torque reach equally far both ways.
    pub open spec fn wf(self) -> bool {
        &&& is_range(self.p_min, self.p_max)
        &&& is_range(self.v_min, self.v_max)
        &&& is_range(self.t_min, self.t_max)
        &&& is_range(self.kp_min, self.kp_max)
        &&& is_range(self.kd_min, self.kd_max)
        &&& self.p_min == self.p_max.negated_spec()
        &&& self.v_min == self.v_max.negated_spec()
        &&& self.t_min == self.t_max.negated_spec()
    }
}

/// Two finite numbers, the first below the second.
pub open spec fn is_range(min: Single, max: Single) -> bool {
    min.is_finite() && max.is_finite() && min.value() < max.value()
}

/// The bit pattern of 12.5, the end of the position range.
pub const POSITION_END_BITS: u32 = 0x4148_0000;

/// The bit pattern of 500, the end of the range of the position gain.
pub const KP_END_BITS: u32 = 0x43FA_0000;

/// The bit pattern of 5, the end of the range of the velocity gain.
pub const KD_END_BITS: u32 = 0x40A0_0000;

/// The ranges of a model with the given velocity and torque limits. Position reaches 12.5 rad both
/// ways, the gains go from 0 to 500 and from 0 to 5.
pub open spec fn limits_of(name: &'static str, v_abs: Single, t_abs: Single) -> MotorLimits {
    MotorLimits {
        name,
        p_min: (Single { bits: POSITION_END_BITS }).negated_spec(),
        p_max: Single { bits: POSITION_END_BITS },
        v_min: v_abs.negated_spec(),
        v_max: v_abs,
        t_min: t_abs.negated_spec(),
        t_max: t_abs,
        kp_min: Single::zero_spec(),
        kp_max: Single { bits: KP_END_BITS },
        kd_min: Single::zero_spec(),
        kd_max: Single { bits: KD_END_BITS },
    }
}

fn lim(name: &'static str, v_abs: Single, t_abs: Single) -> (limits: MotorLimits)
    ensures
        limits == limits_of(name, v_abs, t_abs),
{
    MotorLimits {
        name,
        p_min: (Single { bits: POSITION_END_BITS }).negated(),
        p_max: Single { bits: POSITION_END_BITS },
        v_min: v_abs.negated(),
        v_max: v_abs,
        t_min: t_abs.negated(),
        t_max: t_abs,
        kp_min: Single::zero(),
        kp_max: Single { bits: KP_END_BITS },
        kd_min: Single::zero(),
        kd_max: Single { bits: KD_END_BITS },
    }
}

/// The number of motor models with known ranges.
pub const MOTOR_PRESET_COUNT: usize = 10;

/// The known motor models.
pub open spec fn preset_of(index: int) -> MotorLimits {
    if index == 0 {
        limits_of("AK10-9", Single { bits: 0x4248_0000 }, Single { bits: 0x4282_0000 })
    } else if index == 1 {
        limits_of("AK60-6", Single { bits: 0x4234_0000 }, Single { bits: 0x4170_0000 })
    } else if index == 2 {
        limits_of("AK70-10", Single { bits: 0x4248_0000 }, Single { bits: 0x41C8_0000 })
    } else if index == 3 {
        limits_of("AK80-6", Single { bits: 0x4298_0000 }, Single { bits: 0x4140_0000 })
    } else if index == 4 {
        limits_of("AK80-9", Single { bits: 0x4248_0000 }, Single { bits: 0x4190_0000 })
    } else if index == 5 {
        limits_of("AK80-64", Single { bits: 0x4100_0000 }, Single { bits: 0x4310_0000 })
    } else if index == 6 {
        limits_of("AK80-8", Single { bits: 0x4216_0000 }, Single { bits: 0x4200_0000 })
    } else if index == 7 {
        limits_of("AK45-36", Single { bits: 0x40C0_0000 }, Single { bits: 0x4208_0000 })
    } else if index == 8 {
        limits_of("AK45-10", Single { bits: 0x41A0_0000 }, Single { bits: 0x4100_0000 })
    } else {
        limits_of("AK40-10", Single { bits: 0x4236_0000 }, Single { bits: 0x40A0_0000 })
    }
}

/// Returns a known motor model's ranges.
pub fn motor_preset(index: usize) -> (limits: MotorLimits)
    requires
        index < MOTOR_PRESET_COUNT,
    ensures
        limits == preset_of(index as int),
        limits.wf(),
{
    proof {
        lemma_presets_are_well_formed(index as int);
    }
    match index {
        0 => lim("AK10-9", Single { bits: 0x4248_0000 }, Single { bits: 0x4282_0000 }),
        1 => lim("AK60-6", Single { bits: 0x4234_0000 }, Single { bits: 0x4170_0000 }),
        2 => lim("AK70-10", Single { bits: 0x4248_0000 }, Single { bits: 0x41C8_0000 }),
        3 => lim("AK80-6", Single { bits: 0x4298_0000 }, Single { bits: 0x4140_0000 }),
        4 => lim("AK80-9", Single { bits: 0x4248_0000 }, Single { bits: 0x4190_0000 }),
        5 => lim("AK80-64", Single { bits: 0x4100_0000 }, Single { bits: 0x4310_0000 }),
        6 => lim("AK80-8", Single { bits: 0x4216_0000 }, Single { bits: 0x4200_0000 }),
        7 => lim("AK45-36", Single { bits: 0x40C0_0000 }, Single { bits: 0x4208_0000 }),
        8 => lim("AK45-10", Single { bits: 0x41A0_0000 }, Single { bits: 0x4100_0000 }),
        _ => lim("AK40-10", Single { bits: 0x4236_0000 }, Single { bits: 0x40A0_0000 }),
    }
}

/// The fixed-point codes of a control command, before they are limited to their fields' widths.
#[derive(Clone, Copy, Debug, PartialEq, Eq, Structural)]
pub struct MitCodes {
    pub position: u32,
    pub velocity: u32,
    pub kp: u32,
    pub kd: u32,
    pub torque: u32,
}

/// `code`, but no more than `max`.
pub open spec fn capped(code: u32, max: u32) -> int {
    if code > max {
        max as int
    } else {
        code as int
    }
}

/// Limits a code to `max`.
fn cap(code: u32, max: u32) -> (out: u32)
    ensures
        out == capped(code, max),
{
    if code > max {
        max
    } else {
        code
    }
}

/// The data bytes of a control command: 16 bits of position, then 12 bits each of velocity, the
/// two gains and torque, most significant bits first.
pub open spec fn packed(codes: MitCodes) -> Seq<u8> {
    let p = capped(codes.position, POSITION_CODE_MAX);
    let v = capped(codes.velocity, FIELD_CODE_MAX);
    let kp = capped(codes.kp, FIELD_CODE_MAX);
    let kd = capped(codes.kd, FIELD_CODE_MAX);
    let t = capped(codes.torque, FIELD_CODE_MAX);
    seq![
        (p / 256) as u8,
        (p % 256) as u8,
        (v / 16) as u8,
        (v % 16 * 16 + kp / 256) as u8,
        (kp % 256) as u8,
        (kd / 16) as u8,
        (kd % 16 * 16 + t / 256) as u8,
        (t % 256) as u8,
    ]
}

/// Packs a control command into its data bytes.
pub fn pack_cmd(codes: &MitCodes) -> (data: [u8; 8])
    ensures
        data@ == packed(*codes),
{
    let p: u32 = cap(codes.position, POSITION_CODE_MAX);
    let v: u32 = cap(codes.velocity, FIELD_CODE_MAX);
    let kp: u32 = cap(codes.kp, FIELD_CODE_MAX);
    let kd: u32 = cap(codes.kd, FIELD_CODE_MAX);
    let t: u32 = cap(codes.torque, FIELD_CODE_MAX);
    let data: [u8; 8] = [
        (p / 256) as u8,
        (p % 256) as u8,
        (v / 16) as u8,
        (v % 16 * 16 + kp / 256) as u8,
        (kp % 256) as u8,
        (kd / 16) as u8,
        (kd % 16 * 16 + t / 256) as u8,
        (t % 256) as u8,
    ];
    assert(data@ =~= packed(*codes));
    data
}

/// A fixed-point reading: `code` counts from `min` at 0 to `max` at the largest code of its width.
#[derive(Clone, Copy, Debug, Default, PartialEq, Eq, Structural)]
pub struct Reading {
    pub code: u32,
    pub bits: u32,
    pub min: Single,
    pub max: Single,
}

impl Reading {
    /// The largest code.
    pub open spec fn code_max(self) -> int {
        if self.bits == POSITION_BITS {
            POSITION_CODE_MAX as int
        } else {
            FIELD_CODE_MAX as int
        }
    }

    /// The reading's exact value times its largest code, in the unit of `Single::value`.
    pub open spec fn scaled_value(self) -> int {
        self.code * (self.max.value() - self.min.value()) + self.min.value() * self.code_max()
    }
}

/// A decoded feedback frame.
#[derive(Clone, Copy, Debug, Default, PartialEq, Eq, Structural)]
pub struct MitFeedback {
    pub driver_id: u8,
    /// In rad.
    pub position: Reading,
    /// In rad/s.
    pub speed: Reading,
    /// In N m.
    pub torque: Reading,
    pub temperature_c: i16,
    pub error: u8,
}

/// The feedback at its place in the data: 8 bits of driver id, 16 of position, 12 of speed, 12 of
/// torque, 8 of temperature offset by 40, 8 of error code.
pub open spec fn feedback_of(limits: MotorLimits, data: Seq<u8>) -> MitFeedback {
    MitFeedback {
        driver_id: data[0],
        position: Reading {
            code: (data[1] * 256 + data[2]) as u32,
            bits: POSITION_BITS,
            min: limits.p_min,
            max: limits.p_max,
        },
        speed: Reading {
            code: (data[3] * 16 + data[4] as int / 16) as u32,
            bits: FIELD_BITS,
            min: limits.v_min,
            max: limits.v_max,
        },
        torque: Reading {
            code: (data[4] as int % 16 * 256 + data[5]) as u32,
            bits: FIELD_BITS,
            min: limits.t_max.negated_spec(),
            max: limits.t_max,
        },
        temperature_c: (data[6] - 40) as i16,
        error: data[7],
    }
}

/// Decodes the feedback frame that the driver sends in MIT mode.
pub fn unpack_reply(limits: &MotorLimits, data: &[u8; 8]) -> (feedback: MitFeedback)
    ensures
        feedback == feedback_of(*limits, data@),
{
    MitFeedback {
        driver_id: data[0],
        position: Reading {
            code: data[1] as u32 * 256 + data[2] as u32,
            bits: POSITION_BITS,
            min: limits.p_min,
            max: limits.p_max,
        },
        speed: Reading {
            code: data[3] as u32 * 16 + data[4] as u32 / 16,
            bits: FIELD_BITS,
            min: limits.v_min,
            max: limits.v_max,
        },
        torque: Reading {
            code: data[4] as u32 % 16 * 256 + data[5] as u32,
            bits: FIELD_BITS,
            min: limits.t_max.negated(),
            max: limits.t_max,
        },
        temperature_c: data[6] as i16 - 40,
        error: data[7],
    }
}

/// Every known model has proper ranges.
pub proof fn lemma_presets_are_well_formed(index: int)
    requires
        0 <= index < MOTOR_PRESET_COUNT,
    ensures
        preset_of(index).wf(),
{
    let l = preset_of(index);
    lemma_negation(l.p_max);
    lemma_negation(l.v_max);
    lemma_negation(l.t_max);
    lemma_magnitude_is_positive(l.p_max);
    lemma_magnitude_is_positive(l.v_max);
    lemma_magnitude_is_positive(l.t_max);
    lemma_magnitude_is_positive(l.kp_max);
    lemma_magnitude_is_positive(l.kd_max);
}

/// The numbers of the known models: 12.5 rad, gains up to 500 and 5, and each model's velocity and
/// torque limits, in tenths.
pub proof fn lemma_preset_values(index: int)
    requires
        0 <= index < MOTOR_PRESET_COUNT,
    ensures
        ({
            let l = preset_of(index);
            &&& l.p_max.is_tenths(125)
            &&& l.kp_max.is_tenths(5000)
            &&& l.kd_max.is_tenths(50)
            &&& index == 0 ==> l.v_max.is_tenths(500) && l.t_max.is_tenths(650)
            &&& index == 1 ==> l.v_max.is_tenths(450) && l.t_max.is_tenths(150)
            &&& index == 2 ==> l.v_max.is_tenths(500) && l.t_max.is_tenths(250)
            &&& index == 3 ==> l.v_max.is_tenths(760) && l.t_max.is_tenths(120)
            &&& index == 4 ==> l.v_max.is_tenths(500) && l.t_max.is_tenths(180)
            &&& index == 5 ==> l.v_max.is_tenths(80) && l.t_max.is_tenths(1440)
            &&& index == 6 ==> l.v_max.is_tenths(375) && l.t_max.is_tenths(320)
            &&& index == 7 ==> l.v_max.is_tenths(60) && l.t_max.is_tenths(340)
            &&& index == 8 ==> l.v_max.is_tenths(200) && l.t_max.is_tenths(80)
            &&& index == 9 ==> l.v_max.is_tenths(455) && l.t_max.is_tenths(50)
        }),
{
    lemma2_to64();
    lemma_tenths(Single { bits: POSITION_END_BITS }, 125, 20);
    lemma_tenths(Single { bits: KP_END_BITS }, 5000, 15);
    lemma_tenths(Single { bits: KD_END_BITS }, 50, 21);
    lemma_tenths(Single { bits: 0x40A0_0000 }, 50, 21);
    lemma_tenths(Single { bits: 0x40C0_0000 }, 60, 21);
    lemma_tenths(Single { bits: 0x4100_0000 }, 80, 20);
    lemma_tenths(Single { bits: 0x4140_0000 }, 120, 20);
    lemma_tenths(Single { bits: 0x4170_0000 }, 150, 20);
    lemma_tenths(Single { bits: 0x4190_0000 }, 180, 19);
    lemma_tenths(Single { bits: 0x41A0_0000 }, 200, 19);
    lemma_tenths(Single { bits: 0x41C8_0000 }, 250, 19);
    lemma_tenths(Single { bits: 0x4200_0000 }, 320, 18);
    lemma_tenths(Single { bits: 0x4208_0000 }, 340, 18);
    lemma_tenths(Single { bits: 0x4216_0000 }, 375, 18);
    lemma_tenths(Single { bits: 0x4234_0000 }, 450, 18);
    lemma_tenths(Single { bits: 0x4236_0000 }, 455, 18);
    lemma_tenths(Single { bits: 0x4248_0000 }, 500, 18);
    lemma_tenths(Single { bits: 0x4282_0000 }, 650, 17);
    lemma_tenths(Single { bits: 0x4298_0000 }, 760, 17);
    lemma_tenths(Single { bits: 0x4310_0000 }, 1440, 16);
}

/// Every field can be read back from a packed command: all codes arrive as they were sent, limited
/// to their fields' widths.
pub proof fn lemma_packed_fields(codes: MitCodes)
    ensures
        ({
            let d = packed(codes);
            &&& d.len() == 8
            &&& d[0] * 256 + d[1] == capped(codes.position, POSITION_CODE_MAX)
            &&& d[2] * 16 + d[3] as int / 16 == capped(codes.velocity, FIELD_CODE_MAX)
            &&& d[3] as int % 16 * 256 + d[4] == capped(codes.kp, FIELD_CODE_MAX)
            &&& d[5] * 16 + d[6] as int / 16 == capped(codes.kd, FIELD_CODE_MAX)
            &&& d[6] as int % 16 * 256 + d[7] == capped(codes.torque, FIELD_CODE_MAX)
        }),
{
}

/// Different commands have different data bytes.
pub proof fn lemma_packed_is_injective(a: MitCodes, b: MitCodes)
    requires
        packed(a) == packed(b),
    ensures
        capped(a.position, POSITION_CODE_MAX) == capped(b.position, POSITION_CODE_MAX),
        capped(a.velocity, FIELD_CODE_MAX) == capped(b.velocity, FIELD_CODE_MAX),
        capped(a.kp, FIELD_CODE_MAX) == capped(b.kp, FIELD_CODE_MAX),
        capped(a.kd, FIELD_CODE_MAX) == capped(b.kd, FIELD_CODE_MAX),
        capped(a.torque, FIELD_CODE_MAX) == capped(b.torque, FIELD_CODE_MAX),
{
    lemma_packed_fields(a);
    lemma_packed_fields(b);
}

/// A control command is never taken for a mode switch while one of position, velocity and the two
/// gains stays below its end of scale.
pub proof fn lemma_command_is_no_mode_switch(codes: MitCodes)
    requires
        codes.position < POSITION_CODE_MAX || codes.velocity < FIELD_CODE_MAX || codes.kp
            < FIELD_CODE_MAX || codes.kd < FIELD_CODE_MAX,
    ensures
        packed(codes) != ENTER_MOTOR_MODE@,
        packed(codes) != EXIT_MOTOR_MODE@,
        packed(codes) != SET_ZERO_POSITION@,
{
    lemma_packed_fields(codes);
}

/// A reading lies within the range of its field, and reaches both ends of it.
pub proof fn lemma_readings_are_in_range(limits: MotorLimits, data: Seq<u8>)
    requires
        limits.wf(),
        data.len() == 8,
    ensures
        ({
            let f = feedback_of(limits, data);
            let (p, v, t) = (f.position, f.speed, f.torque);
            &&& limits.p_min.value() * 0xFFFF <= p.scaled_value() <= limits.p_max.value() * 0xFFFF
            &&& limits.v_min.value() * 0xFFF <= v.scaled_value() <= limits.v_max.value() * 0xFFF
            &&& limits.t_min.value() * 0xFFF <= t.scaled_value() <= limits.t_max.value() * 0xFFF
            &&& p.code == 0 ==> p.scaled_value() == limits.p_min.value() * 0xFFFF
            &&& p.code == 0xFFFF ==> p.scaled_value() == limits.p_max.value() * 0xFFFF
            &&& v.code == 0 ==> v.scaled_value() == limits.v_min.value() * 0xFFF
            &&& v.code == 0xFFF ==> v.scaled_value() == limits.v_max.value() * 0xFFF
            &&& t.code == 0 ==> t.scaled_value() == limits.t_min.value() * 0xFFF
            &&& t.code == 0xFFF ==> t.scaled_value() == limits.t_max.value() * 0xFFF
            &&& -40 <= f.temperature_c <= 215
        }),
{
    let f = feedback_of(limits, data);
    let l = limits;
    lemma_interpolation(f.position.code as int, 0xFFFF, l.p_min.value(), l.p_max.value());
    lemma_interpolation(f.speed.code as int, 0xFFF, l.v_min.value(), l.v_max.value());
    lemma_interpolation(f.torque.code as int, 0xFFF, l.t_min.value(), l.t_max.value());
}

proof fn lemma_interpolation(code: int, top: int, min: int, max: int)
    by (nonlinear_arith)
    requires
        0 <= code <= top,
        min <= max,
    ensures
        min * top <= code * (max - min) + min * top <= max * top,
        code == 0 ==> code * (max - min) + min * top == min * top,
        code == top ==> code * (max - min) + min * top == max * top,
{
}

/// A code that fits its field arrives as it is, and one that does not arrives as the field's
/// largest.
pub proof fn lemma_codes_arrive(codes: MitCodes)
    ensures
        ({
            let d = packed(codes);
            let p = d[0] * 256 + d[1];
            let v = d[2] * 16 + d[3] as int / 16;
            let kp = d[3] as int % 16 * 256 + d[4];
            let kd = d[5] * 16 + d[6] as int / 16;
            let t = d[6] as int % 16 * 256 + d[7];
            &&& d.len() == 8
            &&& codes.position <= 0xFFFF ==> p == codes.position
            &&& codes.position > 0xFFFF ==> p == 0xFFFF
            &&& codes.velocity <= 0xFFF ==> v == codes.velocity
            &&& codes.velocity > 0xFFF ==> v == 0xFFF
            &&& codes.kp <= 0xFFF ==> kp == codes.kp
            &&& codes.kp > 0xFFF ==> kp == 0xFFF
            &&& codes.kd <= 0xFFF ==> kd == codes.kd
            &&& codes.kd > 0xFFF ==> kd == 0xFFF
            &&& codes.torque <= 0xFFF ==> t == codes.torque
            &&& codes.torque > 0xFFF ==> t == 0xFFF
        }),
{
    lemma_packed_fields(codes);
}

/// The three mode switches are 0xFF seven times and then 0xFC, 0xFD or 0xFE.
pub proof fn lemma_mode_switches(i: int)
    ensures
        0 <= i < 7 ==> ENTER_MOTOR_MODE@[i] == 0xFF && EXIT_MOTOR_MODE@[i] == 0xFF
            && SET_ZERO_POSITION@[i] == 0xFF,
        ENTER_MOTOR_MODE@[7] == 0xFC,
        EXIT_MOTOR_MODE@[7] == 0xFD,
        SET_ZERO_POSITION@[7] == 0xFE,
{
}

/// The bits of a feedback frame are all used, each once: the driver, 16 bits of position, 12 of
/// speed and 12 of torque side by side, the temperature above -40, the error. Each reading has the
/// range of its field; that of torque runs from the negative of its maximum.
pub proof fn lemma_feedback_fields(limits: MotorLimits, data: Seq<u8>)
    requires
        data.len() == 8,
    ensures
        ({
            let f = feedback_of(limits, data);
            &&& f.driver_id == data[0]
            &&& f.position.code == data[1] * 256 + data[2]
            &&& f.speed.code < 4096 && f.torque.code < 4096
            &&& f.speed.code * 4096 + f.torque.code == data[3] * 65536 + data[4] * 256 + data[5]
            &&& f.temperature_c + 40 == data[6]
            &&& f.error == data[7]
            &&& f.position.bits == 16 && f.speed.bits == 12 && f.torque.bits == 12
            &&& f.position.min == limits.p_min && f.position.max == limits.p_max
            &&& f.speed.min == limits.v_min && f.speed.max == limits.v_max
            &&& f.torque.max == limits.t_max
            &&& f.torque.min.bits - limits.t_max.bits == 0x8000_0000 || limits.t_max.bits
                - f.torque.min.bits == 0x8000_0000
        }),
{
}

/// The ranges made from two limits: 12.5 either way, each limit and its negative, and gains from 0
/// up to 500 and 5.
pub proof fn lemma_limits_from_two_numbers(name: &'static str, v_abs: Single, t_abs: Single)
    ensures
        ({
            let l = limits_of(name, v_abs, t_abs);
            &&& l.name == name
            &&& l.p_min.bits == 0xC148_0000 && l.p_max.bits == 0x4148_0000
            &&& l.v_max == v_abs && l.t_max == t_abs
            &&& l.v_min.bits - v_abs.bits == 0x8000_0000 || v_abs.bits - l.v_min.bits == 0x8000_0000
            &&& l.t_min.bits - t_abs.bits == 0x8000_0000 || t_abs.bits - l.t_min.bits == 0x8000_0000
            &&& l.kp_min.bits == 0 && l.kp_max.bits == 0x43FA_0000
            &&& l.kd_min.bits == 0 && l.kd_max.bits == 0x40A0_0000
        }),
{
}

/// The names of the known models, and the widths of the codes.
pub proof fn lemma_preset_names()
    ensures
        MOTOR_PRESET_COUNT == 10,
        preset_of(0).name@ == "AK10-9"@,
        preset_of(1).name@ == "AK60-6"@,
        preset_of(2).name@ == "AK70-10"@,
        preset_of(3).name@ == "AK80-6"@,
        preset_of(4).name@ == "AK80-9"@,
        preset_of(5).name@ == "AK80-64"@,
        preset_of(6).name@ == "AK80-8"@,
        preset_of(7).name@ == "AK45-36"@,
        preset_of(8).name@ == "AK45-10"@,
        preset_of(9).name@ == "AK40-10"@,
        POSITION_BITS == 16,
        FIELD_BITS == 12,
{
}

/// What each operation gives.
pub proof fn lemma_mit_operations(
    codes: &MitCodes,
    packed_data: [u8; 8],
    limits: &MotorLimits,
    data: &[u8; 8],
    feedback: MitFeedback,
    index: usize,
    preset: MotorLimits,
)
    ensures
        call_ensures(pack_cmd, (codes,), packed_data) ==> packed_data@ == packed(*codes),
        call_ensures(unpack_reply, (limits, data), feedback) ==> feedback == feedback_of(
            *limits,
            data@,
        ),
        call_ensures(motor_preset, (index,), preset) ==> preset == preset_of(index as int),
{
}

} // verus!
