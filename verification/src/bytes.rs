//! Big-endian two's-complement integers, the number format of every wire field.

use vstd::prelude::*;

verus! {

/// The unsigned 32-bit number with the same bit pattern as `value`.
pub open spec fn twos_complement_32(value: i32) -> int {
    if value < 0 {
        value + 0x1_0000_0000
    } else {
        value as int
    }
}

/// The unsigned 16-bit number with the same bit pattern as `value`.
pub open spec fn twos_complement_16(value: i16) -> int {
    if value < 0 {
        value + 0x1_0000
    } else {
        value as int
    }
}

/// The four wire bytes of `value`, most significant first.
pub open spec fn i32_wire(value: i32) -> Seq<u8> {
    let u = twos_complement_32(value);
    seq![
        (u / 0x100_0000) as u8,
        (u / 0x1_0000 % 256) as u8,
        (u / 0x100 % 256) as u8,
        (u % 256) as u8,
    ]
}

/// The two wire bytes of `value`, most significant first.
pub open spec fn i16_wire(value: i16) -> Seq<u8> {
    let u = twos_complement_16(value);
    seq![(u / 0x100) as u8, (u % 256) as u8]
}

/// The 32-bit integer whose wire bytes stand at `at`.
pub open spec fn i32_at(buf: Seq<u8>, at: int) -> i32 {
    let u = buf[at] * 0x100_0000 + buf[at + 1] * 0x1_0000 + buf[at + 2] * 0x100 + buf[at + 3];
    if u >= 0x8000_0000 {
        (u - 0x1_0000_0000) as i32
    } else {
        u as i32
    }
}

/// The 16-bit integer whose wire bytes stand at `at`.
pub open spec fn i16_at(buf: Seq<u8>, at: int) -> i16 {
    let u = buf[at] * 0x100 + buf[at + 1];
    if u >= 0x8000 {
        (u - 0x1_0000) as i16
    } else {
        u as i16
    }
}

/// Appends the wire bytes of `value` to `out`.
pub fn push_i32(out: &mut Vec<u8>, value: i32)
    ensures
        final(out)@ == old(out)@ + i32_wire(value),
{
    let u: u32 = if value < 0 {
        (value as i64 + 0x1_0000_0000) as u32
    } else {
        value as u32
    };
    out.push((u / 0x100_0000) as u8);
    out.push((u / 0x1_0000 % 256) as u8);
    out.push((u / 0x100 % 256) as u8);
    out.push((u % 256) as u8);
    assert(out@ =~= old(out)@ + i32_wire(value));
}

/// Appends the wire bytes of `value` to `out`.
pub fn push_i16(out: &mut Vec<u8>, value: i16)
    ensures
        final(out)@ == old(out)@ + i16_wire(value),
{
    let u: u16 = if value < 0 {
        (value as i32 + 0x1_0000) as u16
    } else {
        value as u16
    };
    out.push((u / 0x100) as u8);
    out.push((u % 256) as u8);
    assert(out@ =~= old(out)@ + i16_wire(value));
}

/// Reads the 32-bit integer at `at`.
pub fn read_i32(buf: &[u8], at: usize) -> (value: i32)
    requires
        at + 4 <= buf@.len(),
    ensures
        value == i32_at(buf@, at as int),
{
    let u: u32 = buf[at] as u32 * 0x100_0000 + buf[at + 1] as u32 * 0x1_0000 + buf[at + 2] as u32
        * 0x100 + buf[at + 3] as u32;
    if u >= 0x8000_0000 {
        (u as i64 - 0x1_0000_0000) as i32
    } else {
        u as i32
    }
}

/// Reads the 16-bit integer at `at`.
pub fn read_i16(buf: &[u8], at: usize) -> (value: i16)
    requires
        at + 2 <= buf@.len(),
    ensures
        value == i16_at(buf@, at as int),
{
    let u: u16 = buf[at] as u16 * 0x100 + buf[at + 1] as u16;
    if u >= 0x8000 {
        (u as i32 - 0x1_0000) as i16
    } else {
        u as i16
    }
}

/// Reading back what was written: the integer found where its wire bytes were put is the integer
/// that they came from.
pub proof fn lemma_i32_round_trip(before: Seq<u8>, value: i32, after: Seq<u8>)
    ensures
        i32_at(before + i32_wire(value) + after, before.len() as int) == value,
{
    let n = before.len() as int;
    let buf = before + i32_wire(value) + after;
    assert(buf[n] == i32_wire(value)[0]);
    assert(buf[n + 1] == i32_wire(value)[1]);
    assert(buf[n + 2] == i32_wire(value)[2]);
    assert(buf[n + 3] == i32_wire(value)[3]);
}

/// Reading back what was written, for 16-bit integers.
pub proof fn lemma_i16_round_trip(before: Seq<u8>, value: i16, after: Seq<u8>)
    ensures
        i16_at(before + i16_wire(value) + after, before.len() as int) == value,
{
    let n = before.len() as int;
    let buf = before + i16_wire(value) + after;
    assert(buf[n] == i16_wire(value)[0]);
    assert(buf[n + 1] == i16_wire(value)[1]);
}

/// The wire bytes are the digits of the number to the base 256, most significant first, with
/// `2^32` added to a negative number.
pub proof fn lemma_i32_wire_digits(value: i32)
    ensures
        i32_wire(value).len() == 4,
        ({
            let w = i32_wire(value);
            w[0] * 0x100_0000 + w[1] * 0x1_0000 + w[2] * 0x100 + w[3] - value == (if value < 0 {
                0x1_0000_0000int
            } else {
                0int
            })
        }),
{
}

/// The same for 16 bits, with `2^16` added to a negative number.
pub proof fn lemma_i16_wire_digits(value: i16)
    ensures
        i16_wire(value).len() == 2,
        i16_wire(value)[0] * 0x100 + i16_wire(value)[1] - value == (if value < 0 {
            0x1_0000int
        } else {
            0int
        }),
{
}

/// The number that is read has the bytes as its digits, up to `2^32`: between the two numbers of
/// which this is true, the range of the type decides.
pub proof fn lemma_i32_read_digits(buf: Seq<u8>, at: int)
    requires
        0 <= at,
        at + 4 <= buf.len(),
    ensures
        ({
            let digits = buf[at] * 0x100_0000 + buf[at + 1] * 0x1_0000 + buf[at + 2] * 0x100 + buf[at
                + 3];
            i32_at(buf, at) == digits || i32_at(buf, at) == digits - 0x1_0000_0000
        }),
{
}

/// The same for 16 bits, up to `2^16`.
pub proof fn lemma_i16_read_digits(buf: Seq<u8>, at: int)
    requires
        0 <= at,
        at + 2 <= buf.len(),
    ensures
        ({
            let digits = buf[at] * 0x100 + buf[at + 1];
            i16_at(buf, at) == digits || i16_at(buf, at) == digits - 0x1_0000
        }),
{
}

/// What each operation does: writing appends the wire bytes and touches nothing else, reading gives
/// the number at its place.
pub proof fn lemma_bytes_operations(
    out: &mut Vec<u8>,
    buf: &[u8],
    at: usize,
    wide: i32,
    narrow: i16,
)
    ensures
        call_ensures(push_i32, (out, wide), ()) ==> final(out)@ == old(out)@ + i32_wire(wide),
        call_ensures(push_i16, (out, narrow), ()) ==> final(out)@ == old(out)@ + i16_wire(narrow),
        call_ensures(read_i32, (buf, at), wide) ==> wide == i32_at(buf@, at as int),
        call_ensures(read_i16, (buf, at), narrow) ==> narrow == i16_at(buf@, at as int),
{
}

} // verus!
