//! Text for log lines: hexadecimal dumps, decimal numbers and joined messages.

use vstd::prelude::*;
use vstd::string::*;

verus! {

/// The upper-case hexadecimal digit of `n`.
pub open spec fn hex_digit(n: int) -> char {
    if n < 10 {
        (n + 48) as char
    } else {
        (n + 55) as char
    }
}

/// The two hexadecimal digits of `byte`.
pub open spec fn hex_byte(byte: u8) -> Seq<char> {
    seq![hex_digit(byte as int / 16), hex_digit(byte as int % 16)]
}

/// The bytes as two-digit hexadecimal numbers with single spaces between them.
pub open spec fn hex_of(bytes: Seq<u8>) -> Seq<char>
    decreases bytes.len(),
{
    if bytes.len() == 0 {
        Seq::empty()
    } else if bytes.len() == 1 {
        hex_byte(bytes[0])
    } else {
        hex_of(bytes.drop_last()) + seq![' '] + hex_byte(bytes.last())
    }
}

/// `n` in decimal, without leading zeros.
pub open spec fn decimal(n: nat) -> Seq<char>
    decreases n,
{
    if n < 10 {
        seq![hex_digit(n as int)]
    } else {
        decimal(n / 10).push(hex_digit(n as int % 10))
    }
}

fn digit(n: u8) -> (s: &'static str)
    requires
        n < 16,
    ensures
        s@ == seq![hex_digit(n as int)],
{
    proof {
        reveal_strlit("0");
        reveal_strlit("1");
        reveal_strlit("2");
        reveal_strlit("3");
        reveal_strlit("4");
        reveal_strlit("5");
        reveal_strlit("6");
        reveal_strlit("7");
        reveal_strlit("8");
        reveal_strlit("9");
        reveal_strlit("A");
        reveal_strlit("B");
        reveal_strlit("C");
        reveal_strlit("D");
        reveal_strlit("E");
        reveal_strlit("F");
    }
    match n {
        0 => "0",
        1 => "1",
        2 => "2",
        3 => "3",
        4 => "4",
        5 => "5",
        6 => "6",
        7 => "7",
        8 => "8",
        9 => "9",
        10 => "A",
        11 => "B",
        12 => "C",
        13 => "D",
        14 => "E",
        _ => "F",
    }
}

/// Renders `bytes` as a hexadecimal dump, such as `02 FF 10`.
pub fn hex(bytes: &[u8]) -> (out: String)
    ensures
        out@ == hex_of(bytes@),
{
    let mut out: String = String::new();
    let mut i: usize = 0;
    assert(bytes@.take(0) =~= Seq::<u8>::empty());
    while i < bytes.len()
        invariant
            i <= bytes@.len(),
            out@ == hex_of(bytes@.take(i as int)),
        decreases bytes@.len() - i,
    {
        let byte: u8 = bytes[i];
        if i > 0 {
            proof {
                reveal_strlit(" ");
            }
            out.append(" ");
        }
        out.append(digit(byte / 16));
        out.append(digit(byte % 16));
        proof {
            let taken = bytes@.take(i + 1);
            assert(taken.drop_last() =~= bytes@.take(i as int));
            assert(taken.last() == byte);
            if i == 0 {
                assert(bytes@.take(0) =~= Seq::<u8>::empty());
                assert(out@ =~= hex_byte(byte));
            } else {
                assert(" "@ =~= seq![' ']);
                assert(out@ =~= hex_of(bytes@.take(i as int)) + seq![' '] + hex_byte(byte));
            }
        }
        i = i + 1;
    }
    assert(bytes@.take(i as int) =~= bytes@);
    out
}

/// Renders `n` in decimal.
pub fn decimal_string(n: usize) -> (out: String)
    ensures
        out@ == decimal(n as nat),
    decreases n,
{
    if n < 10 {
        let out: String = digit(n as u8).to_owned();
        out
    } else {
        let mut out: String = decimal_string(n / 10);
        out.append(digit((n % 10) as u8));
        assert(out@ =~= decimal((n / 10) as nat).push(hex_digit(n as int % 10)));
        out
    }
}

/// Joins two pieces of text.
pub fn join2(a: &str, b: &str) -> (out: String)
    ensures
        out@ == a@ + b@,
{
    a.to_owned().concat(b)
}

/// Joins four pieces of text.
pub fn join4(a: &str, b: &str, c: &str, d: &str) -> (out: String)
    ensures
        out@ == a@ + b@ + c@ + d@,
{
    a.to_owned().concat(b).concat(c).concat(d)
}

/// A dump has two hexadecimal digits for each byte, in order, and one space between two bytes.
pub proof fn lemma_hex_dump(bytes: Seq<u8>)
    ensures
        bytes.len() == 0 ==> hex_of(bytes).len() == 0,
        bytes.len() > 0 ==> hex_of(bytes).len() == 3 * bytes.len() - 1,
        forall|i: int|
            #![trigger bytes[i]]
            0 <= i < bytes.len() ==> hex_of(bytes)[3 * i] == "0123456789ABCDEF"@[bytes[i] as int
                / 16] && hex_of(bytes)[3 * i + 1] == "0123456789ABCDEF"@[bytes[i] as int % 16],
        forall|k: int|
            0 <= k < hex_of(bytes).len() && k % 3 == 2 ==> #[trigger] hex_of(bytes)[k] == ' ',
    decreases bytes.len(),
{
    reveal_strlit("0123456789ABCDEF");
    let digits = "0123456789ABCDEF"@;
    let out = hex_of(bytes);
    assert forall|n: int| 0 <= n < 16 implies #[trigger] digits[n] == hex_digit(n) by {
    }
    if bytes.len() > 1 {
        let front = bytes.drop_last();
        let before = hex_of(front);
        lemma_hex_dump(front);
        assert forall|i: int| #![trigger bytes[i]] 0 <= i < bytes.len() implies out[3 * i]
            == digits[bytes[i] as int / 16] && out[3 * i + 1] == digits[bytes[i] as int % 16] by {
            if i < front.len() {
                assert(front[i] == bytes[i]);
                assert(out[3 * i] == before[3 * i] && out[3 * i + 1] == before[3 * i + 1]);
            }
        }
        assert forall|k: int| 0 <= k < out.len() && k % 3 == 2 implies #[trigger] out[k] == ' ' by {
            if k < before.len() {
                assert(out[k] == before[k]);
            }
        }
    } else if bytes.len() == 1 {
        assert(out =~= seq![digits[bytes[0] as int / 16], digits[bytes[0] as int % 16]]);
        assert forall|i: int| #![trigger bytes[i]] 0 <= i < bytes.len() implies out[3 * i]
            == digits[bytes[i] as int / 16] && out[3 * i + 1] == digits[bytes[i] as int % 16] by {
            assert(i == 0);
        }
    }
}

/// A number below ten is its digit; the decimal form of any other number is that of its tens,
/// followed by the digit of its ones.
pub proof fn lemma_decimal_digits(tens: nat, ones: nat)
    requires
        ones < 10,
    ensures
        decimal(ones) == seq!["0123456789"@[ones as int]],
        tens > 0 ==> decimal(tens * 10 + ones) == decimal(tens).push("0123456789"@[ones as int]),
{
    reveal_strlit("0123456789");
    let n = tens * 10 + ones;
    assert(n / 10 == tens && n % 10 == ones);
}

/// What each operation gives.
pub proof fn lemma_text_operations(
    bytes: &[u8],
    n: usize,
    a: &str,
    b: &str,
    c: &str,
    d: &str,
    out: String,
)
    ensures
        call_ensures(hex, (bytes,), out) ==> out@ == hex_of(bytes@),
        call_ensures(decimal_string, (n,), out) ==> out@ == decimal(n as nat),
        call_ensures(join2, (a, b), out) ==> out@ == a@ + b@,
        call_ensures(join4, (a, b, c, d), out) ==> out@ == a@ + b@ + c@ + d@,
{
}

} // verus!
