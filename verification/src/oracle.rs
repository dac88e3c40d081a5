//! The Oracle: the bytes that the kernel writes to the COM1 serial debugger.
//!
//! Writing a byte to the port is I/O and lives outside the library; what is
//! written (a message's bytes, a number in decimal or in upper-case
//! hexadecimal) is computed here.
use vstd::prelude::*;
use vstd::string::StringSliceAdditionalSpecFns;

verus! {

/// ASCII code of the digit `0`.
pub const ASCII_ZERO: u8 = 48;

/// The decimal digits of `n`, most significant first, without leading zeros
/// (`0` is written as the single digit `0`).
pub open spec fn decimal_digits(n: nat) -> Seq<u8>
    decreases n,
{
    if n < 10 {
        seq![(48 + n) as u8]
    } else {
        decimal_digits(n / 10).push((48 + n % 10) as u8)
    }
}

/// The number that a string of ASCII decimal digits denotes.
pub open spec fn decimal_value(s: Seq<u8>) -> int
    decreases s.len(),
{
    if s.len() == 0 {
        0
    } else {
        decimal_value(s.drop_last()) * 10 + (s.last() - 48)
    }
}

/// The upper-case ASCII character of a hexadecimal digit below 16.
pub open spec fn hex_char(d: nat) -> u8 {
    if d < 10 {
        (48 + d) as u8
    } else {
        (55 + d) as u8
    }
}

/// The value of an upper-case ASCII hexadecimal digit.
pub open spec fn hex_char_value(c: u8) -> int {
    if c >= 65 {
        c - 55
    } else {
        c - 48
    }
}

/// The upper-case hexadecimal digits of `n`, most significant first, without
/// leading zeros (`0` is written as `0`).
pub open spec fn hex_digits(n: nat) -> Seq<u8>
    decreases n,
{
    if n < 16 {
        seq![hex_char(n)]
    } else {
        hex_digits(n / 16).push(hex_char(n % 16))
    }
}

/// The number that a string of upper-case ASCII hexadecimal digits denotes.
pub open spec fn hex_value(s: Seq<u8>) -> int
    decreases s.len(),
{
    if s.len() == 0 {
        0
    } else {
        hex_value(s.drop_last()) * 16 + hex_char_value(s.last())
    }
}

/// A sequence read back to front.
pub open spec fn reversed(s: Seq<u8>) -> Seq<u8> {
    Seq::new(s.len(), |j: int| s[s.len() - 1 - j])
}

/// Decimal formatting can be read back: the digits that `speak_u64` writes
/// denote the number that was given.
pub proof fn lemma_decimal_round_trip(n: nat)
    ensures
        decimal_value(decimal_digits(n)) == n,
        decimal_digits(n).len() >= 1,
    decreases n,
{
    if n >= 10 {
        lemma_decimal_round_trip(n / 10);
        let s = decimal_digits(n / 10);
        assert(decimal_digits(n).drop_last() =~= s);
        assert(decimal_digits(n).last() == (48 + n % 10) as u8);
        assert(decimal_digits(n).last() - 48 == n % 10);
        assert(decimal_value(decimal_digits(n)) == decimal_value(s) * 10 + (decimal_digits(n).last() - 48));
        assert(n == (n / 10) * 10 + n % 10) by (nonlinear_arith);
    } else {
        assert(decimal_digits(n).drop_last() =~= Seq::<u8>::empty());
        assert(decimal_value(decimal_digits(n).drop_last()) == 0);
        assert(decimal_digits(n).last() - 48 == n);
    }
}

/// Every byte that decimal formatting writes is an ASCII digit.
pub proof fn lemma_decimal_digits_are_ascii(n: nat)
    ensures
        forall|i: int|
            0 <= i < decimal_digits(n).len() ==> 48 <= #[trigger] decimal_digits(n)[i] <= 57,
    decreases n,
{
    if n >= 10 {
        lemma_decimal_digits_are_ascii(n / 10);
        let s = decimal_digits(n / 10);
        assert forall|i: int| 0 <= i < decimal_digits(n).len() implies 48
            <= #[trigger] decimal_digits(n)[i] <= 57 by {
            if i < s.len() {
                assert(decimal_digits(n)[i] == s[i]);
            }
        }
    }
}

/// Hexadecimal formatting can be read back: the digits that `speak_hex`
/// writes denote the number that was given.
pub proof fn lemma_hex_round_trip(n: nat)
    ensures
        hex_value(hex_digits(n)) == n,
        hex_digits(n).len() >= 1,
    decreases n,
{
    if n >= 16 {
        lemma_hex_round_trip(n / 16);
        let s = hex_digits(n / 16);
        assert(hex_digits(n).drop_last() =~= s);
        assert(hex_digits(n).last() == hex_char(n % 16));
        assert(hex_char_value(hex_char(n % 16)) == n % 16);
        assert(hex_value(hex_digits(n)) == hex_value(s) * 16 + hex_char_value(hex_digits(n).last()));
        assert(n == (n / 16) * 16 + n % 16) by (nonlinear_arith);
    } else {
        assert(hex_digits(n).drop_last() =~= Seq::<u8>::empty());
        assert(hex_value(hex_digits(n).drop_last()) == 0);
        assert(hex_char_value(hex_digits(n).last()) == n);
    }
}

/// Appends the UTF-8 bytes of `s` to `out`.
pub fn push_str_bytes(out: &mut Vec<u8>, s: &str)
    ensures
        final(out)@ == old(out)@ + s.spec_bytes(),
{
    let ghost start = out@;
    let b = s.as_bytes();
    let mut i: usize = 0;
    while i < b.len()
        invariant
            0 <= i <= b@.len(),
            b@ == s.spec_bytes(),
            out@ == start + b@.subrange(0, i as int),
        decreases b.len() - i,
    {
        out.push(b[i]);
        i += 1;
        assert(b@.subrange(0, i as int) =~= b@.subrange(0, i - 1).push(b@[i - 1]));
    }
    assert(b@.subrange(0, b@.len() as int) =~= b@);
}

/// The bytes that broadcasting `message` writes to the serial debugger.
pub fn speak(message: &str) -> (r: Vec<u8>)
    ensures
        r@ == message.spec_bytes(),
{
    let mut out = Vec::new();
    push_str_bytes(&mut out, message);
    out
}

/// Emits `buffer` back to front into `out`.
fn emit_reversed(out: &mut Vec<u8>, buffer: &Vec<u8>)
    ensures
        final(out)@ == old(out)@ + reversed(buffer@),
{
    let ghost start = out@;
    let mut i: usize = buffer.len();
    while i > 0
        invariant
            0 <= i <= buffer@.len(),
            out@ == start + reversed(buffer@).subrange(0, buffer@.len() - i),
        decreases i,
    {
        i -= 1;
        out.push(buffer[i]);
        assert(reversed(buffer@).subrange(0, buffer@.len() - i) =~= reversed(buffer@).subrange(
            0,
            buffer@.len() - i - 1,
        ).push(buffer@[i as int]));
    }
    assert(reversed(buffer@).subrange(0, buffer@.len() as int) =~= reversed(buffer@));
}

/// The decimal digits of `num` that are still to be produced (none once the
/// number is used up).
spec fn pending_decimal(num: nat) -> Seq<u8> {
    if num == 0 {
        seq![]
    } else {
        decimal_digits(num)
    }
}

spec fn pending_hex(num: nat) -> Seq<u8> {
    if num == 0 {
        seq![]
    } else {
        hex_digits(num)
    }
}

/// The bytes that printing `num` as a decimal number writes.
pub fn speak_u64(num: u64) -> (r: Vec<u8>)
    ensures
        r@ == decimal_digits(num as nat),
{
    let mut out: Vec<u8> = Vec::new();
    if num == 0 {
        out.push(ASCII_ZERO);
        return out;
    }
    let mut n: u64 = num;
    let mut buffer: Vec<u8> = Vec::new();
    while n > 0
        invariant
            decimal_digits(num as nat) == pending_decimal(n as nat) + reversed(buffer@),
        decreases n,
    {
        let d: u8 = (n % 10) as u8;
        let ghost old_buffer = buffer@;
        buffer.push(d + ASCII_ZERO);
        assert(reversed(buffer@) =~= seq![(d + 48) as u8] + reversed(old_buffer));
        assert(pending_decimal(n as nat) =~= pending_decimal((n / 10) as nat).push(
            (48 + (n as nat) % 10) as u8,
        ));
        n = n / 10;
    }
    assert(pending_decimal(0) + reversed(buffer@) =~= reversed(buffer@));
    emit_reversed(&mut out, &buffer);
    assert(out@ =~= reversed(buffer@));
    out
}

/// The ASCII character of a hexadecimal digit.
fn hex_digit(d: u64) -> (c: u8)
    requires
        d < 16,
    ensures
        c == hex_char(d as nat),
{
    if d < 10 {
        (48 + d) as u8
    } else {
        (55 + d) as u8
    }
}

/// The bytes that printing `num` as an upper-case hexadecimal number writes.
pub fn speak_hex(num: u64) -> (r: Vec<u8>)
    ensures
        r@ == hex_digits(num as nat),
{
    let mut out: Vec<u8> = Vec::new();
    if num == 0 {
        out.push(ASCII_ZERO);
        return out;
    }
    let mut n: u64 = num;
    let mut buffer: Vec<u8> = Vec::new();
    while n > 0
        invariant
            hex_digits(num as nat) == pending_hex(n as nat) + reversed(buffer@),
        decreases n,
    {
        let c = hex_digit(n % 16);
        let ghost old_buffer = buffer@;
        buffer.push(c);
        assert(reversed(buffer@) =~= seq![c] + reversed(old_buffer));
        assert(pending_hex(n as nat) =~= pending_hex((n / 16) as nat).push(
            hex_char((n as nat) % 16),
        ));
        n = n / 16;
    }
    assert(pending_hex(0) + reversed(buffer@) =~= reversed(buffer@));
    emit_reversed(&mut out, &buffer);
    assert(out@ =~= reversed(buffer@));
    out
}

} // verus!
