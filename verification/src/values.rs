//! Numeric values of the language.
//!
//! Every number the language computes with is an IEEE-754 double. Verified
//! code never touches such a value directly: it carries the 8-byte bit
//! pattern as a `u64`, which is exactly what the bytecode stores for a
//! `PUSH` operand. The handful of operations that genuinely need double
//! arithmetic (the five operators, literal parsing, rendering) reinterpret
//! the bits through `byteorder` and are trusted; everything around them is
//! verified on the bit patterns alone.

use byteorder::ByteOrder;
use vstd::prelude::*;

verus! {

/// The sum of two doubles, both given and returned as bit patterns.
pub uninterp spec fn add_bits(a: u64, b: u64) -> u64;

/// The difference of two doubles, as bit patterns.
pub uninterp spec fn sub_bits(a: u64, b: u64) -> u64;

/// The product of two doubles, as bit patterns.
pub uninterp spec fn mul_bits(a: u64, b: u64) -> u64;

/// The quotient of two doubles, as bit patterns.
pub uninterp spec fn div_bits(a: u64, b: u64) -> u64;

/// The first double raised to the second, as bit patterns.
pub uninterp spec fn pow_bits(a: u64, b: u64) -> u64;

/// The double denoted by a decimal literal, as a bit pattern.
pub uninterp spec fn numeral_bits(s: Seq<char>) -> u64;

/// The decimal rendering of a double given as a bit pattern.
pub uninterp spec fn rendered(bits: u64) -> Seq<char>;

/// A double compares equal to zero exactly when its bit pattern is one of
/// the two IEEE-754 zero encodings (positive and negative zero).
pub open spec fn is_zero_bits(b: u64) -> bool {
    b == 0u64 || b == 0x8000_0000_0000_0000u64
}

pub open spec fn is_digit_char(c: char) -> bool {
    '0' <= c && c <= '9'
}

/// One or more digits and nothing else.
pub open spec fn digits_only(t: Seq<char>) -> bool {
    t.len() > 0 && forall|i: int| 0 <= i < t.len() ==> is_digit_char(#[trigger] t[i])
}

/// Digits with exactly one interior decimal point.
pub open spec fn digits_with_point(t: Seq<char>) -> bool {
    exists|k: int|
        {
            &&& 1 <= k < t.len() - 1
            &&& #[trigger] t[k] == '.'
            &&& forall|i: int| 0 <= i < t.len() && i != k ==> is_digit_char(#[trigger] t[i])
        }
}

/// The shape of the numeric literals the lexer emits: an optional leading
/// minus sign, one or more digits, and optionally a decimal point followed
/// by one or more digits.
pub open spec fn is_numeral(s: Seq<char>) -> bool {
    if s.len() > 0 && s[0] == '-' {
        digits_only(s.skip(1)) || digits_with_point(s.skip(1))
    } else {
        digits_only(s) || digits_with_point(s)
    }
}

/// Relies on byteorder's `LittleEndian::read_f64` and `write_f64`, which
/// reinterpret bits, and on hardware double addition: the result is a
/// function of the operand bits alone.
#[verifier::external_body]
pub(crate) fn value_add(a: u64, b: u64) -> (r: u64)
    ensures
        r == add_bits(a, b),
{
    let x = byteorder::LittleEndian::read_f64(&a.to_le_bytes());
    let y = byteorder::LittleEndian::read_f64(&b.to_le_bytes());
    let mut buf = [0u8; 8];
    byteorder::LittleEndian::write_f64(&mut buf, x + y);
    u64::from_le_bytes(buf)
}

/// Relies on byteorder's bit reinterpretation and hardware double
/// subtraction: a function of the operand bits alone.
#[verifier::external_body]
pub(crate) fn value_sub(a: u64, b: u64) -> (r: u64)
    ensures
        r == sub_bits(a, b),
{
    let x = byteorder::LittleEndian::read_f64(&a.to_le_bytes());
    let y = byteorder::LittleEndian::read_f64(&b.to_le_bytes());
    let mut buf = [0u8; 8];
    byteorder::LittleEndian::write_f64(&mut buf, x - y);
    u64::from_le_bytes(buf)
}

/// Relies on byteorder's bit reinterpretation and hardware double
/// multiplication: a function of the operand bits alone.
#[verifier::external_body]
pub(crate) fn value_mul(a: u64, b: u64) -> (r: u64)
    ensures
        r == mul_bits(a, b),
{
    let x = byteorder::LittleEndian::read_f64(&a.to_le_bytes());
    let y = byteorder::LittleEndian::read_f64(&b.to_le_bytes());
    let mut buf = [0u8; 8];
    byteorder::LittleEndian::write_f64(&mut buf, x * y);
    u64::from_le_bytes(buf)
}

/// Relies on byteorder's bit reinterpretation and hardware double
/// division (total on doubles): a function of the operand bits alone.
#[verifier::external_body]
pub(crate) fn value_div(a: u64, b: u64) -> (r: u64)
    ensures
        r == div_bits(a, b),
{
    let x = byteorder::LittleEndian::read_f64(&a.to_le_bytes());
    let y = byteorder::LittleEndian::read_f64(&b.to_le_bytes());
    let mut buf = [0u8; 8];
    byteorder::LittleEndian::write_f64(&mut buf, x / y);
    u64::from_le_bytes(buf)
}

/// Relies on byteorder's bit reinterpretation and `powf` (total on
/// doubles, IEEE semantics): a function of the operand bits alone.
#[verifier::external_body]
pub(crate) fn value_pow(a: u64, b: u64) -> (r: u64)
    ensures
        r == pow_bits(a, b),
{
    let x = byteorder::LittleEndian::read_f64(&a.to_le_bytes());
    let y = byteorder::LittleEndian::read_f64(&b.to_le_bytes());
    let mut buf = [0u8; 8];
    byteorder::LittleEndian::write_f64(&mut buf, x.powf(y));
    u64::from_le_bytes(buf)
}

/// Relies on `str::parse` for doubles, which accepts every literal of the
/// shape `is_numeral` describes and is deterministic (correctly rounded),
/// and on byteorder's bit reinterpretation.
#[verifier::external_body]
pub(crate) fn value_of_numeral(text: &str) -> (r: u64)
    requires
        is_numeral(text@),
    ensures
        r == numeral_bits(text@),
{
    let mut buf = [0u8; 8];
    byteorder::LittleEndian::write_f64(&mut buf, text.parse().unwrap());
    u64::from_le_bytes(buf)
}

/// Relies on the standard display formatting of doubles (the shortest
/// decimal that round-trips), which is a function of the value alone, and
/// on byteorder's bit reinterpretation.
#[verifier::external_body]
pub(crate) fn value_text(bits: u64) -> (r: String)
    ensures
        r@ == rendered(bits),
{
    let x = byteorder::LittleEndian::read_f64(&bits.to_le_bytes());
    format!("{}", x)
}

pub fn value_is_zero(b: u64) -> (r: bool)
    ensures
        r == is_zero_bits(b),
{
    b == 0u64 || b == 0x8000_0000_0000_0000u64
}

} // verus!
