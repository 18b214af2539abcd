//! Byte counts with decimal unit suffixes: 1000 bytes are one `KB`.

use vstd::arithmetic::div_mod::lemma_fundamental_div_mod;
use vstd::arithmetic::div_mod::lemma_fundamental_div_mod_converse;
use vstd::prelude::*;

use crate::text::{decimal_chars, decimal_string, digit_char, digit_text, pad_left, right_aligned};

verus! {

/// The highest exponent of 1000 that has a unit of its own.
pub const MAX_EXPONENT: u8 = 8;

/// The number of bytes in one unit: 1000 to the power of `exponent`.
pub open spec fn unit_scale(exponent: nat) -> nat
    decreases exponent,
{
    if exponent == 0 {
        1
    } else {
        1000 * unit_scale((exponent - 1) as nat)
    }
}

/// The highest exponent up to `limit` whose unit is not larger than
/// `magnitude`, and 0 where there is none.
pub open spec fn exponent_upto(magnitude: nat, limit: nat) -> nat
    decreases limit,
{
    if limit == 0 || unit_scale(limit) <= magnitude {
        limit
    } else {
        exponent_upto(magnitude, (limit - 1) as nat)
    }
}

/// The exponent of the unit in which `magnitude` is shown: the whole part
/// of its logarithm to base 1000, and 8 where that is more.
pub open spec fn size_exponent(magnitude: nat) -> nat {
    exponent_upto(magnitude, MAX_EXPONENT as nat)
}

/// The label of the unit with the given exponent. All labels have two
/// characters: the one of the byte ends in a space.
pub open spec fn unit_label(exponent: nat) -> Seq<char> {
    if exponent == 0 {
        seq!['B', ' ']
    } else if exponent == 1 {
        seq!['K', 'B']
    } else if exponent == 2 {
        seq!['M', 'B']
    } else if exponent == 3 {
        seq!['G', 'B']
    } else if exponent == 4 {
        seq!['T', 'B']
    } else if exponent == 5 {
        seq!['P', 'B']
    } else if exponent == 6 {
        seq!['E', 'B']
    } else if exponent == 7 {
        seq!['Z', 'B']
    } else {
        seq!['Y', 'B']
    }
}

/// The quotient of `numerator` by `denominator`, rounded to the nearest
/// integer; where two are equally near, to the even one.
pub open spec fn rounded_quotient(numerator: nat, denominator: nat) -> nat
    recommends
        denominator > 0,
{
    let quotient = numerator / denominator;
    let rest = numerator % denominator;
    if 2 * rest > denominator || (2 * rest == denominator && quotient % 2 == 1) {
        quotient + 1
    } else {
        quotient
    }
}

/// `magnitude` in units of the given exponent, as a number of hundredths:
/// the value with two decimal places.
pub open spec fn rounded_hundredths(magnitude: nat, exponent: nat) -> nat {
    rounded_quotient(100 * magnitude, unit_scale(exponent))
}

/// A number of hundredths in decimal, without zeros at the end of the
/// fraction, and without the point where nothing follows it: 150 is `1.5`
/// and 200 is `2`.
pub open spec fn hundredths_chars(hundredths: nat) -> Seq<char> {
    let whole = decimal_chars(hundredths / 100);
    let tenth = digit_char(((hundredths / 10) % 10) as int);
    let last = digit_char((hundredths % 10) as int);
    if hundredths % 100 == 0 {
        whole
    } else if hundredths % 10 == 0 {
        whole + seq!['.', tenth]
    } else {
        whole + seq!['.', tenth, last]
    }
}

/// The humanized size: a minus sign for a negative count, then the value in
/// the largest unit that is not above it, rounded to two decimal places, a
/// space and the unit's label. A count of zero is `0` right-aligned in six
/// columns, followed by `B`.
pub open spec fn human_size(num: int) -> Seq<char> {
    let magnitude = (if num < 0 { -num } else { num }) as nat;
    let sign = if num < 0 { seq!['-'] } else { Seq::<char>::empty() };
    if magnitude < 1 {
        sign + right_aligned(decimal_chars(magnitude), 6) + seq!['B']
    } else {
        let exponent = size_exponent(magnitude);
        sign + hundredths_chars(rounded_hundredths(magnitude, exponent)) + seq![' ']
            + unit_label(exponent)
    }
}

/// The units grow with the exponent.
pub proof fn lemma_unit_scale_grows(low: nat, high: nat)
    requires
        low <= high,
    ensures
        1 <= unit_scale(low) <= unit_scale(high),
    decreases high,
{
    if low < high {
        lemma_unit_scale_grows(low, (high - 1) as nat);
    } else if low > 0 {
        lemma_unit_scale_grows((low - 1) as nat, (low - 1) as nat);
    }
}

/// The value of the nine units.
pub proof fn lemma_unit_scale_values()
    ensures
        unit_scale(0) == 1,
        unit_scale(1) == 1_000,
        unit_scale(2) == 1_000_000,
        unit_scale(3) == 1_000_000_000,
        unit_scale(4) == 1_000_000_000_000,
        unit_scale(5) == 1_000_000_000_000_000,
        unit_scale(6) == 1_000_000_000_000_000_000,
        unit_scale(7) == 1_000_000_000_000_000_000_000,
        unit_scale(8) == 1_000_000_000_000_000_000_000_000,
{
    reveal_with_fuel(unit_scale, 10);
}

/// An exponent within the limit whose unit is not above the magnitude,
/// while the next unit is, is the one that `exponent_upto` gives.
proof fn lemma_exponent_upto_is(magnitude: nat, limit: nat, exponent: nat)
    requires
        exponent <= limit,
        unit_scale(exponent) <= magnitude,
        exponent == limit || magnitude < unit_scale(exponent + 1),
    ensures
        exponent_upto(magnitude, limit) == exponent,
    decreases limit,
{
    if exponent < limit {
        lemma_unit_scale_grows(exponent + 1, limit);
        lemma_exponent_upto_is(magnitude, (limit - 1) as nat, exponent);
    }
}

/// The unit that a size is shown in is the largest one that is not above
/// it: the value shown is at least 1, and below 1000 up to the last unit.
pub proof fn lemma_size_exponent_bounds(magnitude: nat)
    requires
        magnitude >= 1,
    ensures
        size_exponent(magnitude) <= MAX_EXPONENT,
        unit_scale(size_exponent(magnitude)) <= magnitude,
        size_exponent(magnitude) < MAX_EXPONENT ==> magnitude < unit_scale(
            size_exponent(magnitude) + 1,
        ),
{
    lemma_exponent_upto_bounds(magnitude, MAX_EXPONENT as nat);
}

proof fn lemma_exponent_upto_bounds(magnitude: nat, limit: nat)
    requires
        magnitude >= 1,
    ensures
        exponent_upto(magnitude, limit) <= limit,
        unit_scale(exponent_upto(magnitude, limit)) <= magnitude,
        exponent_upto(magnitude, limit) < limit ==> magnitude < unit_scale(
            exponent_upto(magnitude, limit) + 1,
        ),
    decreases limit,
{
    if !(limit == 0 || unit_scale(limit) <= magnitude) {
        lemma_exponent_upto_bounds(magnitude, (limit - 1) as nat);
    }
}

/// A negative count is shown as its magnitude behind a minus sign.
pub proof fn lemma_human_size_negative(num: int)
    requires
        num > 0,
    ensures
        human_size(-num) == seq!['-'] + human_size(num),
{
}

/// A count from 1 to 999 is shown as it is, in bytes.
pub proof fn lemma_human_size_bytes(num: int)
    requires
        1 <= num < 1000,
    ensures
        human_size(num) == decimal_chars(num as nat) + seq![' ', 'B', ' '],
{
    lemma_unit_scale_values();
    lemma_exponent_upto_is(num as nat, MAX_EXPONENT as nat, 0);
}

/// The value that is shown is at least 1, and up to the last unit at most
/// 1000: a value just below 1000 may be rounded up to it.
pub proof fn lemma_rounded_hundredths_range(magnitude: nat)
    requires
        magnitude >= 1,
    ensures
        100 <= rounded_hundredths(magnitude, size_exponent(magnitude)),
        size_exponent(magnitude) < MAX_EXPONENT ==> rounded_hundredths(
            magnitude,
            size_exponent(magnitude),
        ) <= 100_000,
{
    let exponent = size_exponent(magnitude);
    let scale = unit_scale(exponent);
    lemma_size_exponent_bounds(magnitude);
    lemma_unit_scale_grows(0, exponent);
    let quotient = (100 * magnitude) / scale;
    lemma_fundamental_div_mod((100 * magnitude) as int, scale as int);
    assert(quotient >= 100) by (nonlinear_arith)
        requires
            100 * magnitude == scale * quotient + (100 * magnitude) % scale,
            0 <= (100 * magnitude) % scale < scale,
            magnitude >= scale,
            scale >= 1,
    ;
    if exponent < MAX_EXPONENT {
        assert(quotient < 100_000) by (nonlinear_arith)
            requires
                100 * magnitude == scale * quotient + (100 * magnitude) % scale,
                0 <= (100 * magnitude) % scale < scale,
                magnitude < 1000 * scale,
                scale >= 1,
        ;
    }
}

/// Rounding the hundredths of a size needs no multiplication by 100 where
/// the unit is a multiple of 100: the quotient by a hundredth of the unit is
/// the same.
proof fn lemma_rounded_quotient_scaled(magnitude: nat, part: nat)
    requires
        part > 0,
    ensures
        rounded_quotient(100 * magnitude, 100 * part) == rounded_quotient(magnitude, part),
{
    let quotient = magnitude / part;
    let rest = magnitude % part;
    lemma_fundamental_div_mod(magnitude as int, part as int);
    assert(100 * magnitude == quotient * (100 * part) + 100 * rest) by (nonlinear_arith)
        requires
            magnitude == part * quotient + rest,
    ;
    lemma_fundamental_div_mod_converse(
        (100 * magnitude) as int,
        (100 * part) as int,
        quotient as int,
        (100 * rest) as int,
    );
}

/// The absolute value of `num`.
fn magnitude_of(num: i128) -> (magnitude: u128)
    ensures
        magnitude == if num < 0 {
            -(num as int)
        } else {
            num as int
        },
{
    if num >= 0 {
        num as u128
    } else {
        (-(num + 1)) as u128 + 1
    }
}

/// The exponent of the unit for `magnitude`, and the size of that unit.
fn unit_of(magnitude: u128) -> (unit: (u8, u128))
    requires
        magnitude >= 1,
    ensures
        unit.0 == size_exponent(magnitude as nat),
        unit.1 == unit_scale(unit.0 as nat),
        unit.0 <= MAX_EXPONENT,
{
    let mut exponent: u8 = 0;
    let mut scale: u128 = 1;
    while exponent < MAX_EXPONENT && magnitude / 1000 >= scale
        invariant
            exponent <= MAX_EXPONENT,
            scale == unit_scale(exponent as nat),
            scale <= magnitude,
        decreases MAX_EXPONENT - exponent,
    {
        scale = scale * 1000;
        exponent = exponent + 1;
    }
    proof {
        lemma_exponent_upto_is(magnitude as nat, MAX_EXPONENT as nat, exponent as nat);
    }
    (exponent, scale)
}

/// `magnitude` in hundredths of the unit with the given exponent, rounded.
fn hundredths_of(magnitude: u128, exponent: u8, scale: u128) -> (hundredths: u128)
    requires
        exponent <= MAX_EXPONENT,
        scale == unit_scale(exponent as nat),
        scale <= magnitude,
        exponent < MAX_EXPONENT ==> magnitude < unit_scale(exponent as nat + 1),
    ensures
        hundredths == rounded_hundredths(magnitude as nat, exponent as nat),
{
    proof {
        lemma_unit_scale_values();
    }
    if exponent == 0 {
        magnitude * 100
    } else {
        let part: u128 = scale / 100;
        let quotient: u128 = magnitude / part;
        let rest: u128 = magnitude % part;
        proof {
            assert(scale == 100 * part && part > 0) by {
                lemma_unit_scale_grows((exponent - 1) as nat, exponent as nat);
            }
            lemma_rounded_quotient_scaled(magnitude as nat, part as nat);
        }
        if 2 * rest > part || (2 * rest == part && quotient % 2 == 1) {
            quotient + 1
        } else {
            quotient
        }
    }
}

/// Renders a number of hundredths with up to two decimal places.
pub fn hundredths_string(hundredths: u128) -> (text: String)
    ensures
        text@ == hundredths_chars(hundredths as nat),
{
    proof {
        reveal_strlit(".");
    }
    let mut text = decimal_string(hundredths / 100);
    if hundredths % 100 != 0 {
        text.append(".");
        text.append(digit_text(((hundredths / 10) % 10) as u8));
        if hundredths % 10 != 0 {
            text.append(digit_text((hundredths % 10) as u8));
        }
    }
    text
}

/// The label of the unit with the given exponent.
fn unit_text(exponent: u8) -> (text: &'static str)
    ensures
        text@ == unit_label(exponent as nat),
{
    proof {
        reveal_strlit("B ");
        reveal_strlit("KB");
        reveal_strlit("MB");
        reveal_strlit("GB");
        reveal_strlit("TB");
        reveal_strlit("PB");
        reveal_strlit("EB");
        reveal_strlit("ZB");
        reveal_strlit("YB");
    }
    let text: &'static str = match exponent {
        0 => "B ",
        1 => "KB",
        2 => "MB",
        3 => "GB",
        4 => "TB",
        5 => "PB",
        6 => "EB",
        7 => "ZB",
        _ => "YB",
    };
    text
}

/// Renders a byte count for a reader: `1500000` is `1.5 MB`.
pub fn convert(num: i128) -> (text: String)
    ensures
        text@ == human_size(num as int),
{
    proof {
        reveal_strlit("-");
        reveal_strlit("B");
        reveal_strlit(" ");
    }
    let magnitude: u128 = magnitude_of(num);
    let mut text = String::new();
    if num < 0 {
        text.append("-");
    }
    if magnitude < 1 {
        let number = decimal_string(magnitude);
        let column = pad_left(number.as_str(), 6);
        text.append(column.as_str());
        text.append("B");
    } else {
        let (exponent, scale) = unit_of(magnitude);
        proof {
            lemma_size_exponent_bounds(magnitude as nat);
        }
        let hundredths: u128 = hundredths_of(magnitude, exponent, scale);
        let value = hundredths_string(hundredths);
        text.append(value.as_str());
        text.append(" ");
        text.append(unit_text(exponent));
    }
    text
}

} // verus!
