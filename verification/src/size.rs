//! Sizes in bytes, written with binary prefixes and two decimal places.

use crate::decimal::{digit_char, digits, push_digit, push_digits};
use vstd::arithmetic::div_mod::lemma_div_denominator;
use vstd::prelude::*;
use vstd::string::StringExecFns;

verus! {

/// The number of units: `B`, `KiB`, `MiB`, `GiB`, `TiB`, `PiB`, `EiB`, `ZiB`
/// and `YiB`.
pub const UNIT_COUNT: usize = 9;

/// The number of bytes in one unit `i`: 1024 to the power `i`.
pub open spec fn unit_size(i: nat) -> nat {
    if i == 0 {
        1
    } else if i == 1 {
        0x400
    } else if i == 2 {
        0x10_0000
    } else if i == 3 {
        0x4000_0000
    } else if i == 4 {
        0x100_0000_0000
    } else if i == 5 {
        0x4_0000_0000_0000
    } else if i == 6 {
        0x1000_0000_0000_0000
    } else if i == 7 {
        0x40_0000_0000_0000_0000
    } else {
        0x1_0000_0000_0000_0000_0000
    }
}

/// The name of unit `i`.
pub open spec fn unit_name(i: nat) -> Seq<char> {
    if i == 0 {
        "B"@
    } else if i == 1 {
        "KiB"@
    } else if i == 2 {
        "MiB"@
    } else if i == 3 {
        "GiB"@
    } else if i == 4 {
        "TiB"@
    } else if i == 5 {
        "PiB"@
    } else if i == 6 {
        "EiB"@
    } else if i == 7 {
        "ZiB"@
    } else {
        "YiB"@
    }
}

/// The unit in which `v` bytes are written: the first in which they come to at
/// most 1024, and the last unit where there is none.
pub open spec fn unit_index(v: nat) -> nat {
    if v <= 1024 * unit_size(0) {
        0
    } else if v <= 1024 * unit_size(1) {
        1
    } else if v <= 1024 * unit_size(2) {
        2
    } else if v <= 1024 * unit_size(3) {
        3
    } else if v <= 1024 * unit_size(4) {
        4
    } else if v <= 1024 * unit_size(5) {
        5
    } else if v <= 1024 * unit_size(6) {
        6
    } else if v <= 1024 * unit_size(7) {
        7
    } else {
        8
    }
}

/// The whole number nearest to `n / d`; of two that are equally near, the even
/// one.
pub open spec fn round_half_even(n: nat, d: nat) -> nat {
    let q = n / d;
    let r = n % d;
    if 2 * r > d || (2 * r == d && q % 2 == 1) {
        q + 1
    } else {
        q
    }
}

/// The distance between neighbouring numbers of 53 significant bits at the
/// magnitude of `v`: 1 below 2 to the power 53, and doubling with each further
/// bit of `v`.
pub open spec fn spacing(v: nat) -> nat
    decreases v,
{
    if v < 0x20_0000_0000_0000 {
        1
    } else {
        2 * spacing(v / 2)
    }
}

/// The size that is scaled and written for `v` bytes. A size is held in double
/// precision, which keeps 53 significant bits: it is `v` rounded to the nearest
/// number of that many bits and, of two equally near, to the one whose last
/// bit is zero. Below 2 to the power 53 it is `v` itself.
pub open spec fn held_value(v: nat) -> nat {
    round_half_even(v, spacing(v)) * spacing(v)
}

/// The size in hundredths of its unit, rounded to the nearest hundredth and, of
/// two equally near, to the even one.
pub open spec fn hundredths(v: nat) -> nat {
    round_half_even(held_value(v) * 100, unit_size(unit_index(held_value(v))))
}

/// A size of `v` bytes as it is written: the whole part, a point, two decimal
/// places, a space, and the name of the unit.
pub open spec fn human_readable_text(v: nat) -> Seq<char> {
    let h = hundredths(v);
    digits(h / 100) + seq![
        '.',
        digit_char((h / 10 % 10) as int),
        digit_char((h % 10) as int),
        ' ',
    ] + unit_name(unit_index(held_value(v)))
}

/// The text that reports the size of the finished output.
pub open spec fn completion_text(size: nat) -> Seq<char> {
    "Completed, final file size: "@ + human_readable_text(size)
}

/// The whole number nearest to `n / d`, ties going to the even one.
fn rounded_quotient(n: u128, d: u128) -> (q: u128)
    requires
        d > 0,
        d <= 0x1_0000_0000_0000_0000_0000,
        n / d < 0x1_0000_0000_0000_0000,
    ensures
        q == round_half_even(n as nat, d as nat),
{
    let q = n / d;
    let r = n % d;
    if 2 * r > d || (2 * r == d && q % 2 == 1) {
        q + 1
    } else {
        q
    }
}

/// `value` rounded to 53 significant bits.
fn held(value: u64) -> (m: u128)
    ensures
        m == held_value(value as nat),
        m <= 0x1_0000_0000_0000_1000,
{
    let mut unit: u64 = 1;
    let mut top: u64 = value;
    while top >= 0x20_0000_0000_0000
        invariant
            1 <= unit <= 0x1000,
            top as int == (value as int) / (unit as int),
            spacing(value as nat) == unit * spacing(top as nat),
        decreases top,
    {
        proof {
            assert(unit * top <= value) by (nonlinear_arith)
                requires
                    unit >= 1,
                    top as int == (value as int) / (unit as int),
            ;
            assert(unit < 0x800) by (nonlinear_arith)
                requires
                    unit * top <= value,
                    value < 0x1_0000_0000_0000_0000,
                    top >= 0x20_0000_0000_0000,
            ;
            lemma_div_denominator(value as int, unit as int, 2);
            assert(unit * spacing(top as nat) == (unit * 2) * spacing((top / 2) as nat))
                by (nonlinear_arith)
                requires
                    spacing(top as nat) == 2 * spacing((top / 2) as nat),
            ;
        }
        top = top / 2;
        unit = unit * 2;
    }
    let m = rounded_quotient(value as u128, unit as u128);
    proof {
        assert(spacing(value as nat) == unit) by (nonlinear_arith)
            requires
                spacing(value as nat) == unit * spacing(top as nat),
                spacing(top as nat) == 1,
        ;
        assert(m * unit <= 0x1_0000_0000_0000_1000) by (nonlinear_arith)
            requires
                m <= (value as int) / (unit as int) + 1,
                1 <= unit <= 0x1000,
                value < 0x1_0000_0000_0000_0000,
        ;
    }
    m * (unit as u128)
}

/// The name of unit `i`.
fn unit_label(i: usize) -> (name: &'static str)
    requires
        i < UNIT_COUNT,
    ensures
        name@ == unit_name(i as nat),
{
    if i == 0 {
        "B"
    } else if i == 1 {
        "KiB"
    } else if i == 2 {
        "MiB"
    } else if i == 3 {
        "GiB"
    } else if i == 4 {
        "TiB"
    } else if i == 5 {
        "PiB"
    } else if i == 6 {
        "EiB"
    } else if i == 7 {
        "ZiB"
    } else {
        "YiB"
    }
}

/// Writes a size in bytes in the unit that suits it, with two decimal places.
pub fn human_readable(value: u64) -> (text: String)
    ensures
        text@ == human_readable_text(value as nat),
{
    let m = held(value);
    let mut i: usize = 0;
    let mut scale: u128 = 1;
    while i + 1 < UNIT_COUNT && m > 1024 * scale
        invariant
            i < UNIT_COUNT,
            scale == unit_size(i as nat),
            i > 0 ==> m > scale,
        decreases UNIT_COUNT - i,
    {
        scale = scale * 1024;
        i = i + 1;
    }
    proof {
        assert((m * 100) / (scale as int) <= 102400) by (nonlinear_arith)
            requires
                scale >= 1,
                m >= 0,
                m <= 1024 * scale || (m <= 0x1_0000_0000_0000_1000 && scale
                    == 0x1_0000_0000_0000_0000_0000),
        ;
    }
    let h = rounded_quotient(m * 100, scale);
    let mut text = String::new();
    push_digits(&mut text, (h / 100) as u64);
    text.push('.');
    push_digit(&mut text, (h / 10 % 10) as u8);
    push_digit(&mut text, (h % 10) as u8);
    text.push(' ');
    text.append(unit_label(i));
    text
}

/// The message that reports the size of the finished output.
pub fn completion_message(size: u64) -> (text: String)
    ensures
        text@ == completion_text(size as nat),
{
    let mut text = String::from_str("Completed, final file size: ");
    let size_text = human_readable(size);
    text.append(size_text.as_str());
    text
}

} // verus!
