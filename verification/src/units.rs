//! Choice of display unit for a byte total, and rendering of the total as
//! `<value with two decimals> <unit>`.

use vstd::prelude::*;
use vstd::string::StringExecFns;

verus! {

/// Bytes per kilobyte (binary).
pub const KB: u64 = 1024;

/// Bytes per megabyte (binary).
pub const MB: u64 = 1048576;

/// Bytes per gigabyte (binary).
pub const GB: u64 = 1073741824;

/// Bytes per terabyte (binary).
pub const TB: u64 = 1099511627776;

/// The magnitude a byte total is displayed in.
#[derive(Clone, Copy, Debug, PartialEq, Eq, Structural)]
pub enum Unit {
    B,
    KB,
    MB,
    GB,
    TB,
}

/// The unit a given byte total is displayed in: the largest unit whose
/// divisor does not exceed the total (bytes for anything under 1024).
pub open spec fn spec_unit_of(total: u64) -> Unit {
    if total < KB {
        Unit::B
    } else if total < MB {
        Unit::KB
    } else if total < GB {
        Unit::MB
    } else if total < TB {
        Unit::GB
    } else {
        Unit::TB
    }
}

/// How many bytes one step of the unit is worth.
pub open spec fn spec_divisor(u: Unit) -> u64 {
    match u {
        Unit::B => 1,
        Unit::KB => KB,
        Unit::MB => MB,
        Unit::GB => GB,
        Unit::TB => TB,
    }
}

/// The unit's abbreviation as it appears in the output line.
pub open spec fn spec_label(u: Unit) -> Seq<char> {
    match u {
        Unit::B => "B"@,
        Unit::KB => "KB"@,
        Unit::MB => "MB"@,
        Unit::GB => "GB"@,
        Unit::TB => "TB"@,
    }
}

impl Unit {
    /// The unit's abbreviation, e.g. `"KB"`.
    pub fn label(self) -> (r: String)
        ensures
            r@ == spec_label(self),
    {
        match self {
            Unit::B => String::from_str("B"),
            Unit::KB => String::from_str("KB"),
            Unit::MB => String::from_str("MB"),
            Unit::GB => String::from_str("GB"),
            Unit::TB => String::from_str("TB"),
        }
    }
}

/// `num / den`, rounded to the nearest whole number, with a half rounded
/// to the even neighbour.
pub open spec fn round_half_even(num: nat, den: nat) -> nat
    recommends
        den > 0,
{
    let q = num / den;
    let r = num % den;
    if 2 * r < den {
        q
    } else if 2 * r > den {
        q + 1
    } else if q % 2 == 0 {
        q
    } else {
        q + 1
    }
}

/// The displayed value of a byte total, scaled by 100: the total divided
/// by its unit's divisor, rounded to two decimal places.
pub open spec fn spec_centi_value(total: u64) -> nat {
    round_half_even(100 * total as nat, spec_divisor(spec_unit_of(total)) as nat)
}

/// The character of a single decimal digit.
pub open spec fn digit_seq(d: nat) -> Seq<char>
    recommends
        d < 10,
{
    if d == 0 {
        "0"@
    } else if d == 1 {
        "1"@
    } else if d == 2 {
        "2"@
    } else if d == 3 {
        "3"@
    } else if d == 4 {
        "4"@
    } else if d == 5 {
        "5"@
    } else if d == 6 {
        "6"@
    } else if d == 7 {
        "7"@
    } else if d == 8 {
        "8"@
    } else {
        "9"@
    }
}

/// The decimal digits of `n`, most significant first, with no leading
/// zeroes (a lone zero for zero).
pub open spec fn dec_digits(n: nat) -> Seq<char>
    decreases n,
{
    if n < 10 {
        digit_seq(n)
    } else {
        dec_digits(n / 10) + digit_seq(n % 10)
    }
}

/// The full output line for a byte total: the scaled value with exactly
/// two decimal places, a space, and the unit's abbreviation.
pub open spec fn spec_format(total: u64) -> Seq<char> {
    let v = spec_centi_value(total);
    let c = v % 100;
    dec_digits(v / 100) + "."@ + digit_seq(c / 10) + digit_seq(c % 10) + " "@ + spec_label(
        spec_unit_of(total),
    )
}

/// Select the display unit for a byte total.
pub fn unit_of(total: u64) -> (u: Unit)
    ensures
        u == spec_unit_of(total),
{
    if total < KB {
        Unit::B
    } else if total < MB {
        Unit::KB
    } else if total < GB {
        Unit::MB
    } else if total < TB {
        Unit::GB
    } else {
        Unit::TB
    }
}

/// The divisor belonging to a unit.
pub fn divisor(u: Unit) -> (d: u64)
    ensures
        d == spec_divisor(u),
{
    match u {
        Unit::B => 1,
        Unit::KB => KB,
        Unit::MB => MB,
        Unit::GB => GB,
        Unit::TB => TB,
    }
}

/// The whole and the two-decimal part of the displayed value of a byte
/// total.
fn scaled_parts(total: u64) -> (v: (u64, u64))
    ensures
        v.0 == spec_centi_value(total) / 100,
        v.1 == spec_centi_value(total) % 100,
        v.1 < 100,
{
    let unit = unit_of(total);
    let den64 = divisor(unit);
    let num: u128 = (total as u128) * 100;
    let den: u128 = den64 as u128;
    let q: u128 = num / den;
    let r: u128 = num % den;
    let rounded: u128 = if 2 * r < den {
        q
    } else if 2 * r > den {
        q + 1
    } else if q % 2 == 0 {
        q
    } else {
        q + 1
    };
    proof {
        assert(rounded == spec_centi_value(total));
        if den == 1 {
            assert(q == num);
            assert(r == 0);
            vstd::arithmetic::div_mod::lemma_div_by_multiple(total as int, 100);
            assert((total as int * 100) / 100 == total as int);
            assert(rounded / 100 <= u64::MAX);
        } else {
            assert(den >= 1024);
            vstd::arithmetic::div_mod::lemma_div_is_ordered_by_denominator(
                num as int,
                1024,
                den as int,
            );
            assert(q <= num / 1024);
            assert(num <= 0xffffffffffffffffu128 * 100) by (nonlinear_arith)
                requires
                    num == (total as u128) * 100,
                    total <= 0xffffffffffffffffu64,
            ;
            assert(num / 1024 <= 0xffffffffffffffffu128 * 100 / 1024);
            assert(rounded / 100 <= u64::MAX);
        }
    }
    let whole: u64 = (rounded / 100) as u64;
    let frac: u64 = (rounded % 100) as u64;
    (whole, frac)
}

/// Append one decimal digit to a string.
fn push_digit(s: &mut String, d: u64)
    requires
        d < 10,
    ensures
        final(s)@ == old(s)@ + digit_seq(d as nat),
{
    if d == 0 {
        s.append("0");
    } else if d == 1 {
        s.append("1");
    } else if d == 2 {
        s.append("2");
    } else if d == 3 {
        s.append("3");
    } else if d == 4 {
        s.append("4");
    } else if d == 5 {
        s.append("5");
    } else if d == 6 {
        s.append("6");
    } else if d == 7 {
        s.append("7");
    } else if d == 8 {
        s.append("8");
    } else {
        s.append("9");
    }
}

/// Append the decimal digits of `n` to a string.
fn push_decimal(s: &mut String, n: u64)
    ensures
        final(s)@ == old(s)@ + dec_digits(n as nat),
    decreases n,
{
    let ghost s0 = s@;
    if n >= 10 {
        push_decimal(s, n / 10);
        push_digit(s, n % 10);
        proof {
            assert(s@ =~= s0 + dec_digits(n as nat));
        }
    } else {
        push_digit(s, n);
    }
}

/// Render a byte total the way the tool reports it: the value in its
/// unit with exactly two decimal places, then the unit's abbreviation,
/// e.g. `1.07 KB`.
pub fn format_size(total: u64) -> (r: String)
    ensures
        r@ == spec_format(total),
{
    let parts = scaled_parts(total);
    let whole = parts.0;
    let frac = parts.1;
    let mut s = String::new();
    push_decimal(&mut s, whole);
    s.append(".");
    push_digit(&mut s, frac / 10);
    push_digit(&mut s, frac % 10);
    s.append(" ");
    let lab = unit_of(total).label();
    s.append(lab.as_str());
    proof {
        assert(s@ =~= spec_format(total));
    }
    s
}

} // verus!
