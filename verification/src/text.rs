//! The message that a discount shows to the buyer.

use vstd::prelude::*;
use crate::model::{Decimal, DiscountLabel};

verus! {

/// The numeral of a digit.
pub open spec fn digit_text(d: int) -> Seq<char> {
    if d == 0 {
        "0"@
    } else if d == 1 {
        "1"@
    } else if d == 2 {
        "2"@
    } else if d == 3 {
        "3"@
    } else if d == 4 {
        "4"@
    } else if d == 5 {
        "5"@
    } else if d == 6 {
        "6"@
    } else if d == 7 {
        "7"@
    } else if d == 8 {
        "8"@
    } else {
        "9"@
    }
}

/// A natural number in decimal digits, without leading zeros.
pub open spec fn number_text(n: nat) -> Seq<char>
    decreases n,
{
    if n < 10 {
        digit_text(n as int)
    } else {
        number_text(n / 10) + digit_text((n % 10) as int)
    }
}

/// The digits after the decimal point of `f / (10 * scale)`, without
/// trailing zeros; `scale` is the weight of the first digit.
pub open spec fn fraction_text(f: nat, scale: nat) -> Seq<char>
    decreases scale,
{
    if f == 0 || scale == 0 {
        Seq::empty()
    } else {
        digit_text((f / scale) as int) + fraction_text(f % scale, scale / 10)
    }
}

/// A decimal as it is written: a minus sign where it is negative, the whole
/// part, and the fraction, if there is one, after a point.
pub open spec fn decimal_text(d: Decimal) -> Seq<char> {
    let size: nat = if d.micros < 0 {
        (-d.micros) as nat
    } else {
        d.micros as nat
    };
    let sign = if d.micros < 0 {
        "-"@
    } else {
        Seq::empty()
    };
    let fraction = if size % 1_000_000 == 0 {
        Seq::empty()
    } else {
        "."@ + fraction_text(size % 1_000_000, 100_000)
    };
    sign + number_text(size / 1_000_000) + fraction
}

/// The message of a discount.
pub open spec fn message_text(label: DiscountLabel) -> Seq<char> {
    match label {
        DiscountLabel::Bundle => "BXGY Bundle Discount"@,
        DiscountLabel::Volume => "Volume Discount"@,
        DiscountLabel::Complement(pct) => "FBT "@ + decimal_text(pct) + "% off"@,
    }
}

fn push_digit(out: &mut String, d: u64)
    requires
        d < 10,
    ensures
        final(out)@ == old(out)@ + digit_text(d as int),
{
    if d == 0 {
        out.append("0");
    } else if d == 1 {
        out.append("1");
    } else if d == 2 {
        out.append("2");
    } else if d == 3 {
        out.append("3");
    } else if d == 4 {
        out.append("4");
    } else if d == 5 {
        out.append("5");
    } else if d == 6 {
        out.append("6");
    } else if d == 7 {
        out.append("7");
    } else if d == 8 {
        out.append("8");
    } else {
        out.append("9");
    }
}

fn push_number(out: &mut String, n: u64)
    ensures
        final(out)@ == old(out)@ + number_text(n as nat),
    decreases n,
{
    if n < 10 {
        push_digit(out, n);
    } else {
        let ghost start = out@;
        push_number(out, n / 10);
        push_digit(out, n % 10);
        assert(out@ =~= start + number_text(n as nat));
    }
}

/// Whether `scale` is the weight of one of the six digits of a fraction.
pub open spec fn is_weight(scale: int) -> bool {
    scale == 1 || scale == 10 || scale == 100 || scale == 1_000 || scale == 10_000 || scale
        == 100_000
}

fn push_fraction(out: &mut String, f: u64, scale: u64)
    requires
        f == 0 || (is_weight(scale as int) && f < 10 * scale),
    ensures
        final(out)@ == old(out)@ + fraction_text(f as nat, scale as nat),
    decreases scale,
{
    if f == 0 || scale == 0 {
        assert(out@ =~= out@ + Seq::<char>::empty());
    } else {
        let ghost start = out@;
        assert(f / scale < 10) by (nonlinear_arith)
            requires
                f < 10 * scale,
                scale > 0,
        ;
        assert(f % scale < scale) by (nonlinear_arith)
            requires
                scale > 0,
        ;
        push_digit(out, f / scale);
        push_fraction(out, f % scale, scale / 10);
        assert(out@ =~= start + fraction_text(f as nat, scale as nat));
    }
}

/// Writes a decimal out.
pub fn render_decimal(d: Decimal) -> (r: String)
    ensures
        r@ == decimal_text(d),
{
    let wide: i128 = d.micros as i128;
    let size: u64 = if wide < 0 {
        (-wide) as u64
    } else {
        wide as u64
    };
    let mut out = String::new();
    if d.micros < 0 {
        out.append("-");
    }
    let ghost sign = out@;
    push_number(&mut out, size / 1_000_000);
    let ghost whole = out@;
    let rest: u64 = size % 1_000_000;
    if rest != 0 {
        out.append(".");
        push_fraction(&mut out, rest, 100_000);
    }
    assert(out@ =~= decimal_text(d));
    out
}

/// Writes the message of a discount.
pub fn message(label: &DiscountLabel) -> (r: String)
    ensures
        r@ == message_text(*label),
{
    match label {
        DiscountLabel::Bundle => "BXGY Bundle Discount".to_owned(),
        DiscountLabel::Volume => "Volume Discount".to_owned(),
        DiscountLabel::Complement(pct) => {
            let mut out = "FBT ".to_owned();
            let number = render_decimal(*pct);
            out.append(number.as_str());
            out.append("% off");
            out
        },
    }
}

} // verus!
