//! Decimal text of integers and of fixed-point values.

use vstd::prelude::*;
use vstd::string::*;

use crate::geom::UNIT;

verus! {

/// The character of a decimal digit.
pub open spec fn digit_char(d: int) -> char {
    if d == 0 { '0' }
    else if d == 1 { '1' }
    else if d == 2 { '2' }
    else if d == 3 { '3' }
    else if d == 4 { '4' }
    else if d == 5 { '5' }
    else if d == 6 { '6' }
    else if d == 7 { '7' }
    else if d == 8 { '8' }
    else { '9' }
}

/// Decimal digits of `n`, most significant first, without leading zeros.
pub open spec fn nat_str(n: nat) -> Seq<char>
    decreases n,
{
    if n < 10 {
        seq![digit_char(n as int)]
    } else {
        nat_str(n / 10) + seq![digit_char((n % 10) as int)]
    }
}

/// Decimal text of `v`, with a leading `-` when negative.
pub open spec fn int_str(v: int) -> Seq<char> {
    if v < 0 {
        seq!['-'] + nat_str((-v) as nat)
    } else {
        nat_str(v as nat)
    }
}

/// Text of a fixed-point value in units: the whole part, then, when the
/// value is not a whole number of units, a point and three decimals.
pub open spec fn fixed_str(v: int) -> Seq<char> {
    let a = if v < 0 { -v } else { v };
    let whole = nat_str((a / UNIT as int) as nat);
    let f = a % UNIT as int;
    let sign = if v < 0 { seq!['-'] } else { Seq::<char>::empty() };
    if f == 0 {
        sign + whole
    } else {
        sign + whole + seq![
            '.',
            digit_char(f / 100),
            digit_char((f / 10) % 10),
            digit_char(f % 10),
        ]
    }
}

fn digit_text(d: u64) -> (r: &'static str)
    requires
        d < 10,
    ensures
        r@ == seq![digit_char(d as int)],
{
    proof {
        reveal_strlit("0");
        reveal_strlit("1");
        reveal_strlit("2");
        reveal_strlit("3");
        reveal_strlit("4");
        reveal_strlit("5");
        reveal_strlit("6");
        reveal_strlit("7");
        reveal_strlit("8");
        reveal_strlit("9");
    }
    if d == 0 { "0" }
    else if d == 1 { "1" }
    else if d == 2 { "2" }
    else if d == 3 { "3" }
    else if d == 4 { "4" }
    else if d == 5 { "5" }
    else if d == 6 { "6" }
    else if d == 7 { "7" }
    else if d == 8 { "8" }
    else { "9" }
}

/// Appends the decimal digits of `n` to `out`.
pub fn push_nat(out: &mut String, n: u64)
    ensures
        final(out)@ == old(out)@ + nat_str(n as nat),
    decreases n,
{
    if n < 10 {
        out.append(digit_text(n));
    } else {
        push_nat(out, n / 10);
        out.append(digit_text(n % 10));
        proof {
            assert(final(out)@ =~= old(out)@ + nat_str(n as nat));
        }
    }
}

/// Decimal text of `v`.
pub fn int_text(v: i64) -> (r: String)
    ensures
        r@ == int_str(v as int),
{
    let mut out = String::new();
    if v < 0 {
        proof { reveal_strlit("-"); }
        out.append("-");
        let a: u64 = if v == i64::MIN { 9223372036854775808u64 } else { (-v) as u64 };
        push_nat(&mut out, a);
        proof { assert(out@ =~= int_str(v as int)); }
    } else {
        push_nat(&mut out, v as u64);
        proof { assert(out@ =~= int_str(v as int)); }
    }
    out
}

/// Text of the fixed-point value `v` in units.
pub fn fixed_text(v: i64) -> (r: String)
    ensures
        r@ == fixed_str(v as int),
{
    let mut out = String::new();
    let a: u64 = if v == i64::MIN {
        9223372036854775808u64
    } else if v < 0 {
        (-v) as u64
    } else {
        v as u64
    };
    if v < 0 {
        proof { reveal_strlit("-"); }
        out.append("-");
    }
    let u = UNIT as u64;
    push_nat(&mut out, a / u);
    let f = a % u;
    if f != 0 {
        proof { reveal_strlit("."); }
        out.append(".");
        out.append(digit_text(f / 100));
        out.append(digit_text((f / 10) % 10));
        out.append(digit_text(f % 10));
    }
    proof {
        assert(out@ =~= fixed_str(v as int));
    }
    out
}

} // verus!
