use vstd::prelude::*;

verus! {

/// Integer division rounded toward zero, as Rust's `/` does.
pub open spec fn div_toward_zero(a: int, b: int) -> int {
    let q = (if a < 0 { -a } else { a }) / (if b < 0 { -b } else { b });
    if (a < 0) != (b < 0) {
        -q
    } else {
        q
    }
}

/// The value computed by [`map`].
pub open spec fn map_spec(value: int, from_start: int, from_end: int, to_start: int, to_end: int) -> int {
    value - div_toward_zero(from_start * (to_end - to_start), from_end - from_start) + to_start
}

fn div_i128(a: i128, b: i128) -> (r: i128)
    requires
        b != 0,
        a > i128::MIN,
        b > i128::MIN,
    ensures
        r == div_toward_zero(a as int, b as int),
{
    let ua: u128 = if a < 0 { (-a) as u128 } else { a as u128 };
    let ub: u128 = if b < 0 { (-b) as u128 } else { b as u128 };
    let q: u128 = ua / ub;
    assert(q <= ua) by (nonlinear_arith)
        requires
            q == ua / ub,
            ub > 0,
    ;
    if (a < 0) != (b < 0) {
        -(q as i128)
    } else {
        q as i128
    }
}

/// Shift `value` by the scaled start of `from`: the start of `from` times the
/// width of `to`, divided (rounding toward zero) by the width of `from`, is
/// subtracted, and the start of `to` added.
pub fn map(value: i64, from: std::ops::Range<i64>, to: std::ops::Range<i64>) -> (r: i64)
    requires
        from.end != from.start,
        i64::MIN <= map_spec(value as int, from.start as int, from.end as int, to.start as int, to.end as int)
            <= i64::MAX,
    ensures
        r == map_spec(value as int, from.start as int, from.end as int, to.start as int, to.end as int),
{
    let span: i128 = to.end as i128 - to.start as i128;
    let width: i128 = from.end as i128 - from.start as i128;
    let s: i128 = from.start as i128;
    assert(-0x8000_0000_0000_0000 * 0x1_0000_0000_0000_0000 < s * span < 0x8000_0000_0000_0000
        * 0x1_0000_0000_0000_0000) by (nonlinear_arith)
        requires
            -0x8000_0000_0000_0000 <= s < 0x8000_0000_0000_0000,
            -0x1_0000_0000_0000_0000 < span < 0x1_0000_0000_0000_0000,
    ;
    let q = div_i128(s * span, width);
    (value as i128 - q + to.start as i128) as i64
}

} // verus!
