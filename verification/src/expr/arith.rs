//! Arithmetic on raw values with the truncated division and remainder of the
//! underlying primitives, each operation checked against the representable
//! range of a chosen width.

use vstd::prelude::*;
use crate::value::{Width, in_range, lemma_width_bounds};

verus! {

/// Absolute value.
pub open spec fn abs_of(x: int) -> int {
    if x < 0 {
        -x
    } else {
        x
    }
}

/// Quotient with truncation toward zero, as the primitive `/` computes it.
pub open spec fn tdiv(a: int, b: int) -> int
    recommends
        b != 0,
{
    if (a < 0) != (b < 0) {
        -(abs_of(a) / abs_of(b))
    } else {
        abs_of(a) / abs_of(b)
    }
}

/// Remainder taking the sign of the dividend, as the primitive `%` computes it.
pub open spec fn trem(a: int, b: int) -> int
    recommends
        b != 0,
{
    if a < 0 {
        -(abs_of(a) % abs_of(b))
    } else {
        abs_of(a) % abs_of(b)
    }
}

/// Sum, checked against the range of `w`.
pub(crate) fn add_in(w: Width, a: i128, b: i128) -> (r: Option<i128>)
    requires
        in_range(w, a as int),
        in_range(w, b as int),
    ensures
        r is Some <==> in_range(w, a as int + b as int),
        r matches Some(x) ==> x as int == a as int + b as int,
{
    proof {
        lemma_width_bounds(w);
    }
    let s: i128 = a + b;
    if w.holds(s) {
        Some(s)
    } else {
        None
    }
}

/// Difference, checked against the range of `w`.
pub(crate) fn sub_in(w: Width, a: i128, b: i128) -> (r: Option<i128>)
    requires
        in_range(w, a as int),
        in_range(w, b as int),
    ensures
        r is Some <==> in_range(w, a as int - b as int),
        r matches Some(x) ==> x as int == a as int - b as int,
{
    proof {
        lemma_width_bounds(w);
    }
    let s: i128 = a - b;
    if w.holds(s) {
        Some(s)
    } else {
        None
    }
}

/// The magnitude of `a` as an unsigned value.
fn magnitude(w: Width, a: i128) -> (m: u128)
    requires
        in_range(w, a as int),
    ensures
        m as int == abs_of(a as int),
        m <= 0xffff_ffff_ffff_ffff,
{
    proof {
        lemma_width_bounds(w);
    }
    if a < 0 {
        (-a) as u128
    } else {
        a as u128
    }
}

/// Product, checked against the range of `w`.
pub(crate) fn mul_in(w: Width, a: i128, b: i128) -> (r: Option<i128>)
    requires
        in_range(w, a as int),
        in_range(w, b as int),
    ensures
        r is Some <==> in_range(w, a as int * b as int),
        r matches Some(x) ==> x as int == a as int * b as int,
{
    proof {
        lemma_width_bounds(w);
    }
    let neg: bool = (a < 0) != (b < 0);
    let ma: u128 = magnitude(w, a);
    let mb: u128 = magnitude(w, b);
    assert(ma as int * mb as int <= 0xffff_ffff_ffff_ffff * 0xffff_ffff_ffff_ffff)
        by (nonlinear_arith)
        requires
            ma <= 0xffff_ffff_ffff_ffffu128,
            mb <= 0xffff_ffff_ffff_ffffu128,
    ;
    let pm: u128 = ma * mb;
    assert(a as int * b as int == if neg {
        -(ma as int * mb as int)
    } else {
        ma as int * mb as int
    }) by (nonlinear_arith)
        requires
            ma as int == abs_of(a as int),
            mb as int == abs_of(b as int),
            neg == ((a < 0) != (b < 0)),
    ;
    if neg {
        let lim: u128 = (-(w.min_of())) as u128;
        if pm <= lim {
            Some(-(pm as i128))
        } else {
            None
        }
    } else {
        let lim: u128 = w.max_of() as u128;
        if pm <= lim {
            Some(pm as i128)
        } else {
            None
        }
    }
}

/// Truncated quotient, absent when the divisor is zero or the quotient is
/// out of the range of `w`.
pub(crate) fn div_in(w: Width, a: i128, b: i128) -> (r: Option<i128>)
    requires
        in_range(w, a as int),
        in_range(w, b as int),
    ensures
        r is Some <==> b != 0 && in_range(w, tdiv(a as int, b as int)),
        r matches Some(x) ==> x as int == tdiv(a as int, b as int),
{
    proof {
        lemma_width_bounds(w);
    }
    if b == 0 {
        return None;
    }
    let neg: bool = (a < 0) != (b < 0);
    let ma: u128 = magnitude(w, a);
    let mb: u128 = magnitude(w, b);
    let qm: u128 = ma / mb;
    let r0: i128 = if neg {
        -(qm as i128)
    } else {
        qm as i128
    };
    assert(r0 as int == tdiv(a as int, b as int));
    if w.holds(r0) {
        Some(r0)
    } else {
        None
    }
}

/// Remainder of truncated division, absent when the divisor is zero or the
/// remainder is out of the range of `w`.
pub(crate) fn rem_in(w: Width, a: i128, b: i128) -> (r: Option<i128>)
    requires
        in_range(w, a as int),
        in_range(w, b as int),
    ensures
        r is Some <==> b != 0 && in_range(w, trem(a as int, b as int)),
        r matches Some(x) ==> x as int == trem(a as int, b as int),
{
    proof {
        lemma_width_bounds(w);
    }
    if b == 0 {
        return None;
    }
    let ma: u128 = magnitude(w, a);
    let mb: u128 = magnitude(w, b);
    let rm: u128 = ma % mb;
    let r0: i128 = if a < 0 {
        -(rm as i128)
    } else {
        rm as i128
    };
    assert(r0 as int == trem(a as int, b as int));
    if w.holds(r0) {
        Some(r0)
    } else {
        None
    }
}

} // verus!
