//! Comparison helpers: the ordering result type and the comparison
//! operations the evaluator forwards to.

use vstd::prelude::*;

verus! {

/// Result of comparing two values, mirroring the three-way ordering of the
/// underlying primitives.
#[derive(Clone, Copy, PartialEq, Eq, Structural, Debug)]
pub enum Order {
    Less,
    Equal,
    Greater,
}

/// Three-way comparison of two integers.
pub open spec fn ord_of(a: int, b: int) -> Order {
    if a < b {
        Order::Less
    } else if a == b {
        Order::Equal
    } else {
        Order::Greater
    }
}

/// Equality and inequality on raw values.
pub trait PartialEqExt {
    fn eq_with(a: i128, b: i128) -> (r: bool)
        ensures
            r == (a == b),
    ;

    fn ne_with(a: i128, b: i128) -> (r: bool)
        ensures
            r == (a != b),
    ;
}

impl PartialEqExt for i128 {
    fn eq_with(a: i128, b: i128) -> (r: bool) {
        a == b
    }

    fn ne_with(a: i128, b: i128) -> (r: bool) {
        a != b
    }
}

/// Strict and non-strict order tests on raw values.
pub trait PartialOrdExt {
    fn gt_with(a: i128, b: i128) -> (r: bool)
        ensures
            r == (a > b),
    ;

    fn ge_with(a: i128, b: i128) -> (r: bool)
        ensures
            r == (a >= b),
    ;

    fn lt_with(a: i128, b: i128) -> (r: bool)
        ensures
            r == (a < b),
    ;

    fn le_with(a: i128, b: i128) -> (r: bool)
        ensures
            r == (a <= b),
    ;
}

impl PartialOrdExt for i128 {
    fn gt_with(a: i128, b: i128) -> (r: bool) {
        a > b
    }

    fn ge_with(a: i128, b: i128) -> (r: bool) {
        a >= b
    }

    fn lt_with(a: i128, b: i128) -> (r: bool) {
        a < b
    }

    fn le_with(a: i128, b: i128) -> (r: bool) {
        a <= b
    }
}

/// Three-way comparison on raw values.
pub trait OrdExt {
    fn cmp_with(a: i128, b: i128) -> (r: Order)
        ensures
            r == ord_of(a as int, b as int),
    ;
}

impl OrdExt for i128 {
    fn cmp_with(a: i128, b: i128) -> (r: Order) {
        if a < b {
            Order::Less
        } else if a == b {
            Order::Equal
        } else {
            Order::Greater
        }
    }
}

/// Larger and smaller of two raw values.
pub trait MinMax {
    fn max_with(a: i128, b: i128) -> (r: i128)
        ensures
            r as int == if a >= b {
                a as int
            } else {
                b as int
            },
    ;

    fn min_with(a: i128, b: i128) -> (r: i128)
        ensures
            r as int == if a <= b {
                a as int
            } else {
                b as int
            },
    ;
}

impl MinMax for i128 {
    fn max_with(a: i128, b: i128) -> (r: i128) {
        if a >= b {
            a
        } else {
            b
        }
    }

    fn min_with(a: i128, b: i128) -> (r: i128) {
        if a <= b {
            a
        } else {
            b
        }
    }
}

} // verus!
