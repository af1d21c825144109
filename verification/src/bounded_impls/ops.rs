//! Operator forwarding.  Every operator between a bounded value and a raw
//! primitive, or between two bounded values of one representation, unwraps to
//! raw values, applies the primitive operator, and returns a raw, unbounded
//! result — never a new bounded value: the result's membership in any useful
//! bound is generally unprovable from the operands' bounds alone.  Callers
//! that need a re-validated bounded result call `attempt_bind` explicitly.

use vstd::prelude::*;
use crate::{Bounded, lemma_bounded_invariant};
use crate::value::{in_range, max_val, signed, bits, lemma_width_bounds};
use crate::expr::arith::{tdiv, trem, add_in, sub_in, mul_in, div_in, rem_in};
use crate::expr::bit::{pat64, valw, bitand_in, bitor_in, bitxor_in, shl_in, shr_in};
use vstd::arithmetic::power2::pow2;

verus! {

impl Bounded {
    /// Sum with a raw value of the same representation.
    pub fn add_raw(&self, rhs: i128) -> (r: i128)
        requires
            self.wf(),
            in_range(self.width_spec(), rhs as int),
            in_range(self.width_spec(), self.value_spec() + rhs),
        ensures
            r as int == self.value_spec() + rhs,
    {
        proof {
            lemma_bounded_invariant(self);
        }
        match add_in(self.width_of(), self.value(), rhs) {
            Some(v) => v,
            None => {
                proof {
                    assert(false);
                }
                0
            },
        }
    }

    /// Difference with a raw value of the same representation.
    pub fn sub_raw(&self, rhs: i128) -> (r: i128)
        requires
            self.wf(),
            in_range(self.width_spec(), rhs as int),
            in_range(self.width_spec(), self.value_spec() - rhs),
        ensures
            r as int == self.value_spec() - rhs,
    {
        proof {
            lemma_bounded_invariant(self);
        }
        match sub_in(self.width_of(), self.value(), rhs) {
            Some(v) => v,
            None => {
                proof {
                    assert(false);
                }
                0
            },
        }
    }

    /// Product with a raw value of the same representation.
    pub fn mul_raw(&self, rhs: i128) -> (r: i128)
        requires
            self.wf(),
            in_range(self.width_spec(), rhs as int),
            in_range(self.width_spec(), self.value_spec() * rhs),
        ensures
            r as int == self.value_spec() * rhs,
    {
        proof {
            lemma_bounded_invariant(self);
        }
        match mul_in(self.width_of(), self.value(), rhs) {
            Some(v) => v,
            None => {
                proof {
                    assert(false);
                }
                0
            },
        }
    }

    /// Truncated quotient by a raw value of the same representation.  As for
    /// the primitives, a zero divisor is a fatal fault, left out here, not a
    /// recoverable absence.
    pub fn div_raw(&self, rhs: i128) -> (r: i128)
        requires
            self.wf(),
            in_range(self.width_spec(), rhs as int),
            rhs != 0,
            in_range(self.width_spec(), tdiv(self.value_spec(), rhs as int)),
        ensures
            r as int == tdiv(self.value_spec(), rhs as int),
    {
        proof {
            lemma_bounded_invariant(self);
        }
        match div_in(self.width_of(), self.value(), rhs) {
            Some(v) => v,
            None => {
                proof {
                    assert(false);
                }
                0
            },
        }
    }

    /// Remainder by a raw value of the same representation; a zero divisor
    /// is a fatal fault, left out here.
    pub fn rem_raw(&self, rhs: i128) -> (r: i128)
        requires
            self.wf(),
            in_range(self.width_spec(), rhs as int),
            rhs != 0,
            in_range(self.width_spec(), trem(self.value_spec(), rhs as int)),
        ensures
            r as int == trem(self.value_spec(), rhs as int),
    {
        proof {
            lemma_bounded_invariant(self);
        }
        match rem_in(self.width_of(), self.value(), rhs) {
            Some(v) => v,
            None => {
                proof {
                    assert(false);
                }
                0
            },
        }
    }

    /// Sum of two bounded values over one representation.
    pub fn add(&self, rhs: &Bounded) -> (r: i128)
        requires
            self.wf(),
            rhs.wf(),
            self.width_spec() == rhs.width_spec(),
            in_range(self.width_spec(), self.value_spec() + rhs.value_spec()),
        ensures
            r as int == self.value_spec() + rhs.value_spec(),
    {
        proof {
            lemma_bounded_invariant(rhs);
        }
        self.add_raw(rhs.value())
    }

    /// Difference of two bounded values over one representation.
    pub fn sub(&self, rhs: &Bounded) -> (r: i128)
        requires
            self.wf(),
            rhs.wf(),
            self.width_spec() == rhs.width_spec(),
            in_range(self.width_spec(), self.value_spec() - rhs.value_spec()),
        ensures
            r as int == self.value_spec() - rhs.value_spec(),
    {
        proof {
            lemma_bounded_invariant(rhs);
        }
        self.sub_raw(rhs.value())
    }

    /// Product of two bounded values over one representation.
    pub fn mul(&self, rhs: &Bounded) -> (r: i128)
        requires
            self.wf(),
            rhs.wf(),
            self.width_spec() == rhs.width_spec(),
            in_range(self.width_spec(), self.value_spec() * rhs.value_spec()),
        ensures
            r as int == self.value_spec() * rhs.value_spec(),
    {
        proof {
            lemma_bounded_invariant(rhs);
        }
        self.mul_raw(rhs.value())
    }

    /// Truncated quotient of two bounded values over one representation.
    pub fn div(&self, rhs: &Bounded) -> (r: i128)
        requires
            self.wf(),
            rhs.wf(),
            self.width_spec() == rhs.width_spec(),
            rhs.value_spec() != 0,
            in_range(self.width_spec(), tdiv(self.value_spec(), rhs.value_spec())),
        ensures
            r as int == tdiv(self.value_spec(), rhs.value_spec()),
    {
        proof {
            lemma_bounded_invariant(rhs);
        }
        self.div_raw(rhs.value())
    }

    /// Remainder of two bounded values over one representation.
    pub fn rem(&self, rhs: &Bounded) -> (r: i128)
        requires
            self.wf(),
            rhs.wf(),
            self.width_spec() == rhs.width_spec(),
            rhs.value_spec() != 0,
            in_range(self.width_spec(), trem(self.value_spec(), rhs.value_spec())),
        ensures
            r as int == trem(self.value_spec(), rhs.value_spec()),
    {
        proof {
            lemma_bounded_invariant(rhs);
        }
        self.rem_raw(rhs.value())
    }

    /// Negation; defined for the signed representations, as for the
    /// primitives.
    pub fn neg(&self) -> (r: i128)
        requires
            self.wf(),
            signed(self.width_spec()),
            in_range(self.width_spec(), -self.value_spec()),
        ensures
            r as int == -self.value_spec(),
    {
        proof {
            lemma_bounded_invariant(self);
            lemma_width_bounds(self.width_spec());
        }
        -self.value()
    }

    /// Complement: bitwise on the raw value, following the signedness of the
    /// representation.
    pub fn not(&self) -> (r: i128)
        requires
            self.wf(),
        ensures
            r as int == if signed(self.width_spec()) {
                -1 - self.value_spec()
            } else {
                max_val(self.width_spec()) - self.value_spec()
            },
    {
        proof {
            lemma_bounded_invariant(self);
            lemma_width_bounds(self.width_spec());
        }
        if self.width_of().signed_of() {
            -1 - self.value()
        } else {
            self.width_of().max_of() - self.value()
        }
    }

    /// Bitwise and with a raw value of the same representation.
    pub fn bitand_raw(&self, rhs: i128) -> (r: i128)
        requires
            self.wf(),
            in_range(self.width_spec(), rhs as int),
            in_range(
                self.width_spec(),
                valw(self.width_spec(), pat64(self.value_spec()) & pat64(rhs as int)),
            ),
        ensures
            r as int == valw(self.width_spec(), pat64(self.value_spec()) & pat64(rhs as int)),
    {
        proof {
            lemma_bounded_invariant(self);
        }
        match bitand_in(self.width_of(), self.value(), rhs) {
            Some(v) => v,
            None => {
                proof {
                    assert(false);
                }
                0
            },
        }
    }

    /// Bitwise or with a raw value of the same representation.
    pub fn bitor_raw(&self, rhs: i128) -> (r: i128)
        requires
            self.wf(),
            in_range(self.width_spec(), rhs as int),
            in_range(
                self.width_spec(),
                valw(self.width_spec(), pat64(self.value_spec()) | pat64(rhs as int)),
            ),
        ensures
            r as int == valw(self.width_spec(), pat64(self.value_spec()) | pat64(rhs as int)),
    {
        proof {
            lemma_bounded_invariant(self);
        }
        match bitor_in(self.width_of(), self.value(), rhs) {
            Some(v) => v,
            None => {
                proof {
                    assert(false);
                }
                0
            },
        }
    }

    /// Bitwise exclusive or with a raw value of the same representation.
    pub fn bitxor_raw(&self, rhs: i128) -> (r: i128)
        requires
            self.wf(),
            in_range(self.width_spec(), rhs as int),
            in_range(
                self.width_spec(),
                valw(self.width_spec(), pat64(self.value_spec()) ^ pat64(rhs as int)),
            ),
        ensures
            r as int == valw(self.width_spec(), pat64(self.value_spec()) ^ pat64(rhs as int)),
    {
        proof {
            lemma_bounded_invariant(self);
        }
        match bitxor_in(self.width_of(), self.value(), rhs) {
            Some(v) => v,
            None => {
                proof {
                    assert(false);
                }
                0
            },
        }
    }

    /// Bitwise and of two bounded values over one representation.
    pub fn bitand(&self, rhs: &Bounded) -> (r: i128)
        requires
            self.wf(),
            rhs.wf(),
            self.width_spec() == rhs.width_spec(),
            in_range(
                self.width_spec(),
                valw(self.width_spec(), pat64(self.value_spec()) & pat64(rhs.value_spec())),
            ),
        ensures
            r as int == valw(
                self.width_spec(),
                pat64(self.value_spec()) & pat64(rhs.value_spec()),
            ),
    {
        proof {
            lemma_bounded_invariant(rhs);
        }
        self.bitand_raw(rhs.value())
    }

    /// Bitwise or of two bounded values over one representation.
    pub fn bitor(&self, rhs: &Bounded) -> (r: i128)
        requires
            self.wf(),
            rhs.wf(),
            self.width_spec() == rhs.width_spec(),
            in_range(
                self.width_spec(),
                valw(self.width_spec(), pat64(self.value_spec()) | pat64(rhs.value_spec())),
            ),
        ensures
            r as int == valw(
                self.width_spec(),
                pat64(self.value_spec()) | pat64(rhs.value_spec()),
            ),
    {
        proof {
            lemma_bounded_invariant(rhs);
        }
        self.bitor_raw(rhs.value())
    }

    /// Bitwise exclusive or of two bounded values over one representation.
    pub fn bitxor(&self, rhs: &Bounded) -> (r: i128)
        requires
            self.wf(),
            rhs.wf(),
            self.width_spec() == rhs.width_spec(),
            in_range(
                self.width_spec(),
                valw(self.width_spec(), pat64(self.value_spec()) ^ pat64(rhs.value_spec())),
            ),
        ensures
            r as int == valw(
                self.width_spec(),
                pat64(self.value_spec()) ^ pat64(rhs.value_spec()),
            ),
    {
        proof {
            lemma_bounded_invariant(rhs);
        }
        self.bitxor_raw(rhs.value())
    }

    /// Left shift by a raw amount: multiplication by a power of two, with
    /// the shift below the bit count, as for the primitives.
    pub fn shl_raw(&self, rhs: i128) -> (r: i128)
        requires
            self.wf(),
            0 <= rhs < bits(self.width_spec()),
            in_range(self.width_spec(), self.value_spec() * pow2(rhs as nat) as int),
        ensures
            r as int == self.value_spec() * pow2(rhs as nat) as int,
    {
        proof {
            lemma_bounded_invariant(self);
            lemma_width_bounds(self.width_spec());
        }
        match shl_in(self.width_of(), self.value(), rhs) {
            Some(v) => v,
            None => {
                proof {
                    assert(false);
                }
                0
            },
        }
    }

    /// Right shift by a raw amount: flooring division by a power of two (the
    /// arithmetic shift of the primitives), with the shift below the bit
    /// count.
    pub fn shr_raw(&self, rhs: i128) -> (r: i128)
        requires
            self.wf(),
            0 <= rhs < bits(self.width_spec()),
            in_range(self.width_spec(), self.value_spec() / pow2(rhs as nat) as int),
        ensures
            r as int == self.value_spec() / pow2(rhs as nat) as int,
    {
        proof {
            lemma_bounded_invariant(self);
            lemma_width_bounds(self.width_spec());
        }
        match shr_in(self.width_of(), self.value(), rhs) {
            Some(v) => v,
            None => {
                proof {
                    assert(false);
                }
                0
            },
        }
    }
}

/// In-place sum: a raw primitive accumulating a bounded value.
pub fn add_assign(lhs: &mut i128, rhs: &Bounded)
    requires
        rhs.wf(),
        in_range(rhs.width_spec(), *old(lhs) as int),
        in_range(rhs.width_spec(), *old(lhs) as int + rhs.value_spec()),
    ensures
        *final(lhs) as int == *old(lhs) as int + rhs.value_spec(),
{
    proof {
        lemma_bounded_invariant(rhs);
    }
    match add_in(rhs.width_of(), *lhs, rhs.value()) {
        Some(v) => {
            *lhs = v;
        },
        None => {
            proof {
                assert(false);
            }
        },
    }
}

/// In-place difference: a raw primitive reduced by a bounded value.
pub fn sub_assign(lhs: &mut i128, rhs: &Bounded)
    requires
        rhs.wf(),
        in_range(rhs.width_spec(), *old(lhs) as int),
        in_range(rhs.width_spec(), *old(lhs) as int - rhs.value_spec()),
    ensures
        *final(lhs) as int == *old(lhs) as int - rhs.value_spec(),
{
    proof {
        lemma_bounded_invariant(rhs);
    }
    match sub_in(rhs.width_of(), *lhs, rhs.value()) {
        Some(v) => {
            *lhs = v;
        },
        None => {
            proof {
                assert(false);
            }
        },
    }
}

/// In-place product: a raw primitive scaled by a bounded value.
pub fn mul_assign(lhs: &mut i128, rhs: &Bounded)
    requires
        rhs.wf(),
        in_range(rhs.width_spec(), *old(lhs) as int),
        in_range(rhs.width_spec(), *old(lhs) as int * rhs.value_spec()),
    ensures
        *final(lhs) as int == *old(lhs) as int * rhs.value_spec(),
{
    proof {
        lemma_bounded_invariant(rhs);
    }
    match mul_in(rhs.width_of(), *lhs, rhs.value()) {
        Some(v) => {
            *lhs = v;
        },
        None => {
            proof {
                assert(false);
            }
        },
    }
}

/// In-place truncated quotient: a raw primitive divided by a bounded value.
pub fn div_assign(lhs: &mut i128, rhs: &Bounded)
    requires
        rhs.wf(),
        in_range(rhs.width_spec(), *old(lhs) as int),
        rhs.value_spec() != 0,
        in_range(rhs.width_spec(), tdiv(*old(lhs) as int, rhs.value_spec())),
    ensures
        *final(lhs) as int == tdiv(*old(lhs) as int, rhs.value_spec()),
{
    proof {
        lemma_bounded_invariant(rhs);
    }
    match div_in(rhs.width_of(), *lhs, rhs.value()) {
        Some(v) => {
            *lhs = v;
        },
        None => {
            proof {
                assert(false);
            }
        },
    }
}

/// In-place remainder: a raw primitive reduced modulo a bounded value.
pub fn rem_assign(lhs: &mut i128, rhs: &Bounded)
    requires
        rhs.wf(),
        in_range(rhs.width_spec(), *old(lhs) as int),
        rhs.value_spec() != 0,
        in_range(rhs.width_spec(), trem(*old(lhs) as int, rhs.value_spec())),
    ensures
        *final(lhs) as int == trem(*old(lhs) as int, rhs.value_spec()),
{
    proof {
        lemma_bounded_invariant(rhs);
    }
    match rem_in(rhs.width_of(), *lhs, rhs.value()) {
        Some(v) => {
            *lhs = v;
        },
        None => {
            proof {
                assert(false);
            }
        },
    }
}

} // verus!
