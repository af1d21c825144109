//! The conversion matrix.  Widening a bounded value to a larger
//! representation is statically total: the value is carried over unchanged
//! and the very same bound expression is re-attached at the larger width.
//! Narrowing is fallible: it re-checks, at runtime, that the value is
//! representable at the destination and still satisfies the bound there,
//! and signals a range/membership violation otherwise.

use vstd::prelude::*;
use crate::{Bounded, lemma_bounded_invariant};
use crate::value::{Width, in_range, min_val, max_val, signed, bits, lemma_width_bounds};
use crate::expr::{Expr, UnOp, BinOp, Val, Value, seval, apply_un, apply_bin};

verus! {

/// The widening table, following the standard widening lattice over the
/// representations (the pointer-sized ones counting as 64-bit): within one
/// signedness to at least as many bits, and from unsigned to strictly larger
/// signed.  Every edge is lossless: each representable source value is
/// representable in the target.
pub open spec fn is_widening(from: Width, to: Width) -> bool {
    ||| (signed(from) == signed(to) && bits(from) <= bits(to))
    ||| (!signed(from) && signed(to) && bits(from) < bits(to))
}

/// Runtime counterpart of `is_widening`.
pub fn widening_allowed(from: Width, to: Width) -> (r: bool)
    ensures
        r == is_widening(from, to),
{
    (from.signed_of() == to.signed_of() && from.bits_of() <= to.bits_of()) || (!from.signed_of()
        && to.signed_of() && from.bits_of() < to.bits_of())
}

/// Whether the term holds a complement node anywhere.
pub open spec fn has_not(e: Expr) -> bool
    decreases e,
{
    match e {
        Expr::Unary(op, s) => op == UnOp::Not || has_not(*s),
        Expr::Binary(_, l, r) => has_not(*l) || has_not(*r),
        _ => false,
    }
}

/// Runtime counterpart of `has_not`.
pub fn expr_has_not(e: &Expr) -> (r: bool)
    ensures
        r == has_not(*e),
    decreases e,
{
    match e {
        Expr::Unary(op, s) => matches!(op, UnOp::Not) || expr_has_not(s),
        Expr::Binary(_, l, r) => expr_has_not(l) || expr_has_not(r),
        _ => false,
    }
}

/// A bound keeps its meaning across the widening when both representations
/// are signed, or when it holds no complement node — the one operator whose
/// unsigned reading depends on the width.
pub open spec fn widen_stable(e: Expr, from: Width, to: Width) -> bool {
    (signed(from) && signed(to)) || !has_not(e)
}

/// A widening edge gives range containment.
proof fn lemma_widening_contains(from: Width, to: Width)
    requires
        is_widening(from, to),
    ensures
        min_val(to) <= min_val(from),
        max_val(from) <= max_val(to),
        bits(from) <= bits(to),
        signed(from) ==> signed(to),
        !signed(from) && signed(to) ==> max_val(from) < 0x8000_0000_0000_0000,
{
}

/// A unary operator gives the same outcome at the larger width, under the
/// stability proviso for the complement.
proof fn lemma_apply_un_widen(op: UnOp, from: Width, to: Width, v: Val)
    requires
        min_val(to) <= min_val(from),
        max_val(from) <= max_val(to),
        signed(from) ==> signed(to),
        op == UnOp::Not && v is VInt ==> signed(from) && signed(to),
        apply_un(op, from, v) is Some,
    ensures
        apply_un(op, to, v) == apply_un(op, from, v),
{
}

/// A binary operator gives the same outcome at the larger width.
proof fn lemma_apply_bin_widen(op: BinOp, from: Width, to: Width, a: Val, b: Val)
    requires
        min_val(to) <= min_val(from),
        max_val(from) <= max_val(to),
        bits(from) <= bits(to),
        signed(from) ==> signed(to),
        !signed(from) && signed(to) ==> max_val(from) < 0x8000_0000_0000_0000,
        apply_bin(op, from, a, b) is Some,
    ensures
        apply_bin(op, to, a, b) == apply_bin(op, from, a, b),
{
}

/// Evaluation is stable under widening: an evaluation that succeeds at the
/// source width succeeds at the target width with the very same outcome.
pub proof fn lemma_seval_widen(e: Expr, from: Width, to: Width, x: int)
    requires
        is_widening(from, to),
        widen_stable(e, from, to),
        seval(e, from, x) is Some,
    ensures
        seval(e, to, x) == seval(e, from, x),
    decreases e,
{
    lemma_widening_contains(from, to);
    match e {
        Expr::Arg => {},
        Expr::IntConst(_) => {},
        Expr::BoolConst(_) => {},
        Expr::Unary(op, s) => {
            lemma_seval_widen(*s, from, to, x);
            if let Some(v) = seval(*s, from, x) {
                lemma_apply_un_widen(op, from, to, v);
            }
        },
        Expr::Binary(op, l, r) => {
            lemma_seval_widen(*l, from, to, x);
            lemma_seval_widen(*r, from, to, x);
            if let (Some(a), Some(b)) = (seval(*l, from, x), seval(*r, from, x)) {
                lemma_apply_bin_widen(op, from, to, a, b);
            }
        },
    }
}

/// The conditions under which narrowing to `to` yields a value: the raw
/// value is representable there and the bound still holds of it at that
/// width.
pub open spec fn narrow_ok(e: Expr, to: Width, v: int) -> bool {
    in_range(to, v) && seval(e, to, v) == Some(Val::VBool(true))
}

impl Bounded {
    /// The total widening conversion: carry the value to a larger
    /// representation under the same bound.  Statically total — it always
    /// succeeds, never fails; the obligations are the widening edge and the
    /// stability of the bound across it, both resolved before the program
    /// runs.
    pub fn widen(&self, to: Width) -> (r: Bounded)
        requires
            self.wf(),
            is_widening(self.width_spec(), to),
            widen_stable(self.bound_spec(), self.width_spec(), to),
        ensures
            r.wf(),
            r.value_spec() == self.value_spec(),
            r.width_spec() == to,
            r.bound_spec() == self.bound_spec(),
    {
        proof {
            lemma_bounded_invariant(self);
            lemma_widening_contains(self.width_spec(), to);
            lemma_seval_widen(self.bound_spec(), self.width_spec(), to, self.value_spec());
        }
        Bounded::make(self.value(), to, self.bound_expr().deep_clone())
    }

    /// The fallible narrowing conversion: re-check the raw value against the
    /// destination representation and the bound at that width, and signal a
    /// range/membership violation — an absence, not a fault — where either
    /// check fails.
    pub fn narrow(&self, to: Width) -> (r: Option<Bounded>)
        requires
            self.wf(),
        ensures
            r is Some <==> narrow_ok(self.bound_spec(), to, self.value_spec()),
            r matches Some(b) ==> {
                &&& b.wf()
                &&& b.value_spec() == self.value_spec()
                &&& b.width_spec() == to
                &&& b.bound_spec() == self.bound_spec()
            },
    {
        let v = self.value();
        if !to.holds(v) {
            return None;
        }
        match self.bound_expr().eval(to, v) {
            Some(Value::VBool(true)) => Some(Bounded::make(v, to, self.bound_expr().deep_clone())),
            _ => None,
        }
    }
}

/// Widening round trip: let `wide` be the result of widening `x` (same raw
/// value, same bound, the larger width).  Narrowing `wide` back to the
/// original width succeeds — the value was representable there and satisfied
/// the bound there — and reproduces the original raw value exactly, since
/// narrowing never transforms the value it accepts.
pub proof fn lemma_widening_round_trip(x: &Bounded, wide: &Bounded, to: Width)
    requires
        x.wf(),
        is_widening(x.width_spec(), to),
        widen_stable(x.bound_spec(), x.width_spec(), to),
        wide.value_spec() == x.value_spec(),
        wide.width_spec() == to,
        wide.bound_spec() == x.bound_spec(),
    ensures
        narrow_ok(wide.bound_spec(), x.width_spec(), wide.value_spec()),
        wide.value_spec() == x.value_spec(),
{
    lemma_bounded_invariant(x);
}

} // verus!
