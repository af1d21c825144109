//! Range sugar: range-shaped predicates derived purely from the primitive
//! comparison and conjunction terms, and what they evaluate to.

use vstd::prelude::*;
use crate::value::{Width, Numeral, in_range, lemma_width_bounds};
use crate::expr::{Expr, BinOp, Val, seval};

verus! {

/// The half-open range `start <= argument < end`.
pub open spec fn spec_range(s: int, e: int) -> Expr {
    Expr::Binary(
        BinOp::BitAnd,
        Box::new(
            Expr::Binary(BinOp::Ge, Box::new(Expr::Arg), Box::new(Expr::IntConst(s as i128))),
        ),
        Box::new(
            Expr::Binary(BinOp::Lt, Box::new(Expr::Arg), Box::new(Expr::IntConst(e as i128))),
        ),
    )
}

/// The closed range `start <= argument <= end`.
pub open spec fn spec_range_inclusive(s: int, e: int) -> Expr {
    Expr::Binary(
        BinOp::BitAnd,
        Box::new(
            Expr::Binary(BinOp::Ge, Box::new(Expr::Arg), Box::new(Expr::IntConst(s as i128))),
        ),
        Box::new(
            Expr::Binary(BinOp::Le, Box::new(Expr::Arg), Box::new(Expr::IntConst(e as i128))),
        ),
    )
}

/// The open-ended range `start <= argument`.
pub open spec fn spec_range_from(s: int) -> Expr {
    Expr::Binary(BinOp::Ge, Box::new(Expr::Arg), Box::new(Expr::IntConst(s as i128)))
}

/// Build the half-open range bound `start <= argument < end`.
pub fn range(start: &Numeral, end: &Numeral) -> (r: Expr)
    ensures
        r == spec_range(start@, end@),
{
    Expr::Binary(
        BinOp::BitAnd,
        Box::new(Expr::Binary(BinOp::Ge, Box::new(Expr::Arg), Box::new(Expr::IntConst(start.get())))),
        Box::new(Expr::Binary(BinOp::Lt, Box::new(Expr::Arg), Box::new(Expr::IntConst(end.get())))),
    )
}

/// Build the closed range bound `start <= argument <= end`.
pub fn range_inclusive(start: &Numeral, end: &Numeral) -> (r: Expr)
    ensures
        r == spec_range_inclusive(start@, end@),
{
    Expr::Binary(
        BinOp::BitAnd,
        Box::new(Expr::Binary(BinOp::Ge, Box::new(Expr::Arg), Box::new(Expr::IntConst(start.get())))),
        Box::new(Expr::Binary(BinOp::Le, Box::new(Expr::Arg), Box::new(Expr::IntConst(end.get())))),
    )
}

/// Build the open-ended range bound `start <= argument`.
pub fn range_from(start: &Numeral) -> (r: Expr)
    ensures
        r == spec_range_from(start@),
{
    Expr::Binary(BinOp::Ge, Box::new(Expr::Arg), Box::new(Expr::IntConst(start.get())))
}

/// What the half-open range bound evaluates to: exactly membership of the
/// input in `[start, end)`.
pub proof fn lemma_range_eval(s: int, e: int, w: Width, v: int)
    requires
        in_range(w, s),
        in_range(w, e),
        in_range(w, v),
    ensures
        seval(spec_range(s, e), w, v) == Some(Val::VBool(s <= v < e)),
{
    lemma_width_bounds(w);
    assert(seval(Expr::Arg, w, v) == Some(Val::VInt(v)));
    assert(seval(Expr::IntConst(s as i128), w, v) == Some(Val::VInt(s)));
    assert(seval(Expr::IntConst(e as i128), w, v) == Some(Val::VInt(e)));
    assert(seval(
        Expr::Binary(BinOp::Ge, Box::new(Expr::Arg), Box::new(Expr::IntConst(s as i128))),
        w,
        v,
    ) == Some(Val::VBool(v >= s)));
    assert(seval(
        Expr::Binary(BinOp::Lt, Box::new(Expr::Arg), Box::new(Expr::IntConst(e as i128))),
        w,
        v,
    ) == Some(Val::VBool(v < e)));
}

/// What the closed range bound evaluates to: exactly membership of the input
/// in `[start, end]`.
pub proof fn lemma_range_inclusive_eval(s: int, e: int, w: Width, v: int)
    requires
        in_range(w, s),
        in_range(w, e),
        in_range(w, v),
    ensures
        seval(spec_range_inclusive(s, e), w, v) == Some(Val::VBool(s <= v <= e)),
{
    lemma_width_bounds(w);
    assert(seval(Expr::Arg, w, v) == Some(Val::VInt(v)));
    assert(seval(Expr::IntConst(s as i128), w, v) == Some(Val::VInt(s)));
    assert(seval(Expr::IntConst(e as i128), w, v) == Some(Val::VInt(e)));
    assert(seval(
        Expr::Binary(BinOp::Ge, Box::new(Expr::Arg), Box::new(Expr::IntConst(s as i128))),
        w,
        v,
    ) == Some(Val::VBool(v >= s)));
    assert(seval(
        Expr::Binary(BinOp::Le, Box::new(Expr::Arg), Box::new(Expr::IntConst(e as i128))),
        w,
        v,
    ) == Some(Val::VBool(v <= e)));
}

/// What the open-ended range bound evaluates to: exactly `start <= input`.
pub proof fn lemma_range_from_eval(s: int, w: Width, v: int)
    requires
        in_range(w, s),
        in_range(w, v),
    ensures
        seval(spec_range_from(s), w, v) == Some(Val::VBool(s <= v)),
{
    lemma_width_bounds(w);
    assert(seval(Expr::Arg, w, v) == Some(Val::VInt(v)));
    assert(seval(Expr::IntConst(s as i128), w, v) == Some(Val::VInt(s)));
}

} // verus!
