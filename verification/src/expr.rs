//! The constraint-expression algebra: stateless terms describing a predicate
//! or transform over a primitive representation.  One mathematical semantics,
//! `seval`, serves both evaluation modes: runtime evaluation against a raw
//! value (`ValueExpr`) and evaluation against a compile-time numeral
//! (`TypeExpr`).  The two modes therefore agree by construction.

use vstd::prelude::*;

pub mod arith;
pub mod bit;
pub mod cmp;
pub mod range;

use crate::value::{Width, Numeral, in_range, bits, signed, max_val, lemma_width_bounds};
use crate::expr::arith::{tdiv, trem, add_in, sub_in, mul_in, div_in, rem_in};
use crate::expr::bit::{pat64, valw, bitand_in, bitor_in, bitxor_in, shl_in, shr_in};
use crate::expr::cmp::{Order, ord_of, PartialEqExt, PartialOrdExt, OrdExt, MinMax};
use vstd::arithmetic::power2::pow2;

verus! {

/// A unary operator term.
#[derive(Clone, Copy, PartialEq, Eq, Structural, Debug)]
pub enum UnOp {
    /// Arithmetic negation; defined for signed representations only, as for
    /// the primitives.
    Neg,
    /// Bitwise complement on numbers, logical complement on booleans.
    Not,
}

/// A binary operator term.  Each operator evaluates both sub-expressions
/// against the same input and combines the outputs as the corresponding
/// primitive operator does.
#[derive(Clone, Copy, PartialEq, Eq, Structural, Debug)]
pub enum BinOp {
    Add,
    Sub,
    Mul,
    Div,
    Rem,
    /// Bitwise on numbers, conjunction on booleans.
    BitAnd,
    /// Bitwise on numbers, disjunction on booleans.
    BitOr,
    /// Bitwise on numbers, exclusive or on booleans.
    BitXor,
    Shl,
    Shr,
    /// Three-way comparison.
    Cmp,
    Equal,
    NotEqual,
    Gt,
    Ge,
    Lt,
    Le,
    Max,
    Min,
}

/// An expression term.  The tree is the whole specification: its shape fully
/// determines both evaluation modes.
#[derive(Debug)]
pub enum Expr {
    /// The argument position: the value a bound is later checked against.
    Arg,
    /// A constant numeral, materialized at the width the expression is
    /// evaluated over.
    IntConst(i128),
    /// A constant truth value.
    BoolConst(bool),
    Unary(UnOp, Box<Expr>),
    Binary(BinOp, Box<Expr>, Box<Expr>),
}

/// The output sort of a term.
#[derive(Clone, Copy, PartialEq, Eq, Structural, Debug)]
pub enum Ty {
    /// A number of the representation the expression is evaluated over.
    TNum,
    /// A truth value.
    TBool,
    /// A three-way ordering.
    TOrd,
}

/// Output sort of a unary operator for a given operand sort.
pub open spec fn un_ty(op: UnOp, t: Ty) -> Option<Ty> {
    match op {
        UnOp::Neg => if t == Ty::TNum {
            Some(Ty::TNum)
        } else {
            None
        },
        UnOp::Not => if t == Ty::TNum || t == Ty::TBool {
            Some(t)
        } else {
            None
        },
    }
}

/// Output sort of a binary operator for given operand sorts.
pub open spec fn bin_ty(op: BinOp, a: Ty, b: Ty) -> Option<Ty> {
    match op {
        BinOp::Add | BinOp::Sub | BinOp::Mul | BinOp::Div | BinOp::Rem | BinOp::Shl | BinOp::Shr
            | BinOp::Max | BinOp::Min => if a == Ty::TNum && b == Ty::TNum {
            Some(Ty::TNum)
        } else {
            None
        },
        BinOp::BitAnd | BinOp::BitOr | BinOp::BitXor => if a == b && (a == Ty::TNum || a
            == Ty::TBool) {
            Some(a)
        } else {
            None
        },
        BinOp::Cmp => if a == Ty::TNum && b == Ty::TNum {
            Some(Ty::TOrd)
        } else {
            None
        },
        BinOp::Equal | BinOp::NotEqual => if a == b {
            Some(Ty::TBool)
        } else {
            None
        },
        BinOp::Gt | BinOp::Ge | BinOp::Lt | BinOp::Le => if a == Ty::TNum && b == Ty::TNum {
            Some(Ty::TBool)
        } else {
            None
        },
    }
}

/// The output sort of a term, or nothing where the term is ill-sorted.
/// Sorting does not depend on the width the term is evaluated over.
pub open spec fn out_ty(e: Expr) -> Option<Ty>
    decreases e,
{
    match e {
        Expr::Arg => Some(Ty::TNum),
        Expr::IntConst(_) => Some(Ty::TNum),
        Expr::BoolConst(_) => Some(Ty::TBool),
        Expr::Unary(op, s) => match out_ty(*s) {
            Some(t) => un_ty(op, t),
            None => None,
        },
        Expr::Binary(op, l, r) => match (out_ty(*l), out_ty(*r)) {
            (Some(a), Some(b)) => bin_ty(op, a, b),
            _ => None,
        },
    }
}

/// A term can serve as a bound exactly when its output sort is boolean.
pub open spec fn is_bound(e: Expr) -> bool {
    out_ty(e) == Some(Ty::TBool)
}

/// An evaluation result, in the mathematical semantics.
pub enum Val {
    VInt(int),
    VBool(bool),
    VOrd(Order),
}

/// An evaluation result, as computed at runtime.
#[derive(Clone, Copy, PartialEq, Eq, Structural, Debug)]
pub enum Value {
    VInt(i128),
    VBool(bool),
    VOrd(Order),
}

impl View for Value {
    type V = Val;

    open spec fn view(&self) -> Val {
        match *self {
            Value::VInt(a) => Val::VInt(a as int),
            Value::VBool(b) => Val::VBool(b),
            Value::VOrd(o) => Val::VOrd(o),
        }
    }
}

/// The mathematical reading of a runtime evaluation outcome.
pub open spec fn view_opt(r: Option<Value>) -> Option<Val> {
    match r {
        Some(v) => Some(v@),
        None => None,
    }
}

/// A number result, checked against the range of `w`; an out-of-range result
/// is an arithmetic fault of the evaluation.
pub open spec fn chk(w: Width, x: int) -> Option<Val> {
    if in_range(w, x) {
        Some(Val::VInt(x))
    } else {
        None
    }
}

/// Semantics of a unary operator at width `w`.
pub open spec fn apply_un(op: UnOp, w: Width, x: Val) -> Option<Val> {
    match op {
        UnOp::Neg => match x {
            Val::VInt(a) => if signed(w) {
                chk(w, -a)
            } else {
                None
            },
            _ => None,
        },
        UnOp::Not => match x {
            Val::VInt(a) => if signed(w) {
                chk(w, -1 - a)
            } else {
                chk(w, max_val(w) - a)
            },
            Val::VBool(b) => Some(Val::VBool(!b)),
            _ => None,
        },
    }
}

/// Semantics of a binary operator at width `w`.
pub open spec fn apply_bin(op: BinOp, w: Width, x: Val, y: Val) -> Option<Val> {
    match op {
        BinOp::Add => match (x, y) {
            (Val::VInt(a), Val::VInt(b)) => chk(w, a + b),
            _ => None,
        },
        BinOp::Sub => match (x, y) {
            (Val::VInt(a), Val::VInt(b)) => chk(w, a - b),
            _ => None,
        },
        BinOp::Mul => match (x, y) {
            (Val::VInt(a), Val::VInt(b)) => chk(w, a * b),
            _ => None,
        },
        BinOp::Div => match (x, y) {
            (Val::VInt(a), Val::VInt(b)) => if b == 0 {
                None
            } else {
                chk(w, tdiv(a, b))
            },
            _ => None,
        },
        BinOp::Rem => match (x, y) {
            (Val::VInt(a), Val::VInt(b)) => if b == 0 {
                None
            } else {
                chk(w, trem(a, b))
            },
            _ => None,
        },
        BinOp::BitAnd => match (x, y) {
            (Val::VInt(a), Val::VInt(b)) => chk(w, valw(w, pat64(a) & pat64(b))),
            (Val::VBool(p), Val::VBool(q)) => Some(Val::VBool(p && q)),
            _ => None,
        },
        BinOp::BitOr => match (x, y) {
            (Val::VInt(a), Val::VInt(b)) => chk(w, valw(w, pat64(a) | pat64(b))),
            (Val::VBool(p), Val::VBool(q)) => Some(Val::VBool(p || q)),
            _ => None,
        },
        BinOp::BitXor => match (x, y) {
            (Val::VInt(a), Val::VInt(b)) => chk(w, valw(w, pat64(a) ^ pat64(b))),
            (Val::VBool(p), Val::VBool(q)) => Some(Val::VBool(p != q)),
            _ => None,
        },
        BinOp::Shl => match (x, y) {
            (Val::VInt(a), Val::VInt(b)) => if 0 <= b < bits(w) {
                chk(w, a * pow2(b as nat) as int)
            } else {
                None
            },
            _ => None,
        },
        BinOp::Shr => match (x, y) {
            (Val::VInt(a), Val::VInt(b)) => if 0 <= b < bits(w) {
                chk(w, a / pow2(b as nat) as int)
            } else {
                None
            },
            _ => None,
        },
        BinOp::Cmp => match (x, y) {
            (Val::VInt(a), Val::VInt(b)) => Some(Val::VOrd(ord_of(a, b))),
            _ => None,
        },
        BinOp::Equal => match (x, y) {
            (Val::VInt(a), Val::VInt(b)) => Some(Val::VBool(a == b)),
            (Val::VBool(p), Val::VBool(q)) => Some(Val::VBool(p == q)),
            (Val::VOrd(u), Val::VOrd(v)) => Some(Val::VBool(u == v)),
            _ => None,
        },
        BinOp::NotEqual => match (x, y) {
            (Val::VInt(a), Val::VInt(b)) => Some(Val::VBool(a != b)),
            (Val::VBool(p), Val::VBool(q)) => Some(Val::VBool(p != q)),
            (Val::VOrd(u), Val::VOrd(v)) => Some(Val::VBool(u != v)),
            _ => None,
        },
        BinOp::Gt => match (x, y) {
            (Val::VInt(a), Val::VInt(b)) => Some(Val::VBool(a > b)),
            _ => None,
        },
        BinOp::Ge => match (x, y) {
            (Val::VInt(a), Val::VInt(b)) => Some(Val::VBool(a >= b)),
            _ => None,
        },
        BinOp::Lt => match (x, y) {
            (Val::VInt(a), Val::VInt(b)) => Some(Val::VBool(a < b)),
            _ => None,
        },
        BinOp::Le => match (x, y) {
            (Val::VInt(a), Val::VInt(b)) => Some(Val::VBool(a <= b)),
            _ => None,
        },
        BinOp::Max => match (x, y) {
            (Val::VInt(a), Val::VInt(b)) => chk(
                w,
                if a >= b {
                    a
                } else {
                    b
                },
            ),
            _ => None,
        },
        BinOp::Min => match (x, y) {
            (Val::VInt(a), Val::VInt(b)) => chk(
                w,
                if a <= b {
                    a
                } else {
                    b
                },
            ),
            _ => None,
        },
    }
}

/// The mathematical semantics of a term at width `w` against input `x`:
/// the result, or nothing where evaluation faults (an ill-sorted combination,
/// a division or remainder by zero, a result outside the representable range,
/// a shift not below the bit count, a constant the width cannot materialize,
/// or an input the width cannot hold).
pub open spec fn seval(e: Expr, w: Width, x: int) -> Option<Val>
    decreases e,
{
    match e {
        Expr::Arg => if in_range(w, x) {
            Some(Val::VInt(x))
        } else {
            None
        },
        Expr::IntConst(c) => chk(w, c as int),
        Expr::BoolConst(b) => Some(Val::VBool(b)),
        Expr::Unary(op, s) => match seval(*s, w, x) {
            Some(v) => apply_un(op, w, v),
            None => None,
        },
        Expr::Binary(op, l, r) => match (seval(*l, w, x), seval(*r, w, x)) {
            (Some(a), Some(b)) => apply_bin(op, w, a, b),
            _ => None,
        },
    }
}

/// Every number a unary operator returns lies in the range of the width.
proof fn lemma_apply_un_range(op: UnOp, w: Width, x: Val)
    ensures
        apply_un(op, w, x) matches Some(Val::VInt(a)) ==> in_range(w, a),
{
}

/// Every number a binary operator returns lies in the range of the width.
proof fn lemma_apply_bin_range(op: BinOp, w: Width, x: Val, y: Val)
    ensures
        apply_bin(op, w, x, y) matches Some(Val::VInt(a)) ==> in_range(w, a),
{
}

/// Every number an evaluation returns lies in the range of the width.
pub proof fn lemma_seval_int_range(e: Expr, w: Width, x: int)
    ensures
        seval(e, w, x) matches Some(Val::VInt(a)) ==> in_range(w, a),
{
    match e {
        Expr::Unary(op, s) => {
            if let Some(v) = seval(*s, w, x) {
                lemma_apply_un_range(op, w, v);
            }
        },
        Expr::Binary(op, l, r) => {
            if let (Some(a), Some(b)) = (seval(*l, w, x), seval(*r, w, x)) {
                lemma_apply_bin_range(op, w, a, b);
            }
        },
        _ => {},
    }
}

/// The sort of a result value.
pub open spec fn sort_of(v: Val) -> Ty {
    match v {
        Val::VInt(_) => Ty::TNum,
        Val::VBool(_) => Ty::TBool,
        Val::VOrd(_) => Ty::TOrd,
    }
}

proof fn lemma_apply_un_sorted(op: UnOp, w: Width, x: Val)
    ensures
        apply_un(op, w, x) matches Some(v) ==> un_ty(op, sort_of(x)) == Some(sort_of(v)),
{
}

proof fn lemma_apply_bin_sorted(op: BinOp, w: Width, x: Val, y: Val)
    ensures
        apply_bin(op, w, x, y) matches Some(v) ==> bin_ty(op, sort_of(x), sort_of(y)) == Some(
            sort_of(v),
        ),
{
}

/// Sort soundness: an evaluation that succeeds returns a value of the term's
/// output sort — in particular, the term is well-sorted.
pub proof fn lemma_seval_sorted(e: Expr, w: Width, x: int)
    ensures
        seval(e, w, x) matches Some(v) ==> out_ty(e) == Some(sort_of(v)),
    decreases e,
{
    match e {
        Expr::Unary(op, s) => {
            lemma_seval_sorted(*s, w, x);
            if let Some(v) = seval(*s, w, x) {
                lemma_apply_un_sorted(op, w, v);
            }
        },
        Expr::Binary(op, l, r) => {
            lemma_seval_sorted(*l, w, x);
            lemma_seval_sorted(*r, w, x);
            if let (Some(a), Some(b)) = (seval(*l, w, x), seval(*r, w, x)) {
                lemma_apply_bin_sorted(op, w, a, b);
            }
        },
        _ => {},
    }
}

/// A term fit to be a bound evaluates, wherever it evaluates at all, to a
/// truth value: the runtime membership check is defined on every input whose
/// evaluation does not fault.
pub proof fn lemma_bound_yields_bool(e: Expr, w: Width, x: int)
    requires
        is_bound(e),
        seval(e, w, x) is Some,
    ensures
        seval(e, w, x) matches Some(v) && v is VBool,
{
    lemma_seval_sorted(e, w, x);
}

/// Runtime counterpart of `chk`.
fn chk_exec(w: Width, v: i128) -> (r: Option<Value>)
    ensures
        view_opt(r) == chk(w, v as int),
{
    if w.holds(v) {
        Some(Value::VInt(v))
    } else {
        None
    }
}

/// Runtime counterpart of `apply_un`.
fn apply_un_exec(op: UnOp, w: Width, x: Value) -> (r: Option<Value>)
    requires
        x@ matches Val::VInt(a) ==> in_range(w, a),
    ensures
        view_opt(r) == apply_un(op, w, x@),
{
    proof {
        lemma_width_bounds(w);
    }
    match op {
        UnOp::Neg => match x {
            Value::VInt(a) => if w.signed_of() {
                chk_exec(w, -a)
            } else {
                None
            },
            _ => None,
        },
        UnOp::Not => match x {
            Value::VInt(a) => if w.signed_of() {
                chk_exec(w, -1 - a)
            } else {
                chk_exec(w, w.max_of() - a)
            },
            Value::VBool(b) => Some(Value::VBool(!b)),
            _ => None,
        },
    }
}

/// Runtime counterpart of `apply_bin`.
fn apply_bin_exec(op: BinOp, w: Width, x: Value, y: Value) -> (r: Option<Value>)
    requires
        x@ matches Val::VInt(a) ==> in_range(w, a),
        y@ matches Val::VInt(b) ==> in_range(w, b),
    ensures
        view_opt(r) == apply_bin(op, w, x@, y@),
{
    match op {
        BinOp::Add => match (x, y) {
            (Value::VInt(a), Value::VInt(b)) => match add_in(w, a, b) {
                Some(v) => Some(Value::VInt(v)),
                None => None,
            },
            _ => None,
        },
        BinOp::Sub => match (x, y) {
            (Value::VInt(a), Value::VInt(b)) => match sub_in(w, a, b) {
                Some(v) => Some(Value::VInt(v)),
                None => None,
            },
            _ => None,
        },
        BinOp::Mul => match (x, y) {
            (Value::VInt(a), Value::VInt(b)) => match mul_in(w, a, b) {
                Some(v) => Some(Value::VInt(v)),
                None => None,
            },
            _ => None,
        },
        BinOp::Div => match (x, y) {
            (Value::VInt(a), Value::VInt(b)) => match div_in(w, a, b) {
                Some(v) => Some(Value::VInt(v)),
                None => None,
            },
            _ => None,
        },
        BinOp::Rem => match (x, y) {
            (Value::VInt(a), Value::VInt(b)) => match rem_in(w, a, b) {
                Some(v) => Some(Value::VInt(v)),
                None => None,
            },
            _ => None,
        },
        BinOp::BitAnd => match (x, y) {
            (Value::VInt(a), Value::VInt(b)) => match bitand_in(w, a, b) {
                Some(v) => Some(Value::VInt(v)),
                None => None,
            },
            (Value::VBool(p), Value::VBool(q)) => Some(Value::VBool(p && q)),
            _ => None,
        },
        BinOp::BitOr => match (x, y) {
            (Value::VInt(a), Value::VInt(b)) => match bitor_in(w, a, b) {
                Some(v) => Some(Value::VInt(v)),
                None => None,
            },
            (Value::VBool(p), Value::VBool(q)) => Some(Value::VBool(p || q)),
            _ => None,
        },
        BinOp::BitXor => match (x, y) {
            (Value::VInt(a), Value::VInt(b)) => match bitxor_in(w, a, b) {
                Some(v) => Some(Value::VInt(v)),
                None => None,
            },
            (Value::VBool(p), Value::VBool(q)) => Some(Value::VBool(p != q)),
            _ => None,
        },
        BinOp::Shl => match (x, y) {
            (Value::VInt(a), Value::VInt(b)) => match shl_in(w, a, b) {
                Some(v) => Some(Value::VInt(v)),
                None => None,
            },
            _ => None,
        },
        BinOp::Shr => match (x, y) {
            (Value::VInt(a), Value::VInt(b)) => match shr_in(w, a, b) {
                Some(v) => Some(Value::VInt(v)),
                None => None,
            },
            _ => None,
        },
        BinOp::Cmp => match (x, y) {
            (Value::VInt(a), Value::VInt(b)) => Some(Value::VOrd(i128::cmp_with(a, b))),
            _ => None,
        },
        BinOp::Equal => match (x, y) {
            (Value::VInt(a), Value::VInt(b)) => Some(Value::VBool(i128::eq_with(a, b))),
            (Value::VBool(p), Value::VBool(q)) => Some(Value::VBool(p == q)),
            (Value::VOrd(u), Value::VOrd(v)) => Some(Value::VBool(u == v)),
            _ => None,
        },
        BinOp::NotEqual => match (x, y) {
            (Value::VInt(a), Value::VInt(b)) => Some(Value::VBool(i128::ne_with(a, b))),
            (Value::VBool(p), Value::VBool(q)) => Some(Value::VBool(p != q)),
            (Value::VOrd(u), Value::VOrd(v)) => Some(Value::VBool(u != v)),
            _ => None,
        },
        BinOp::Gt => match (x, y) {
            (Value::VInt(a), Value::VInt(b)) => Some(Value::VBool(i128::gt_with(a, b))),
            _ => None,
        },
        BinOp::Ge => match (x, y) {
            (Value::VInt(a), Value::VInt(b)) => Some(Value::VBool(i128::ge_with(a, b))),
            _ => None,
        },
        BinOp::Lt => match (x, y) {
            (Value::VInt(a), Value::VInt(b)) => Some(Value::VBool(i128::lt_with(a, b))),
            _ => None,
        },
        BinOp::Le => match (x, y) {
            (Value::VInt(a), Value::VInt(b)) => Some(Value::VBool(i128::le_with(a, b))),
            _ => None,
        },
        BinOp::Max => match (x, y) {
            (Value::VInt(a), Value::VInt(b)) => chk_exec(w, i128::max_with(a, b)),
            _ => None,
        },
        BinOp::Min => match (x, y) {
            (Value::VInt(a), Value::VInt(b)) => chk_exec(w, i128::min_with(a, b)),
            _ => None,
        },
    }
}

impl Expr {
    /// Runtime evaluation of the term at width `w` against `arg`; nothing on
    /// an evaluation fault.
    pub fn eval(&self, w: Width, arg: i128) -> (r: Option<Value>)
        ensures
            view_opt(r) == seval(*self, w, arg as int),
        decreases self,
    {
        match self {
            Expr::Arg => {
                if w.holds(arg) {
                    Some(Value::VInt(arg))
                } else {
                    None
                }
            },
            Expr::IntConst(c) => chk_exec(w, *c),
            Expr::BoolConst(b) => Some(Value::VBool(*b)),
            Expr::Unary(op, s) => {
                match s.eval(w, arg) {
                    Some(v) => {
                        proof {
                            lemma_seval_int_range(**s, w, arg as int);
                        }
                        apply_un_exec(*op, w, v)
                    },
                    None => None,
                }
            },
            Expr::Binary(op, l, r) => {
                let lv = l.eval(w, arg);
                let rv = r.eval(w, arg);
                match (lv, rv) {
                    (Some(a), Some(b)) => {
                        proof {
                            lemma_seval_int_range(**l, w, arg as int);
                            lemma_seval_int_range(**r, w, arg as int);
                        }
                        apply_bin_exec(*op, w, a, b)
                    },
                    _ => None,
                }
            },
        }
    }

    /// The output sort of the term, or nothing where it is ill-sorted.
    pub fn output_type(&self) -> (r: Option<Ty>)
        ensures
            r == out_ty(*self),
        decreases self,
    {
        match self {
            Expr::Arg => Some(Ty::TNum),
            Expr::IntConst(_) => Some(Ty::TNum),
            Expr::BoolConst(_) => Some(Ty::TBool),
            Expr::Unary(op, s) => {
                match s.output_type() {
                    Some(t) => un_ty_exec(*op, t),
                    None => None,
                }
            },
            Expr::Binary(op, l, r) => {
                match (l.output_type(), r.output_type()) {
                    (Some(a), Some(b)) => bin_ty_exec(*op, a, b),
                    _ => None,
                }
            },
        }
    }

    /// Whether the term can serve as a bound: its output sort is boolean.
    pub fn check_bound(&self) -> (b: bool)
        ensures
            b == is_bound(*self),
    {
        match self.output_type() {
            Some(t) => matches!(t, Ty::TBool),
            None => false,
        }
    }

    /// A structurally equal copy of the term.
    pub fn deep_clone(&self) -> (r: Expr)
        ensures
            r == *self,
        decreases self,
    {
        match self {
            Expr::Arg => Expr::Arg,
            Expr::IntConst(c) => Expr::IntConst(*c),
            Expr::BoolConst(b) => Expr::BoolConst(*b),
            Expr::Unary(op, s) => Expr::Unary(*op, Box::new(s.deep_clone())),
            Expr::Binary(op, l, r) => Expr::Binary(
                *op,
                Box::new(l.deep_clone()),
                Box::new(r.deep_clone()),
            ),
        }
    }
}

/// Runtime counterpart of `un_ty`.
fn un_ty_exec(op: UnOp, t: Ty) -> (r: Option<Ty>)
    ensures
        r == un_ty(op, t),
{
    match op {
        UnOp::Neg => if matches!(t, Ty::TNum) {
            Some(Ty::TNum)
        } else {
            None
        },
        UnOp::Not => if matches!(t, Ty::TNum) || matches!(t, Ty::TBool) {
            Some(t)
        } else {
            None
        },
    }
}

/// Runtime counterpart of `bin_ty`.
fn bin_ty_exec(op: BinOp, a: Ty, b: Ty) -> (r: Option<Ty>)
    ensures
        r == bin_ty(op, a, b),
{
    match op {
        BinOp::Add | BinOp::Sub | BinOp::Mul | BinOp::Div | BinOp::Rem | BinOp::Shl | BinOp::Shr
            | BinOp::Max | BinOp::Min => if matches!(a, Ty::TNum) && matches!(b, Ty::TNum) {
            Some(Ty::TNum)
        } else {
            None
        },
        BinOp::BitAnd | BinOp::BitOr | BinOp::BitXor => if a == b && (matches!(a, Ty::TNum)
            || matches!(a, Ty::TBool)) {
            Some(a)
        } else {
            None
        },
        BinOp::Cmp => if matches!(a, Ty::TNum) && matches!(b, Ty::TNum) {
            Some(Ty::TOrd)
        } else {
            None
        },
        BinOp::Equal | BinOp::NotEqual => if a == b {
            Some(Ty::TBool)
        } else {
            None
        },
        BinOp::Gt | BinOp::Ge | BinOp::Lt | BinOp::Le => if matches!(a, Ty::TNum) && matches!(
            b,
            Ty::TNum,
        ) {
            Some(Ty::TBool)
        } else {
            None
        },
    }
}

/// A term evaluable at runtime against a raw value.
pub trait ValueExpr {
    /// The mathematical semantics the runtime evaluation realizes.
    spec fn val_sem(&self, w: Width, x: int) -> Option<Val>;

    /// Evaluate against a raw value; nothing on an evaluation fault.
    fn call(&self, w: Width, arg: i128) -> (r: Option<Value>)
        ensures
            view_opt(r) == self.val_sem(w, arg as int),
    ;
}

impl ValueExpr for Expr {
    open spec fn val_sem(&self, w: Width, x: int) -> Option<Val> {
        seval(*self, w, x)
    }

    fn call(&self, w: Width, arg: i128) -> (r: Option<Value>) {
        self.eval(w, arg)
    }
}

/// A term evaluable against a compile-time numeral.  A number result stands
/// for the resulting numeral.
pub trait TypeExpr {
    /// The mathematical semantics the static evaluation realizes.
    spec fn type_sem(&self, w: Width, n: int) -> Option<Val>;

    /// Evaluate against a numeral; nothing where the instantiation is not
    /// legal at width `w`.
    fn static_call(&self, w: Width, n: &Numeral) -> (r: Option<Value>)
        ensures
            view_opt(r) == self.type_sem(w, n@),
    ;
}

impl TypeExpr for Expr {
    open spec fn type_sem(&self, w: Width, n: int) -> Option<Val> {
        seval(*self, w, n)
    }

    fn static_call(&self, w: Width, n: &Numeral) -> (r: Option<Value>) {
        self.eval(w, n.get())
    }
}

/// Both evaluation modes of a term realize the same semantics: evaluating a
/// term against a numeral and against the raw value that numeral materializes
/// to can never disagree.
pub proof fn lemma_evaluation_agreement(e: &Expr, w: Width, x: int)
    ensures
        e.type_sem(w, x) == e.val_sem(w, x),
{
}

/// A boolean-sorted term used as a membership test at runtime.
pub trait AsBound: ValueExpr {
    /// Runtime membership: whether `value` lies in the set the term
    /// describes.  Defined where evaluation reaches a truth value.
    fn contains(&self, w: Width, value: i128) -> (b: bool)
        requires
            self.val_sem(w, value as int) matches Some(v) && v is VBool,
        ensures
            b == (self.val_sem(w, value as int) == Some(Val::VBool(true))),
    ;
}

impl AsBound for Expr {
    fn contains(&self, w: Width, value: i128) -> (b: bool) {
        match self.eval(w, value) {
            Some(Value::VBool(b)) => b,
            _ => {
                proof {
                    assert(false);
                }
                false
            },
        }
    }
}

/// A term used as a compile-time membership check against a numeral.
pub trait Contains: TypeExpr {
    /// Static membership: whether the numeral satisfies the bound at width
    /// `w`.  False where the instantiation is not legal, for whatever reason.
    fn contains_static(&self, w: Width, n: &Numeral) -> (b: bool)
        ensures
            b == (self.type_sem(w, n@) == Some(Val::VBool(true))),
    ;
}

impl Contains for Expr {
    fn contains_static(&self, w: Width, n: &Numeral) -> (b: bool) {
        match self.static_call(w, n) {
            Some(Value::VBool(b)) => b,
            _ => false,
        }
    }
}

} // verus!
