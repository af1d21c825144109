use boundnum::expr::cmp::Order;
use boundnum::expr::{BinOp, Expr, Ty, UnOp, Value, ValueExpr, TypeExpr, AsBound, Contains};
use boundnum::value::{Numeral, Width};

fn arg() -> Box<Expr> {
    Box::new(Expr::Arg)
}

fn num(v: i128) -> Box<Expr> {
    Box::new(Expr::IntConst(v))
}

fn bin(op: BinOp, l: Box<Expr>, r: Box<Expr>) -> Expr {
    Expr::Binary(op, l, r)
}

#[test]
fn add_valop() {
    let a = bin(BinOp::Add, arg(), num(2));
    assert_eq!(a.call(Width::U32, 3), Some(Value::VInt(3 + 2)));
}

#[test]
fn add_is_not_bound() {
    let a = bin(BinOp::Add, arg(), arg());
    assert_eq!(a.output_type(), Some(Ty::TNum));
    assert!(!a.check_bound());
    let b = bin(BinOp::Lt, arg(), num(4));
    assert_eq!(b.output_type(), Some(Ty::TBool));
    assert!(b.check_bound());
}

#[test]
fn static_and_runtime_evaluation_agree() {
    let exprs = vec![
        bin(BinOp::Add, arg(), num(7)),
        bin(BinOp::Mul, arg(), num(3)),
        bin(BinOp::Lt, arg(), num(50)),
        bin(BinOp::Ge, arg(), num(-3)),
        bin(BinOp::Rem, arg(), num(2)),
        Expr::Unary(UnOp::Not, arg()),
        bin(BinOp::Max, arg(), num(9)),
    ];
    for w in [Width::I8, Width::I32, Width::U16, Width::U64] {
        for v in [-3i128, 0, 1, 17, 100] {
            for e in &exprs {
                let runtime = e.call(w, v);
                let stat = e.static_call(w, &Numeral::new(v));
                assert_eq!(runtime, stat);
            }
        }
    }
}

#[test]
fn arithmetic_evaluation() {
    let e = bin(BinOp::Sub, num(10), arg());
    assert_eq!(e.call(Width::I8, 3), Some(Value::VInt(7)));
    let m = bin(BinOp::Mul, arg(), arg());
    assert_eq!(m.call(Width::I16, -9), Some(Value::VInt(81)));
    let d = bin(BinOp::Div, arg(), num(2));
    assert_eq!(d.call(Width::I8, -7), Some(Value::VInt(-3)));
    let r = bin(BinOp::Rem, arg(), num(2));
    assert_eq!(r.call(Width::I8, -7), Some(Value::VInt(-1)));
    let n = Expr::Unary(UnOp::Neg, arg());
    assert_eq!(n.call(Width::I8, -7), Some(Value::VInt(7)));
}

#[test]
fn division_by_zero_faults() {
    let d = bin(BinOp::Div, arg(), num(0));
    assert_eq!(d.call(Width::I32, 5), None);
    let r = bin(BinOp::Rem, arg(), num(0));
    assert_eq!(r.call(Width::I32, 5), None);
}

#[test]
fn overflow_faults() {
    let e = bin(BinOp::Add, arg(), num(1));
    assert_eq!(e.call(Width::U8, 255), None);
    assert_eq!(e.call(Width::U16, 255), Some(Value::VInt(256)));
    let m = bin(BinOp::Mul, arg(), num(2));
    assert_eq!(m.call(Width::I8, 100), None);
    let n = Expr::Unary(UnOp::Neg, arg());
    assert_eq!(n.call(Width::I8, -128), None);
    assert_eq!(n.call(Width::U8, 5), None);
}

#[test]
fn constant_materialization_faults() {
    let e = bin(BinOp::Lt, arg(), num(300));
    assert_eq!(e.call(Width::U8, 5), None);
    assert_eq!(e.call(Width::U16, 5), Some(Value::VBool(true)));
}

#[test]
fn bitwise_evaluation() {
    let a = bin(BinOp::BitAnd, arg(), num(10));
    assert_eq!(a.call(Width::U8, 12), Some(Value::VInt(8)));
    let o = bin(BinOp::BitOr, arg(), num(10));
    assert_eq!(o.call(Width::U8, 12), Some(Value::VInt(14)));
    let x = bin(BinOp::BitXor, arg(), num(10));
    assert_eq!(x.call(Width::U8, 12), Some(Value::VInt(6)));
    let sa = bin(BinOp::BitAnd, arg(), num(-3));
    assert_eq!(sa.call(Width::I8, -2), Some(Value::VInt(-4)));
    let nu = Expr::Unary(UnOp::Not, arg());
    assert_eq!(nu.call(Width::U8, 5), Some(Value::VInt(250)));
    assert_eq!(nu.call(Width::I8, 5), Some(Value::VInt(-6)));
    let nb = Expr::Unary(UnOp::Not, Box::new(Expr::BoolConst(false)));
    assert_eq!(nb.call(Width::U8, 0), Some(Value::VBool(true)));
}

#[test]
fn shift_evaluation() {
    let l = bin(BinOp::Shl, arg(), num(3));
    assert_eq!(l.call(Width::U8, 5), Some(Value::VInt(40)));
    assert_eq!(l.call(Width::U8, 100), None);
    let big = bin(BinOp::Shl, arg(), num(8));
    assert_eq!(big.call(Width::U8, 1), None);
    assert_eq!(big.call(Width::U16, 1), Some(Value::VInt(256)));
    let r = bin(BinOp::Shr, arg(), num(1));
    assert_eq!(r.call(Width::I8, -7), Some(Value::VInt(-4)));
    assert_eq!(r.call(Width::U8, 7), Some(Value::VInt(3)));
}

#[test]
fn comparison_evaluation() {
    let c = bin(BinOp::Cmp, arg(), num(5));
    assert_eq!(c.call(Width::I32, 3), Some(Value::VOrd(Order::Less)));
    assert_eq!(c.call(Width::I32, 5), Some(Value::VOrd(Order::Equal)));
    assert_eq!(c.call(Width::I32, 9), Some(Value::VOrd(Order::Greater)));
    let q = bin(BinOp::Equal, arg(), num(5));
    assert_eq!(q.call(Width::I32, 5), Some(Value::VBool(true)));
    assert_eq!(q.call(Width::I32, 4), Some(Value::VBool(false)));
    let ne = bin(BinOp::NotEqual, arg(), num(5));
    assert_eq!(ne.call(Width::I32, 4), Some(Value::VBool(true)));
    let mx = bin(BinOp::Max, arg(), num(5));
    assert_eq!(mx.call(Width::I32, 3), Some(Value::VInt(5)));
    let mn = bin(BinOp::Min, arg(), num(5));
    assert_eq!(mn.call(Width::I32, 3), Some(Value::VInt(3)));
}

#[test]
fn logical_connectives() {
    let both = bin(
        BinOp::BitAnd,
        Box::new(bin(BinOp::Ge, arg(), num(0))),
        Box::new(bin(BinOp::Lt, arg(), num(10))),
    );
    assert_eq!(both.call(Width::I8, 4), Some(Value::VBool(true)));
    assert_eq!(both.call(Width::I8, -1), Some(Value::VBool(false)));
    assert_eq!(both.call(Width::I8, 10), Some(Value::VBool(false)));
    let either = bin(
        BinOp::BitOr,
        Box::new(bin(BinOp::Lt, arg(), num(0))),
        Box::new(bin(BinOp::Gt, arg(), num(10))),
    );
    assert_eq!(either.call(Width::I8, -4), Some(Value::VBool(true)));
    assert_eq!(either.call(Width::I8, 4), Some(Value::VBool(false)));
}

#[test]
fn ill_sorted_terms_fault() {
    let e = bin(BinOp::Add, arg(), Box::new(Expr::BoolConst(true)));
    assert_eq!(e.output_type(), None);
    assert_eq!(e.call(Width::I32, 1), None);
}

#[test]
fn runtime_contains() {
    let b = bin(BinOp::Le, arg(), num(4));
    assert!(b.contains(Width::U8, 3));
    assert!(b.contains(Width::U8, 4));
    assert!(!b.contains(Width::U8, 5));
}

#[test]
fn static_contains() {
    let b = bin(BinOp::Le, arg(), num(4));
    assert!(b.contains_static(Width::U8, &Numeral::new(3)));
    assert!(!b.contains_static(Width::U8, &Numeral::new(5)));
    // A numeral the representation cannot materialize is not a legal
    // instantiation.
    assert!(!b.contains_static(Width::U8, &Numeral::new(-1)));
    // Neither is a bound whose evaluation faults.
    let faulty = bin(BinOp::Equal, Box::new(bin(BinOp::Div, arg(), num(0))), num(1));
    assert!(!faulty.contains_static(Width::U8, &Numeral::new(3)));
}
