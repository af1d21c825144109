use boundnum::bounded_impls::convert::{expr_has_not, widening_allowed};
use boundnum::expr::UnOp;
use boundnum::bounded_impls::misc::DefaultValueType;
use boundnum::bounded_impls::ops::{add_assign, div_assign, mul_assign, rem_assign, sub_assign};
use boundnum::expr::cmp::Order;
use boundnum::expr::range::{range, range_from, range_inclusive};
use boundnum::expr::{BinOp, Expr};
use boundnum::value::{Numeral, Width};
use boundnum::{Boundable, Bounded};

fn arg() -> Box<Expr> {
    Box::new(Expr::Arg)
}

fn num(v: i128) -> Box<Expr> {
    Box::new(Expr::IntConst(v))
}

fn bin(op: BinOp, l: Box<Expr>, r: Box<Expr>) -> Expr {
    Expr::Binary(op, l, r)
}

fn below(limit: i128) -> Expr {
    bin(BinOp::Lt, arg(), num(limit))
}

#[test]
fn range_iter() {
    let items = Bounded::iter(Width::I8, &Numeral::new(-3), &Numeral::new(3));
    let expected: Vec<i128> = (-3..3).collect();
    assert_eq!(items.len(), expected.len());
    for (b, p) in items.iter().zip(expected.iter()) {
        assert_eq!(b.value(), *p);
        assert_eq!(b.width_of(), Width::I8);
    }
}

#[test]
fn range_inclusive_iter() {
    let items = Bounded::iter_inclusive(Width::I8, &Numeral::new(-3), &Numeral::new(3));
    let expected: Vec<i128> = (-3..=3).collect();
    assert_eq!(items.len(), expected.len());
    for (b, p) in items.iter().zip(expected.iter()) {
        assert_eq!(b.value(), *p);
    }
}

#[test]
fn range_from_iter() {
    let items = Bounded::iter_from(Width::I8, &Numeral::new(-3));
    let mut prim = -3i128..;
    // Walk the whole enumeration up to the primitive maximum of 127; it must
    // end exactly there, cleanly, instead of wrapping.
    let mut it = items.iter();
    for _ in -3..127 {
        let mut check = |b: Option<&Bounded>| -> bool {
            let b = match b {
                None => return prim.next().is_none(),
                Some(val) => val,
            };
            let p = match prim.next() {
                None => return false,
                Some(val) => val,
            };
            b.value() == p
        };
        assert!(check(it.next()));
    }
    assert_eq!(items.len(), 131);
    assert_eq!(items.last().map(|b| b.value()), Some(127));
}

#[test]
fn range_iter_reversed() {
    let items = Bounded::iter(Width::I8, &Numeral::new(-3), &Numeral::new(3));
    let expected: Vec<i128> = (-3..3).rev().collect();
    for (b, p) in items.iter().rev().zip(expected.iter()) {
        assert_eq!(b.value(), *p);
    }
    let closed = Bounded::iter_inclusive(Width::I8, &Numeral::new(-3), &Numeral::new(3));
    assert_eq!(closed.last().map(|b| b.value()), Some(3));
}

#[test]
fn construct_const_and_unwrap() {
    let e = below(10);
    let b = Bounded::new(&e, Width::U8, &Numeral::new(3));
    assert_eq!(b.value(), 3);
    assert_eq!(b.width_of(), Width::U8);
    // The bound the instance carries still accepts its value at runtime.
    let kept = b.bound_expr();
    assert!(boundnum::expr::AsBound::contains(kept, Width::U8, b.value()));
}

#[test]
fn attempt_bind_present_iff_contained() {
    let e = below(10);
    for v in 0..20i128 {
        let r = Bounded::attempt_bind(&e, Width::U8, v);
        if v < 10 {
            let b = r.expect("value inside the bound must bind");
            assert_eq!(b.value(), v);
        } else {
            assert!(r.is_none());
        }
    }
}

#[test]
fn boundable_primitives() {
    let e = below(10);
    assert_eq!(3u8.bound(&e).map(|b| b.value()), Some(3));
    assert!(200u8.bound(&e).is_none());
    assert_eq!((-5i8).bound(&bin(BinOp::Ge, arg(), num(-5))).map(|b| b.value()), Some(-5));
    assert_eq!(7u32.bound(&e).map(|b| b.value()), Some(7));
    assert_eq!(7usize.bound(&e).map(|b| b.value()), Some(7));
    assert_eq!((-7isize).bound(&bin(BinOp::Le, arg(), num(0))).map(|b| b.value()), Some(-7));
    assert!(11i64.bound(&e).is_none());
    assert_eq!(9i16.bound(&e).map(|b| b.value()), Some(9));
    assert_eq!(9u16.bound(&e).map(|b| b.value()), Some(9));
    assert_eq!(9i32.bound(&e).map(|b| b.value()), Some(9));
    assert_eq!(9u64.bound(&e).map(|b| b.value()), Some(9));
}

#[test]
fn closure_law_on_operators() {
    let e = below(100);
    let x = Bounded::new(&e, Width::I32, &Numeral::new(21));
    let y = Bounded::new(&e, Width::I32, &Numeral::new(4));
    assert_eq!(x.add(&y), x.value() + y.value());
    assert_eq!(x.sub(&y), x.value() - y.value());
    assert_eq!(x.mul(&y), x.value() * y.value());
    assert_eq!(x.div(&y), x.value() / y.value());
    assert_eq!(x.rem(&y), x.value() % y.value());
    assert_eq!(x.add_raw(9), 30);
    assert_eq!(x.sub_raw(9), 12);
    assert_eq!(x.mul_raw(2), 42);
    assert_eq!(x.div_raw(2), 10);
    assert_eq!(x.rem_raw(2), 1);
    assert_eq!(x.bitand(&y), 21 & 4);
    assert_eq!(x.bitor(&y), 21 | 4);
    assert_eq!(x.bitxor(&y), 21 ^ 4);
    assert_eq!(x.bitand_raw(12), 21 & 12);
    assert_eq!(x.bitor_raw(12), 21 | 12);
    assert_eq!(x.bitxor_raw(12), 21 ^ 12);
    assert_eq!(x.shl_raw(2), 84);
    assert_eq!(x.shr_raw(2), 5);
    let m = Bounded::new(&bin(BinOp::Le, arg(), num(0)), Width::I32, &Numeral::new(-21));
    assert_eq!(m.neg(), 21);
    assert_eq!(m.not(), 20);
    let u = Bounded::new(&below(100), Width::U8, &Numeral::new(5));
    assert_eq!(u.not(), 250);
}

#[test]
fn in_place_operators() {
    let e = below(100);
    let y = Bounded::new(&e, Width::I32, &Numeral::new(4));
    let mut x = 10i128;
    add_assign(&mut x, &y);
    assert_eq!(x, 14);
    sub_assign(&mut x, &y);
    assert_eq!(x, 10);
    mul_assign(&mut x, &y);
    assert_eq!(x, 40);
    div_assign(&mut x, &y);
    assert_eq!(x, 10);
    rem_assign(&mut x, &y);
    assert_eq!(x, 2);
}

#[test]
fn comparison_forwards_to_raw_values() {
    let small = below(100);
    let other = bin(BinOp::Ge, arg(), num(0));
    let a = Bounded::new(&small, Width::I32, &Numeral::new(5));
    let b = Bounded::new(&other, Width::I32, &Numeral::new(5));
    let c = Bounded::new(&small, Width::I32, &Numeral::new(9));
    // The bound is irrelevant to comparison identity.
    assert!(a == b);
    assert!(a != c);
    assert!(a < c);
    assert!(c > b);
    assert!(a <= b);
    assert!(a.eq_prim(5));
    assert!(!a.eq_prim(6));
    assert_eq!(a.cmp_prim(9), Order::Less);
    assert_eq!(a.cmp_prim(5), Order::Equal);
    assert_eq!(a.cmp_prim(3), Order::Greater);
}

#[test]
fn widening_table() {
    assert!(widening_allowed(Width::U8, Width::U16));
    assert!(widening_allowed(Width::U8, Width::I16));
    assert!(widening_allowed(Width::I8, Width::I64));
    assert!(widening_allowed(Width::U16, Width::Usize));
    assert!(widening_allowed(Width::I16, Width::Isize));
    assert!(widening_allowed(Width::U32, Width::U32));
    assert!(!widening_allowed(Width::I8, Width::U16));
    assert!(!widening_allowed(Width::U16, Width::U8));
    assert!(!widening_allowed(Width::U8, Width::I8));
    assert!(!widening_allowed(Width::I64, Width::I32));
}

#[test]
fn complement_detection() {
    // A complement node is the one term whose unsigned reading depends on
    // the width; its presence gates widening out of an unsigned
    // representation.
    assert!(!expr_has_not(&below(10)));
    let masked = bin(
        BinOp::Equal,
        Box::new(Expr::Unary(UnOp::Not, arg())),
        num(254),
    );
    assert!(expr_has_not(&masked));
    // Its meaning indeed shifts between widths: the same bound accepts 1 at
    // eight bits and refuses it at sixteen.
    assert!(Bounded::attempt_bind(&masked, Width::U8, 1).is_some());
    assert!(Bounded::attempt_bind(&masked, Width::U16, 1).is_none());
}

#[test]
fn widening_keeps_value_and_bound() {
    let e = below(10);
    let b = Bounded::new(&e, Width::U8, &Numeral::new(7));
    let wide = b.widen(Width::U32);
    assert_eq!(wide.value(), 7);
    assert_eq!(wide.width_of(), Width::U32);
    let wider = wide.widen(Width::I64);
    assert_eq!(wider.value(), 7);
    assert_eq!(wider.width_of(), Width::I64);
}

#[test]
fn widening_round_trip() {
    let e = below(10);
    let b = Bounded::new(&e, Width::U8, &Numeral::new(7));
    let wide = b.widen(Width::U64);
    let back = wide.narrow(Width::U8).expect("narrowing a widened value back must succeed");
    assert_eq!(back.value(), b.value());
    assert_eq!(back.width_of(), Width::U8);
}

#[test]
fn narrowing_boundary() {
    let anything = Expr::BoolConst(true);
    let big = Bounded::new(&anything, Width::I32, &Numeral::new(255));
    assert_eq!(big.narrow(Width::U8).map(|b| b.value()), Some(255));
    let over = Bounded::new(&anything, Width::I32, &Numeral::new(256));
    assert!(over.narrow(Width::U8).is_none());
    let low = Bounded::new(&anything, Width::I32, &Numeral::new(-128));
    assert_eq!(low.narrow(Width::I8).map(|b| b.value()), Some(-128));
    let under = Bounded::new(&anything, Width::I32, &Numeral::new(-129));
    assert!(under.narrow(Width::I8).is_none());
    let negative = Bounded::new(&anything, Width::I32, &Numeral::new(-1));
    assert!(negative.narrow(Width::U32).is_none());
}

#[test]
fn narrowing_rechecks_the_bound() {
    // The bound "argument < 300" cannot even materialize its constant at
    // eight bits, so narrowing must refuse although the value itself fits.
    let e = below(300);
    let b = Bounded::new(&e, Width::U16, &Numeral::new(5));
    assert!(b.narrow(Width::U8).is_none());
    assert_eq!(b.narrow(Width::U16).map(|x| x.value()), Some(5));
}

#[test]
fn default_gating() {
    // A bound requiring a value strictly greater than zero has no default.
    let positive = bin(BinOp::Gt, arg(), num(0));
    assert!(Bounded::try_default(&positive, Width::I32).is_none());
    // A bound admitting zero has the zero default.
    let around = bin(
        BinOp::BitAnd,
        Box::new(bin(BinOp::Ge, arg(), num(-3))),
        Box::new(bin(BinOp::Le, arg(), num(4))),
    );
    let d = Bounded::try_default(&around, Width::I32).expect("zero lies inside [-3, 4]");
    assert_eq!(d.value(), 0);
    let d2 = Bounded::default(&bin(BinOp::Ge, arg(), num(0)), Width::U8);
    assert_eq!(d2.value(), 0);
    let zero_default = Width::I64.default_value();
    assert_eq!(Bounded::new(&around, Width::I64, &zero_default).value(), 0);
}

#[test]
fn range_sugar_is_built_from_primitives() {
    let r = range(&Numeral::new(-3), &Numeral::new(3));
    let b = Bounded::attempt_bind(&r, Width::I8, 2).expect("2 lies in [-3, 3)");
    assert_eq!(b.value(), 2);
    assert!(Bounded::attempt_bind(&r, Width::I8, 3).is_none());
    let ri = range_inclusive(&Numeral::new(-3), &Numeral::new(3));
    assert!(Bounded::attempt_bind(&ri, Width::I8, 3).is_some());
    let rf = range_from(&Numeral::new(-3));
    assert!(Bounded::attempt_bind(&rf, Width::I8, 127).is_some());
    assert!(Bounded::attempt_bind(&rf, Width::I8, -4).is_none());
}
