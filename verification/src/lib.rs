//! A numeric value carrying a provable range/predicate invariant.
//!
//! A bound is a composable predicate term (`expr`) over a primitive integer
//! representation (`value::Width`).  A `Bounded` value pairs a raw value with
//! the bound it was proven to satisfy; every reachable instance satisfies its
//! bound, by construction.  Construction goes either through a compile-time
//! numeral whose membership is a verification-time obligation (`Bounded::new`)
//! or through the fallible runtime check (`attempt_bind` / `Boundable`).

use vstd::prelude::*;

pub mod bounded_impls;
pub mod expr;
pub mod value;

use crate::value::{Width, Numeral, ToValue, in_range, max_val, lemma_width_bounds};
use crate::expr::{Expr, Val, seval, AsBound};
use crate::expr::range::{
    spec_range,
    spec_range_inclusive,
    spec_range_from,
    range,
    range_inclusive,
    range_from,
    lemma_range_eval,
    lemma_range_inclusive_eval,
    lemma_range_from_eval,
};

verus! {

/// A raw value of some representation together with the bound it satisfies.
///
/// Invariant: the bound, evaluated at the carried width against the carried
/// value, yields true — established by every constructor and kept by every
/// operation, since instances are never mutated in place.
#[derive(Debug)]
pub struct Bounded {
    value: i128,
    width: Width,
    bound: Expr,
}

impl Bounded {
    /// The raw value carried.
    pub closed spec fn value_spec(&self) -> int {
        self.value as int
    }

    /// The representation the value lives in.
    pub closed spec fn width_spec(&self) -> Width {
        self.width
    }

    /// The bound the value was proven to satisfy.
    pub closed spec fn bound_spec(&self) -> Expr {
        self.bound
    }

    /// Well-formedness: the value is representable and satisfies the bound.
    pub closed spec fn wf(&self) -> bool {
        &&& in_range(self.width, self.value as int)
        &&& seval(self.bound, self.width, self.value as int) == Some(Val::VBool(true))
    }

    /// Construct from parts whose invariant is already established.
    pub(crate) fn make(value: i128, width: Width, bound: Expr) -> (r: Bounded)
        requires
            in_range(width, value as int),
            seval(bound, width, value as int) == Some(Val::VBool(true)),
        ensures
            r.wf(),
            r.value_spec() == value as int,
            r.width_spec() == width,
            r.bound_spec() == bound,
    {
        Bounded { value, width, bound }
    }

    /// Construction through a compile-time numeral.  The membership of the
    /// numeral in the bound is a verification-time obligation, not a runtime
    /// check: an instantiation whose numeral fails the bound is not provable,
    /// and no runtime error path exists.
    pub fn new(bound: &Expr, w: Width, n: &Numeral) -> (r: Bounded)
        requires
            in_range(w, n@),
            seval(*bound, w, n@) == Some(Val::VBool(true)),
        ensures
            r.wf(),
            r.value_spec() == n@,
            r.width_spec() == w,
            r.bound_spec() == *bound,
    {
        Bounded { value: n.value(w), width: w, bound: bound.deep_clone() }
    }

    /// Extract the raw value, discarding the proof of its bound.  Always
    /// succeeds; the bound is erased, not the value.
    pub fn value(&self) -> (r: i128)
        ensures
            r as int == self.value_spec(),
    {
        self.value
    }

    /// The representation the value lives in.
    pub fn width_of(&self) -> (r: Width)
        ensures
            r == self.width_spec(),
    {
        self.width
    }

    /// The bound the value was proven to satisfy.
    pub fn bound_expr(&self) -> (r: &Expr)
        ensures
            *r == self.bound_spec(),
    {
        &self.bound
    }

    /// The fallible runtime constructor: evaluate the bound against an
    /// arbitrary raw value of width `w` and wrap the value exactly when the
    /// bound holds of it.  Defined where the evaluation reaches a truth value
    /// (an evaluation fault is a precondition violation, not an absence).
    pub fn attempt_bind(bound: &Expr, w: Width, raw: i128) -> (r: Option<Bounded>)
        requires
            in_range(w, raw as int),
            seval(*bound, w, raw as int) matches Some(v) && v is VBool,
        ensures
            r is Some <==> seval(*bound, w, raw as int) == Some(Val::VBool(true)),
            r matches Some(b) ==> {
                &&& b.wf()
                &&& b.value_spec() == raw as int
                &&& b.width_spec() == w
                &&& b.bound_spec() == *bound
            },
    {
        if bound.contains(w, raw) {
            Some(Bounded { value: raw, width: w, bound: bound.deep_clone() })
        } else {
            None
        }
    }
}

/// The well-formedness every reachable `Bounded` instance enjoys, spelled
/// out: the carried value is representable at the carried width and the
/// carried bound evaluates to true against it.
pub proof fn lemma_bounded_invariant(b: &Bounded)
    requires
        b.wf(),
    ensures
        in_range(b.width_spec(), b.value_spec()),
        seval(b.bound_spec(), b.width_spec(), b.value_spec()) == Some(Val::VBool(true)),
{
}

/// A raw value that can try to enter a bound.
pub trait Boundable: Sized {
    /// The integer the value denotes.
    spec fn raw_int(self) -> int;

    /// The representation the value lives in.
    spec fn raw_width(self) -> Width;

    /// Try to bound the value: wrap it exactly when the bound holds of it.
    fn bound(self, e: &Expr) -> (r: Option<Bounded>)
        requires
            seval(*e, self.raw_width(), self.raw_int()) matches Some(v) && v is VBool,
        ensures
            r is Some <==> seval(*e, self.raw_width(), self.raw_int()) == Some(Val::VBool(true)),
            r matches Some(b) ==> {
                &&& b.wf()
                &&& b.value_spec() == self.raw_int()
                &&& b.width_spec() == self.raw_width()
                &&& b.bound_spec() == *e
            },
    ;
}

impl Boundable for i8 {
    open spec fn raw_int(self) -> int {
        self as int
    }

    open spec fn raw_width(self) -> Width {
        Width::I8
    }

    fn bound(self, e: &Expr) -> (r: Option<Bounded>) {
        Bounded::attempt_bind(e, Width::I8, self as i128)
    }
}

impl Boundable for i16 {
    open spec fn raw_int(self) -> int {
        self as int
    }

    open spec fn raw_width(self) -> Width {
        Width::I16
    }

    fn bound(self, e: &Expr) -> (r: Option<Bounded>) {
        Bounded::attempt_bind(e, Width::I16, self as i128)
    }
}

impl Boundable for i32 {
    open spec fn raw_int(self) -> int {
        self as int
    }

    open spec fn raw_width(self) -> Width {
        Width::I32
    }

    fn bound(self, e: &Expr) -> (r: Option<Bounded>) {
        Bounded::attempt_bind(e, Width::I32, self as i128)
    }
}

impl Boundable for i64 {
    open spec fn raw_int(self) -> int {
        self as int
    }

    open spec fn raw_width(self) -> Width {
        Width::I64
    }

    fn bound(self, e: &Expr) -> (r: Option<Bounded>) {
        Bounded::attempt_bind(e, Width::I64, self as i128)
    }
}

impl Boundable for isize {
    open spec fn raw_int(self) -> int {
        self as int
    }

    open spec fn raw_width(self) -> Width {
        Width::Isize
    }

    fn bound(self, e: &Expr) -> (r: Option<Bounded>) {
        Bounded::attempt_bind(e, Width::Isize, self as i128)
    }
}

impl Boundable for u8 {
    open spec fn raw_int(self) -> int {
        self as int
    }

    open spec fn raw_width(self) -> Width {
        Width::U8
    }

    fn bound(self, e: &Expr) -> (r: Option<Bounded>) {
        Bounded::attempt_bind(e, Width::U8, self as i128)
    }
}

impl Boundable for u16 {
    open spec fn raw_int(self) -> int {
        self as int
    }

    open spec fn raw_width(self) -> Width {
        Width::U16
    }

    fn bound(self, e: &Expr) -> (r: Option<Bounded>) {
        Bounded::attempt_bind(e, Width::U16, self as i128)
    }
}

impl Boundable for u32 {
    open spec fn raw_int(self) -> int {
        self as int
    }

    open spec fn raw_width(self) -> Width {
        Width::U32
    }

    fn bound(self, e: &Expr) -> (r: Option<Bounded>) {
        Bounded::attempt_bind(e, Width::U32, self as i128)
    }
}

impl Boundable for u64 {
    open spec fn raw_int(self) -> int {
        self as int
    }

    open spec fn raw_width(self) -> Width {
        Width::U64
    }

    fn bound(self, e: &Expr) -> (r: Option<Bounded>) {
        Bounded::attempt_bind(e, Width::U64, self as i128)
    }
}

impl Boundable for usize {
    open spec fn raw_int(self) -> int {
        self as int
    }

    open spec fn raw_width(self) -> Width {
        Width::Usize
    }

    fn bound(self, e: &Expr) -> (r: Option<Bounded>) {
        Bounded::attempt_bind(e, Width::Usize, self as i128)
    }
}

impl Bounded {
    /// All values of the half-open range `[start, end)` at width `w`, each
    /// bounded by the half-open range bound, in ascending order.  Finite, and
    /// restartable: every call produces an independent sequence.
    pub fn iter(w: Width, start: &Numeral, end: &Numeral) -> (r: Vec<Bounded>)
        requires
            in_range(w, start@),
            in_range(w, end@),
        ensures
            r@.len() == if end@ > start@ {
                end@ - start@
            } else {
                0int
            },
            forall|i: int|
                0 <= i < r@.len() ==> {
                    &&& (#[trigger] r@[i]).wf()
                    &&& r@[i].value_spec() == start@ + i
                    &&& r@[i].width_spec() == w
                    &&& r@[i].bound_spec() == spec_range(start@, end@)
                },
    {
        let s: i128 = start.get();
        let e: i128 = end.get();
        let template: Expr = range(start, end);
        let mut r: Vec<Bounded> = Vec::new();
        let mut v: i128 = s;
        while v < e
            invariant
                in_range(w, s as int),
                in_range(w, e as int),
                s <= v,
                v as int <= e as int || v as int == s as int,
                r@.len() == v as int - s as int,
                template == spec_range(s as int, e as int),
                forall|i: int|
                    0 <= i < r@.len() ==> {
                        &&& (#[trigger] r@[i]).wf()
                        &&& r@[i].value_spec() == s as int + i
                        &&& r@[i].width_spec() == w
                        &&& r@[i].bound_spec() == spec_range(s as int, e as int)
                    },
            decreases e as int - v as int,
        {
            proof {
                lemma_width_bounds(w);
                lemma_range_eval(s as int, e as int, w, v as int);
            }
            r.push(Bounded { value: v, width: w, bound: template.deep_clone() });
            v = v + 1;
        }
        r
    }

    /// All values of the closed range `[start, end]` at width `w`, each
    /// bounded by the closed range bound, in ascending order.
    pub fn iter_inclusive(w: Width, start: &Numeral, end: &Numeral) -> (r: Vec<Bounded>)
        requires
            in_range(w, start@),
            in_range(w, end@),
            end@ - start@ < usize::MAX,
        ensures
            r@.len() == if end@ >= start@ {
                end@ - start@ + 1
            } else {
                0int
            },
            forall|i: int|
                0 <= i < r@.len() ==> {
                    &&& (#[trigger] r@[i]).wf()
                    &&& r@[i].value_spec() == start@ + i
                    &&& r@[i].width_spec() == w
                    &&& r@[i].bound_spec() == spec_range_inclusive(start@, end@)
                },
    {
        let s: i128 = start.get();
        let e: i128 = end.get();
        let template: Expr = range_inclusive(start, end);
        let mut r: Vec<Bounded> = Vec::new();
        let mut v: i128 = s;
        while v <= e
            invariant
                in_range(w, s as int),
                in_range(w, e as int),
                s <= v,
                v as int <= e as int + 1 || v as int == s as int,
                r@.len() == v as int - s as int,
                template == spec_range_inclusive(s as int, e as int),
                forall|i: int|
                    0 <= i < r@.len() ==> {
                        &&& (#[trigger] r@[i]).wf()
                        &&& r@[i].value_spec() == s as int + i
                        &&& r@[i].width_spec() == w
                        &&& r@[i].bound_spec() == spec_range_inclusive(s as int, e as int)
                    },
            decreases e as int + 1 - v as int,
        {
            proof {
                lemma_width_bounds(w);
                lemma_range_inclusive_eval(s as int, e as int, w, v as int);
            }
            r.push(Bounded { value: v, width: w, bound: template.deep_clone() });
            v = v + 1;
        }
        r
    }

    /// All values from `start` up to the maximum of the representation, each
    /// bounded by the open-ended range bound, in ascending order.  The
    /// enumeration reaches the primitive maximum and terminates cleanly
    /// there, without wrapping.
    pub fn iter_from(w: Width, start: &Numeral) -> (r: Vec<Bounded>)
        requires
            in_range(w, start@),
            max_val(w) - start@ < usize::MAX,
        ensures
            r@.len() == max_val(w) - start@ + 1,
            forall|i: int|
                0 <= i < r@.len() ==> {
                    &&& (#[trigger] r@[i]).wf()
                    &&& r@[i].value_spec() == start@ + i
                    &&& r@[i].width_spec() == w
                    &&& r@[i].bound_spec() == spec_range_from(start@)
                },
    {
        let s: i128 = start.get();
        let e: i128 = w.max_of();
        let template: Expr = range_from(start);
        let mut r: Vec<Bounded> = Vec::new();
        let mut v: i128 = s;
        while v <= e
            invariant
                in_range(w, s as int),
                e as int == max_val(w),
                s <= v,
                v as int <= e as int + 1,
                r@.len() == v as int - s as int,
                template == spec_range_from(s as int),
                forall|i: int|
                    0 <= i < r@.len() ==> {
                        &&& (#[trigger] r@[i]).wf()
                        &&& r@[i].value_spec() == s as int + i
                        &&& r@[i].width_spec() == w
                        &&& r@[i].bound_spec() == spec_range_from(s as int)
                    },
            decreases e as int + 1 - v as int,
        {
            proof {
                lemma_width_bounds(w);
                lemma_range_from_eval(s as int, w, v as int);
            }
            r.push(Bounded { value: v, width: w, bound: template.deep_clone() });
            v = v + 1;
        }
        r
    }
}

} // verus!
