//! The default-value capability: a bounded value has a default exactly when
//! its bound statically contains the zero of its representation.  The
//! capability is gated before the program runs — for a bound that excludes
//! zero it is simply absent, never a runtime fallback.

use vstd::prelude::*;
use crate::Bounded;
use crate::value::{Width, Numeral, in_range, lemma_width_bounds};
use crate::expr::{Expr, Val, seval, Contains};

verus! {

/// The default numeral of a representation: its zero.
pub trait DefaultValueType {
    fn default_value(&self) -> (n: Numeral)
        ensures
            n@ == 0,
    ;
}

impl DefaultValueType for Width {
    fn default_value(&self) -> (n: Numeral) {
        Numeral::new(0)
    }
}

impl Bounded {
    /// The default bounded value: zero, under a bound proven — before the
    /// program runs — to contain it.  A bound that excludes zero makes this
    /// constructor unprovable; there is no runtime error path.
    pub fn default(bound: &Expr, w: Width) -> (r: Bounded)
        requires
            seval(*bound, w, 0) == Some(Val::VBool(true)),
        ensures
            r.wf(),
            r.value_spec() == 0,
            r.width_spec() == w,
            r.bound_spec() == *bound,
    {
        proof {
            lemma_width_bounds(w);
        }
        let n = w.default_value();
        Bounded::new(bound, w, &n)
    }

    /// Probe the default-value capability: the default bounded value where
    /// the bound statically contains zero, nothing where it does not.
    pub fn try_default(bound: &Expr, w: Width) -> (r: Option<Bounded>)
        ensures
            r is Some <==> seval(*bound, w, 0) == Some(Val::VBool(true)),
            r matches Some(b) ==> {
                &&& b.wf()
                &&& b.value_spec() == 0
                &&& b.width_spec() == w
                &&& b.bound_spec() == *bound
            },
    {
        proof {
            lemma_width_bounds(w);
        }
        let n = w.default_value();
        if bound.contains_static(w, &n) {
            Some(Bounded::new(bound, w, &n))
        } else {
            None
        }
    }
}

} // verus!
