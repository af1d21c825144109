//! Comparison forwarding.  Equality and ordering between bounded values, or
//! between a bounded value and a raw primitive, compare the unwrapped raw
//! values only — the bound is irrelevant to comparison identity.

use vstd::prelude::*;
use core::cmp::Ordering;
use crate::Bounded;
use crate::expr::cmp::{Order, ord_of, OrdExt};

verus! {

impl PartialEq for Bounded {
    fn eq(&self, other: &Bounded) -> bool {
        self.value() == other.value()
    }
}

impl vstd::std_specs::cmp::PartialEqSpecImpl for Bounded {
    open spec fn obeys_eq_spec() -> bool {
        true
    }

    open spec fn eq_spec(&self, other: &Bounded) -> bool {
        self.value_spec() == other.value_spec()
    }
}

impl Eq for Bounded {

}

impl PartialOrd for Bounded {
    fn partial_cmp(&self, other: &Bounded) -> Option<Ordering> {
        if self.value() < other.value() {
            Some(Ordering::Less)
        } else if self.value() == other.value() {
            Some(Ordering::Equal)
        } else {
            Some(Ordering::Greater)
        }
    }
}

impl vstd::std_specs::cmp::PartialOrdSpecImpl for Bounded {
    open spec fn obeys_partial_cmp_spec() -> bool {
        true
    }

    open spec fn partial_cmp_spec(&self, other: &Bounded) -> Option<Ordering> {
        if self.value_spec() < other.value_spec() {
            Some(Ordering::Less)
        } else if self.value_spec() == other.value_spec() {
            Some(Ordering::Equal)
        } else {
            Some(Ordering::Greater)
        }
    }
}

impl Bounded {
    /// Equality with a raw primitive: the unwrapped value is compared.
    pub fn eq_prim(&self, x: i128) -> (r: bool)
        ensures
            r == (self.value_spec() == x as int),
    {
        self.value() == x
    }

    /// Three-way comparison with a raw primitive: the unwrapped value is
    /// compared.
    pub fn cmp_prim(&self, x: i128) -> (r: Order)
        ensures
            r == ord_of(self.value_spec(), x as int),
    {
        i128::cmp_with(self.value(), x)
    }
}

} // verus!
