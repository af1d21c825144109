//! The numeral substrate: primitive integer representations, their ranges,
//! and compile-time numerals together with their materialization to runtime
//! values.

use vstd::prelude::*;

verus! {

/// One of the primitive integer representations a bound can be attached to.
/// The pointer-sized representations are fixed at 64 bits, a build-time
/// constant of this library.
#[derive(Clone, Copy, PartialEq, Eq, Structural, Debug)]
pub enum Width {
    I8,
    I16,
    I32,
    I64,
    Isize,
    U8,
    U16,
    U32,
    U64,
    Usize,
}

/// Whether the representation is signed.
pub open spec fn signed(w: Width) -> bool {
    match w {
        Width::I8 | Width::I16 | Width::I32 | Width::I64 | Width::Isize => true,
        Width::U8 | Width::U16 | Width::U32 | Width::U64 | Width::Usize => false,
    }
}

/// Number of bits of the representation.
pub open spec fn bits(w: Width) -> nat {
    match w {
        Width::I8 | Width::U8 => 8,
        Width::I16 | Width::U16 => 16,
        Width::I32 | Width::U32 => 32,
        Width::I64 | Width::Isize | Width::U64 | Width::Usize => 64,
    }
}

/// Smallest value the representation can hold.
pub open spec fn min_val(w: Width) -> int {
    match w {
        Width::I8 => -0x80,
        Width::I16 => -0x8000,
        Width::I32 => -0x8000_0000,
        Width::I64 | Width::Isize => -0x8000_0000_0000_0000,
        Width::U8 | Width::U16 | Width::U32 | Width::U64 | Width::Usize => 0,
    }
}

/// Largest value the representation can hold.
pub open spec fn max_val(w: Width) -> int {
    match w {
        Width::I8 => 0x7f,
        Width::I16 => 0x7fff,
        Width::I32 => 0x7fff_ffff,
        Width::I64 | Width::Isize => 0x7fff_ffff_ffff_ffff,
        Width::U8 => 0xff,
        Width::U16 => 0xffff,
        Width::U32 => 0xffff_ffff,
        Width::U64 | Width::Usize => 0xffff_ffff_ffff_ffff,
    }
}

/// Whether `x` is representable in `w`.
pub open spec fn in_range(w: Width, x: int) -> bool {
    min_val(w) <= x <= max_val(w)
}

/// Every representation fits between the 64-bit signed minimum and the
/// 64-bit unsigned maximum, and holds zero.
pub proof fn lemma_width_bounds(w: Width)
    ensures
        -0x8000_0000_0000_0000 <= min_val(w),
        min_val(w) <= 0,
        0 <= max_val(w),
        max_val(w) <= 0xffff_ffff_ffff_ffff,
{
}

impl Width {
    /// Runtime counterpart of `min_val`.
    pub fn min_of(&self) -> (r: i128)
        ensures
            r as int == min_val(*self),
    {
        match self {
            Width::I8 => -0x80,
            Width::I16 => -0x8000,
            Width::I32 => -0x8000_0000,
            Width::I64 | Width::Isize => -0x8000_0000_0000_0000,
            Width::U8 | Width::U16 | Width::U32 | Width::U64 | Width::Usize => 0,
        }
    }

    /// Runtime counterpart of `max_val`.
    pub fn max_of(&self) -> (r: i128)
        ensures
            r as int == max_val(*self),
    {
        match self {
            Width::I8 => 0x7f,
            Width::I16 => 0x7fff,
            Width::I32 => 0x7fff_ffff,
            Width::I64 | Width::Isize => 0x7fff_ffff_ffff_ffff,
            Width::U8 => 0xff,
            Width::U16 => 0xffff,
            Width::U32 => 0xffff_ffff,
            Width::U64 | Width::Usize => 0xffff_ffff_ffff_ffff,
        }
    }

    /// Runtime counterpart of `bits`.
    pub fn bits_of(&self) -> (r: u32)
        ensures
            r as nat == bits(*self),
    {
        match self {
            Width::I8 | Width::U8 => 8,
            Width::I16 | Width::U16 => 16,
            Width::I32 | Width::U32 => 32,
            Width::I64 | Width::Isize | Width::U64 | Width::Usize => 64,
        }
    }

    /// Runtime counterpart of `signed`.
    pub fn signed_of(&self) -> (r: bool)
        ensures
            r == signed(*self),
    {
        match self {
            Width::I8 | Width::I16 | Width::I32 | Width::I64 | Width::Isize => true,
            Width::U8 | Width::U16 | Width::U32 | Width::U64 | Width::Usize => false,
        }
    }

    /// Runtime membership test for the representable range of `self`.
    pub fn holds(&self, x: i128) -> (b: bool)
        ensures
            b == in_range(*self, x as int),
    {
        self.min_of() <= x && x <= self.max_of()
    }
}

/// A compile-time numeral: an integer known before the program runs,
/// distinct from its materialization as a runtime value of some `Width`.
#[derive(Clone, Copy, Debug)]
pub struct Numeral {
    v: i128,
}

impl View for Numeral {
    type V = int;

    closed spec fn view(&self) -> int {
        self.v as int
    }
}

impl Numeral {
    /// Make the numeral denoting `v`.
    pub fn new(v: i128) -> (n: Numeral)
        ensures
            n@ == v as int,
    {
        Numeral { v }
    }

    /// The integer the numeral denotes.
    pub(crate) fn get(&self) -> (r: i128)
        ensures
            r as int == self@,
    {
        self.v
    }
}

/// Materialization of a numeral as a concrete runtime value of a chosen
/// representation; defined only where the numeral is representable.
pub trait ToValue: View<V = int> {
    fn value(&self, w: Width) -> (r: i128)
        requires
            in_range(w, self@),
        ensures
            r as int == self@,
    ;
}

impl ToValue for Numeral {
    fn value(&self, w: Width) -> (r: i128) {
        self.v
    }
}

/// The extreme numerals of a representation.
pub trait TypeBound {
    spec fn t_min(&self) -> int;

    spec fn t_max(&self) -> int;

    fn min_numeral(&self) -> (n: Numeral)
        ensures
            n@ == self.t_min(),
    ;

    fn max_numeral(&self) -> (n: Numeral)
        ensures
            n@ == self.t_max(),
    ;
}

impl TypeBound for Width {
    open spec fn t_min(&self) -> int {
        min_val(*self)
    }

    open spec fn t_max(&self) -> int {
        max_val(*self)
    }

    fn min_numeral(&self) -> (n: Numeral) {
        Numeral::new(self.min_of())
    }

    fn max_numeral(&self) -> (n: Numeral) {
        Numeral::new(self.max_of())
    }
}

/// The next numeral away from zero: the sign is kept and the absolute value
/// grows by one.
pub trait Outer: View<V = int> {
    fn outer(&self) -> (r: Numeral)
        requires
            i128::MIN < self@ < i128::MAX,
        ensures
            r@ == if self@ >= 0 {
                self@ + 1
            } else {
                self@ - 1
            },
    ;
}

impl Outer for Numeral {
    fn outer(&self) -> (r: Numeral) {
        if self.v >= 0 {
            Numeral { v: self.v + 1 }
        } else {
            Numeral { v: self.v - 1 }
        }
    }
}

} // verus!
