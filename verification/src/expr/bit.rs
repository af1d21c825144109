//! Bitwise operations on raw values.  A raw value is carried as its 64-bit
//! two's-complement pattern; the pattern of the result is read back under the
//! signedness of the chosen width and checked against its range.

use vstd::prelude::*;
use crate::value::{Width, in_range, signed, bits, lemma_width_bounds};
use vstd::arithmetic::power2::{pow2, lemma_pow2_unfold, lemma_pow2_strictly_increases, lemma2_to64};
use vstd::arithmetic::div_mod::{
    lemma_small_mod,
    lemma_mod_add_multiples_vanish,
    lemma_fundamental_div_mod,
    lemma_fundamental_div_mod_converse,
};

verus! {

/// The 64-bit two's-complement pattern of an integer.
pub open spec fn pat64(x: int) -> u64 {
    (x % 0x1_0000_0000_0000_0000) as u64
}

/// The integer a 64-bit pattern denotes when read as signed.
pub open spec fn val64(p: u64) -> int {
    if p >= 0x8000_0000_0000_0000 {
        p - 0x1_0000_0000_0000_0000
    } else {
        p as int
    }
}

/// The integer a 64-bit pattern denotes under the signedness of `w`.
pub open spec fn valw(w: Width, p: u64) -> int {
    if signed(w) {
        val64(p)
    } else {
        p as int
    }
}

/// Runtime counterpart of `pat64` for values a width can hold.
fn to_pat(a: i128) -> (p: u64)
    requires
        -0x8000_0000_0000_0000 <= a < 0x1_0000_0000_0000_0000,
    ensures
        p == pat64(a as int),
{
    if a >= 0 {
        proof {
            lemma_small_mod(a as nat, 0x1_0000_0000_0000_0000nat);
        }
        a as u64
    } else {
        proof {
            lemma_mod_add_multiples_vanish(a as int, 0x1_0000_0000_0000_0000);
            lemma_small_mod((a + 0x1_0000_0000_0000_0000) as nat, 0x1_0000_0000_0000_0000nat);
        }
        (a + 0x1_0000_0000_0000_0000) as u64
    }
}

/// Runtime counterpart of `valw`.
fn from_pat(w: Width, p: u64) -> (r: i128)
    ensures
        r as int == valw(w, p),
{
    if w.signed_of() && p >= 0x8000_0000_0000_0000u64 {
        (p as i128) - 0x1_0000_0000_0000_0000i128
    } else {
        p as i128
    }
}

/// Bitwise and, checked against the range of `w`.
pub(crate) fn bitand_in(w: Width, a: i128, b: i128) -> (r: Option<i128>)
    requires
        in_range(w, a as int),
        in_range(w, b as int),
    ensures
        r is Some <==> in_range(w, valw(w, pat64(a as int) & pat64(b as int))),
        r matches Some(x) ==> x as int == valw(w, pat64(a as int) & pat64(b as int)),
{
    proof {
        lemma_width_bounds(w);
    }
    let v: i128 = from_pat(w, to_pat(a) & to_pat(b));
    if w.holds(v) {
        Some(v)
    } else {
        None
    }
}

/// Bitwise or, checked against the range of `w`.
pub(crate) fn bitor_in(w: Width, a: i128, b: i128) -> (r: Option<i128>)
    requires
        in_range(w, a as int),
        in_range(w, b as int),
    ensures
        r is Some <==> in_range(w, valw(w, pat64(a as int) | pat64(b as int))),
        r matches Some(x) ==> x as int == valw(w, pat64(a as int) | pat64(b as int)),
{
    proof {
        lemma_width_bounds(w);
    }
    let v: i128 = from_pat(w, to_pat(a) | to_pat(b));
    if w.holds(v) {
        Some(v)
    } else {
        None
    }
}

/// Bitwise exclusive or, checked against the range of `w`.
pub(crate) fn bitxor_in(w: Width, a: i128, b: i128) -> (r: Option<i128>)
    requires
        in_range(w, a as int),
        in_range(w, b as int),
    ensures
        r is Some <==> in_range(w, valw(w, pat64(a as int) ^ pat64(b as int))),
        r matches Some(x) ==> x as int == valw(w, pat64(a as int) ^ pat64(b as int)),
{
    proof {
        lemma_width_bounds(w);
    }
    let v: i128 = from_pat(w, to_pat(a) ^ to_pat(b));
    if w.holds(v) {
        Some(v)
    } else {
        None
    }
}

/// Runtime power of two below `2^63`.
fn pow2_exec(e: u32) -> (p: u64)
    requires
        e < 64,
    ensures
        p as nat == pow2(e as nat),
        p <= 0x8000_0000_0000_0000u64,
{
    proof {
        lemma2_to64();
    }
    let mut p: u64 = 1;
    let mut i: u32 = 0;
    while i < e
        invariant
            i <= e < 64,
            p as nat == pow2(i as nat),
        decreases e - i,
    {
        proof {
            if (i as nat) < 63 {
                lemma_pow2_strictly_increases(i as nat, 63);
            }
            assert(pow2(63) == 0x8000_0000_0000_0000) by {
                vstd::arithmetic::power2::lemma2_to64_rest();
            }
            lemma_pow2_unfold((i + 1) as nat);
        }
        p = p * 2;
        i = i + 1;
    }
    proof {
        if (e as nat) < 63 {
            lemma_pow2_strictly_increases(e as nat, 63);
        }
        assert(pow2(63) == 0x8000_0000_0000_0000) by {
            vstd::arithmetic::power2::lemma2_to64_rest();
        }
    }
    p
}

/// Left shift: multiplication by a power of two, absent when the shift is
/// not below the bit count of `w` or the product is out of its range.
pub(crate) fn shl_in(w: Width, a: i128, s: i128) -> (r: Option<i128>)
    requires
        in_range(w, a as int),
        in_range(w, s as int),
    ensures
        r is Some <==> 0 <= s < bits(w) && in_range(w, a as int * pow2(s as nat) as int),
        r matches Some(x) ==> x as int == a as int * pow2(s as nat) as int,
{
    proof {
        lemma_width_bounds(w);
    }
    if s < 0 || s >= w.bits_of() as i128 {
        return None;
    }
    let p: u64 = pow2_exec(s as u32);
    proof {
        vstd::arithmetic::power2::lemma_pow2_pos(s as nat);
    }
    let neg: bool = a < 0;
    let ma: u128 = if a < 0 {
        (-a) as u128
    } else {
        a as u128
    };
    assert(ma as int * p as int <= 0xffff_ffff_ffff_ffff * 0x8000_0000_0000_0000)
        by (nonlinear_arith)
        requires
            ma <= 0xffff_ffff_ffff_ffffu128,
            p <= 0x8000_0000_0000_0000u64,
    ;
    let pm: u128 = ma * (p as u128);
    assert(a as int * pow2(s as nat) as int == if neg {
        -(pm as int)
    } else {
        pm as int
    }) by (nonlinear_arith)
        requires
            pm as int == ma as int * p as int,
            p as int == pow2(s as nat) as int,
            (a < 0 ==> ma as int == -(a as int)) && (a >= 0 ==> ma as int == a as int),
            neg == (a < 0),
            pow2(s as nat) > 0,
    ;
    if neg {
        let lim: u128 = (-(w.min_of())) as u128;
        if pm <= lim {
            Some(-(pm as i128))
        } else {
            None
        }
    } else {
        let lim: u128 = w.max_of() as u128;
        if pm <= lim {
            Some(pm as i128)
        } else {
            None
        }
    }
}

/// Right shift: flooring division by a power of two (the arithmetic shift of
/// the primitives), absent when the shift is not below the bit count of `w`.
pub(crate) fn shr_in(w: Width, a: i128, s: i128) -> (r: Option<i128>)
    requires
        in_range(w, a as int),
        in_range(w, s as int),
    ensures
        r is Some <==> 0 <= s < bits(w) && in_range(
            w,
            a as int / pow2(s as nat) as int,
        ),
        r matches Some(x) ==> x as int == a as int / pow2(s as nat) as int,
{
    proof {
        lemma_width_bounds(w);
    }
    if s < 0 || s >= w.bits_of() as i128 {
        return None;
    }
    let p: u64 = pow2_exec(s as u32);
    proof {
        vstd::arithmetic::power2::lemma_pow2_pos(s as nat);
    }
    let r0: i128 = if a >= 0 {
        let q: u128 = (a as u128) / (p as u128);
        q as i128
    } else {
        let ma: u128 = (-a) as u128;
        let q0: u128 = ma / (p as u128);
        let rm: u128 = ma % (p as u128);
        proof {
            lemma_fundamental_div_mod(ma as int, p as int);
            if rm == 0 {
                assert(a as int == (-(q0 as int)) * (p as int) + 0) by (nonlinear_arith)
                    requires
                        ma as int == p as int * (ma as int / p as int) + (ma as int % p as int),
                        q0 as int == ma as int / p as int,
                        rm as int == ma as int % p as int,
                        rm == 0,
                        a as int == -(ma as int),
                ;
                lemma_fundamental_div_mod_converse(a as int, p as int, -(q0 as int), 0);
            } else {
                assert(a as int == (-(q0 as int) - 1) * (p as int) + (p as int - rm as int))
                    by (nonlinear_arith)
                    requires
                        ma as int == p as int * (ma as int / p as int) + (ma as int % p as int),
                        q0 as int == ma as int / p as int,
                        rm as int == ma as int % p as int,
                        a as int == -(ma as int),
                ;
                lemma_fundamental_div_mod_converse(
                    a as int,
                    p as int,
                    -(q0 as int) - 1,
                    p as int - rm as int,
                );
            }
        }
        if rm == 0 {
            -(q0 as i128)
        } else {
            -(q0 as i128) - 1
        }
    };
    if w.holds(r0) {
        Some(r0)
    } else {
        None
    }
}

} // verus!
