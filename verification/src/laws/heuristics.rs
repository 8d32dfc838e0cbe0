//! Laws on the heuristic ratio.
use vstd::arithmetic::power2::pow2;
use vstd::prelude::*;

use crate::options::DEFAULT_HEURISTIC_BITS;
use crate::ratio::{round53, spacing, Ratio};

verus! {

/// Numbers of up to 53 bits are not rounded.
pub proof fn small_numbers_are_exact(x: nat)
    requires
        x < 0x20_0000_0000_0000,
    ensures
        round53(x) == x,
{
    assert(spacing(x) == 1);
    assert(x % 1 == 0);
    assert(x / 1 == x);
}

/// The default ratio is one tenth: of any number of seconds up to about two years it gives the
/// tenth part, without the fraction.
pub proof fn the_default_ratio_is_a_tenth(secs: nat)
    requires
        secs < 67_108_860,
    ensures
        (Ratio { bits: DEFAULT_HEURISTIC_BITS }).scaled(secs) == secs / 10,
{
    let ratio = Ratio { bits: DEFAULT_HEURISTIC_BITS };
    assert(ratio.exponent_field() == 123);
    assert(ratio.significand() == 13_421_773);
    assert(ratio.exponent() == -27);
    small_numbers_are_exact(secs);
    let product = secs * 13_421_773;
    small_numbers_are_exact(product);
    vstd::arithmetic::power2::lemma2_to64();
    assert(pow2(27) == 134_217_728) by {
        vstd::arithmetic::power2::lemma2_to64();
    }
    let q = secs / 10;
    let r = secs % 10;
    assert(product == q * 134_217_728 + (2 * q + r * 13_421_773));
    assert(2 * q + r * 13_421_773 < 134_217_728);
    assert(product / 134_217_728 == q);
}

/// A ratio of nothing is nothing, and a negative ratio gives nothing.
pub proof fn no_time_no_lifetime(ratio: Ratio, secs: nat)
    requires
        secs == 0 || ratio.is_negative(),
    ensures
        ratio.scaled(secs) == 0,
{
    small_numbers_are_exact(0);
    if !ratio.is_negative() && ratio.exponent_field() != 255 {
        assert(round53(0) * ratio.significand() == 0) by (nonlinear_arith)
            requires
                round53(0) == 0,
        ;
        let k = ratio.exponent();
        if k >= 0 {
            assert(0 * pow2(k as nat) == 0) by (nonlinear_arith);
        } else {
            vstd::arithmetic::power2::lemma_pow2_pos((-k) as nat);
            assert(0nat / pow2((-k) as nat) == 0) by (nonlinear_arith)
                requires
                    pow2((-k) as nat) > 0,
            ;
        }
    }
}

/// A finite ratio that is not negative gives the whole seconds of its part of a time: where the
/// product needs no rounding, the largest number that does not go over that part.
pub proof fn ratios_give_their_part(ratio: &Ratio, secs: u128, r: u64)
    requires
        call_ensures(Ratio::scale_secs, (ratio, secs), r),
        secs < 0x2_0000_0000_0000_0000,
        0x80_0000 <= ratio.bits < 0x4b00_0000,
        secs * (0x80_0000 + ratio.bits % 0x80_0000) < 0x20_0000_0000_0000,
    ensures
        ({
            let whole = secs * (0x80_0000 + ratio.bits % 0x80_0000);
            let unit = pow2((150 - ratio.bits / 0x80_0000) as nat);
            r * unit <= whole < (r + 1) * unit
        }),
{
    let significand = (0x80_0000 + ratio.bits % 0x80_0000) as nat;
    let field = ratio.bits / 0x80_0000;
    assert(0 < field < 150);
    assert(ratio.exponent_field() == field);
    assert(ratio.significand() == significand);
    assert(ratio.exponent() == field - 150);
    assert(secs <= secs * significand) by (nonlinear_arith)
        requires
            significand >= 1,
    ;
    small_numbers_are_exact(secs as nat);
    let whole = secs as nat * significand;
    small_numbers_are_exact(whole);
    let unit = pow2((150 - field) as nat);
    vstd::arithmetic::power2::lemma_pow2_pos((150 - field) as nat);
    let part = whole / unit;
    assert(part * unit <= whole < (part + 1) * unit && part <= whole) by (nonlinear_arith)
        requires
            part == whole / unit,
            unit > 0,
    ;
    assert(r == part);
}

proof fn lemma_spacing(x: nat)
    ensures
        spacing(x) > 0,
        x < 0x20_0000_0000_0000 * spacing(x),
        x >= 0x20_0000_0000_0000 ==> x >= 0x10_0000_0000_0000 * spacing(x),
    decreases x,
{
    if x >= 0x20_0000_0000_0000 {
        lemma_spacing(x / 2);
        if x / 2 < 0x20_0000_0000_0000 {
            assert(spacing(x / 2) == 1);
        }
    }
}

/// Rounding gives a number of 53 bits times the unit at that size, and one that is off by half a
/// unit at most.
pub proof fn rounding_is_to_the_nearest(x: nat)
    ensures
        round53(x) % spacing(x) == 0,
        2 * round53(x) <= 2 * x + spacing(x),
        2 * x <= 2 * round53(x) + spacing(x),
        x < 0x20_0000_0000_0000 * spacing(x),
        x >= 0x20_0000_0000_0000 ==> x >= 0x10_0000_0000_0000 * spacing(x),
{
    lemma_spacing(x);
    let unit = spacing(x);
    let q = x / unit;
    let r = x % unit;
    assert(x == q * unit + r && r < unit) by (nonlinear_arith)
        requires
            q == x / unit,
            r == x % unit,
            unit > 0,
    ;
    assert((q * unit) % unit == 0 && ((q + 1) * unit) % unit == 0) by {
        vstd::arithmetic::div_mod::lemma_mod_multiples_basic(q as int, unit as int);
        vstd::arithmetic::div_mod::lemma_mod_multiples_basic(q as int + 1, unit as int);
    }
    assert((q + 1) * unit == q * unit + unit) by (nonlinear_arith);
}

/// Whether `y` is `x`, rounded to 53 significant bits: a multiple of `unit`, the power of two by
/// which `x` has no more than 53 bits, and no other multiple is nearer; of two as near, the one
/// with the even number of units.
pub open spec fn is_rounded(x: nat, y: nat, unit: nat) -> bool {
    &&& exists|e: nat| unit == #[trigger] pow2(e)
    &&& x < 0x20_0000_0000_0000 * unit
    &&& unit == 1 || x >= 0x10_0000_0000_0000 * unit
    &&& y % unit == 0
    &&& 2 * y <= 2 * x + unit
    &&& 2 * x <= 2 * y + unit
    &&& (2 * y == 2 * x + unit || 2 * x == 2 * y + unit) ==> (y / unit) % 2 == 0
}

proof fn lemma_spacing_is_a_power(x: nat) -> (e: nat)
    ensures
        spacing(x) == pow2(e),
        spacing(x) == 1 || x >= 0x20_0000_0000_0000,
    decreases x,
{
    if x >= 0x20_0000_0000_0000 {
        let e = lemma_spacing_is_a_power(x / 2);
        vstd::arithmetic::power2::lemma_pow2_unfold(e + 1);
        e + 1
    } else {
        vstd::arithmetic::power2::lemma2_to64();
        0
    }
}

proof fn lemma_rounded(x: nat)
    ensures
        is_rounded(x, round53(x), spacing(x)),
{
    let e = lemma_spacing_is_a_power(x);
    rounding_is_to_the_nearest(x);
    lemma_spacing(x);
    let unit = spacing(x);
    let q = x / unit;
    let r = x % unit;
    assert(x == q * unit + r && r < unit) by (nonlinear_arith)
        requires
            q == x / unit,
            r == x % unit,
            unit > 0,
    ;
    assert((q + 1) * unit == q * unit + unit) by (nonlinear_arith);
    assert((q * unit) / unit == q && ((q + 1) * unit) / unit == q + 1) by {
        vstd::arithmetic::div_mod::lemma_div_multiples_vanish(q as int, unit as int);
        vstd::arithmetic::div_mod::lemma_div_multiples_vanish(q as int + 1, unit as int);
        assert(unit * q == q * unit) by (nonlinear_arith);
        assert(unit * (q + 1) == (q + 1) * unit) by (nonlinear_arith);
    }
    assert((q + 1) % 2 == 0 || q % 2 == 0);
}

/// What a ratio gives of a number of seconds: nothing where it is negative or no number; no end
/// where it is infinite; and else the product, rounded as double precision rounds, without its
/// fraction, up to the largest number that there is.
pub proof fn ratios_are_single_precision_numbers(ratio: &Ratio, secs: u128, r: u64) -> (steps: (
    nat,
    nat,
    nat,
    nat,
))
    requires
        call_ensures(Ratio::scale_secs, (ratio, secs), r),
        secs < 0x2_0000_0000_0000_0000,
    ensures
        ratio.bits > 0x7f80_0000 ==> r == 0,
        ratio.bits == 0x7f80_0000 ==> r == if secs > 0 {
            u64::MAX
        } else {
            0
        },
        ratio.bits < 0x7f80_0000 ==> {
            let (a, a_unit, p, p_unit) = steps;
            let fraction = ratio.bits % 0x80_0000;
            let field = ratio.bits / 0x80_0000;
            &&& is_rounded(secs as nat, a, a_unit)
            &&& field == 0 ==> is_rounded((a * fraction) as nat, p, p_unit)
            &&& field > 0 ==> is_rounded((a * (0x80_0000 + fraction)) as nat, p, p_unit)
            &&& field >= 150 ==> if p * pow2((field - 150) as nat) < u64::MAX {
                r == p * pow2((field - 150) as nat)
            } else {
                r == u64::MAX
            }
            &&& field < 150 ==> {
                let unit = if field == 0 {
                    pow2(149)
                } else {
                    pow2((150 - field) as nat)
                };
                &&& r * unit <= p
                &&& r < u64::MAX ==> p < (r + 1) * unit
            }
        },
{
    let a = round53(secs as nat);
    lemma_rounded(secs as nat);
    let significand = ratio.significand();
    let product = a * significand;
    let p = round53(product);
    lemma_rounded(product);
    let field = ratio.bits / 0x80_0000;
    if ratio.bits < 0x7f80_0000 {
        assert(field < 255);
        assert(ratio.exponent_field() == field);
        if field < 150 {
            let unit = if field == 0 {
                pow2(149)
            } else {
                pow2((150 - field) as nat)
            };
            vstd::arithmetic::power2::lemma_pow2_pos(149);
            vstd::arithmetic::power2::lemma_pow2_pos((150 - field) as nat);
            let part = p / unit;
            assert(part * unit <= p < (part + 1) * unit) by (nonlinear_arith)
                requires
                    part == p / unit,
                    unit > 0,
            ;
            assert(r <= part);
            assert(r * unit <= part * unit) by (nonlinear_arith)
                requires
                    r <= part,
                    unit > 0,
            ;
        }
    }
    (a, spacing(secs as nat), p, spacing(product))
}

} // verus!
