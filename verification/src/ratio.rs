//! The heuristic-freshness ratio: a single-precision number, held by its bits.
//!
//! A lifetime is a ratio of a number of seconds, computed in double precision: the seconds are
//! rounded to 53 significant bits, multiplied, rounded again, and the fraction is cut off. The
//! functions here state and compute that exactly, on integers.
use vstd::arithmetic::div_mod::lemma_div_denominator;
use vstd::arithmetic::power2::{lemma_pow2_pos, lemma_pow2_unfold, pow2};
use vstd::prelude::*;

verus! {

/// A ratio, held as the bits of an IEEE 754 single-precision number.
#[derive(Clone, Copy, Debug, PartialEq, Eq, Structural)]
pub struct Ratio {
    pub bits: u32,
}

/// The distance between neighbouring 53-bit numbers at `x`.
pub open spec fn spacing(x: nat) -> nat
    decreases x,
{
    if x < 0x20_0000_0000_0000 {
        1
    } else {
        2 * spacing(x / 2)
    }
}

/// `x` rounded to 53 significant bits: to the nearest such number, and to the even one of two.
pub open spec fn round53(x: nat) -> nat {
    let unit = spacing(x);
    let q = x / unit;
    let r = x % unit;
    if 2 * r < unit || (2 * r == unit && q % 2 == 0) {
        q * unit
    } else {
        (q + 1) * unit
    }
}

/// `x` times two to the power `k`, without the fraction.
pub open spec fn shifted(x: nat, k: int) -> nat {
    if k >= 0 {
        x * pow2(k as nat)
    } else {
        x / pow2((-k) as nat)
    }
}

/// `x`, or the largest 64-bit number where `x` is larger.
pub open spec fn saturated(x: nat) -> u64 {
    if x <= u64::MAX {
        x as u64
    } else {
        u64::MAX
    }
}

impl Ratio {
    pub open spec fn is_negative(self) -> bool {
        self.bits >= 0x8000_0000
    }

    pub open spec fn exponent_field(self) -> u32 {
        (self.bits / 0x80_0000) % 0x100
    }

    pub open spec fn fraction_field(self) -> u32 {
        self.bits % 0x80_0000
    }

    /// The ratio is `significand * 2^exponent` where it is finite and not negative.
    pub open spec fn significand(self) -> nat {
        if self.exponent_field() == 0 {
            self.fraction_field() as nat
        } else {
            (0x80_0000 + self.fraction_field()) as nat
        }
    }

    pub open spec fn exponent(self) -> int {
        if self.exponent_field() == 0 {
            -149
        } else {
            self.exponent_field() - 150
        }
    }

    /// The ratio of `secs`, in whole seconds. A negative ratio and one that is no number give
    /// zero, an infinite one the largest number.
    pub open spec fn scaled(self, secs: nat) -> u64 {
        if self.is_negative() {
            0
        } else if self.exponent_field() == 255 {
            if self.fraction_field() == 0 && secs > 0 {
                u64::MAX
            } else {
                0
            }
        } else {
            saturated(shifted(round53(round53(secs) * self.significand()), self.exponent()))
        }
    }

    /// The ratio with these single-precision bits.
    pub fn from_bits(bits: u32) -> (r: Ratio)
        ensures
            r.bits == bits,
    {
        Ratio { bits }
    }

    /// The single-precision bits of this ratio.
    pub fn to_bits(&self) -> (r: u32)
        ensures
            r == self.bits,
    {
        self.bits
    }

    /// The ratio of `secs`, in whole seconds.
    pub fn scale_secs(&self, secs: u128) -> (r: u64)
        requires
            secs < 0x2_0000_0000_0000_0000,
        ensures
            r == self.scaled(secs as nat),
    {
        if self.bits >= 0x8000_0000 {
            return 0;
        }
        let field: u32 = (self.bits / 0x80_0000) % 0x100;
        let fraction: u32 = self.bits % 0x80_0000;
        if field == 255 {
            return if fraction == 0 && secs > 0 {
                u64::MAX
            } else {
                0
            };
        }
        let significand: u128 = if field == 0 {
            fraction as u128
        } else {
            0x80_0000 + fraction as u128
        };
        let a: u128 = rounded53(secs);
        assert(a * significand <= 0x4_0000_0000_0000_0000 * 0x100_0000) by (nonlinear_arith)
            requires
                0 <= a <= 0x4_0000_0000_0000_0000,
                0 <= significand <= 0x100_0000,
        ;
        assert(0x4_0000_0000_0000_0000 * 0x100_0000 == 0x400_0000_0000_0000_0000_0000);
        let p: u128 = rounded53(a * significand);
        if field >= 150 {
            shift_up(p, field - 150)
        } else {
            let places: u32 = if field == 0 {
                149
            } else {
                150 - field
            };
            shift_down(p, places)
        }
    }
}

proof fn lemma_spacing(x: nat)
    ensures
        1 <= spacing(x),
        spacing(x) <= x + 1,
        x >= 0x20_0000_0000_0000 ==> spacing(x) * 2 <= x,
    decreases x,
{
    if x >= 0x20_0000_0000_0000 {
        lemma_spacing(x / 2);
    }
}

fn unit_of(x: u128) -> (r: u128)
    ensures
        r == spacing(x as nat),
        1 <= r,
        r <= x + 1,
        x >= 0x20_0000_0000_0000 ==> r * 2 <= x,
    decreases x,
{
    proof {
        lemma_spacing(x as nat);
    }
    if x < 0x20_0000_0000_0000 {
        1
    } else {
        2 * unit_of(x / 2)
    }
}

/// `x` rounded to 53 significant bits.
fn rounded53(x: u128) -> (r: u128)
    requires
        x <= 0x1000_0000_0000_0000_0000_0000,
    ensures
        r == round53(x as nat),
        r <= 2 * x,
{
    let unit: u128 = unit_of(x);
    let q: u128 = x / unit;
    let rest: u128 = x % unit;
    proof {
        vstd::arithmetic::div_mod::lemma_fundamental_div_mod(x as int, unit as int);
        assert(unit * q == q * unit) by (nonlinear_arith);
        assert((q + 1) * unit == q * unit + unit) by (nonlinear_arith);
        assert(x < 0x20_0000_0000_0000 ==> unit == 1);
        if unit == 1 {
            assert(rest == 0);
        }
    }
    if 2 * rest < unit || (2 * rest == unit && q % 2 == 0) {
        q * unit
    } else {
        (q + 1) * unit
    }
}

/// `x * 2^places`, or the largest number where that is larger.
fn shift_up(x: u128, places: u32) -> (r: u64)
    requires
        places <= 104,
    ensures
        r == saturated(shifted(x as nat, places as int)),
    decreases places,
{
    proof {
        lemma_pow2_pos(places as nat);
    }
    if x > u64::MAX as u128 {
        assert(x * pow2(places as nat) >= x) by (nonlinear_arith)
            requires
                pow2(places as nat) >= 1,
                x >= 0,
        ;
        u64::MAX
    } else if places == 0 {
        proof {
            vstd::arithmetic::power2::lemma2_to64();
        }
        x as u64
    } else {
        proof {
            lemma_pow2_unfold(places as nat);
            assert(x * (2 * pow2((places - 1) as nat)) == (2 * x) * pow2((places - 1) as nat))
                by (nonlinear_arith);
        }
        shift_up(2 * x, places - 1)
    }
}

/// `x / 2^places`, or the largest number where that is larger.
fn shift_down(x: u128, places: u32) -> (r: u64)
    requires
        1 <= places,
    ensures
        r == saturated(shifted(x as nat, -(places as int))),
    decreases places,
{
    proof {
        lemma_pow2_unfold(places as nat);
    }
    if places == 1 {
        proof {
            vstd::arithmetic::power2::lemma2_to64();
        }
        let half: u128 = x / 2;
        if half > u64::MAX as u128 {
            u64::MAX
        } else {
            half as u64
        }
    } else {
        proof {
            lemma_pow2_pos((places - 1) as nat);
            lemma_div_denominator(x as int, 2, pow2((places - 1) as nat) as int);
        }
        shift_down(x / 2, places - 1)
    }
}

} // verus!
