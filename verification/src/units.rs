//! Conversion between yocto-units and whole tokens.

use vstd::prelude::*;

verus! {

/// The number of yocto-units in one token: ten to the twenty-fourth.
pub const YOCTO_PER_TOKEN: u128 = 1_000_000_000_000_000_000_000_000;

/// A magnitude at human scale: whole tokens and the yocto-units left over.
///
/// Nothing is rounded away: a well-formed value stands for exactly
/// `whole * YOCTO_PER_TOKEN + frac` yocto-units.
#[derive(Clone, Copy, Debug, PartialEq, Eq, Structural)]
pub struct HumanAmount {
    /// Whole tokens.
    pub whole: u128,
    /// The remainder in yocto-units, below one token.
    pub frac: u128,
}

impl HumanAmount {
    /// The remainder is below one token.
    pub open spec fn wf(self) -> bool {
        self.frac < YOCTO_PER_TOKEN
    }

    /// The magnitude in yocto-units that this value stands for.
    pub open spec fn yocto(self) -> nat {
        (self.whole * YOCTO_PER_TOKEN + self.frac) as nat
    }

    /// The amount of nothing.
    pub fn zero() -> (r: HumanAmount)
        ensures
            r.wf(),
            r.yocto() == 0,
            r.whole == 0,
            r.frac == 0,
    {
        HumanAmount { whole: 0, frac: 0 }
    }

    /// Whether `self` is at most `other`.
    pub fn le(&self, other: &HumanAmount) -> (r: bool)
        requires
            self.wf(),
            other.wf(),
        ensures
            r == (self.yocto() <= other.yocto()),
    {
        proof {
            lemma_order_by_parts(*self, *other);
            lemma_order_by_parts(*other, *self);
        }
        self.whole < other.whole || (self.whole == other.whole && self.frac <= other.frac)
    }

    /// The sum of `self` and a magnitude in yocto-units, where the whole part
    /// of the sum still fits.
    pub fn checked_add_yocto(&self, magnitude: u128) -> (r: Option<HumanAmount>)
        requires
            self.wf(),
        ensures
            r is Some <==> (self.yocto() + magnitude) / (YOCTO_PER_TOKEN as int) <= u128::MAX,
            r matches Some(sum) ==> sum.wf() && sum.yocto() == self.yocto() + magnitude,
    {
        let add_whole: u128 = magnitude / YOCTO_PER_TOKEN;
        let add_frac: u128 = magnitude % YOCTO_PER_TOKEN;
        let frac_sum: u128 = self.frac + add_frac;
        let carry: u128 = if frac_sum >= YOCTO_PER_TOKEN { 1 } else { 0 };
        let frac: u128 = if frac_sum >= YOCTO_PER_TOKEN { frac_sum - YOCTO_PER_TOKEN } else { frac_sum };
        proof {
            let s = YOCTO_PER_TOKEN as int;
            let total = self.yocto() + magnitude;
            assert(magnitude == add_whole * s + add_frac) by (nonlinear_arith)
                requires
                    add_whole == magnitude / (s as u128),
                    add_frac == magnitude % (s as u128),
                    s == 1_000_000_000_000_000_000_000_000,
            ;
            assert(total == (self.whole + add_whole + carry) * s + frac) by (nonlinear_arith)
                requires
                    total == self.whole * s + self.frac + magnitude,
                    magnitude == add_whole * s + add_frac,
                    frac + carry * s == self.frac + add_frac,
            ;
            assert(total / s == self.whole + add_whole + carry) by (nonlinear_arith)
                requires
                    total == (self.whole + add_whole + carry) * s + frac,
                    0 <= frac < s,
                    s > 0,
            ;
        }
        if add_whole > u128::MAX - self.whole {
            return None;
        }
        let partial: u128 = self.whole + add_whole;
        if carry > u128::MAX - partial {
            return None;
        }
        Some(HumanAmount { whole: partial + carry, frac })
    }
}

/// Two well-formed amounts compare as their parts do, the whole part first.
pub proof fn lemma_order_by_parts(a: HumanAmount, b: HumanAmount)
    requires
        a.wf(),
        b.wf(),
    ensures
        a.yocto() <= b.yocto() <==> (a.whole < b.whole || (a.whole == b.whole && a.frac
            <= b.frac)),
{
    let s = YOCTO_PER_TOKEN as int;
    assert(a.whole < b.whole ==> a.whole * s + a.frac < b.whole * s + b.frac)
        by (nonlinear_arith)
        requires
            0 <= a.frac < s,
            0 <= b.frac < s,
    ;
    assert(b.whole < a.whole ==> b.whole * s + b.frac < a.whole * s + a.frac)
        by (nonlinear_arith)
        requires
            0 <= a.frac < s,
            0 <= b.frac < s,
    ;
}

/// What `to_human` returns, as a function of the magnitude.
pub open spec fn human_of(magnitude: u128) -> HumanAmount {
    HumanAmount { whole: magnitude / YOCTO_PER_TOKEN, frac: magnitude % YOCTO_PER_TOKEN }
}

/// Converts a magnitude in yocto-units to human scale by floor division:
/// the quotient by `YOCTO_PER_TOKEN` and the remainder.
pub fn to_human(magnitude: u128) -> (r: HumanAmount)
    ensures
        r == human_of(magnitude),
        r.wf(),
        r.whole == magnitude / YOCTO_PER_TOKEN,
        r.frac == magnitude % YOCTO_PER_TOKEN,
        r.yocto() == magnitude,
{
    let r = HumanAmount { whole: magnitude / YOCTO_PER_TOKEN, frac: magnitude % YOCTO_PER_TOKEN };
    proof {
        let s = YOCTO_PER_TOKEN as int;
        assert(magnitude == r.whole * s + r.frac) by (nonlinear_arith)
            requires
                r.whole == magnitude / (s as u128),
                r.frac == magnitude % (s as u128),
                s == 1_000_000_000_000_000_000_000_000,
        ;
    }
    r
}

/// Conversion to human scale keeps the order: of two magnitudes the smaller
/// has the smaller whole part, and the smaller amount.
pub proof fn lemma_to_human_monotonic(a: u128, b: u128)
    requires
        a <= b,
    ensures
        human_of(a).whole <= human_of(b).whole,
        human_of(a).yocto() <= human_of(b).yocto(),
        human_of(a).yocto() == a,
        human_of(b).yocto() == b,
{
    let s = YOCTO_PER_TOKEN as int;
    assert(a / (s as u128) <= b / (s as u128)) by (nonlinear_arith)
        requires
            0 <= a <= b,
            s == 1_000_000_000_000_000_000_000_000,
    ;
    assert(a == (a / (s as u128)) * s + a % (s as u128)) by (nonlinear_arith)
        requires
            s == 1_000_000_000_000_000_000_000_000,
    ;
    assert(b == (b / (s as u128)) * s + b % (s as u128)) by (nonlinear_arith)
        requires
            s == 1_000_000_000_000_000_000_000_000,
    ;
}

} // verus!
