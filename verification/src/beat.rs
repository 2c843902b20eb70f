//! Musical positions written as a measure and a fraction of that measure.

use std::cmp::Ordering;

use vstd::prelude::*;
use vstd::std_specs::cmp::PartialOrdSpecImpl;

use crate::arith::{gcd_spec, gcd_u32, lemma_coprime_cross_unique, lemma_reduced_is_coprime, normalizer};
use crate::error::ChartError;
use crate::position::reduced;

verus! {

/// A position inside a measure: `measure + numerator / denominator`, with the
/// fraction reduced and below one.
#[derive(Clone, Copy, Debug, PartialEq, Eq, Structural)]
pub struct Beat {
    measure: u32,
    numerator: u32,
    denominator: u32,
}

impl Beat {
    /// The fraction is reduced, positive in its denominator and below one.
    #[verifier::type_invariant]
    pub closed spec fn wf(self) -> bool {
        &&& self.denominator > 0
        &&& self.numerator < self.denominator
        &&& gcd_spec(self.numerator as nat, self.denominator as nat) == 1
    }

    pub closed spec fn measure_spec(self) -> nat {
        self.measure as nat
    }

    pub closed spec fn num(self) -> nat {
        self.numerator as nat
    }

    pub closed spec fn den(self) -> nat {
        self.denominator as nat
    }

    /// This beat comes earlier than `other`.
    pub open spec fn is_before(self, other: Self) -> bool {
        ||| self.measure_spec() < other.measure_spec()
        ||| self.measure_spec() == other.measure_spec() && self.num() * other.den() < other.num() * self.den()
    }

    /// Creates the beat `measure + numerator / denominator` with the fraction reduced.
    pub fn new(measure: u32, numerator: u32, denominator: u32) -> (result: Result<Self, ChartError>)
        ensures
            denominator == 0 ==> result == Err::<Self, ChartError>(ChartError::InvalidBeatDenominator),
            denominator != 0 && numerator >= denominator ==> result == Err::<Self, ChartError>(
                ChartError::InvalidBeatFraction,
            ),
            denominator != 0 && numerator < denominator ==> (result matches Ok(b) && b.measure_spec()
                == measure && (b.num(), b.den()) == reduced(numerator as nat, denominator as nat)),
    {
        if denominator == 0 {
            return Err(ChartError::InvalidBeatDenominator);
        }
        if numerator >= denominator {
            return Err(ChartError::InvalidBeatFraction);
        }
        let divisor = gcd_u32(numerator, denominator);
        proof {
            lemma_reduced_is_coprime(numerator as nat, denominator as nat);
            let g = divisor as nat;
            let n = numerator as nat;
            let d = denominator as nat;
            assert(d / g > 0 && n / g < d / g) by (nonlinear_arith)
                requires
                    n == g * (n / g),
                    d == g * (d / g),
                    n < d,
                    g > 0,
            ;
        }
        Ok(Self { measure, numerator: numerator / divisor, denominator: denominator / divisor })
    }

    pub fn measure(self) -> (m: u32)
        ensures
            m == self.measure_spec(),
    {
        self.measure
    }

    pub fn numerator(self) -> (n: u32)
        ensures
            n == self.num(),
    {
        self.numerator
    }

    pub fn denominator(self) -> (d: u32)
        ensures
            d == self.den(),
            d > 0,
    {
        proof {
            use_type_invariant(&self);
        }
        self.denominator
    }

    /// `self.numerator * other.denominator`, computed without overflow.
    fn cross(&self, other: &Self) -> (c: u64)
        ensures
            c == self.num() * other.den(),
    {
        let a = self.numerator as u64;
        let b = other.denominator as u64;
        proof {
            assert(a * b <= u32::MAX * u32::MAX) by (nonlinear_arith)
                requires
                    a <= u32::MAX,
                    b <= u32::MAX,
            ;
        }
        a * b
    }
}

/// Beats are equal exactly when they denote the same point in time, and the
/// order of beats is a strict total order.
pub proof fn lemma_beat_order(p: Beat, q: Beat)
    requires
        p.wf(),
        q.wf(),
    ensures
        (p == q) <==> (p.measure_spec() == q.measure_spec() && p.num() * q.den() == q.num() * p.den()),
        p.is_before(q) || q.is_before(p) || p == q,
        !(p.is_before(q) && q.is_before(p)),
{
    if p.measure_spec() == q.measure_spec() && p.num() * q.den() == q.num() * p.den() {
        lemma_coprime_cross_unique(p.num(), p.den(), q.num(), q.den());
    }
}

impl PartialOrd for Beat {
    fn partial_cmp(&self, other: &Self) -> (result: Option<Ordering>) {
        if self.measure < other.measure {
            return Some(Ordering::Less);
        }
        if self.measure > other.measure {
            return Some(Ordering::Greater);
        }
        let left = self.cross(other);
        let right = other.cross(self);
        if left < right {
            Some(Ordering::Less)
        } else if left == right {
            Some(Ordering::Equal)
        } else {
            Some(Ordering::Greater)
        }
    }
}

impl PartialOrdSpecImpl for Beat {
    open spec fn obeys_partial_cmp_spec() -> bool {
        true
    }

    open spec fn partial_cmp_spec(&self, other: &Self) -> Option<Ordering> {
        if self.is_before(*other) {
            Some(Ordering::Less)
        } else if other.is_before(*self) {
            Some(Ordering::Greater)
        } else {
            Some(Ordering::Equal)
        }
    }
}

} // verus!
