//! Absolute beat positions as reduced fractions.

use std::cmp::Ordering;

use vstd::prelude::*;
use vstd::std_specs::cmp::PartialOrdSpecImpl;

use crate::arith::{gcd_spec, gcd_u64, lemma_coprime_cross_unique, lemma_reduced_is_coprime, normalizer};
use crate::error::ChartError;

verus! {

/// An absolute position measured in beats, kept as a reduced fraction.
///
/// Two positions are equal exactly when they denote the same number of beats.
#[derive(Clone, Copy, Debug, PartialEq, Eq, Structural)]
pub struct Position {
    numerator: u64,
    denominator: u64,
}

/// The pair `(n / g, d / g)` for `g` the greatest common divisor of `n` and `d`.
pub open spec fn reduced(n: nat, d: nat) -> (nat, nat) {
    (n / normalizer(n, d), d / normalizer(n, d))
}

impl Position {
    /// The fraction is reduced and its denominator is positive.
    #[verifier::type_invariant]
    pub closed spec fn wf(self) -> bool {
        &&& self.denominator > 0
        &&& gcd_spec(self.numerator as nat, self.denominator as nat) == 1
    }

    /// The numerator of the reduced fraction.
    pub closed spec fn num(self) -> nat {
        self.numerator as nat
    }

    /// The denominator of the reduced fraction.
    pub closed spec fn den(self) -> nat {
        self.denominator as nat
    }

    /// The reduced form of `n / d`, for `d` positive and both below 2^64.
    pub closed spec fn from_fraction(n: nat, d: nat) -> Self {
        Position { numerator: reduced(n, d).0 as u64, denominator: reduced(n, d).1 as u64 }
    }

    /// This position is the reduced form of `n / d`.
    pub open spec fn is_reduced_form_of(self, n: nat, d: nat) -> bool {
        (self.num(), self.den()) == reduced(n, d)
    }

    /// This position denotes fewer beats than `other`.
    pub open spec fn is_before(self, other: Self) -> bool {
        self.num() * other.den() < other.num() * self.den()
    }

    /// This position denotes no more beats than `other`.
    pub open spec fn is_at_or_before(self, other: Self) -> bool {
        self.num() * other.den() <= other.num() * self.den()
    }

    /// Creates the position `numerator / denominator` beats, reduced.
    pub fn new(numerator: u64, denominator: u64) -> (result: Result<Self, ChartError>)
        ensures
            denominator == 0 ==> result == Err::<Self, ChartError>(ChartError::InvalidPositionDenominator),
            denominator != 0 ==> result == Ok::<Self, ChartError>(
                Self::from_fraction(numerator as nat, denominator as nat),
            ),
    {
        if denominator == 0 {
            return Err(ChartError::InvalidPositionDenominator);
        }
        let divisor = gcd_u64(numerator, denominator);
        proof {
            lemma_reduced_is_coprime(numerator as nat, denominator as nat);
            let g = divisor as nat;
            let d = denominator as nat;
            assert(d / g > 0) by (nonlinear_arith)
                requires
                    d == g * (d / g),
                    d > 0,
            ;
        }
        Ok(Self { numerator: numerator / divisor, denominator: denominator / divisor })
    }

    pub fn numerator(self) -> (n: u64)
        ensures
            n == self.num(),
    {
        self.numerator
    }

    pub fn denominator(self) -> (d: u64)
        ensures
            d == self.den(),
            d > 0,
    {
        proof {
            use_type_invariant(&self);
        }
        self.denominator
    }

    /// `self.numerator * other.denominator`, computed without overflow.
    fn cross(&self, other: &Self) -> (c: u128)
        ensures
            c == self.num() * other.den(),
    {
        let a = self.numerator as u128;
        let b = other.denominator as u128;
        proof {
            assert(a * b <= u64::MAX * u64::MAX) by (nonlinear_arith)
                requires
                    a <= u64::MAX,
                    b <= u64::MAX,
            ;
        }
        a * b
    }

    /// Adds two absolute beat positions without losing rational precision.
    pub fn checked_add(self, other: Self) -> (result: Result<Self, ChartError>)
        ensures
            result == sum(self, other),
    {
        proof {
            use_type_invariant(&self);
            use_type_invariant(&other);
        }
        let left = match self.numerator.checked_mul(other.denominator) {
            Some(v) => v,
            None => return Err(ChartError::PositionOverflow),
        };
        let right = match other.numerator.checked_mul(self.denominator) {
            Some(v) => v,
            None => return Err(ChartError::PositionOverflow),
        };
        let numerator = match left.checked_add(right) {
            Some(v) => v,
            None => return Err(ChartError::PositionOverflow),
        };
        let denominator = match self.denominator.checked_mul(other.denominator) {
            Some(v) => v,
            None => return Err(ChartError::PositionOverflow),
        };
        proof {
            assert(denominator > 0) by (nonlinear_arith)
                requires
                    denominator == self.denominator * other.denominator,
                    self.denominator > 0,
                    other.denominator > 0,
            ;
        }
        Self::new(numerator, denominator)
    }

    /// Multiplies a position by the factor `numerator / denominator`.
    pub(crate) fn checked_scale(self, numerator: u64, denominator: u64) -> (result: Result<Self, ChartError>)
        ensures
            result == scale(self, numerator as nat, denominator as nat),
    {
        let n = match self.numerator.checked_mul(numerator) {
            Some(v) => v,
            None => return Err(ChartError::PositionOverflow),
        };
        let d = match self.denominator.checked_mul(denominator) {
            Some(v) => v,
            None => return Err(ChartError::PositionOverflow),
        };
        Self::new(n, d)
    }
}

/// `a + b`, or the overflow error `checked_add` reports.
pub open spec fn sum(a: Position, b: Position) -> Result<Position, ChartError> {
    match add_terms(a, b) {
        Some((n, d)) => Ok(Position::from_fraction(n, d)),
        None => Err(ChartError::PositionOverflow),
    }
}

/// `a * (n / d)`, or the error `checked_scale` reports.
pub open spec fn scale(a: Position, n: nat, d: nat) -> Result<Position, ChartError> {
    match scale_terms(a, n, d) {
        Some((n2, d2)) => if d2 == 0 {
            Err(ChartError::InvalidPositionDenominator)
        } else {
            Ok(Position::from_fraction(n2, d2))
        },
        None => Err(ChartError::PositionOverflow),
    }
}

/// A valid position is the reduced form of its own terms.
pub proof fn lemma_own_reduced_form(p: Position)
    requires
        p.wf(),
    ensures
        Position::from_fraction(p.num(), p.den()) == p,
{
    assert(normalizer(p.num(), p.den()) == 1);
}

/// Zero beats and one beat, written as fractions.
pub proof fn lemma_small_fractions(d: nat)
    requires
        0 < d <= u64::MAX,
    ensures
        Position::from_fraction(0, 1).num() == 0,
        Position::from_fraction(0, 1).den() == 1,
        Position::from_fraction(0, 1).wf(),
        Position::from_fraction(0, d) == Position::from_fraction(0, 1),
        Position::from_fraction(1, 1).num() == 1,
        Position::from_fraction(1, 1).den() == 1,
{
    assert(gcd_spec(0, 1) == 1) by {
        reveal_with_fuel(gcd_spec, 2);
    }
    assert(gcd_spec(0, d) == d) by {
        reveal_with_fuel(gcd_spec, 2);
    }
    assert(gcd_spec(1, 1) == 1) by {
        reveal_with_fuel(gcd_spec, 2);
    }
    assert(d / d == 1) by (nonlinear_arith)
        requires
            d > 0,
    ;
    assert(0nat / d == 0) by (nonlinear_arith)
        requires
            d > 0,
    ;
}

/// Scaling a position by one gives it back; scaling it by zero gives zero.
pub proof fn lemma_scale_by_whole(p: Position)
    requires
        p.wf(),
    ensures
        scale(p, 1, 1) == Ok::<Position, ChartError>(p),
        scale(p, 0, 1) == Ok::<Position, ChartError>(Position::from_fraction(0, 1)),
{
    lemma_own_reduced_form(p);
    lemma_terms_fit(p);
    lemma_valid_denominator(p);
    lemma_small_fractions(p.den());
}

/// Scaling a position by a smaller factor gives no more beats.
pub proof fn lemma_scale_keeps_order(
    length: Position,
    a: Position,
    b: Position,
    part_a: Position,
    part_b: Position,
)
    requires
        length.wf(),
        a.wf(),
        b.wf(),
        a.is_at_or_before(b),
        scale(length, a.num(), a.den()) == Ok::<Position, ChartError>(part_a),
        scale(length, b.num(), b.den()) == Ok::<Position, ChartError>(part_b),
    ensures
        part_a.wf(),
        part_b.wf(),
        part_a.is_at_or_before(part_b),
{
    lemma_valid_denominator(length);
    lemma_valid_denominator(a);
    lemma_valid_denominator(b);
    let (ln, ld, an, ad, bn, bd) = (length.num(), length.den(), a.num(), a.den(), b.num(), b.den());
    let (na, da) = scale_terms(length, an, ad).unwrap();
    let (nb, db) = scale_terms(length, bn, bd).unwrap();
    assert(da > 0 && db > 0) by (nonlinear_arith)
        requires
            da == ld * ad,
            db == ld * bd,
            ld > 0,
            ad > 0,
            bd > 0,
    ;
    lemma_from_fraction(na, da);
    lemma_from_fraction(nb, db);
    lemma_reduced_form_value(part_a, na, da);
    lemma_reduced_form_value(part_b, nb, db);
    let (pa, qa, pb, qb) = (part_a.num(), part_a.den(), part_b.num(), part_b.den());
    // pa / qa == ln * an / (ld * ad) and pb / qb == ln * bn / (ld * bd).
    assert(pa * qb * (ld * ad * bd) == ln * an * bd * qa * qb) by (nonlinear_arith)
        requires
            pa * (ld * ad) == (ln * an) * qa,
    ;
    assert(pb * qa * (ld * ad * bd) == ln * bn * ad * qa * qb) by (nonlinear_arith)
        requires
            pb * (ld * bd) == (ln * bn) * qb,
    ;
    assert(ln * an * bd * qa * qb <= ln * bn * ad * qa * qb) by (nonlinear_arith)
        requires
            an * bd <= bn * ad,
    ;
    assert(ld * ad * bd > 0) by (nonlinear_arith)
        requires
            ld > 0,
            ad > 0,
            bd > 0,
    ;
    assert(pa * qb <= pb * qa) by (nonlinear_arith)
        requires
            pa * qb * (ld * ad * bd) <= pb * qa * (ld * ad * bd),
            ld * ad * bd > 0,
    ;
}

/// Adding zero beats gives the position back.
pub proof fn lemma_sum_zero(p: Position)
    requires
        p.wf(),
    ensures
        sum(p, Position::from_fraction(0, 1)) == Ok::<Position, ChartError>(p),
{
    lemma_own_reduced_form(p);
    lemma_terms_fit(p);
    lemma_valid_denominator(p);
    lemma_small_fractions(1);
}

/// The reduced form of a fraction is a valid position with those terms.
pub proof fn lemma_from_fraction(n: nat, d: nat)
    requires
        0 < d <= u64::MAX,
        n <= u64::MAX,
    ensures
        Position::from_fraction(n, d).wf(),
        Position::from_fraction(n, d).is_reduced_form_of(n, d),
        Position::from_fraction(n, d).den() > 0,
{
    lemma_reduced_is_coprime(n, d);
    let g = gcd_spec(n, d);
    assert(normalizer(n, d) == g);
    assert(n / g <= n && d / g <= d && d / g > 0) by (nonlinear_arith)
        requires
            n == g * (n / g),
            d == g * (d / g),
            d > 0,
            g > 0,
    ;
}

/// A reduced form of `n / d` denotes the same number of beats as `n / d`.
pub proof fn lemma_reduced_form_value(p: Position, n: nat, d: nat)
    requires
        d > 0,
        p.is_reduced_form_of(n, d),
    ensures
        p.num() * d == n * p.den(),
        p.den() > 0,
{
    lemma_reduced_is_coprime(n, d);
    let g = gcd_spec(n, d);
    assert(normalizer(n, d) == g);
    assert((n / g) * d == n * (d / g) && d / g > 0) by (nonlinear_arith)
        requires
            n == g * (n / g),
            d == g * (d / g),
            d > 0,
            g > 0,
    ;
}

/// Positions are equal exactly when they denote the same number of beats.
pub proof fn lemma_same_value_same_position(p: Position, q: Position)
    requires
        p.wf(),
        q.wf(),
    ensures
        (p == q) <==> p.num() * q.den() == q.num() * p.den(),
{
    if p.num() * q.den() == q.num() * p.den() {
        lemma_coprime_cross_unique(p.num(), p.den(), q.num(), q.den());
    }
}

/// Reducing two fractions that denote the same number of beats gives the
/// same position; `Position::new(2, 4) == Position::new(1, 2)`.
pub proof fn lemma_equal_fractions_reduce_alike(p: Position, q: Position, n1: nat, d1: nat, n2: nat, d2: nat)
    requires
        p.wf(),
        q.wf(),
        d1 > 0,
        d2 > 0,
        p.is_reduced_form_of(n1, d1),
        q.is_reduced_form_of(n2, d2),
        n1 * d2 == n2 * d1,
    ensures
        p == q,
{
    lemma_reduced_form_value(p, n1, d1);
    lemma_reduced_form_value(q, n2, d2);
    let (a, b, c, e) = (p.num(), p.den(), q.num(), q.den());
    assert(a * e == c * b) by (nonlinear_arith)
        requires
            a * d1 == n1 * b,
            c * d2 == n2 * e,
            n1 * d2 == n2 * d1,
            d1 > 0,
            d2 > 0,
            b > 0,
            e > 0,
    ;
    lemma_same_value_same_position(p, q);
}

/// `checked_add` returns the position of the sum of its operands.
pub proof fn lemma_checked_add_value(a: Position, b: Position, total: Position)
    requires
        a.wf(),
        b.wf(),
        sum(a, b) == Ok::<Position, ChartError>(total),
    ensures
        total.wf(),
        total.num() * (a.den() * b.den()) == (a.num() * b.den() + b.num() * a.den()) * total.den(),
{
    let (n, d) = add_terms(a, b).unwrap();
    assert(d > 0) by (nonlinear_arith)
        requires
            d == a.den() * b.den(),
            a.den() > 0,
            b.den() > 0,
    ;
    lemma_from_fraction(n, d);
    lemma_reduced_form_value(total, n, d);
}

/// The order of positions is the order of the numbers of beats they denote;
/// it is a strict total order.
pub proof fn lemma_order_is_total(p: Position, q: Position, r: Position)
    requires
        p.wf(),
        q.wf(),
        r.wf(),
    ensures
        !p.is_before(p),
        p.is_before(q) || q.is_before(p) || p == q,
        p.is_before(q) && q.is_before(r) ==> p.is_before(r),
        p.is_at_or_before(q) <==> (p.is_before(q) || p == q),
{
    lemma_same_value_same_position(p, q);
    let (a, b, c, d, e, f) = (p.num(), p.den(), q.num(), q.den(), r.num(), r.den());
    assert(a * d < c * b && c * f < e * d ==> a * f < e * b) by (nonlinear_arith)
        requires
            b > 0,
            d > 0,
            f > 0,
    ;
}

/// The unreduced numerator and denominator of `a + b`, where the intermediate
/// products and the sum fit in 64 bits.
pub open spec fn add_terms(a: Position, b: Position) -> Option<(nat, nat)> {
    let left = a.num() * b.den();
    let right = b.num() * a.den();
    let d = a.den() * b.den();
    if left <= u64::MAX && right <= u64::MAX && left + right <= u64::MAX && d <= u64::MAX {
        Some((left + right, d))
    } else {
        None
    }
}

/// The unreduced numerator and denominator of `a * (n / d)`, where both
/// products fit in 64 bits.
pub open spec fn scale_terms(a: Position, n: nat, d: nat) -> Option<(nat, nat)> {
    if a.num() * n <= u64::MAX && a.den() * d <= u64::MAX {
        Some((a.num() * n, a.den() * d))
    } else {
        None
    }
}

impl PartialOrd for Position {
    fn partial_cmp(&self, other: &Self) -> (result: Option<Ordering>) {
        let left = self.cross(other);
        let right = other.cross(self);
        if left < right {
            Some(Ordering::Less)
        } else if left == right {
            Some(Ordering::Equal)
        } else {
            Some(Ordering::Greater)
        }
    }
}

impl PartialOrdSpecImpl for Position {
    open spec fn obeys_partial_cmp_spec() -> bool {
        true
    }

    open spec fn partial_cmp_spec(&self, other: &Self) -> Option<Ordering> {
        if self.is_before(*other) {
            Some(Ordering::Less)
        } else if other.is_before(*self) {
            Some(Ordering::Greater)
        } else {
            Some(Ordering::Equal)
        }
    }
}


/// Adding a position never moves backwards: `a <= a + b`.
pub proof fn lemma_sum_not_before(a: Position, b: Position, total: Position)
    requires
        a.wf(),
        b.wf(),
        sum(a, b) == Ok::<Position, ChartError>(total),
    ensures
        total.wf(),
        a.is_at_or_before(total),
{
    lemma_checked_add_value(a, b, total);
    let (an, ad, bn, bd, tn, td) = (a.num(), a.den(), b.num(), b.den(), total.num(), total.den());
    assert(tn * (ad * bd) == an * bd * td + bn * ad * td) by (nonlinear_arith)
        requires
            tn * (ad * bd) == (an * bd + bn * ad) * td,
    ;
    assert(bn * ad * td >= 0) by (nonlinear_arith);
    assert((tn * ad) * bd >= (an * td) * bd) by (nonlinear_arith)
        requires
            tn * (ad * bd) == an * bd * td + bn * ad * td,
            bn * ad * td >= 0,
    ;
    assert(an * td <= tn * ad) by (nonlinear_arith)
        requires
            (tn * ad) * bd >= (an * td) * bd,
            bd > 0,
    ;
}

/// "Not after" is transitive.
pub proof fn lemma_at_or_before_transitive(p: Position, q: Position, r: Position)
    requires
        p.wf(),
        q.wf(),
        r.wf(),
        p.is_at_or_before(q),
        q.is_at_or_before(r),
    ensures
        p.is_at_or_before(r),
{
    let (a, b, c, d, e, f) = (p.num(), p.den(), q.num(), q.den(), r.num(), r.den());
    assert(a * d * f <= c * b * f) by (nonlinear_arith)
        requires
            a * d <= c * b,
    ;
    assert(c * f * b <= e * d * b) by (nonlinear_arith)
        requires
            c * f <= e * d,
    ;
    assert((a * f) * d <= (e * b) * d) by (nonlinear_arith)
        requires
            a * d * f <= c * b * f,
            c * f * b <= e * d * b,
    ;
    assert(a * f <= e * b) by (nonlinear_arith)
        requires
            (a * f) * d <= (e * b) * d,
            d > 0,
    ;
}

/// Adding to the same position keeps the order of what is added: `a < b`
/// gives `s + a < s + b`.
pub proof fn lemma_sum_keeps_order(s: Position, a: Position, b: Position, sa: Position, sb: Position)
    requires
        s.wf(),
        a.wf(),
        b.wf(),
        sum(s, a) == Ok::<Position, ChartError>(sa),
        sum(s, b) == Ok::<Position, ChartError>(sb),
        a.is_before(b),
    ensures
        sa.is_before(sb),
{
    lemma_checked_add_value(s, a, sa);
    lemma_checked_add_value(s, b, sb);
    let (sn, sd, an, ad, bn, bd) = (s.num(), s.den(), a.num(), a.den(), b.num(), b.den());
    let (xn, xd, yn, yd) = (sa.num(), sa.den(), sb.num(), sb.den());
    let x: nat = sn * ad + an * sd;
    let y: nat = sd * ad;
    let x2: nat = sn * bd + bn * sd;
    let y2: nat = sd * bd;
    assert(x * y2 == sn * ad * sd * bd + an * bd * (sd * sd)) by (nonlinear_arith)
        requires
            x == sn * ad + an * sd,
            y2 == sd * bd,
    ;
    assert(x2 * y == sn * ad * sd * bd + bn * ad * (sd * sd)) by (nonlinear_arith)
        requires
            x2 == sn * bd + bn * sd,
            y == sd * ad,
    ;
    assert(an * bd * (sd * sd) < bn * ad * (sd * sd)) by (nonlinear_arith)
        requires
            an * bd < bn * ad,
            sd > 0,
    ;
    assert(x * y2 < x2 * y);
    assert(y > 0 && y2 > 0) by (nonlinear_arith)
        requires
            y == sd * ad,
            y2 == sd * bd,
            sd > 0,
            ad > 0,
            bd > 0,
    ;
    assert((xn * yd) * (y * y2) == (x * y2) * (xd * yd)) by (nonlinear_arith)
        requires
            xn * y == x * xd,
    ;
    assert((yn * xd) * (y * y2) == (x2 * y) * (xd * yd)) by (nonlinear_arith)
        requires
            yn * y2 == x2 * yd,
    ;
    assert((x * y2) * (xd * yd) < (x2 * y) * (xd * yd)) by (nonlinear_arith)
        requires
            x * y2 < x2 * y,
            xd > 0,
            yd > 0,
    ;
    assert(xn * yd < yn * xd) by (nonlinear_arith)
        requires
            (xn * yd) * (y * y2) < (yn * xd) * (y * y2),
            y > 0,
            y2 > 0,
    ;
}

/// A proper fraction of a positive length is shorter than the length:
/// `n < d` gives `length * (n / d) < length`.
pub proof fn lemma_scale_below(length: Position, n: nat, d: nat, part: Position)
    requires
        length.wf(),
        length.num() > 0,
        n < d,
        scale(length, n, d) == Ok::<Position, ChartError>(part),
    ensures
        part.wf(),
        part.is_before(length),
{
    let (ln, ld) = (length.num(), length.den());
    let (n2, d2) = scale_terms(length, n, d).unwrap();
    assert(d2 > 0);
    lemma_from_fraction(n2, d2);
    lemma_reduced_form_value(part, n2, d2);
    let (pn, pd) = (part.num(), part.den());
    assert((ln * n) * pd < (ln * d) * pd) by (nonlinear_arith)
        requires
            n < d,
            ln > 0,
            pd > 0,
    ;
    assert((pn * ld) * d < (ln * pd) * d) by (nonlinear_arith)
        requires
            pn * (ld * d) == (ln * n) * pd,
            (ln * n) * pd < (ln * d) * pd,
    ;
    assert(pn * ld < ln * pd) by (nonlinear_arith)
        requires
            (pn * ld) * d < (ln * pd) * d,
    ;
}


/// Reducing a fraction never makes its terms larger.
pub proof fn lemma_reduced_terms_bounded(n: nat, d: nat)
    requires
        0 < d <= u64::MAX,
        n <= u64::MAX,
    ensures
        Position::from_fraction(n, d).num() <= n,
        Position::from_fraction(n, d).den() <= d,
{
    lemma_from_fraction(n, d);
    let g = normalizer(n, d);
    assert(g >= 1);
    vstd::arithmetic::div_mod::lemma_fundamental_div_mod(n as int, g as int);
    vstd::arithmetic::div_mod::lemma_fundamental_div_mod(d as int, g as int);
    assert(n / g <= n && d / g <= d) by (nonlinear_arith)
        requires
            g >= 1,
            n == g * (n / g) + n % g,
            d == g * (d / g) + d % g,
            n % g >= 0,
            d % g >= 0,
            n / g >= 0,
            d / g >= 0,
    ;
}

/// A whole number of beats is the fraction with denominator one.
pub proof fn lemma_whole_beats(n: nat)
    requires
        n <= u64::MAX,
    ensures
        Position::from_fraction(n, 1).num() == n,
        Position::from_fraction(n, 1).den() == 1,
        Position::from_fraction(n, 1).wf(),
{
    lemma_from_fraction(n, 1);
    assert(crate::arith::gcd_spec(1, 0) == 1);
    assert(n % 1 == 0);
    assert(crate::arith::gcd_spec(n, 1) == crate::arith::gcd_spec(1, n % 1));
    assert(normalizer(n, 1) == 1);
    assert(n / 1 == n && 1nat / 1 == 1);
    assert(reduced(n, 1) == (n, 1nat));
}

/// The terms of a position are 64-bit numbers.
pub proof fn lemma_terms_fit(p: Position)
    ensures
        p.num() <= u64::MAX,
        p.den() <= u64::MAX,
{
}

/// A valid position has a positive denominator.
pub proof fn lemma_valid_denominator(p: Position)
    requires
        p.wf(),
    ensures
        p.den() > 0,
{
}

} // verus!
