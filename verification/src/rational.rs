use vstd::prelude::*;

verus! {

/// The mathematical value of a viewport scalar: the fraction `n / d`.
///
/// Coordinates, pan offsets and zoom factors are exact rationals, so the
/// screen/graph transform has an exact inverse.
pub struct Rat {
    pub n: int,
    pub d: int,
}

/// A fraction is well formed when its denominator is positive.
pub open spec fn rat_wf(a: Rat) -> bool {
    a.d > 0
}

/// Exact equality of two fractions, by cross-multiplication.
pub open spec fn rat_eq(a: Rat, b: Rat) -> bool {
    a.n * b.d == b.n * a.d
}

/// `a <= b` on fractions with positive denominators.
pub open spec fn rat_le(a: Rat, b: Rat) -> bool {
    a.n * b.d <= b.n * a.d
}

/// `a < b` on fractions with positive denominators.
pub open spec fn rat_lt(a: Rat, b: Rat) -> bool {
    a.n * b.d < b.n * a.d
}

/// The fraction is strictly positive.
pub open spec fn rat_pos(a: Rat) -> bool {
    a.n > 0
}

pub open spec fn rat_of_int(n: int) -> Rat {
    Rat { n, d: 1 }
}

pub open spec fn rat_add(a: Rat, b: Rat) -> Rat {
    Rat { n: a.n * b.d + b.n * a.d, d: a.d * b.d }
}

pub open spec fn rat_sub(a: Rat, b: Rat) -> Rat {
    Rat { n: a.n * b.d - b.n * a.d, d: a.d * b.d }
}

pub open spec fn rat_mul(a: Rat, b: Rat) -> Rat {
    Rat { n: a.n * b.n, d: a.d * b.d }
}

/// Division, with the sign moved into the numerator so that the result
/// keeps a positive denominator whenever `b.n != 0`.
pub open spec fn rat_div(a: Rat, b: Rat) -> Rat {
    if b.n >= 0 {
        Rat { n: a.n * b.d, d: a.d * b.n }
    } else {
        Rat { n: -(a.n * b.d), d: -(a.d * b.n) }
    }
}

pub open spec fn rat_neg(a: Rat) -> Rat {
    Rat { n: -a.n, d: a.d }
}

pub open spec fn rat_min(a: Rat, b: Rat) -> Rat {
    if rat_le(a, b) {
        a
    } else {
        b
    }
}

pub open spec fn rat_max(a: Rat, b: Rat) -> Rat {
    if rat_le(a, b) {
        b
    } else {
        a
    }
}

/// The fraction can be stored in a `Qr`: both parts are within the
/// symmetric `i64` range and the denominator is positive.
pub open spec fn fits(a: Rat) -> bool {
    &&& -(i64::MAX as int) <= a.n <= i64::MAX as int
    &&& 0 < a.d <= i64::MAX as int
}

/// `Some(a)` when the fraction can be stored, `None` otherwise.
pub open spec fn try_rat(a: Rat) -> Option<Rat> {
    if fits(a) {
        Some(a)
    } else {
        None
    }
}

/// A viewport scalar: an exact fraction held in machine integers.
#[derive(Clone, Copy, PartialEq, Eq, Structural, Debug)]
pub struct Qr {
    n: i64,
    d: i64,
}

impl View for Qr {
    type V = Rat;

    closed spec fn view(&self) -> Rat {
        Rat { n: self.n as int, d: self.d as int }
    }
}

/// The `Qr` that stores a given fraction digit for digit.
pub closed spec fn qr_of(a: Rat) -> Qr {
    Qr { n: a.n as i64, d: a.d as i64 }
}

pub proof fn lemma_qr_of_view(a: Rat)
    requires
        fits(a),
    ensures
        qr_of(a)@ == a,
{
}

pub proof fn lemma_view_qr_of(q: Qr)
    ensures
        qr_of(q@) == q,
{
}

/// The fraction a scalar option stands for, if any.
pub open spec fn opt_rat(r: Option<Qr>) -> Option<Rat> {
    match r {
        Some(q) => Some(q@),
        None => None,
    }
}

/// Bound on a product of two factors bounded by `m`.
proof fn lemma_abs_mul_bound(a: int, b: int, m: int)
    by (nonlinear_arith)
    requires
        -m <= a <= m,
        -m <= b <= m,
        0 <= m,
    ensures
        -(m * m) <= a * b <= m * m,
{
}

/// A product of two positive factors is positive.
pub proof fn lemma_mul_pos(a: int, b: int)
    by (nonlinear_arith)
    requires
        a > 0,
        b > 0,
    ensures
        a * b > 0,
{
}

/// A product of a positive and a negative factor is negative.
pub proof fn lemma_mul_neg(a: int, b: int)
    by (nonlinear_arith)
    requires
        a > 0,
        b < 0,
    ensures
        a * b < 0,
{
}

impl Qr {
    /// Every scalar in the system keeps a positive denominator and a
    /// numerator that can be negated without overflow.
    #[verifier::type_invariant]
    pub open spec fn inv(self) -> bool {
        fits(self@)
    }

    /// Builds the fraction `n / d`, refusing a denominator that is not
    /// positive and the one numerator whose negation would overflow.
    pub fn new(n: i64, d: i64) -> (r: Option<Qr>)
        ensures
            opt_rat(r) == (if 0 < d && i64::MIN < n {
                Some(Rat { n: n as int, d: d as int })
            } else {
                None::<Rat>
            }),
    {
        if d > 0 && n > i64::MIN {
            Some(Qr { n, d })
        } else {
            None
        }
    }

    /// The whole number `n` as a scalar.
    pub fn from_int(n: i64) -> (r: Qr)
        requires
            n > i64::MIN,
        ensures
            r@ == rat_of_int(n as int),
    {
        Qr { n, d: 1 }
    }

    /// The fraction `n / d` for a denominator known to be positive.
    pub fn from_ratio(n: i64, d: i64) -> (r: Qr)
        requires
            n > i64::MIN,
            d > 0,
        ensures
            r@ == (Rat { n: n as int, d: d as int }),
    {
        Qr { n, d }
    }

    pub fn num(self) -> (r: i64)
        ensures
            r as int == self@.n,
    {
        self.n
    }

    pub fn den(self) -> (r: i64)
        ensures
            r as int == self@.d,
    {
        self.d
    }

    pub fn add(self, b: Qr) -> (r: Option<Qr>)
        ensures
            opt_rat(r) == try_rat(rat_add(self@, b@)),
    {
        proof {
            use_type_invariant(self);
            use_type_invariant(b);
            lemma_abs_mul_bound(self.n as int, b.d as int, i64::MAX as int);
            lemma_abs_mul_bound(b.n as int, self.d as int, i64::MAX as int);
            lemma_abs_mul_bound(self.d as int, b.d as int, i64::MAX as int);
            lemma_mul_pos(self.d as int, b.d as int);
        }
        let nn: i128 = (self.n as i128) * (b.d as i128) + (b.n as i128) * (self.d as i128);
        let dd: i128 = (self.d as i128) * (b.d as i128);
        if -(i64::MAX as i128) <= nn && nn <= i64::MAX as i128 && dd <= i64::MAX as i128 {
            Some(Qr { n: nn as i64, d: dd as i64 })
        } else {
            None
        }
    }

    pub fn sub(self, b: Qr) -> (r: Option<Qr>)
        ensures
            opt_rat(r) == try_rat(rat_sub(self@, b@)),
    {
        proof {
            use_type_invariant(self);
            use_type_invariant(b);
            lemma_abs_mul_bound(self.n as int, b.d as int, i64::MAX as int);
            lemma_abs_mul_bound(b.n as int, self.d as int, i64::MAX as int);
            lemma_abs_mul_bound(self.d as int, b.d as int, i64::MAX as int);
            lemma_mul_pos(self.d as int, b.d as int);
        }
        let nn: i128 = (self.n as i128) * (b.d as i128) - (b.n as i128) * (self.d as i128);
        let dd: i128 = (self.d as i128) * (b.d as i128);
        if -(i64::MAX as i128) <= nn && nn <= i64::MAX as i128 && dd <= i64::MAX as i128 {
            Some(Qr { n: nn as i64, d: dd as i64 })
        } else {
            None
        }
    }

    pub fn mul(self, b: Qr) -> (r: Option<Qr>)
        ensures
            opt_rat(r) == try_rat(rat_mul(self@, b@)),
    {
        proof {
            use_type_invariant(self);
            use_type_invariant(b);
            lemma_abs_mul_bound(self.n as int, b.n as int, i64::MAX as int);
            lemma_abs_mul_bound(self.d as int, b.d as int, i64::MAX as int);
            lemma_mul_pos(self.d as int, b.d as int);
        }
        let nn: i128 = (self.n as i128) * (b.n as i128);
        let dd: i128 = (self.d as i128) * (b.d as i128);
        if -(i64::MAX as i128) <= nn && nn <= i64::MAX as i128 && dd <= i64::MAX as i128 {
            Some(Qr { n: nn as i64, d: dd as i64 })
        } else {
            None
        }
    }

    pub fn div(self, b: Qr) -> (r: Option<Qr>)
        requires
            b@.n != 0,
        ensures
            opt_rat(r) == try_rat(rat_div(self@, b@)),
    {
        proof {
            use_type_invariant(self);
            use_type_invariant(b);
            lemma_abs_mul_bound(self.n as int, b.d as int, i64::MAX as int);
            lemma_abs_mul_bound(self.d as int, b.n as int, i64::MAX as int);
            if b.n > 0 {
                lemma_mul_pos(self.d as int, b.n as int);
            } else {
                lemma_mul_neg(self.d as int, b.n as int);
            }
        }
        let nn: i128;
        let dd: i128;
        if b.n >= 0 {
            nn = (self.n as i128) * (b.d as i128);
            dd = (self.d as i128) * (b.n as i128);
        } else {
            nn = -((self.n as i128) * (b.d as i128));
            dd = -((self.d as i128) * (b.n as i128));
        }
        if -(i64::MAX as i128) <= nn && nn <= i64::MAX as i128 && dd <= i64::MAX as i128 {
            Some(Qr { n: nn as i64, d: dd as i64 })
        } else {
            None
        }
    }

    /// Exact negation; never overflows thanks to the storage bound.
    pub fn neg(self) -> (r: Qr)
        ensures
            r@ == rat_neg(self@),
    {
        proof {
            use_type_invariant(self);
        }
        Qr { n: -self.n, d: self.d }
    }

    pub fn le(self, b: Qr) -> (r: bool)
        ensures
            r == rat_le(self@, b@),
    {
        proof {
            use_type_invariant(self);
            use_type_invariant(b);
            lemma_abs_mul_bound(self.n as int, b.d as int, i64::MAX as int);
            lemma_abs_mul_bound(b.n as int, self.d as int, i64::MAX as int);
        }
        (self.n as i128) * (b.d as i128) <= (b.n as i128) * (self.d as i128)
    }

    pub fn lt(self, b: Qr) -> (r: bool)
        ensures
            r == rat_lt(self@, b@),
    {
        proof {
            use_type_invariant(self);
            use_type_invariant(b);
            lemma_abs_mul_bound(self.n as int, b.d as int, i64::MAX as int);
            lemma_abs_mul_bound(b.n as int, self.d as int, i64::MAX as int);
        }
        (self.n as i128) * (b.d as i128) < (b.n as i128) * (self.d as i128)
    }

    /// Exact value equality; distinct representations of one fraction
    /// compare equal here.
    pub fn eq_val(self, b: Qr) -> (r: bool)
        ensures
            r == rat_eq(self@, b@),
    {
        proof {
            use_type_invariant(self);
            use_type_invariant(b);
            lemma_abs_mul_bound(self.n as int, b.d as int, i64::MAX as int);
            lemma_abs_mul_bound(b.n as int, self.d as int, i64::MAX as int);
        }
        (self.n as i128) * (b.d as i128) == (b.n as i128) * (self.d as i128)
    }

    /// The smaller of the two values; the left one on a tie.
    pub fn min_val(self, b: Qr) -> (r: Qr)
        ensures
            r@ == rat_min(self@, b@),
    {
        if self.le(b) {
            self
        } else {
            b
        }
    }

    /// The larger of the two values; the right one on a tie.
    pub fn max_val(self, b: Qr) -> (r: Qr)
        ensures
            r@ == rat_max(self@, b@),
    {
        if self.le(b) {
            b
        } else {
            self
        }
    }

    pub fn is_pos(self) -> (r: bool)
        ensures
            r == rat_pos(self@),
    {
        self.n > 0
    }
}

} // verus!
