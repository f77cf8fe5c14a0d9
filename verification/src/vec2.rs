use vstd::prelude::*;

use crate::rational::{
    fits, qr_of, rat_add, rat_div, rat_eq, rat_mul, rat_sub, rat_wf, Qr, Rat,
};

verus! {

/// The mathematical value of a 2D quantity: a pair of exact fractions.
pub struct RatV2 {
    pub x: Rat,
    pub y: Rat,
}

pub open spec fn v2_wf(a: RatV2) -> bool {
    rat_wf(a.x) && rat_wf(a.y)
}

/// Componentwise exact value equality.
pub open spec fn v2_eq(a: RatV2, b: RatV2) -> bool {
    rat_eq(a.x, b.x) && rat_eq(a.y, b.y)
}

pub open spec fn v2_add(a: RatV2, b: RatV2) -> RatV2 {
    RatV2 { x: rat_add(a.x, b.x), y: rat_add(a.y, b.y) }
}

pub open spec fn v2_sub(a: RatV2, b: RatV2) -> RatV2 {
    RatV2 { x: rat_sub(a.x, b.x), y: rat_sub(a.y, b.y) }
}

/// Both components scaled by the scalar `s`.
pub open spec fn v2_scale(a: RatV2, s: Rat) -> RatV2 {
    RatV2 { x: rat_mul(a.x, s), y: rat_mul(a.y, s) }
}

/// Both components divided by the scalar `s`.
pub open spec fn v2_div_scale(a: RatV2, s: Rat) -> RatV2 {
    RatV2 { x: rat_div(a.x, s), y: rat_div(a.y, s) }
}

pub open spec fn v2_fits(a: RatV2) -> bool {
    fits(a.x) && fits(a.y)
}

/// `Some(a)` when both components can be stored, `None` otherwise.
pub open spec fn try_v2(a: RatV2) -> Option<RatV2> {
    if v2_fits(a) {
        Some(a)
    } else {
        None
    }
}

/// A 2D point or translation, held as two exact scalars.
#[derive(Clone, Copy, PartialEq, Eq, Structural, Debug)]
pub struct V2q {
    pub x: Qr,
    pub y: Qr,
}

impl View for V2q {
    type V = RatV2;

    open spec fn view(&self) -> RatV2 {
        RatV2 { x: self.x@, y: self.y@ }
    }
}

/// The `V2q` that stores a given pair digit for digit.
pub open spec fn v2q_of(a: RatV2) -> V2q {
    V2q { x: qr_of(a.x), y: qr_of(a.y) }
}

pub proof fn lemma_v2q_of_view(a: RatV2)
    requires
        v2_fits(a),
    ensures
        v2q_of(a)@ == a,
{
    crate::rational::lemma_qr_of_view(a.x);
    crate::rational::lemma_qr_of_view(a.y);
}

pub proof fn lemma_view_v2q_of(v: V2q)
    ensures
        v2q_of(v@) == v,
{
    crate::rational::lemma_view_qr_of(v.x);
    crate::rational::lemma_view_qr_of(v.y);
}

/// The pair a vector option stands for, if any.
pub open spec fn opt_v2(r: Option<V2q>) -> Option<RatV2> {
    match r {
        Some(v) => Some(v@),
        None => None,
    }
}

impl V2q {
    pub fn new(x: Qr, y: Qr) -> (r: V2q)
        ensures
            r@ == (RatV2 { x: x@, y: y@ }),
    {
        V2q { x, y }
    }

    pub fn vadd(self, b: V2q) -> (r: Option<V2q>)
        ensures
            opt_v2(r) == try_v2(v2_add(self@, b@)),
    {
        match (self.x.add(b.x), self.y.add(b.y)) {
            (Some(x), Some(y)) => Some(V2q { x, y }),
            _ => None,
        }
    }

    pub fn vsub(self, b: V2q) -> (r: Option<V2q>)
        ensures
            opt_v2(r) == try_v2(v2_sub(self@, b@)),
    {
        match (self.x.sub(b.x), self.y.sub(b.y)) {
            (Some(x), Some(y)) => Some(V2q { x, y }),
            _ => None,
        }
    }

    pub fn scale(self, s: Qr) -> (r: Option<V2q>)
        ensures
            opt_v2(r) == try_v2(v2_scale(self@, s@)),
    {
        match (self.x.mul(s), self.y.mul(s)) {
            (Some(x), Some(y)) => Some(V2q { x, y }),
            _ => None,
        }
    }

    pub fn div_scale(self, s: Qr) -> (r: Option<V2q>)
        requires
            s@.n != 0,
        ensures
            opt_v2(r) == try_v2(v2_div_scale(self@, s@)),
    {
        match (self.x.div(s), self.y.div(s)) {
            (Some(x), Some(y)) => Some(V2q { x, y }),
            _ => None,
        }
    }

    /// Whether both components are exactly zero.
    pub fn is_zero(self) -> (r: bool)
        ensures
            r == (self@.x.n == 0 && self@.y.n == 0),
    {
        let zx: i64 = self.x.num();
        let zy: i64 = self.y.num();
        zx == 0 && zy == 0
    }
}

} // verus!
