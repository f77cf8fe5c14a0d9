use vstd::prelude::*;

use crate::rational::{
    lemma_mul_pos, rat_add, rat_div, rat_eq, rat_mul, rat_sub, rat_wf, Qr, Rat,
};
use crate::vec2::{
    opt_v2, try_v2, v2_add, v2_div_scale, v2_eq, v2_scale, v2_sub, v2_wf, RatV2, V2q,
};

verus! {

/// Where a graph point lands on the screen: `screen = graph * zoom + pan`.
pub open spec fn screen_of(g: RatV2, pan: RatV2, zoom: Rat) -> RatV2 {
    v2_add(v2_scale(g, zoom), pan)
}

/// The graph point under a screen point: `graph = (screen - pan) / zoom`.
pub open spec fn graph_of(s: RatV2, pan: RatV2, zoom: Rat) -> RatV2 {
    v2_div_scale(v2_sub(s, pan), zoom)
}

/// `screen_of`, stopped at the first intermediate that leaves storage range.
pub open spec fn try_screen_of(g: RatV2, pan: RatV2, zoom: Rat) -> Option<RatV2> {
    match try_v2(v2_scale(g, zoom)) {
        Some(m) => try_v2(v2_add(m, pan)),
        None => None,
    }
}

/// `graph_of`, stopped at the first intermediate that leaves storage range.
pub open spec fn try_graph_of(s: RatV2, pan: RatV2, zoom: Rat) -> Option<RatV2> {
    match try_v2(v2_sub(s, pan)) {
        Some(m) => try_v2(v2_div_scale(m, zoom)),
        None => None,
    }
}

/// Maps a graph point to the screen under the given pan and zoom.
pub fn screen_from_graph(g: V2q, pan: V2q, zoom: Qr) -> (r: Option<V2q>)
    ensures
        opt_v2(r) == try_screen_of(g@, pan@, zoom@),
{
    match g.scale(zoom) {
        Some(m) => m.vadd(pan),
        None => None,
    }
}

/// Maps a screen point back to the graph under the given pan and zoom.
pub fn graph_from_screen(s: V2q, pan: V2q, zoom: Qr) -> (r: Option<V2q>)
    requires
        zoom@.n != 0,
    ensures
        opt_v2(r) == try_graph_of(s@, pan@, zoom@),
{
    match s.vsub(pan) {
        Some(m) => m.div_scale(zoom),
        None => None,
    }
}

/// Round trip of one coordinate: `((g*z + p) - p) / z` equals `g`.
proof fn lemma_ints_round_trip(gn: int, gd: int, pn: int, pd: int, zn: int, zd: int)
    by (nonlinear_arith)
    requires
        gd > 0,
        pd > 0,
        zd > 0,
        zn != 0,
    ensures
        zn >= 0 ==> ((((gn * zn) * pd + pn * ((gd * zd))) * pd - pn * (((gd * zd)) * pd)) * zd)
            * gd == gn * ((((gd * zd)) * pd * pd) * zn),
        zn < 0 ==> (-(((((gn * zn) * pd + pn * ((gd * zd))) * pd - pn * (((gd * zd)) * pd)))
            * zd)) * gd == gn * (-(((((gd * zd)) * pd * pd)) * zn)),
{
}

/// One coordinate of the round trip, at the fraction level.
proof fn lemma_rat_round_trip(g: Rat, p: Rat, z: Rat)
    requires
        rat_wf(g),
        rat_wf(p),
        rat_wf(z),
        z.n != 0,
    ensures
        rat_eq(rat_div(rat_sub(rat_add(rat_mul(g, z), p), p), z), g),
{
    lemma_ints_round_trip(g.n, g.d, p.n, p.d, z.n, z.d);
}

/// Invertibility of the viewport transform: for every pan, every zoom other
/// than zero, and every graph point, mapping the point to the screen and the
/// result back to the graph yields exactly the starting point.
pub proof fn lemma_transform_round_trip(g: RatV2, pan: RatV2, zoom: Rat)
    requires
        v2_wf(g),
        v2_wf(pan),
        rat_wf(zoom),
        zoom.n != 0,
    ensures
        v2_eq(graph_of(screen_of(g, pan, zoom), pan, zoom), g),
{
    lemma_rat_round_trip(g.x, pan.x, zoom);
    lemma_rat_round_trip(g.y, pan.y, zoom);
}

/// The zoom factor applied to the current zoom.
pub open spec fn zoom_new_zoom(z: Rat, f: Rat) -> Rat {
    rat_mul(z, f)
}

/// The pan that compensates a zoom so the graph point under the cursor `c`
/// stays put: `pan + g*z - g*(z*f)` for `g` the graph point under `c`.
pub open spec fn zoom_new_pan(c: RatV2, p: RatV2, z: Rat, f: Rat) -> RatV2 {
    v2_add(
        p,
        v2_sub(
            v2_scale(graph_of(c, p, z), z),
            v2_scale(graph_of(c, p, z), zoom_new_zoom(z, f)),
        ),
    )
}

/// Transitivity of exact fraction equality, through a well-formed middle.
proof fn lemma_rat_eq_trans(a: Rat, b: Rat, c: Rat)
    requires
        rat_eq(a, b),
        rat_eq(b, c),
        b.d > 0,
    ensures
        rat_eq(a, c),
{
    lemma_ints_trans(a.n, a.d, b.n, b.d, c.n, c.d);
}

proof fn lemma_ints_trans(an: int, ad: int, bn: int, bd: int, cn: int, cd: int)
    by (nonlinear_arith)
    requires
        an * bd == bn * ad,
        bn * cd == cn * bd,
        bd > 0,
    ensures
        an * cd == cn * ad,
{
}

/// `b + (p + (a - b))` equals `p + a`.
proof fn lemma_rat_shuffle(a: Rat, b: Rat, p: Rat)
    requires
        rat_wf(a),
        rat_wf(b),
        rat_wf(p),
    ensures
        rat_eq(rat_add(b, rat_add(p, rat_sub(a, b))), rat_add(p, a)),
{
    lemma_ints_shuffle(a.n, a.d, b.n, b.d, p.n, p.d);
}

proof fn lemma_ints_shuffle(an: int, ad: int, bn: int, bd: int, pn: int, pd: int)
    by (nonlinear_arith)
    requires
        ad > 0,
        bd > 0,
        pd > 0,
    ensures
        (bn * (pd * (ad * bd)) + (pn * (ad * bd) + (an * bd - bn * ad) * pd) * bd) * (pd * ad)
            == (pn * ad + an * pd) * (bd * (pd * (ad * bd))),
{
}

/// `(s / z) * z` equals `s`, for `z` other than zero.
proof fn lemma_rat_div_mul(s: Rat, z: Rat)
    requires
        rat_wf(s),
        rat_wf(z),
        z.n != 0,
    ensures
        rat_eq(rat_mul(rat_div(s, z), z), s),
{
    lemma_ints_div_mul(s.n, s.d, z.n, z.d);
}

proof fn lemma_ints_div_mul(sn: int, sd: int, zn: int, zd: int)
    by (nonlinear_arith)
    requires
        sd > 0,
        zd > 0,
        zn != 0,
    ensures
        zn >= 0 ==> ((sn * zd) * zn) * sd == sn * ((sd * zn) * zd),
        zn < 0 ==> ((-(sn * zd)) * zn) * sd == sn * ((-(sd * zn)) * zd),
{
}

/// Adding the same value on the left keeps exact equality.
proof fn lemma_rat_add_congr(p: Rat, x: Rat, y: Rat)
    requires
        rat_wf(p),
        rat_wf(x),
        rat_wf(y),
        rat_eq(x, y),
    ensures
        rat_eq(rat_add(p, x), rat_add(p, y)),
{
    lemma_ints_add_congr(p.n, p.d, x.n, x.d, y.n, y.d);
}

proof fn lemma_ints_add_congr(pn: int, pd: int, xn: int, xd: int, yn: int, yd: int)
    by (nonlinear_arith)
    requires
        pd > 0,
        xd > 0,
        yd > 0,
        xn * yd == yn * xd,
    ensures
        (pn * xd + xn * pd) * (pd * yd) == (pn * yd + yn * pd) * (pd * xd),
{
}

/// `p + (a - p)` equals `a`.
proof fn lemma_rat_plus_minus(p: Rat, a: Rat)
    requires
        rat_wf(p),
        rat_wf(a),
    ensures
        rat_eq(rat_add(p, rat_sub(a, p)), a),
{
    lemma_ints_plus_minus(p.n, p.d, a.n, a.d);
}

proof fn lemma_ints_plus_minus(pn: int, pd: int, an: int, ad: int)
    by (nonlinear_arith)
    requires
        pd > 0,
        ad > 0,
    ensures
        (pn * (ad * pd) + (an * pd - pn * ad) * pd) * ad == an * (pd * (ad * pd)),
{
}

/// One coordinate of the zoom fixed point.
proof fn lemma_rat_zoom_fixed(a: Rat, p: Rat, z: Rat, f: Rat)
    requires
        rat_wf(a),
        rat_wf(p),
        rat_wf(z),
        rat_wf(f),
        z.n > 0,
    ensures
        rat_eq(
            rat_add(
                rat_mul(rat_div(rat_sub(a, p), z), rat_mul(z, f)),
                rat_add(
                    p,
                    rat_sub(
                        rat_mul(rat_div(rat_sub(a, p), z), z),
                        rat_mul(rat_div(rat_sub(a, p), z), rat_mul(z, f)),
                    ),
                ),
            ),
            a,
        ),
{
    let s = rat_sub(a, p);
    let g = rat_div(s, z);
    let nz = rat_mul(z, f);
    let m1 = rat_mul(g, z);
    let m2 = rat_mul(g, nz);
    let scr = rat_add(m2, rat_add(p, rat_sub(m1, m2)));
    lemma_mul_pos(a.d, p.d);
    lemma_mul_pos(s.d, z.n);
    lemma_mul_pos(g.d, z.d);
    lemma_mul_pos(z.d, f.d);
    lemma_mul_pos(g.d, nz.d);
    lemma_mul_pos(p.d, m1.d);
    lemma_mul_pos(p.d, s.d);
    lemma_rat_shuffle(m1, m2, p);
    lemma_rat_div_mul(s, z);
    lemma_rat_add_congr(p, m1, s);
    lemma_rat_plus_minus(p, a);
    lemma_rat_eq_trans(scr, rat_add(p, m1), rat_add(p, s));
    lemma_rat_eq_trans(scr, rat_add(p, s), a);
}

/// The zoom-about-cursor invariant: for any zoom factor and cursor position,
/// the graph point under the cursor before the zoom maps to the cursor's
/// screen point again after the zoom, exactly.
pub proof fn lemma_zoom_keeps_cursor(c: RatV2, p: RatV2, z: Rat, f: Rat)
    requires
        v2_wf(c),
        v2_wf(p),
        rat_wf(z),
        rat_wf(f),
        z.n > 0,
    ensures
        v2_eq(
            screen_of(graph_of(c, p, z), zoom_new_pan(c, p, z, f), zoom_new_zoom(z, f)),
            c,
        ),
{
    lemma_rat_zoom_fixed(c.x, p.x, z, f);
    lemma_rat_zoom_fixed(c.y, p.y, z, f);
}

/// The pan chosen by fit-to-screen: the one that maps the graph centre
/// `gc` onto the canvas centre `cc` under zoom `z`.
pub open spec fn fit_pan(cc: RatV2, gc: RatV2, z: Rat) -> RatV2 {
    v2_sub(cc, v2_scale(gc, z))
}

/// Fit-to-screen centring: under the fitted pan, the centre of the padded
/// bounding box lands exactly on the centre of the canvas.
pub proof fn lemma_fit_centers(cc: RatV2, gc: RatV2, z: Rat)
    requires
        v2_wf(cc),
        v2_wf(gc),
        rat_wf(z),
    ensures
        v2_eq(screen_of(gc, fit_pan(cc, gc, z), z), cc),
{
    lemma_mul_pos(gc.x.d, z.d);
    lemma_mul_pos(gc.y.d, z.d);
    lemma_rat_plus_minus(rat_mul(gc.x, z), cc.x);
    lemma_rat_plus_minus(rat_mul(gc.y, z), cc.y);
}

} // verus!
