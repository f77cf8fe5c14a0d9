use vstd::prelude::*;

use crate::change::Change;
use crate::computed::{drag_of, sel_of, spec_compute};
use crate::graph_view::{
    at_most_one_dragged, node_with_selected, spec_click, spec_deselect, spec_drag,
    spec_drag_move, spec_drag_release, spec_drag_start, spec_fit_zoom_pan, spec_frame,
    spec_hit_opt, spec_node_click, spec_toggle, FrameInput,
};
use crate::graph_wrapper::lemma_spec_hit_member;
use crate::metadata::MetaR;
use crate::node::Node;
use crate::rational::{fits, rat_div, rat_min, rat_sub, rat_wf};
use crate::settings::{SettingsInteraction, SettingsNavigation, SettingsStyle};
use crate::store::{keys_of, lists_keys, strict_sorted};
use crate::transform::{fit_pan, lemma_fit_centers, screen_of};
use crate::vec2::{v2_add, v2_eq, v2_scale, v2_wf, RatV2};

verus! {

/// The two maps hold the same ids and agree on every dragged flag.
pub open spec fn same_dragged(a: Map<u32, Node>, b: Map<u32, Node>) -> bool {
    &&& a.dom() == b.dom()
    &&& forall|id: u32| a.dom().contains(id) ==> a[id].dragged == b[id].dragged
}

/// Toggling a selected flag never touches a dragged flag.
proof fn lemma_toggle_keeps_dragged(m: Map<u32, Node>, id: u32)
    ensures
        same_dragged(m, spec_toggle(m, id).0),
{
    if m.dom().contains(id) {
        assert(spec_toggle(m, id).0.dom() =~= m.dom());
    }
}

/// Deselecting never touches a dragged flag.
proof fn lemma_deselect_keeps_dragged(m: Map<u32, Node>, sel: Seq<u32>)
    ensures
        same_dragged(m, spec_deselect(m, sel).0),
    decreases sel.len(),
{
    if sel.len() > 0 {
        lemma_toggle_keeps_dragged(m, sel[0]);
        lemma_deselect_keeps_dragged(spec_toggle(m, sel[0]).0, sel.drop_first());
    }
}

/// Click handling never touches a dragged flag.
proof fn lemma_node_click_keeps_dragged(
    m: Map<u32, Node>,
    sel: Seq<u32>,
    id: u32,
    inter: SettingsInteraction,
)
    ensures
        same_dragged(m, spec_node_click(m, sel, id, inter).0),
{
    lemma_toggle_keeps_dragged(m, id);
    lemma_deselect_keeps_dragged(m, sel);
    lemma_toggle_keeps_dragged(spec_deselect(m, sel).0, id);
}

/// The whole click step never touches a dragged flag.
proof fn lemma_click_keeps_dragged(
    m: Map<u32, Node>,
    sel: Seq<u32>,
    meta: MetaR,
    input: FrameInput,
    inter: SettingsInteraction,
    style: SettingsStyle,
)
    requires
        spec_click(m, sel, meta, input, inter, style) is Some,
    ensures
        same_dragged(m, spec_click(m, sel, meta, input, inter, style).unwrap().0),
{
    lemma_deselect_keeps_dragged(m, sel);
    if spec_hit_opt(m, meta, style, input.hover_pos) is Some && spec_hit_opt(
        m,
        meta,
        style,
        input.hover_pos,
    ).unwrap() is Some {
        let id = spec_hit_opt(m, meta, style, input.hover_pos).unwrap().unwrap().0;
        lemma_node_click_keeps_dragged(m, sel, id, inter);
    }
}

/// When the frame's dragged id is absent, no node at all is dragged.
proof fn lemma_drag_of_none_seq(m: Map<u32, Node>, ids: Seq<u32>)
    requires
        drag_of(m, ids) is None,
    ensures
        forall|k: int| 0 <= k < ids.len() ==> !m[#[trigger] ids[k]].dragged,
    decreases ids.len(),
{
    if ids.len() > 0 {
        lemma_drag_of_none_seq(m, ids.drop_last());
        assert forall|k: int| 0 <= k < ids.len() implies !m[#[trigger] ids[k]].dragged by {
            if k < ids.len() - 1 {
                assert(ids.drop_last()[k] == ids[k]);
            }
        }
    }
}

/// A hit of the hit test names an id that the graph holds.
proof fn lemma_hit_opt_member(
    m: Map<u32, Node>,
    meta: MetaR,
    style: SettingsStyle,
    hover: Option<crate::vec2::V2q>,
)
    requires
        lists_keys(keys_of(m), m),
        spec_hit_opt(m, meta, style, hover) is Some,
        spec_hit_opt(m, meta, style, hover).unwrap() is Some,
    ensures
        m.dom().contains(spec_hit_opt(m, meta, style, hover).unwrap().unwrap().0),
{
    let h = hover.unwrap();
    let gp = crate::transform::try_graph_of(h@, meta.pan, meta.zoom).unwrap();
    let r2 = crate::rational::rat_mul(style.node_radius@, style.node_radius@);
    lemma_spec_hit_member(m, keys_of(m), gp, r2);
    let b = crate::graph_wrapper::spec_hit(m, keys_of(m), gp, r2).unwrap().unwrap();
    assert(keys_of(m).contains(b.0));
}

/// Drag exclusivity: however many drag-start, drag and release reports a
/// frame carries, the drag step leaves at most one node dragged, because a
/// new drag may begin only while no node is dragged.
/// Drag exclusivity at the start step alone: the dragged flag is set on a
/// hit only while no node is dragged, so at most one node ends up dragged.
pub proof fn lemma_drag_start_exclusive(
    m: Map<u32, Node>,
    meta: MetaR,
    input: FrameInput,
    style: SettingsStyle,
)
    requires
        at_most_one_dragged(m),
        lists_keys(keys_of(m), m),
        spec_drag_start(m, drag_of(m, keys_of(m)), meta, input, style) is Some,
    ensures
        at_most_one_dragged(
            spec_drag_start(m, drag_of(m, keys_of(m)), meta, input, style).unwrap().0,
        ),
{
    let mdrag = drag_of(m, keys_of(m));
    let s1 = spec_drag_start(m, mdrag, meta, input, style).unwrap();
    if input.drag_started && mdrag is None && spec_hit_opt(
        m,
        meta,
        style,
        input.hover_pos,
    ).unwrap() is Some {
        let sid = spec_hit_opt(m, meta, style, input.hover_pos).unwrap().unwrap().0;
        lemma_hit_opt_member(m, meta, style, input.hover_pos);
        lemma_drag_of_none_seq(m, keys_of(m));
        assert forall|id: u32| s1.0.dom().contains(id) && s1.0[id].dragged implies id == sid by {
            if id != sid {
                assert(keys_of(m).contains(id));
                let k = choose|k: int| 0 <= k < keys_of(m).len() && keys_of(m)[k] == id;
                assert(!m[keys_of(m)[k]].dragged);
            }
        }
    }
}

pub proof fn lemma_drag_exclusive(
    m: Map<u32, Node>,
    meta: MetaR,
    input: FrameInput,
    inter: SettingsInteraction,
    style: SettingsStyle,
)
    requires
        at_most_one_dragged(m),
        lists_keys(keys_of(m), m),
        spec_drag(m, drag_of(m, keys_of(m)), meta, input, inter, style) is Some,
    ensures
        at_most_one_dragged(
            spec_drag(m, drag_of(m, keys_of(m)), meta, input, inter, style).unwrap().0,
        ),
{
    let mdrag = drag_of(m, keys_of(m));
    if inter.dragging_enabled {
        lemma_drag_start_exclusive(m, meta, input, style);
        let s1 = spec_drag_start(m, mdrag, meta, input, style).unwrap();
        assert(at_most_one_dragged(s1.0));
        let s2 = spec_drag_move(s1.0, mdrag, meta, input).unwrap();
        assert(at_most_one_dragged(s2.0));
        let s3 = spec_drag_release(s2.0, mdrag, input);
        assert(at_most_one_dragged(s3.0));
    }
}

/// Drag exclusivity over a whole frame: a frame that runs to completion on
/// a graph with at most one dragged node leaves at most one node dragged.
pub proof fn lemma_frame_drag_exclusive(
    m: Map<u32, Node>,
    meta: MetaR,
    input: FrameInput,
    inter: SettingsInteraction,
    nav: SettingsNavigation,
    style: SettingsStyle,
)
    requires
        at_most_one_dragged(m),
        lists_keys(keys_of(m), m),
        spec_frame(m, meta, input, inter, nav, style) is Some,
    ensures
        at_most_one_dragged(spec_frame(m, meta, input, inter, nav, style).unwrap().nodes),
{
    let comp = spec_compute(m, style.node_radius@).unwrap();
    let f = crate::graph_view::spec_fit(meta, comp.bounds, input, nav).unwrap();
    let z = crate::graph_view::spec_zoom(f.0, input, nav).unwrap();
    let p = crate::graph_view::spec_pan(z.0, input, comp.dragged, nav).unwrap();
    lemma_drag_exclusive(m, p.0, input, inter, style);
    let d = spec_drag(m, comp.dragged, p.0, input, inter, style).unwrap();
    lemma_click_keeps_dragged(d.0, comp.selected, p.0, input, inter, style);
    let c = spec_click(d.0, comp.selected, p.0, input, inter, style).unwrap();
    assert forall|i: u32, j: u32|
        c.0.dom().contains(i) && c.0.dom().contains(j) && c.0[i].dragged
            && c.0[j].dragged implies i == j by {
        assert(d.0.dom().contains(i) && d.0.dom().contains(j));
        assert(d.0[i].dragged && d.0[j].dragged);
    }
}

/// Deselecting a duplicate-free listing of selected ids clears exactly
/// those flags and touches nothing else.
proof fn lemma_deselect_clears(m: Map<u32, Node>, sel: Seq<u32>)
    requires
        strict_sorted(sel),
        forall|k: int| 0 <= k < sel.len() ==> m.dom().contains(#[trigger] sel[k]) && m[sel[k]].selected,
    ensures
        spec_deselect(m, sel).0.dom() == m.dom(),
        forall|j: u32| m.dom().contains(j) ==> #[trigger] spec_deselect(m, sel).0[j] == (
        if sel.contains(j) {
            node_with_selected(m[j], false)
        } else {
            m[j]
        }),
    decreases sel.len(),
{
    if sel.len() == 0 {
        assert(spec_deselect(m, sel).0.dom() =~= m.dom());
    } else {
        let s0 = sel[0];
        let m1 = spec_toggle(m, s0).0;
        assert(m1 == m.insert(s0, node_with_selected(m[s0], false)));
        assert(m1.dom() =~= m.dom());
        let rest = sel.drop_first();
        assert(strict_sorted(rest));
        assert forall|k: int| 0 <= k < rest.len() implies m1.dom().contains(#[trigger] rest[k])
            && m1[rest[k]].selected by {
            assert(rest[k] == sel[k + 1]);
            assert(sel[0] < sel[k + 1]);
        }
        lemma_deselect_clears(m1, rest);
        assert forall|j: u32| m.dom().contains(j) implies #[trigger] spec_deselect(m, sel).0[j]
            == (if sel.contains(j) {
            node_with_selected(m[j], false)
        } else {
            m[j]
        }) by {
            if sel.contains(j) {
                let k = choose|k: int| 0 <= k < sel.len() && sel[k] == j;
                if k == 0 {
                    if rest.contains(j) {
                        let l = choose|l: int| 0 <= l < rest.len() && rest[l] == j;
                        assert(sel[0] < sel[l + 1]);
                        assert(false);
                    }
                    assert(spec_deselect(m, sel).0[j] == m1[j]);
                } else {
                    assert(rest[k - 1] == j);
                    assert(rest.contains(j));
                    assert(sel[0] < sel[k]);
                    assert(m1[j] == m[j]);
                }
            } else {
                if rest.contains(j) {
                    let l = choose|l: int| 0 <= l < rest.len() && rest[l] == j;
                    assert(sel[l + 1] == j);
                    assert(sel.contains(j));
                    assert(false);
                }
                assert(j != s0) by {
                    if j == s0 {
                        assert(sel.contains(j));
                    }
                }
                assert(m1[j] == m[j]);
            }
        }
    }
}

/// Selection exclusivity: with multi-select disabled, a completed single
/// click on an unselected node leaves exactly that node selected,
/// whatever set of nodes was selected before.
pub proof fn lemma_click_selects_exclusively(
    m: Map<u32, Node>,
    id: u32,
    inter: SettingsInteraction,
)
    requires
        lists_keys(keys_of(m), m),
        inter.selection_enabled,
        !inter.selection_multi_enabled,
        m.dom().contains(id),
        !m[id].selected,
    ensures
        spec_node_click(m, sel_of(m, keys_of(m)), id, inter).0.dom() == m.dom(),
        forall|j: u32|
            m.dom().contains(j) ==> (#[trigger] spec_node_click(
                m,
                sel_of(m, keys_of(m)),
                id,
                inter,
            ).0[j].selected <==> j == id),
{
    let ids = keys_of(m);
    let sel = sel_of(m, ids);
    crate::computed::lemma_sel_of_props(m, ids);
    assert forall|k: int| 0 <= k < sel.len() implies m.dom().contains(#[trigger] sel[k])
        && m[sel[k]].selected by {
        assert(sel.contains(sel[k]));
        assert(ids.contains(sel[k]));
    }
    lemma_deselect_clears(m, sel);
    let d = spec_deselect(m, sel).0;
    let t = spec_toggle(d, id);
    assert(!d[id].selected);
    assert(t.0 == d.insert(id, node_with_selected(d[id], true)));
    assert forall|j: u32| m.dom().contains(j) implies (#[trigger] t.0[j].selected <==> j
        == id) by {
        if j != id {
            assert(t.0[j] == d[j]);
            if sel.contains(j) {
            } else {
                assert(ids.contains(j));
                assert(!m[j].selected);
            }
        }
    }
    assert(t.0.dom() =~= m.dom());
}

/// Fit-to-screen determinism: when fit-to-screen runs to completion, the
/// zoom it settles on is exactly the smaller of the two canvas-to-padded
/// ratios, and the pan it settles on maps the centre of the bounding box
/// exactly onto the centre of the canvas.
pub proof fn lemma_fit_determinism(
    meta: MetaR,
    bmin: RatV2,
    bmax: RatV2,
    padded: RatV2,
    input: FrameInput,
)
    requires
        v2_wf(bmin),
        v2_wf(bmax),
        v2_wf(input.canvas_min@),
        v2_wf(input.canvas_max@),
        spec_fit_zoom_pan(meta, bmin, bmax, padded, input) is Some,
    ensures
        ({
            let r = spec_fit_zoom_pan(meta, bmin, bmax, padded, input).unwrap();
            let cw = rat_sub(input.canvas_max@.x, input.canvas_min@.x);
            let ch = rat_sub(input.canvas_max@.y, input.canvas_min@.y);
            let gc = v2_scale(v2_add(bmin, bmax), crate::graph_view::rat_half());
            let cc = v2_scale(
                v2_add(input.canvas_min@, input.canvas_max@),
                crate::graph_view::rat_half(),
            );
            &&& r.0.zoom == rat_min(rat_div(cw, padded.x), rat_div(ch, padded.y))
            &&& v2_eq(screen_of(gc, r.0.pan, r.0.zoom), cc)
        }),
{
    let r = spec_fit_zoom_pan(meta, bmin, bmax, padded, input).unwrap();
    let cw = rat_sub(input.canvas_max@.x, input.canvas_min@.x);
    let ch = rat_sub(input.canvas_max@.y, input.canvas_min@.y);
    let nz = rat_min(rat_div(cw, padded.x), rat_div(ch, padded.y));
    let gc = v2_scale(v2_add(bmin, bmax), crate::graph_view::rat_half());
    let cc = v2_scale(
        v2_add(input.canvas_min@, input.canvas_max@),
        crate::graph_view::rat_half(),
    );
    assert(r.0.pan == fit_pan(cc, gc, nz));
    assert(rat_wf(nz)) by {
        assert(fits(nz));
    }
    assert(v2_wf(gc)) by {
        assert(fits(gc.x));
        assert(fits(gc.y));
    }
    assert(v2_wf(cc)) by {
        assert(fits(cc.x));
        assert(fits(cc.y));
    }
    lemma_fit_centers(cc, gc, nz);
}

/// A double click that runs to completion adds exactly one DoubleClicked
/// record and changes no node data: the single-click selection effects
/// belong to the earlier frame that reported the first physical click, so
/// a double click never causes a second selection toggle.
pub proof fn lemma_double_click_adds_one(
    m: Map<u32, Node>,
    sel: Seq<u32>,
    meta: MetaR,
    input: FrameInput,
    inter: SettingsInteraction,
    style: SettingsStyle,
)
    requires
        input.double_clicked,
        inter.clicking_enabled,
        spec_click(m, sel, meta, input, inter, style) is Some,
        spec_hit_opt(m, meta, style, input.hover_pos) is Some,
        spec_hit_opt(m, meta, style, input.hover_pos).unwrap() is Some,
    ensures
        ({
            let r = spec_click(m, sel, meta, input, inter, style).unwrap();
            let id = spec_hit_opt(m, meta, style, input.hover_pos).unwrap().unwrap().0;
            &&& r.0 == m
            &&& r.1 == seq![Change::DoubleClicked { id }]
        }),
{
}

} // verus!
