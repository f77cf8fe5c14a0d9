use vstd::prelude::*;

use crate::change::NumOverflow;
use crate::graph_wrapper::GraphWrapper;
use crate::node::Node;
use crate::rational::{fits, rat_add, rat_max, rat_min, rat_sub, Rat};
use crate::settings::SettingsStyle;
use crate::store::keys_of;
use crate::vec2::{RatV2, V2q};

verus! {

/// The ids that carry the selected flag, in listing order.
pub open spec fn sel_of(m: Map<u32, Node>, ids: Seq<u32>) -> Seq<u32>
    decreases ids.len(),
{
    if ids.len() == 0 {
        Seq::empty()
    } else {
        let prev = sel_of(m, ids.drop_last());
        if m[ids.last()].selected {
            prev.push(ids.last())
        } else {
            prev
        }
    }
}

/// The first id in listing order that carries the dragged flag.
pub open spec fn drag_of(m: Map<u32, Node>, ids: Seq<u32>) -> Option<u32>
    decreases ids.len(),
{
    if ids.len() == 0 {
        None
    } else {
        let prev = drag_of(m, ids.drop_last());
        if prev is Some {
            prev
        } else if m[ids.last()].dragged {
            Some(ids.last())
        } else {
            None
        }
    }
}

/// The running bounding box over every node position inflated by the
/// radius, `None` when a corner leaves storage range; the inner option is
/// absent while no node has been folded in.
pub open spec fn bounds_of(m: Map<u32, Node>, ids: Seq<u32>, rad: Rat) -> Option<
    Option<(RatV2, RatV2)>,
>
    decreases ids.len(),
{
    if ids.len() == 0 {
        Some(None)
    } else {
        match bounds_of(m, ids.drop_last(), rad) {
            None => None,
            Some(acc) => {
                let pos = m[ids.last()].location@;
                let lo = RatV2 { x: rat_sub(pos.x, rad), y: rat_sub(pos.y, rad) };
                let hi = RatV2 { x: rat_add(pos.x, rad), y: rat_add(pos.y, rad) };
                if !fits(lo.x) || !fits(lo.y) || !fits(hi.x) || !fits(hi.y) {
                    None
                } else {
                    Some(Some(match acc {
                        None => (lo, hi),
                        Some(b) => (
                            RatV2 { x: rat_min(b.0.x, lo.x), y: rat_min(b.0.y, lo.y) },
                            RatV2 { x: rat_max(b.1.x, hi.x), y: rat_max(b.1.y, hi.y) },
                        ),
                    }))
                }
            },
        }
    }
}

/// Once the bounding-box fold has failed on a prefix, it fails on the whole.
proof fn lemma_bounds_none(m: Map<u32, Node>, ids: Seq<u32>, rad: Rat, k: int)
    requires
        0 <= k <= ids.len(),
        bounds_of(m, ids.take(k), rad) is None,
    ensures
        bounds_of(m, ids, rad) is None,
    decreases ids.len() - k,
{
    if k == ids.len() {
        assert(ids.take(k) =~= ids);
    } else {
        assert(ids.take(k + 1).drop_last() =~= ids.take(k));
        lemma_bounds_none(m, ids, rad, k + 1);
    }
}

/// The selected listing inherits order and membership from the id listing:
/// it is strictly ascending and every entry is an id of the listing.
pub proof fn lemma_sel_of_props(m: Map<u32, Node>, ids: Seq<u32>)
    requires
        crate::store::strict_sorted(ids),
    ensures
        crate::store::strict_sorted(sel_of(m, ids)),
        forall|id: u32| #[trigger] sel_of(m, ids).contains(id) <==> (ids.contains(id)
            && m[id].selected),
    decreases ids.len(),
{
    if ids.len() > 0 {
        let pre = ids.drop_last();
        assert(crate::store::strict_sorted(pre));
        lemma_sel_of_props(m, pre);
        let prev = sel_of(m, pre);
        assert forall|id: u32| #[trigger] prev.contains(id) implies ids.contains(id) by {
            assert(pre.contains(id));
            let j = choose|j: int| 0 <= j < pre.len() && pre[j] == id;
            assert(ids[j] == id);
        }
        assert forall|id: u32| ids.contains(id) && m[id].selected && id != ids.last() implies #[trigger] prev.contains(id) by {
            let j = choose|j: int| 0 <= j < ids.len() && ids[j] == id;
            assert(pre[j] == id);
            assert(pre.contains(id));
        }
        if m[ids.last()].selected {
            let cur = prev.push(ids.last());
            assert forall|k: int, l: int| 0 <= k < l < cur.len() implies cur[k] < cur[l] by {
                if l < cur.len() - 1 {
                    assert(prev[k] < prev[l]);
                } else {
                    assert(prev.contains(prev[k]));
                    assert(pre.contains(prev[k]));
                    let j = choose|j: int| 0 <= j < pre.len() && pre[j] == prev[k];
                    assert(ids[j] < ids.last());
                }
            }
            assert forall|id: u32| #[trigger] cur.contains(id) implies ids.contains(id)
                && m[id].selected by {
                let j = choose|j: int| 0 <= j < cur.len() && cur[j] == id;
                if j < cur.len() - 1 {
                    assert(prev.contains(id));
                } else {
                    assert(ids.contains(ids.last()));
                }
            }
            assert forall|id: u32| ids.contains(id) && m[id].selected implies #[trigger] cur.contains(id) by {
                if id == ids.last() {
                    assert(cur[cur.len() - 1] == id);
                } else {
                    assert(prev.contains(id));
                    let j = choose|j: int| 0 <= j < prev.len() && prev[j] == id;
                    assert(cur[j] == id);
                }
            }
        } else {
            assert forall|id: u32| ids.contains(id) && m[id].selected implies #[trigger] sel_of(
                m,
                ids,
            ).contains(id) by {
                assert(id != ids.last());
                assert(prev.contains(id));
            }
        }
    }
}

/// The per-frame derived state, as mathematical values.
pub struct CompR {
    pub selected: Seq<u32>,
    pub dragged: Option<u32>,
    pub bounds: Option<(RatV2, RatV2)>,
}

/// The ephemeral state derived from scratch each frame: the selected-id
/// set, the at-most-one dragged id, and the inflated bounding box over all
/// node positions.
pub struct ComputedState {
    pub selected: Vec<u32>,
    pub dragged: Option<u32>,
    pub bounds: Option<(V2q, V2q)>,
}

impl View for ComputedState {
    type V = CompR;

    open spec fn view(&self) -> CompR {
        CompR {
            selected: self.selected@,
            dragged: self.dragged,
            bounds: match self.bounds {
                Some(b) => Some((b.0@, b.1@)),
                None => None,
            },
        }
    }
}

/// The whole computed state over a node map, `None` when the bounding box
/// cannot be carried out in storage range.
pub open spec fn spec_compute(m: Map<u32, Node>, rad: Rat) -> Option<CompR> {
    match bounds_of(m, keys_of(m), rad) {
        None => None,
        Some(b) => Some(
            CompR { selected: sel_of(m, keys_of(m)), dragged: drag_of(m, keys_of(m)), bounds: b },
        ),
    }
}

impl ComputedState {
    /// Recomputes the derived state from scratch by one pass over the nodes.
    pub fn compute(g: &GraphWrapper, style: &SettingsStyle) -> (r: Result<
        ComputedState,
        NumOverflow,
    >)
        ensures
            (match r {
                Ok(c) => Some(c@) == spec_compute(g.nodes_map(), style.node_radius@),
                Err(_) => spec_compute(g.nodes_map(), style.node_radius@) is None,
            }),
            crate::store::lists_keys(keys_of(g.nodes_map()), g.nodes_map()),
    {
        let rad = style.node_radius;
        let ids = g.node_ids();
        let mut selected: Vec<u32> = Vec::new();
        let mut dragged: Option<u32> = None;
        let mut bounds: Option<(V2q, V2q)> = None;
        let mut i: usize = 0;
        while i < ids.len()
            invariant
                0 <= i <= ids@.len(),
                ids@ == keys_of(g.nodes_map()),
                crate::store::lists_keys(ids@, g.nodes_map()),
                rad == style.node_radius,
                selected@ == sel_of(g.nodes_map(), ids@.take(i as int)),
                dragged == drag_of(g.nodes_map(), ids@.take(i as int)),
                Some(
                    match bounds {
                        Some(b) => Some((b.0@, b.1@)),
                        None => None,
                    },
                ) == bounds_of(g.nodes_map(), ids@.take(i as int), rad@),
            decreases ids@.len() - i,
        {
            assert(ids@.contains(ids@[i as int]));
            let n = g.node(ids[i]).unwrap();
            let ghost prefix = ids@.take(i + 1int);
            proof {
                assert(prefix.drop_last() =~= ids@.take(i as int));
            }
            let lo_x = n.location.x.sub(rad);
            let lo_y = n.location.y.sub(rad);
            let hi_x = n.location.x.add(rad);
            let hi_y = n.location.y.add(rad);
            match (lo_x, lo_y, hi_x, hi_y) {
                (Some(lx), Some(ly), Some(hx), Some(hy)) => {
                    let lo = V2q { x: lx, y: ly };
                    let hi = V2q { x: hx, y: hy };
                    bounds = match bounds {
                        None => Some((lo, hi)),
                        Some(b) => Some((
                            V2q { x: b.0.x.min_val(lo.x), y: b.0.y.min_val(lo.y) },
                            V2q { x: b.1.x.max_val(hi.x), y: b.1.y.max_val(hi.y) },
                        )),
                    };
                },
                _ => {
                    proof {
                        assert(prefix.last() == ids@[i as int]);
                        assert(bounds_of(g.nodes_map(), prefix, rad@) is None);
                        lemma_bounds_none(g.nodes_map(), ids@, rad@, i + 1);
                    }
                    return Err(NumOverflow);
                },
            }
            if n.selected {
                selected.push(ids[i]);
            }
            if dragged.is_none() && n.dragged {
                dragged = Some(ids[i]);
            }
            i = i + 1;
        }
        assert(ids@.take(ids@.len() as int) =~= ids@);
        Ok(ComputedState { selected, dragged, bounds })
    }
}

} // verus!
