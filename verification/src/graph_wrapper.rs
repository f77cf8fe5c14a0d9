use vstd::prelude::*;

use petgraph::stable_graph::StableGraph;

use crate::change::{Dir, NumOverflow};
use crate::metadata::{MetaR, Metadata};
use crate::node::{Edge, Node};
use crate::rational::{fits, opt_rat, rat_add, rat_le, rat_lt, rat_mul, rat_sub, Qr, Rat};
use crate::settings::SettingsStyle;
use crate::store::{
    keys_of, lemma_lists_keys_unique, lists_keys, store_edge, store_edge_ids, store_edges,
    store_node, store_node_ids, store_nodes, store_set_node,
};
use crate::transform::try_graph_of;
use crate::vec2::{RatV2, V2q};

verus! {

/// Squared distance between two points, stopped at the first intermediate
/// that leaves storage range.
pub open spec fn try_dist2(a: RatV2, b: RatV2) -> Option<Rat> {
    let dx = rat_sub(a.x, b.x);
    let dy = rat_sub(a.y, b.y);
    if !fits(dx) || !fits(dy) {
        None
    } else {
        let sx = rat_mul(dx, dx);
        let sy = rat_mul(dy, dy);
        if !fits(sx) || !fits(sy) {
            None
        } else {
            let s = rat_add(sx, sy);
            if !fits(s) {
                None
            } else {
                Some(s)
            }
        }
    }
}

/// Squared distance between two stored points.
pub fn dist2(a: V2q, b: V2q) -> (r: Option<Qr>)
    ensures
        opt_rat(r) == try_dist2(a@, b@),
{
    match (a.x.sub(b.x), a.y.sub(b.y)) {
        (Some(dx), Some(dy)) => match (dx.mul(dx), dy.mul(dy)) {
            (Some(sx), Some(sy)) => sx.add(sy),
            _ => None,
        },
        _ => None,
    }
}

/// The nodes listed with their ids, in ascending id order.
pub open spec fn nodes_seq(m: Map<u32, Node>) -> Seq<(u32, Node)> {
    keys_of(m).map(|i: int, id: u32| (id, m[id]))
}

/// The edge weights listed with their ids, in ascending id order.
pub open spec fn edges_seq(m: Map<u32, (u32, u32, Edge)>) -> Seq<(u32, Edge)> {
    keys_of(m).map(|i: int, id: u32| (id, m[id].2))
}

/// Whether an edge record leaves (`Outgoing`) or enters (`Incoming`) the
/// node `idx`.
pub open spec fn edge_matches(e: (u32, u32, Edge), idx: u32, dir: Dir) -> bool {
    match dir {
        Dir::Outgoing => e.0 == idx,
        Dir::Incoming => e.1 == idx,
    }
}

/// The edges incident to `idx` in the given direction, in ascending id
/// order over the listing `ids`.
pub open spec fn edges_from(
    em: Map<u32, (u32, u32, Edge)>,
    ids: Seq<u32>,
    idx: u32,
    dir: Dir,
) -> Seq<(u32, Edge)>
    decreases ids.len(),
{
    if ids.len() == 0 {
        Seq::empty()
    } else {
        let prev = edges_from(em, ids.drop_last(), idx, dir);
        let id = ids.last();
        if edge_matches(em[id], idx, dir) {
            prev.push((id, em[id].2))
        } else {
            prev
        }
    }
}

/// How many edge ends of the listing touch `idx`: in directed mode incoming
/// and outgoing ends are summed (a self-loop counts twice), in undirected
/// mode each incident edge counts once.
pub open spec fn incident_count(
    em: Map<u32, (u32, u32, Edge)>,
    ids: Seq<u32>,
    idx: u32,
    directed: bool,
) -> int
    decreases ids.len(),
{
    if ids.len() == 0 {
        0
    } else {
        let prev = incident_count(em, ids.drop_last(), idx, directed);
        let e = em[ids.last()];
        let here: int = if directed {
            (if e.0 == idx { 1int } else { 0int }) + (if e.1 == idx { 1int } else { 0int })
        } else {
            if e.0 == idx || e.1 == idx { 1int } else { 0int }
        };
        prev + here
    }
}

/// The running best of the hit-test fold, as mathematical values.
pub open spec fn hit_view(b: Option<(u32, Qr)>) -> Option<(u32, Rat)> {
    match b {
        Some(p) => Some((p.0, p.1@)),
        None => None,
    }
}

/// Left fold of the hit test over the listing `ids`: among the nodes whose
/// squared distance to `p` is at most `r2`, the one with the smallest
/// squared distance, earliest id on a tie. `None` when a distance leaves
/// storage range.
pub open spec fn spec_hit(
    m: Map<u32, Node>,
    ids: Seq<u32>,
    p: RatV2,
    r2: Rat,
) -> Option<Option<(u32, Rat)>>
    decreases ids.len(),
{
    if ids.len() == 0 {
        Some(None)
    } else {
        match spec_hit(m, ids.drop_last(), p, r2) {
            None => None,
            Some(acc) => {
                let id = ids.last();
                match try_dist2(m[id].location@, p) {
                    None => None,
                    Some(d2) => if rat_le(d2, r2) {
                        match acc {
                            None => Some(Some((id, d2))),
                            Some(best) => if rat_lt(d2, best.1) {
                                Some(Some((id, d2)))
                            } else {
                                Some(Some(best))
                            },
                        }
                    } else {
                        Some(acc)
                    },
                }
            },
        }
    }
}

/// Once the hit-test fold has failed on a prefix, it fails on the whole.
proof fn lemma_spec_hit_none(m: Map<u32, Node>, ids: Seq<u32>, p: RatV2, r2: Rat, k: int)
    requires
        0 <= k <= ids.len(),
        spec_hit(m, ids.take(k), p, r2) is None,
    ensures
        spec_hit(m, ids, p, r2) is None,
    decreases ids.len() - k,
{
    if k == ids.len() {
        assert(ids.take(k) =~= ids);
    } else {
        assert(ids.take(k + 1).drop_last() =~= ids.take(k));
        lemma_spec_hit_none(m, ids, p, r2, k + 1);
    }
}

/// The hit test mapped to the screen: the pointer position is converted to
/// graph coordinates, then held against every node's boundary.
pub open spec fn spec_node_by_pos(
    m: Map<u32, Node>,
    meta: MetaR,
    style: SettingsStyle,
    pos: RatV2,
) -> Option<Option<(u32, Node)>> {
    match try_graph_of(pos, meta.pan, meta.zoom) {
        None => None,
        Some(gp) => {
            let r2 = rat_mul(style.node_radius@, style.node_radius@);
            if !fits(r2) {
                None
            } else {
                match spec_hit(m, keys_of(m), gp, r2) {
                    None => None,
                    Some(None) => Some(None),
                    Some(Some(b)) => Some(Some((b.0, m[b.0]))),
                }
            }
        },
    }
}

/// Owns the node-and-edge store and gives the interaction logic read,
/// traversal and per-node write access to it.
pub struct GraphWrapper {
    g: StableGraph<Node, Edge>,
    directed: bool,
}

impl GraphWrapper {
    /// What the store holds for each node id.
    pub closed spec fn nodes_map(self) -> Map<u32, Node> {
        store_nodes(self.g)
    }

    /// What the store holds for each edge id: source, target, weight.
    pub closed spec fn edges_map(self) -> Map<u32, (u32, u32, Edge)> {
        store_edges(self.g)
    }

    pub closed spec fn directed_spec(self) -> bool {
        self.directed
    }

    /// Wraps a store; `directed` says how incident edges are counted.
    pub fn new(g: StableGraph<Node, Edge>, directed: bool) -> (r: GraphWrapper)
        ensures
            r.nodes_map() == store_nodes(g),
            r.edges_map() == store_edges(g),
            r.directed_spec() == directed,
    {
        GraphWrapper { g, directed }
    }

    /// Hands the store back to the caller.
    pub fn into_graph(self) -> (r: StableGraph<Node, Edge>)
        ensures
            store_nodes(r) == self.nodes_map(),
            store_edges(r) == self.edges_map(),
    {
        self.g
    }

    pub fn is_directed(&self) -> (r: bool)
        ensures
            r == self.directed_spec(),
    {
        self.directed
    }

    /// All node ids, ascending.
    pub fn node_ids(&self) -> (r: Vec<u32>)
        ensures
            r@ == keys_of(self.nodes_map()),
            lists_keys(r@, self.nodes_map()),
    {
        let ids = store_node_ids(&self.g);
        proof {
            lemma_lists_keys_unique(ids@, store_nodes(self.g));
        }
        ids
    }

    /// All edge ids, ascending.
    pub fn edge_ids(&self) -> (r: Vec<u32>)
        ensures
            r@ == keys_of(self.edges_map()),
            lists_keys(r@, self.edges_map()),
    {
        let ids = store_edge_ids(&self.g);
        proof {
            lemma_lists_keys_unique(ids@, store_edges(self.g));
        }
        ids
    }

    /// The node stored under `idx`; absent ids fail the lookup, they never
    /// alias another node.
    pub fn node(&self, idx: u32) -> (r: Option<Node>)
        ensures
            r == (if self.nodes_map().dom().contains(idx) {
                Some(self.nodes_map()[idx])
            } else {
                None::<Node>
            }),
    {
        store_node(&self.g, idx)
    }

    /// The edge weight stored under `idx`.
    pub fn edge(&self, idx: u32) -> (r: Option<Edge>)
        ensures
            r == (if self.edges_map().dom().contains(idx) {
                Some(self.edges_map()[idx].2)
            } else {
                None::<Edge>
            }),
    {
        match store_edge(&self.g, idx) {
            Some(e) => Some(e.2),
            None => None,
        }
    }

    /// The ordered endpoint pair of the edge stored under `idx`.
    pub fn edge_endpoints(&self, idx: u32) -> (r: Option<(u32, u32)>)
        ensures
            r == (if self.edges_map().dom().contains(idx) {
                Some((self.edges_map()[idx].0, self.edges_map()[idx].1))
            } else {
                None::<(u32, u32)>
            }),
    {
        match store_edge(&self.g, idx) {
            Some(e) => Some((e.0, e.1)),
            None => None,
        }
    }

    /// Replaces the node stored under `idx`; reports whether the id was
    /// present. Edges and all other nodes stay as they were.
    pub fn set_node(&mut self, idx: u32, n: Node) -> (r: bool)
        ensures
            r == old(self).nodes_map().dom().contains(idx),
            final(self).nodes_map() == (if old(self).nodes_map().dom().contains(idx) {
                old(self).nodes_map().insert(idx, n)
            } else {
                old(self).nodes_map()
            }),
            final(self).edges_map() == old(self).edges_map(),
            final(self).directed_spec() == old(self).directed_spec(),
    {
        store_set_node(&mut self.g, idx, n)
    }

    /// All nodes with their ids, in ascending id order.
    pub fn nodes(&self) -> (r: Vec<(u32, Node)>)
        ensures
            r@ == nodes_seq(self.nodes_map()),
    {
        let ids = self.node_ids();
        let mut out: Vec<(u32, Node)> = Vec::new();
        let mut i: usize = 0;
        while i < ids.len()
            invariant
                0 <= i <= ids@.len(),
                ids@ == keys_of(self.nodes_map()),
                lists_keys(ids@, self.nodes_map()),
                out@ == ids@.take(i as int).map(|k: int, id: u32| (id, self.nodes_map()[id])),
            decreases ids@.len() - i,
        {
            assert(ids@.contains(ids@[i as int]));
            let n = self.node(ids[i]).unwrap();
            out.push((ids[i], n));
            assert(ids@.take(i + 1int).drop_last() =~= ids@.take(i as int));
            assert(out@ =~= ids@.take(i + 1int).map(|k: int, id: u32| (id, self.nodes_map()[id])));
            i = i + 1;
        }
        assert(ids@.take(ids@.len() as int) =~= ids@);
        out
    }

    /// All edge weights with their ids, in ascending id order.
    pub fn edges(&self) -> (r: Vec<(u32, Edge)>)
        ensures
            r@ == edges_seq(self.edges_map()),
    {
        let ids = self.edge_ids();
        let mut out: Vec<(u32, Edge)> = Vec::new();
        let mut i: usize = 0;
        while i < ids.len()
            invariant
                0 <= i <= ids@.len(),
                ids@ == keys_of(self.edges_map()),
                lists_keys(ids@, self.edges_map()),
                out@ == ids@.take(i as int).map(|k: int, id: u32| (id, self.edges_map()[id].2)),
            decreases ids@.len() - i,
        {
            assert(ids@.contains(ids@[i as int]));
            let e = self.edge(ids[i]).unwrap();
            out.push((ids[i], e));
            assert(ids@.take(i + 1int).drop_last() =~= ids@.take(i as int));
            assert(out@ =~= ids@.take(i + 1int).map(|k: int, id: u32| (id, self.edges_map()[id].2)));
            i = i + 1;
        }
        assert(ids@.take(ids@.len() as int) =~= ids@);
        out
    }

    /// The edges incident to `idx` in the given direction, ascending.
    pub fn edges_directed(&self, idx: u32, dir: Dir) -> (r: Vec<(u32, Edge)>)
        ensures
            r@ == edges_from(self.edges_map(), keys_of(self.edges_map()), idx, dir),
    {
        let ids = self.edge_ids();
        let mut out: Vec<(u32, Edge)> = Vec::new();
        let mut i: usize = 0;
        while i < ids.len()
            invariant
                0 <= i <= ids@.len(),
                ids@ == keys_of(self.edges_map()),
                lists_keys(ids@, self.edges_map()),
                out@ == edges_from(self.edges_map(), ids@.take(i as int), idx, dir),
            decreases ids@.len() - i,
        {
            assert(ids@.contains(ids@[i as int]));
            let e = store_edge(&self.g, ids[i]).unwrap();
            let keep = match dir {
                Dir::Outgoing => e.0 == idx,
                Dir::Incoming => e.1 == idx,
            };
            if keep {
                out.push((ids[i], e.2));
            }
            assert(ids@.take(i + 1int).drop_last() =~= ids@.take(i as int));
            i = i + 1;
        }
        assert(ids@.take(ids@.len() as int) =~= ids@);
        out
    }

    /// How many edge ends touch `idx`: incoming plus outgoing when the
    /// graph is directed, one per incident edge when it is not.
    /// One traversal of the whole graph: every node, then every edge, each
    /// with its id, in ascending id order.
    pub fn walk(&self) -> (r: (Vec<(u32, Node)>, Vec<(u32, Edge)>))
        ensures
            r.0@ == nodes_seq(self.nodes_map()),
            r.1@ == edges_seq(self.edges_map()),
    {
        (self.nodes(), self.edges())
    }

    /// Every node with its id and the radius the style gives it.
    pub fn nodes_with_context(&self, style: &SettingsStyle) -> (r: Vec<(u32, Node, Qr)>)
        ensures
            r@ == nodes_seq(self.nodes_map()).map(
                |i: int, p: (u32, Node)| (p.0, p.1, style.node_radius),
            ),
    {
        let ns = self.nodes();
        let mut out: Vec<(u32, Node, Qr)> = Vec::new();
        let mut i: usize = 0;
        while i < ns.len()
            invariant
                0 <= i <= ns@.len(),
                ns@ == nodes_seq(self.nodes_map()),
                out@ == ns@.take(i as int).map(
                    |k: int, p: (u32, Node)| (p.0, p.1, style.node_radius),
                ),
            decreases ns@.len() - i,
        {
            let (id, n) = ns[i];
            out.push((id, n, style.node_radius));
            proof {
                assert(out@ =~= ns@.take(i + 1int).map(
                    |k: int, p: (u32, Node)| (p.0, p.1, style.node_radius),
                ));
            }
            i = i + 1;
        }
        proof {
            assert(ns@.take(ns@.len() as int) =~= ns@);
        }
        out
    }

    pub fn edges_num(&self, idx: u32) -> (r: u64)
        ensures
            r as int == incident_count(
                self.edges_map(),
                keys_of(self.edges_map()),
                idx,
                self.directed_spec(),
            ),
    {
        let ids = self.edge_ids();
        proof {
            lemma_strict_sorted_len(ids@);
        }
        let mut cnt: u64 = 0;
        let mut i: usize = 0;
        while i < ids.len()
            invariant
                0 <= i <= ids@.len(),
                ids@.len() <= 0x1_0000_0000,
                ids@ == keys_of(self.edges_map()),
                lists_keys(ids@, self.edges_map()),
                cnt as int == incident_count(
                    self.edges_map(),
                    ids@.take(i as int),
                    idx,
                    self.directed_spec(),
                ),
                cnt <= 2 * i,
            decreases ids@.len() - i,
        {
            assert(ids@.contains(ids@[i as int]));
            let e = store_edge(&self.g, ids[i]).unwrap();
            if self.directed {
                if e.0 == idx {
                    cnt = cnt + 1;
                }
                if e.1 == idx {
                    cnt = cnt + 1;
                }
            } else {
                if e.0 == idx || e.1 == idx {
                    cnt = cnt + 1;
                }
            }
            assert(ids@.take(i + 1int).drop_last() =~= ids@.take(i as int));
            i = i + 1;
        }
        assert(ids@.take(ids@.len() as int) =~= ids@);
        cnt
    }

    /// Hit test: the node whose boundary covers the screen position `pos`,
    /// taking the closest centre when several do. The screen position is
    /// first converted to graph coordinates under the given viewport.
    pub fn node_by_pos(&self, meta: &Metadata, style: &SettingsStyle, pos: V2q) -> (r: Result<
        Option<(u32, Node)>,
        NumOverflow,
    >)
        requires
            meta.wf(),
        ensures
            (match r {
                Ok(o) => spec_node_by_pos(self.nodes_map(), meta@, *style, pos@) == Some(o),
                Err(_) => spec_node_by_pos(self.nodes_map(), meta@, *style, pos@) is None,
            }),
            (match r {
                Ok(Some(p)) => self.nodes_map().dom().contains(p.0)
                    && p.1 == self.nodes_map()[p.0],
                _ => true,
            }),
    {
        let gp = match crate::transform::graph_from_screen(pos, meta.pan, meta.zoom) {
            Some(gp) => gp,
            None => {
                return Err(NumOverflow);
            },
        };
        let r2 = match style.node_radius.mul(style.node_radius) {
            Some(r2) => r2,
            None => {
                return Err(NumOverflow);
            },
        };
        let ids = self.node_ids();
        let mut best: Option<(u32, Qr)> = None;
        let mut i: usize = 0;
        while i < ids.len()
            invariant
                0 <= i <= ids@.len(),
                ids@ == keys_of(self.nodes_map()),
                lists_keys(ids@, self.nodes_map()),
                try_graph_of(pos@, meta@.pan, meta@.zoom) == Some(gp@),
                Some(r2@) == crate::rational::try_rat(
                    rat_mul(style.node_radius@, style.node_radius@),
                ),
                spec_hit(self.nodes_map(), ids@.take(i as int), gp@, r2@) == Some(hit_view(best)),
            decreases ids@.len() - i,
        {
            assert(ids@.contains(ids@[i as int]));
            let n = self.node(ids[i]).unwrap();
            let ghost prefix = ids@.take(i + 1int);
            proof {
                assert(prefix.drop_last() =~= ids@.take(i as int));
            }
            match dist2(n.location, gp) {
                None => {
                    proof {
                        assert(prefix.len() == i + 1);
                        assert(prefix.last() == ids@[i as int]);
                        assert(spec_hit(self.nodes_map(), prefix, gp@, r2@) is None);
                        lemma_spec_hit_none(self.nodes_map(), ids@, gp@, r2@, i + 1);
                    }
                    return Err(NumOverflow);
                },
                Some(d2) => {
                    if d2.le(r2) {
                        best = match best {
                            None => Some((ids[i], d2)),
                            Some(b) => if d2.lt(b.1) {
                                Some((ids[i], d2))
                            } else {
                                Some(b)
                            },
                        };
                    }
                },
            }
            i = i + 1;
        }
        assert(ids@.take(ids@.len() as int) =~= ids@);
        match best {
            None => Ok(None),
            Some(b) => {
                assert(ids@.contains(b.0)) by {
                    lemma_spec_hit_member(self.nodes_map(), ids@, gp@, r2@);
                }
                let n = self.node(b.0).unwrap();
                Ok(Some((b.0, n)))
            },
        }
    }
}

/// A strictly ascending sequence of 32-bit values cannot be longer than the
/// number of such values.
proof fn lemma_strict_sorted_len(s: Seq<u32>)
    requires
        crate::store::strict_sorted(s),
    ensures
        s.len() <= 0x1_0000_0000,
{
    if s.len() > 0x1_0000_0000 {
        lemma_strict_sorted_index(s, 0x1_0000_0000);
    }
}

/// In a strictly ascending sequence, the entry at `i` is at least `i`.
proof fn lemma_strict_sorted_index(s: Seq<u32>, i: int)
    requires
        crate::store::strict_sorted(s),
        0 <= i < s.len(),
    ensures
        s[i] >= i,
    decreases i,
{
    if i > 0 {
        lemma_strict_sorted_index(s, i - 1);
        assert(s[i - 1] < s[i]);
    }
}

/// A winning hit comes from the listing that was folded over.
pub proof fn lemma_spec_hit_member(m: Map<u32, Node>, ids: Seq<u32>, p: RatV2, r2: Rat)
    requires
        spec_hit(m, ids, p, r2) is Some,
        spec_hit(m, ids, p, r2).unwrap() is Some,
    ensures
        ids.contains(spec_hit(m, ids, p, r2).unwrap().unwrap().0),
    decreases ids.len(),
{
    if ids.len() > 0 {
        let prev = spec_hit(m, ids.drop_last(), p, r2);
        let cur = spec_hit(m, ids, p, r2).unwrap().unwrap();
        if prev is Some && prev.unwrap() is Some && cur == prev.unwrap().unwrap() {
            lemma_spec_hit_member(m, ids.drop_last(), p, r2);
            assert(ids.drop_last().contains(cur.0));
            let j = choose|j: int| 0 <= j < ids.drop_last().len() && ids.drop_last()[j] == cur.0;
            assert(ids[j] == cur.0);
        } else {
            assert(ids[ids.len() - 1] == cur.0);
        }
    }
}

} // verus!
