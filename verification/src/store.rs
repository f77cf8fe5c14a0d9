use vstd::prelude::*;

use petgraph::stable_graph::{EdgeIndex, NodeIndex, StableGraph};

use crate::node::{Edge, Node};

verus! {

#[verifier::external_type_specification]
#[verifier::external_body]
pub struct ExDirected(petgraph::Directed);

#[verifier::external_type_specification]
#[verifier::external_body]
#[verifier::reject_recursive_types(N)]
#[verifier::reject_recursive_types(E)]
#[verifier::reject_recursive_types(Ty)]
#[verifier::reject_recursive_types(Ix)]
pub struct ExStableGraph<N, E, Ty, Ix>(StableGraph<N, E, Ty, Ix>);

/// What the store holds for each occupied node index: the node weight.
pub uninterp spec fn store_nodes(g: StableGraph<Node, Edge>) -> Map<u32, Node>;

/// What the store holds for each occupied edge index: the source node
/// index, the target node index, and the edge weight.
pub uninterp spec fn store_edges(g: StableGraph<Node, Edge>) -> Map<u32, (u32, u32, Edge)>;

/// Strictly ascending, hence free of duplicates.
pub open spec fn strict_sorted(s: Seq<u32>) -> bool {
    forall|i: int, j: int| 0 <= i < j < s.len() ==> s[i] < s[j]
}

/// The sequence lists exactly the keys of the map, in ascending order.
pub open spec fn lists_keys<V>(s: Seq<u32>, m: Map<u32, V>) -> bool {
    &&& strict_sorted(s)
    &&& forall|id: u32| #[trigger] s.contains(id) <==> m.dom().contains(id)
}

/// The one ascending listing of the keys of the map.
pub open spec fn keys_of<V>(m: Map<u32, V>) -> Seq<u32> {
    choose|s: Seq<u32>| lists_keys(s, m)
}

/// Two strictly ascending sequences over the same set of values are equal.
pub proof fn lemma_strict_sorted_unique(a: Seq<u32>, b: Seq<u32>)
    requires
        strict_sorted(a),
        strict_sorted(b),
        forall|id: u32| #[trigger] a.contains(id) <==> b.contains(id),
    ensures
        a == b,
    decreases a.len(),
{
    if a.len() == 0 {
        if b.len() > 0 {
            assert(b.contains(b[0]));
            assert(a.contains(b[0]));
        }
        assert(a =~= b);
    } else {
        assert(a.contains(a[0]));
        assert(b.contains(a[0]));
        let j = choose|j: int| 0 <= j < b.len() && b[j] == a[0];
        assert(b.contains(b[0]));
        assert(a.contains(b[0]));
        let i = choose|i: int| 0 <= i < a.len() && a[i] == b[0];
        assert(b[0] <= b[j]);
        assert(a[0] <= a[i]);
        assert(a[0] == b[0]);
        let at = a.drop_first();
        let bt = b.drop_first();
        assert forall|id: u32| #[trigger] at.contains(id) implies bt.contains(id) by {
            let k = choose|k: int| 0 <= k < at.len() && at[k] == id;
            assert(a[k + 1] == id);
            assert(a.contains(id));
            assert(b.contains(id));
            let l = choose|l: int| 0 <= l < b.len() && b[l] == id;
            assert(a[0] < a[k + 1]);
            assert(l != 0);
            assert(bt[l - 1] == id);
        }
        assert forall|id: u32| #[trigger] bt.contains(id) implies at.contains(id) by {
            let k = choose|k: int| 0 <= k < bt.len() && bt[k] == id;
            assert(b[k + 1] == id);
            assert(b.contains(id));
            assert(a.contains(id));
            let l = choose|l: int| 0 <= l < a.len() && a[l] == id;
            assert(b[0] < b[k + 1]);
            assert(l != 0);
            assert(at[l - 1] == id);
        }
        lemma_strict_sorted_unique(at, bt);
        assert forall|i: int| 0 <= i < a.len() implies a[i] == b[i] by {
            if i > 0 {
                assert(at[i - 1] == bt[i - 1]);
            }
        }
        assert(a =~= b);
    }
}

/// Any ascending listing of a map's keys is the canonical one.
pub proof fn lemma_lists_keys_unique<V>(s: Seq<u32>, m: Map<u32, V>)
    requires
        lists_keys(s, m),
    ensures
        s == keys_of(m),
{
    let c = keys_of(m);
    assert(lists_keys(c, m));
    lemma_strict_sorted_unique(s, c);
}

/// Relies on petgraph's `StableGraph::node_indices`: it yields each occupied
/// node index exactly once, in ascending index order.
#[verifier::external_body]
pub(crate) fn store_node_ids(g: &StableGraph<Node, Edge>) -> (r: Vec<u32>)
    ensures
        lists_keys(r@, store_nodes(*g)),
{
    g.node_indices().map(|i| i.index() as u32).collect()
}

/// Relies on petgraph's `StableGraph::node_weight`: the weight stored at an
/// occupied index, absent for a vacant or out-of-range one.
#[verifier::external_body]
pub(crate) fn store_node(g: &StableGraph<Node, Edge>, id: u32) -> (r: Option<Node>)
    ensures
        r == (if store_nodes(*g).dom().contains(id) {
            Some(store_nodes(*g)[id])
        } else {
            None::<Node>
        }),
{
    g.node_weight(NodeIndex::new(id as usize)).copied()
}

/// Relies on petgraph's `StableGraph::node_weight_mut`: writing through it
/// replaces the weight at an occupied index and touches nothing else; the
/// edge set, endpoints and all other node weights stay as they were.
#[verifier::external_body]
pub(crate) fn store_set_node(g: &mut StableGraph<Node, Edge>, id: u32, n: Node) -> (r: bool)
    ensures
        r == store_nodes(*old(g)).dom().contains(id),
        store_nodes(*final(g)) == (if store_nodes(*old(g)).dom().contains(id) {
            store_nodes(*old(g)).insert(id, n)
        } else {
            store_nodes(*old(g))
        }),
        store_edges(*final(g)) == store_edges(*old(g)),
{
    match g.node_weight_mut(NodeIndex::new(id as usize)) {
        Some(w) => {
            *w = n;
            true
        },
        None => false,
    }
}

/// Relies on petgraph's `StableGraph::edge_indices`: it yields each occupied
/// edge index exactly once, in ascending index order.
#[verifier::external_body]
pub(crate) fn store_edge_ids(g: &StableGraph<Node, Edge>) -> (r: Vec<u32>)
    ensures
        lists_keys(r@, store_edges(*g)),
{
    g.edge_indices().map(|i| i.index() as u32).collect()
}

/// Relies on petgraph's `StableGraph::edge_endpoints` and `edge_weight`:
/// both are present exactly for an occupied edge index, and they return the
/// stored endpoint indices and weight.
#[verifier::external_body]
pub(crate) fn store_edge(g: &StableGraph<Node, Edge>, id: u32) -> (r: Option<(u32, u32, Edge)>)
    ensures
        r == (if store_edges(*g).dom().contains(id) {
            Some(store_edges(*g)[id])
        } else {
            None::<(u32, u32, Edge)>
        }),
{
    let e = EdgeIndex::new(id as usize);
    match (g.edge_endpoints(e), g.edge_weight(e)) {
        (Some((a, b)), Some(w)) => Some((a.index() as u32, b.index() as u32, *w)),
        _ => None,
    }
}

} // verus!
