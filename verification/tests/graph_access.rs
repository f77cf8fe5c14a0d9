use graph_view::{Dir, Edge, GraphWrapper, Node, Qr, V2q};
use petgraph::stable_graph::StableGraph;

fn v(x: i64, y: i64) -> V2q {
    V2q::new(Qr::from_int(x), Qr::from_int(y))
}

fn diamond() -> (GraphWrapper, Vec<u32>, Vec<u32>) {
    let mut g: StableGraph<Node, Edge> = StableGraph::new();
    let a = g.add_node(Node::new(v(0, 0), 0));
    let b = g.add_node(Node::new(v(1, 0), 1));
    let c = g.add_node(Node::new(v(0, 1), 2));
    let d = g.add_node(Node::new(v(1, 1), 3));
    let e0 = g.add_edge(a, b, Edge::new(10));
    let e1 = g.add_edge(b, c, Edge::new(11));
    let e2 = g.add_edge(c, d, Edge::new(12));
    let e3 = g.add_edge(a, d, Edge::new(13));
    (
        GraphWrapper::new(g, true),
        vec![
            a.index() as u32,
            b.index() as u32,
            c.index() as u32,
            d.index() as u32,
        ],
        vec![
            e0.index() as u32,
            e1.index() as u32,
            e2.index() as u32,
            e3.index() as u32,
        ],
    )
}

#[test]
fn node_ids_are_ascending_and_survive_removal() {
    let mut g: StableGraph<Node, Edge> = StableGraph::new();
    let a = g.add_node(Node::new(v(0, 0), 0));
    let b = g.add_node(Node::new(v(1, 0), 1));
    let c = g.add_node(Node::new(v(2, 0), 2));
    g.remove_node(b);
    let wrapper = GraphWrapper::new(g, true);
    assert_eq!(wrapper.node_ids(), vec![a.index() as u32, c.index() as u32]);
    // the removed id fails the lookup instead of aliasing another node
    assert!(wrapper.node(b.index() as u32).is_none());
    assert_eq!(wrapper.node(c.index() as u32).unwrap().payload, 2);
}

#[test]
fn nodes_and_edges_list_everything_in_order() {
    let (wrapper, ns, es) = diamond();
    let nodes = wrapper.nodes();
    assert_eq!(nodes.len(), 4);
    for (k, (id, n)) in nodes.iter().enumerate() {
        assert_eq!(*id, ns[k]);
        assert_eq!(n.payload, k as u64);
    }
    let edges = wrapper.edges();
    assert_eq!(edges.len(), 4);
    for (k, (id, e)) in edges.iter().enumerate() {
        assert_eq!(*id, es[k]);
        assert_eq!(e.payload, 10 + k as u64);
    }
}

#[test]
fn edge_lookup_and_endpoints() {
    let (wrapper, ns, es) = diamond();
    assert_eq!(wrapper.edge(es[1]).unwrap().payload, 11);
    assert_eq!(wrapper.edge_endpoints(es[1]).unwrap(), (ns[1], ns[2]));
    assert!(wrapper.edge(99).is_none());
    assert!(wrapper.edge_endpoints(99).is_none());
}

#[test]
fn edges_num_directed_sums_both_ends() {
    let (wrapper, ns, _es) = diamond();
    assert!(wrapper.is_directed());
    // a has two outgoing edges, d two incoming, b one in and one out
    assert_eq!(wrapper.edges_num(ns[0]), 2);
    assert_eq!(wrapper.edges_num(ns[1]), 2);
    assert_eq!(wrapper.edges_num(ns[3]), 2);
}

#[test]
fn edges_num_undirected_counts_each_edge_once() {
    let mut g: StableGraph<Node, Edge> = StableGraph::new();
    let a = g.add_node(Node::new(v(0, 0), 0));
    let b = g.add_node(Node::new(v(1, 0), 1));
    g.add_edge(a, b, Edge::new(0));
    g.add_edge(b, a, Edge::new(1));
    let wrapper = GraphWrapper::new(g, false);
    assert!(!wrapper.is_directed());
    assert_eq!(wrapper.edges_num(a.index() as u32), 2);
}

#[test]
fn edges_directed_filters_by_direction() {
    let (wrapper, ns, es) = diamond();
    let out: Vec<u32> = wrapper
        .edges_directed(ns[0], Dir::Outgoing)
        .iter()
        .map(|p| p.0)
        .collect();
    assert_eq!(out, vec![es[0], es[3]]);
    let inc: Vec<u32> = wrapper
        .edges_directed(ns[3], Dir::Incoming)
        .iter()
        .map(|p| p.0)
        .collect();
    assert_eq!(inc, vec![es[2], es[3]]);
}

#[test]
fn set_node_replaces_only_that_node() {
    let (mut wrapper, ns, _es) = diamond();
    let mut n = wrapper.node(ns[1]).unwrap();
    n.set_location(v(42, 43));
    assert!(wrapper.set_node(ns[1], n));
    let read = wrapper.node(ns[1]).unwrap().location();
    assert!(read.x.eq_val(Qr::from_int(42)));
    assert!(read.y.eq_val(Qr::from_int(43)));
    assert_eq!(wrapper.node(ns[0]).unwrap().payload, 0);
    assert!(!wrapper.set_node(77, n));
}

#[test]
fn scalar_arithmetic_is_exact() {
    let a = Qr::new(1, 3).unwrap();
    let b = Qr::new(1, 6).unwrap();
    let s = a.add(b).unwrap();
    assert!(s.eq_val(Qr::new(1, 2).unwrap()));
    let p = a.mul(b).unwrap();
    assert!(p.eq_val(Qr::new(1, 18).unwrap()));
    let d = a.div(b).unwrap();
    assert!(d.eq_val(Qr::from_int(2)));
    assert!(a.sub(a).unwrap().eq_val(Qr::from_int(0)));
    assert!(Qr::new(2, 4).unwrap().eq_val(Qr::new(1, 2).unwrap()));
    assert!(a.lt(Qr::new(1, 2).unwrap()));
    assert!(Qr::new(5, 1).is_some());
    assert!(Qr::new(5, 0).is_none());
    assert!(Qr::new(5, -1).is_none());
    // saturating the storage range is reported, not wrapped
    assert!(Qr::from_int(i64::MAX).mul(Qr::from_int(2)).is_none());
}

#[test]
fn test_walk() {
    let (wrapper, _ns, _es) = diamond();
    let mut walked = String::new();
    let (nodes, edges) = wrapper.walk();
    for (idx, n) in &nodes {
        assert_eq!(wrapper.node(*idx), Some(*n));
        walked.push('n');
    }
    for (idx, e) in &edges {
        assert_eq!(wrapper.edge(*idx), Some(*e));
        walked.push('e');
    }
    assert_eq!(walked, "nnnneeee".to_string());
}

#[test]
fn nodes_with_context_carries_the_style_radius() {
    let (wrapper, ns, _es) = diamond();
    let style = graph_view::SettingsStyle::default();
    let ctx = wrapper.nodes_with_context(&style);
    assert_eq!(ctx.len(), 4);
    for (k, (id, _n, rad)) in ctx.iter().enumerate() {
        assert_eq!(*id, ns[k]);
        assert!(rad.eq_val(Qr::from_int(5)));
    }
}
