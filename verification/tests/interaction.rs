use graph_view::{
    Change, Edge, Event, FrameInput, GraphView, GraphWrapper, Metadata, Node, Qr,
    SettingsInteraction, SettingsNavigation, SettingsStyle, V2q,
};
use petgraph::stable_graph::StableGraph;

fn q(n: i64) -> Qr {
    Qr::from_int(n)
}

fn qr(n: i64, d: i64) -> Qr {
    Qr::new(n, d).unwrap()
}

fn v(x: i64, y: i64) -> V2q {
    V2q::new(q(x), q(y))
}

fn base_input() -> FrameInput {
    FrameInput {
        canvas_min: v(0, 0),
        canvas_max: v(800, 600),
        hover_pos: None,
        clicked: false,
        double_clicked: false,
        drag_started: false,
        dragged: false,
        drag_released: false,
        drag_delta: v(0, 0),
        zoom_delta: q(1),
    }
}

fn interactive() -> SettingsInteraction {
    SettingsInteraction {
        clicking_enabled: true,
        selection_enabled: true,
        selection_multi_enabled: false,
        dragging_enabled: true,
    }
}

fn two_node_graph() -> (GraphWrapper, u32, u32) {
    let mut g: StableGraph<Node, Edge> = StableGraph::new();
    let a = g.add_node(Node::new(v(0, 0), 1));
    let b = g.add_node(Node::new(v(100, 100), 2));
    g.add_edge(a, b, Edge::new(7));
    (
        GraphWrapper::new(g, true),
        a.index() as u32,
        b.index() as u32,
    )
}

#[test]
fn transform_round_trip_exact() {
    let g = v(3, 7);
    let pan = v(10, 20);
    let zoom = q(2);
    let s = graph_view::transform::screen_from_graph(g, pan, zoom).unwrap();
    assert!(s.x.eq_val(q(16)));
    assert!(s.y.eq_val(q(34)));
    let back = graph_view::transform::graph_from_screen(s, pan, zoom).unwrap();
    assert!(back.x.eq_val(q(3)));
    assert!(back.y.eq_val(q(7)));
}

#[test]
fn fit_to_screen_empty_graph_uses_fallback() {
    let g: StableGraph<Node, Edge> = StableGraph::new();
    let mut view = GraphView::new(GraphWrapper::new(g, true));
    let mut meta = Metadata::new();
    let out = view.frame(&base_input(), &mut meta).unwrap();
    // fallback extent 1 x 100, padded by 13/10: zoom = min(8000/13, 6000/1300)
    assert!(meta.zoom.eq_val(qr(6000, 1300)));
    assert!(meta.pan.x.eq_val(q(400)));
    assert!(meta.pan.y.eq_val(q(300)));
    assert!(!meta.first_frame);
    assert_eq!(out.changes.len(), 0);
    assert_eq!(out.events.len(), 2);
    match out.events[0] {
        Event::Zoom { delta } => assert!(delta.eq_val(qr(6000 - 1300, 1300))),
        _ => panic!("expected a Zoom event first"),
    }
    match out.events[1] {
        Event::Pan { delta } => {
            assert!(delta.x.eq_val(q(400)));
            assert!(delta.y.eq_val(q(300)));
        }
        _ => panic!("expected a Pan event second"),
    }
}

#[test]
fn click_b_after_a_leaves_only_b_selected() {
    let (g, a, b) = two_node_graph();
    let mut view = GraphView::new(g).with_interactions(&interactive());
    let mut meta = Metadata::new();
    meta.first_frame = false;

    let mut input = base_input();
    input.clicked = true;
    input.hover_pos = Some(v(0, 0));
    let out1 = view.frame(&input, &mut meta).unwrap();
    assert_eq!(out1.changes.len(), 2);
    assert_eq!(out1.changes[0], Change::Clicked { id: a });
    assert_eq!(
        out1.changes[1],
        Change::SelectionChanged { id: a, before: false, after: true }
    );

    let mut input2 = base_input();
    input2.clicked = true;
    input2.hover_pos = Some(v(100, 100));
    let out2 = view.frame(&input2, &mut meta).unwrap();
    assert_eq!(out2.changes.len(), 3);
    assert_eq!(out2.changes[0], Change::Clicked { id: b });
    assert_eq!(
        out2.changes[1],
        Change::SelectionChanged { id: a, before: true, after: false }
    );
    assert_eq!(
        out2.changes[2],
        Change::SelectionChanged { id: b, before: false, after: true }
    );
    assert!(!view.graph().node(a).unwrap().selected());
    assert!(view.graph().node(b).unwrap().selected());
}

#[test]
fn click_selected_node_toggles_it_off() {
    let (g, a, _b) = two_node_graph();
    let mut view = GraphView::new(g).with_interactions(&interactive());
    let mut meta = Metadata::new();
    meta.first_frame = false;
    let mut input = base_input();
    input.clicked = true;
    input.hover_pos = Some(v(0, 0));
    view.frame(&input, &mut meta).unwrap();
    let mut input2 = base_input();
    input2.clicked = true;
    input2.hover_pos = Some(v(0, 0));
    let out = view.frame(&input2, &mut meta).unwrap();
    assert_eq!(out.changes[0], Change::Clicked { id: a });
    assert_eq!(
        out.changes[1],
        Change::SelectionChanged { id: a, before: true, after: false }
    );
    assert!(!view.graph().node(a).unwrap().selected());
}

#[test]
fn click_on_empty_space_deselects_all() {
    let (g, a, _b) = two_node_graph();
    let mut view = GraphView::new(g).with_interactions(&interactive());
    let mut meta = Metadata::new();
    meta.first_frame = false;
    let mut input = base_input();
    input.clicked = true;
    input.hover_pos = Some(v(0, 0));
    view.frame(&input, &mut meta).unwrap();
    let mut input2 = base_input();
    input2.clicked = true;
    input2.hover_pos = Some(v(400, 400));
    let out = view.frame(&input2, &mut meta).unwrap();
    assert_eq!(out.changes.len(), 1);
    assert_eq!(
        out.changes[0],
        Change::SelectionChanged { id: a, before: true, after: false }
    );
    assert!(!view.graph().node(a).unwrap().selected());
}

#[test]
fn drag_moves_node_by_delta_over_zoom() {
    let mut g: StableGraph<Node, Edge> = StableGraph::new();
    let mut n = Node::new(v(0, 0), 1);
    n.set_dragged(true);
    let a = g.add_node(n).index() as u32;
    let mut view = GraphView::new(GraphWrapper::new(g, true)).with_interactions(&interactive());
    let mut meta = Metadata::new();
    meta.first_frame = false;
    meta.zoom = q(2);
    let mut input = base_input();
    input.dragged = true;
    input.drag_delta = V2q::new(q(10), q(-5));
    let out = view.frame(&input, &mut meta).unwrap();
    assert_eq!(out.changes.len(), 1);
    match out.changes[0] {
        Change::LocationMoved { id, before, after } => {
            assert_eq!(id, a);
            assert!(before.x.eq_val(q(0)) && before.y.eq_val(q(0)));
            assert!(after.x.eq_val(q(5)));
            assert!(after.y.eq_val(qr(-5, 2)));
        }
        _ => panic!("expected a LocationMoved record"),
    }
    let moved = view.graph().node(a).unwrap().location();
    assert!(moved.x.eq_val(q(5)));
    assert!(moved.y.eq_val(qr(-5, 2)));
}

#[test]
fn zoom_gesture_keeps_cursor_point_fixed() {
    let (g, _a, _b) = two_node_graph();
    let nav = SettingsNavigation {
        zoom_and_pan_enabled: true,
        fit_to_screen_enabled: false,
        zoom_speed: qr(1, 10),
        screen_padding: qr(3, 10),
    };
    let mut view = GraphView::new(g).with_navigations(&nav);
    let mut meta = Metadata::new();
    meta.first_frame = false;
    let cursor = v(400, 300);
    let before = graph_view::transform::graph_from_screen(cursor, meta.pan, meta.zoom).unwrap();
    let mut input = base_input();
    input.zoom_delta = qr(3, 2);
    input.hover_pos = Some(cursor);
    let out = view.frame(&input, &mut meta).unwrap();
    assert!(meta.zoom.eq_val(qr(11, 10)));
    assert!(meta.pan.x.eq_val(q(-40)));
    assert!(meta.pan.y.eq_val(q(-30)));
    assert_eq!(out.events.len(), 1);
    match out.events[0] {
        Event::Zoom { delta } => assert!(delta.eq_val(qr(1, 10))),
        _ => panic!("expected one Zoom event"),
    }
    let now = graph_view::transform::screen_from_graph(before, meta.pan, meta.zoom).unwrap();
    assert!(now.x.eq_val(cursor.x));
    assert!(now.y.eq_val(cursor.y));
}

#[test]
fn pan_adds_drag_delta_and_emits_one_event() {
    let (g, _a, _b) = two_node_graph();
    let nav = SettingsNavigation {
        zoom_and_pan_enabled: true,
        fit_to_screen_enabled: false,
        zoom_speed: qr(1, 10),
        screen_padding: qr(3, 10),
    };
    let mut view = GraphView::new(g).with_navigations(&nav);
    let mut meta = Metadata::new();
    meta.first_frame = false;
    let mut input = base_input();
    input.dragged = true;
    input.drag_delta = v(12, -7);
    let out = view.frame(&input, &mut meta).unwrap();
    assert!(meta.pan.x.eq_val(q(12)));
    assert!(meta.pan.y.eq_val(q(-7)));
    assert_eq!(out.events.len(), 1);
    match out.events[0] {
        Event::Pan { delta } => {
            assert!(delta.x.eq_val(q(12)));
            assert!(delta.y.eq_val(q(-7)));
        }
        _ => panic!("expected one Pan event"),
    }
}

#[test]
fn drag_start_sets_at_most_one_dragged() {
    let (g, a, b) = two_node_graph();
    let mut view = GraphView::new(g).with_interactions(&interactive());
    let mut meta = Metadata::new();
    meta.first_frame = false;
    let mut input = base_input();
    input.drag_started = true;
    input.hover_pos = Some(v(0, 0));
    let out = view.frame(&input, &mut meta).unwrap();
    assert_eq!(
        out.changes[0],
        Change::DraggedChanged { id: a, before: false, after: true }
    );
    // while one node is dragged, a new drag start on another node is refused
    let mut input2 = base_input();
    input2.drag_started = true;
    input2.hover_pos = Some(v(100, 100));
    let out2 = view.frame(&input2, &mut meta).unwrap();
    assert_eq!(out2.changes.len(), 0);
    assert!(view.graph().node(a).unwrap().dragged());
    assert!(!view.graph().node(b).unwrap().dragged());
    // release clears the flag
    let mut input3 = base_input();
    input3.drag_released = true;
    let out3 = view.frame(&input3, &mut meta).unwrap();
    assert_eq!(
        out3.changes[0],
        Change::DraggedChanged { id: a, before: true, after: false }
    );
    assert!(!view.graph().node(a).unwrap().dragged());
}

#[test]
fn double_click_adds_single_record_after_click() {
    let (g, a, _b) = two_node_graph();
    let mut view = GraphView::new(g).with_interactions(&interactive());
    let mut meta = Metadata::new();
    meta.first_frame = false;
    let mut input = base_input();
    input.clicked = true;
    input.hover_pos = Some(v(0, 0));
    let out1 = view.frame(&input, &mut meta).unwrap();
    let mut input2 = base_input();
    input2.double_clicked = true;
    input2.hover_pos = Some(v(0, 0));
    let out2 = view.frame(&input2, &mut meta).unwrap();
    let mut all: Vec<Change> = out1.changes.clone();
    all.extend(out2.changes.iter().cloned());
    assert_eq!(
        all,
        vec![
            Change::Clicked { id: a },
            Change::SelectionChanged { id: a, before: false, after: true },
            Change::DoubleClicked { id: a },
        ]
    );
    // the double click added no second selection toggle
    assert!(view.graph().node(a).unwrap().selected());
}

#[test]
fn hit_test_picks_closest_node() {
    let mut g: StableGraph<Node, Edge> = StableGraph::new();
    let _a = g.add_node(Node::new(v(0, 0), 1));
    let b = g.add_node(Node::new(v(3, 0), 2)).index() as u32;
    let wrapper = GraphWrapper::new(g, true);
    let mut meta = Metadata::new();
    meta.first_frame = false;
    let style = SettingsStyle::default();
    let hit = wrapper
        .node_by_pos(&meta, &style, V2q::new(qr(5, 2), q(0)))
        .unwrap()
        .unwrap();
    assert_eq!(hit.0, b);
}

#[test]
fn overflow_is_reported_not_hidden() {
    let mut g: StableGraph<Node, Edge> = StableGraph::new();
    g.add_node(Node::new(V2q::new(q(i64::MAX - 1), q(0)), 1));
    let mut view = GraphView::new(GraphWrapper::new(g, true));
    let mut meta = Metadata::new();
    // the bounding box corner MAX - 1 + 5 leaves the representable range
    assert!(view.frame(&base_input(), &mut meta).is_err());
}

#[test]
fn changes_are_sent_to_the_subscriber_channel() {
    let (g, a, _b) = two_node_graph();
    let (tx, rx) = crossbeam::channel::unbounded();
    let (etx, erx) = crossbeam::channel::unbounded();
    let mut view = GraphView::new(g)
        .with_interactions(&interactive())
        .with_changes(tx)
        .with_events(etx);
    let mut meta = Metadata::new();
    meta.first_frame = false;
    let mut input = base_input();
    input.clicked = true;
    input.hover_pos = Some(v(0, 0));
    view.frame(&input, &mut meta).unwrap();
    assert_eq!(rx.try_recv().unwrap(), Change::Clicked { id: a });
    assert_eq!(
        rx.try_recv().unwrap(),
        Change::SelectionChanged { id: a, before: false, after: true }
    );
    assert!(rx.try_recv().is_err());
    assert!(erx.try_recv().is_err());
}

#[test]
fn metadata_reset_restores_defaults() {
    let mut meta = Metadata::new();
    meta.zoom = q(4);
    meta.pan = v(9, 9);
    meta.first_frame = false;
    GraphView::reset_metadata(&mut meta);
    assert!(meta.zoom.eq_val(q(1)));
    assert!(meta.pan.x.eq_val(q(0)));
    assert!(meta.pan.y.eq_val(q(0)));
    assert!(meta.first_frame);
}
