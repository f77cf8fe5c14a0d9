use vstd::prelude::*;

use crossbeam::channel::Sender;

use crate::change::{Change, Event, NumOverflow};
use crate::channel::chan_send;
use crate::computed::{spec_compute, ComputedState};
use crate::graph_wrapper::{spec_node_by_pos, GraphWrapper};
use crate::metadata::{MetaR, Metadata};
use crate::node::Node;
use crate::rational::{
    lemma_mul_pos, lemma_view_qr_of, qr_of, rat_add, rat_div, rat_eq, rat_lt, rat_min, rat_mul,
    rat_neg, rat_of_int, rat_pos, rat_sub, try_rat, Qr, Rat,
};
use crate::settings::{SettingsInteraction, SettingsNavigation, SettingsStyle};
use crate::vec2::{
    lemma_view_v2q_of, try_v2, v2_add, v2_div_scale, v2_scale, v2_sub, v2q_of, RatV2, V2q,
};

verus! {

/// One frame's pointer and gesture state, as the render surface reports it,
/// together with the canvas rectangle allocated to the widget.
pub struct FrameInput {
    pub canvas_min: V2q,
    pub canvas_max: V2q,
    pub hover_pos: Option<V2q>,
    pub clicked: bool,
    pub double_clicked: bool,
    pub drag_started: bool,
    pub dragged: bool,
    pub drag_released: bool,
    pub drag_delta: V2q,
    pub zoom_delta: Qr,
}

impl FrameInput {
    /// The render surface must hand over a canvas of positive extent, and a
    /// pointer position whenever it reports a click or a drag start.
    pub open spec fn wf(self) -> bool {
        &&& rat_lt(self.canvas_min@.x, self.canvas_max@.x)
        &&& rat_lt(self.canvas_min@.y, self.canvas_max@.y)
        &&& (self.clicked || self.double_clicked || self.drag_started) ==> self.hover_pos is Some
    }
}

/// What one frame emitted: one record per discrete data mutation, one event
/// per navigation change, each in the order it happened.
pub struct FrameOutput {
    pub changes: Vec<Change>,
    pub events: Vec<Event>,
}

pub open spec fn rat_half() -> Rat {
    Rat { n: 1, d: 2 }
}

pub open spec fn zero2() -> RatV2 {
    RatV2 { x: rat_of_int(0), y: rat_of_int(0) }
}

/// The bounding box option as mathematical values.
pub open spec fn bview(b: Option<(V2q, V2q)>) -> Option<(RatV2, RatV2)> {
    match b {
        Some(p) => Some((p.0@, p.1@)),
        None => None,
    }
}

/// The centre of the allocated canvas, if it can be computed in range.
pub open spec fn try_center(input: FrameInput) -> Option<RatV2> {
    match try_v2(v2_add(input.canvas_min@, input.canvas_max@)) {
        None => None,
        Some(s) => try_v2(v2_scale(s, rat_half())),
    }
}

/// Where a gesture is anchored: the pointer position if one is reported,
/// the canvas centre otherwise.
pub open spec fn try_cursor(input: FrameInput) -> Option<RatV2> {
    match input.hover_pos {
        Some(h) => Some(h@),
        None => try_center(input),
    }
}

/// Fit-to-screen. Runs on the first frame or when always-fit is on. The
/// bounding box (the fallback extent of one by one hundred for an empty
/// graph, centred at the origin) is padded, the zoom is the largest that
/// fits the padded box into the canvas without distortion, and the pan
/// puts the box's centre onto the canvas centre. Emits one Zoom and one
/// Pan event carrying the deltas; clears the first-frame flag.
pub open spec fn spec_fit(
    meta: MetaR,
    bounds: Option<(RatV2, RatV2)>,
    input: FrameInput,
    nav: SettingsNavigation,
) -> Option<(MetaR, Seq<Event>)> {
    if !meta.first_frame && !nav.fit_to_screen_enabled {
        Some((meta, Seq::empty()))
    } else {
        let bmin = match bounds {
            Some(b) => b.0,
            None => zero2(),
        };
        let bmax = match bounds {
            Some(b) => b.1,
            None => zero2(),
        };
        match try_v2(v2_sub(bmax, bmin)) {
            None => None,
            Some(diag) => {
                let diag2 = if diag.x.n == 0 && diag.y.n == 0 {
                    RatV2 { x: rat_of_int(1), y: rat_of_int(100) }
                } else {
                    diag
                };
                match try_rat(rat_add(rat_of_int(1), nav.screen_padding@)) {
                    None => None,
                    Some(padf) => match try_v2(v2_scale(diag2, padf)) {
                        None => None,
                        Some(padded) => if !(rat_pos(padded.x) && rat_pos(padded.y)) {
                            None
                        } else {
                            spec_fit_zoom_pan(meta, bmin, bmax, padded, input)
                        },
                    },
                }
            },
        }
    }
}

/// The zoom and pan that fit-to-screen settles on, given the padded extent.
pub open spec fn spec_fit_zoom_pan(
    meta: MetaR,
    bmin: RatV2,
    bmax: RatV2,
    padded: RatV2,
    input: FrameInput,
) -> Option<(MetaR, Seq<Event>)> {
    match try_rat(rat_sub(input.canvas_max@.x, input.canvas_min@.x)) {
        None => None,
        Some(cw) => match try_rat(rat_sub(input.canvas_max@.y, input.canvas_min@.y)) {
            None => None,
            Some(ch) => match try_rat(rat_div(cw, padded.x)) {
                None => None,
                Some(zx) => match try_rat(rat_div(ch, padded.y)) {
                    None => None,
                    Some(zy) => {
                        let nz = rat_min(zx, zy);
                        match try_v2(v2_add(bmin, bmax)) {
                            None => None,
                            Some(s1) => match try_v2(v2_scale(s1, rat_half())) {
                                None => None,
                                Some(gc) => match try_v2(
                                    v2_add(input.canvas_min@, input.canvas_max@),
                                ) {
                                    None => None,
                                    Some(s2) => match try_v2(v2_scale(s2, rat_half())) {
                                        None => None,
                                        Some(cc) => match try_v2(v2_scale(gc, nz)) {
                                            None => None,
                                            Some(gz) => match try_v2(v2_sub(cc, gz)) {
                                                None => None,
                                                Some(npan) => match try_rat(
                                                    rat_sub(nz, meta.zoom),
                                                ) {
                                                    None => None,
                                                    Some(zd) => match try_v2(
                                                        v2_sub(npan, meta.pan),
                                                    ) {
                                                        None => None,
                                                        Some(pd) => Some(
                                                            (
                                                                MetaR {
                                                                    pan: npan,
                                                                    zoom: nz,
                                                                    first_frame: false,
                                                                },
                                                                seq![
                                                                    Event::Zoom { delta: qr_of(zd) },
                                                                    Event::Pan { delta: v2q_of(pd) },
                                                                ],
                                                            ),
                                                        ),
                                                    },
                                                },
                                            },
                                        },
                                    },
                                },
                            },
                        }
                    },
                },
            },
        },
    }
}

/// The zoom gesture. A reported zoom factor other than one becomes a signed
/// step of the configured speed; the zoom is scaled by one plus that step,
/// and the pan is adjusted so the graph point under the cursor keeps its
/// screen position. Emits one Zoom event carrying the zoom delta.
pub open spec fn spec_zoom(meta: MetaR, input: FrameInput, nav: SettingsNavigation) -> Option<
    (MetaR, Seq<Event>),
> {
    if !nav.zoom_and_pan_enabled || rat_eq(input.zoom_delta@, rat_of_int(1)) {
        Some((meta, Seq::empty()))
    } else {
        match try_cursor(input) {
            None => None,
            Some(c) => {
                let step = if rat_lt(rat_of_int(1), input.zoom_delta@) {
                    nav.zoom_speed@
                } else {
                    rat_neg(nav.zoom_speed@)
                };
                match try_rat(rat_add(rat_of_int(1), step)) {
                    None => None,
                    Some(f) => match try_rat(rat_mul(meta.zoom, f)) {
                        None => None,
                        Some(nz) => match crate::transform::try_graph_of(c, meta.pan, meta.zoom) {
                            None => None,
                            Some(gc) => match try_v2(v2_scale(gc, meta.zoom)) {
                                None => None,
                                Some(m1) => match try_v2(v2_scale(gc, nz)) {
                                    None => None,
                                    Some(m2) => match try_v2(v2_sub(m1, m2)) {
                                        None => None,
                                        Some(pdel) => match try_v2(v2_add(meta.pan, pdel)) {
                                            None => None,
                                            Some(npan) => match try_rat(rat_sub(nz, meta.zoom)) {
                                                None => None,
                                                Some(zd) => Some(
                                                    (
                                                        MetaR {
                                                            pan: npan,
                                                            zoom: nz,
                                                            first_frame: meta.first_frame,
                                                        },
                                                        seq![Event::Zoom { delta: qr_of(zd) }],
                                                    ),
                                                ),
                                            },
                                        },
                                    },
                                },
                            },
                        },
                    },
                }
            },
        }
    }
}

/// The empty-canvas pan: while a drag is active and no node is being
/// dragged, the raw screen-space delta is added to the pan. Emits one Pan
/// event carrying the delta.
pub open spec fn spec_pan(
    meta: MetaR,
    input: FrameInput,
    comp_dragged: Option<u32>,
    nav: SettingsNavigation,
) -> Option<(MetaR, Seq<Event>)> {
    if nav.zoom_and_pan_enabled && input.dragged && comp_dragged is None && !(
    input.drag_delta@.x.n == 0 && input.drag_delta@.y.n == 0) {
        match try_v2(v2_add(meta.pan, input.drag_delta@)) {
            None => None,
            Some(npan) => match try_v2(v2_sub(npan, meta.pan)) {
                None => None,
                Some(pd) => Some(
                    (
                        MetaR { pan: npan, zoom: meta.zoom, first_frame: meta.first_frame },
                        seq![Event::Pan { delta: v2q_of(pd) }],
                    ),
                ),
            },
        }
    } else {
        Some((meta, Seq::empty()))
    }
}

/// Interactive graph widget core: orchestrates one frame of input into
/// viewport and node mutations and reports each mutation exactly once.
pub struct GraphView {
    g: GraphWrapper,
    settings_interaction: SettingsInteraction,
    settings_navigation: SettingsNavigation,
    settings_style: SettingsStyle,
    changes_sender: Option<Sender<Change>>,
    events_publisher: Option<Sender<Event>>,
}

impl GraphView {
    pub closed spec fn graph_spec(self) -> GraphWrapper {
        self.g
    }

    pub open spec fn nodes_map(self) -> Map<u32, Node> {
        self.graph_spec().nodes_map()
    }

    pub closed spec fn sint(self) -> SettingsInteraction {
        self.settings_interaction
    }

    pub closed spec fn snav(self) -> SettingsNavigation {
        self.settings_navigation
    }

    pub closed spec fn sstyle(self) -> SettingsStyle {
        self.settings_style
    }

    pub closed spec fn senders(self) -> (Option<Sender<Change>>, Option<Sender<Event>>) {
        (self.changes_sender, self.events_publisher)
    }

    /// Everything but the node data is as it was: settings, channels, the
    /// edge set and the directedness of the graph.
    pub open spec fn same_shell(self, o: GraphView) -> bool {
        &&& self.sint() == o.sint()
        &&& self.snav() == o.snav()
        &&& self.sstyle() == o.sstyle()
        &&& self.senders() == o.senders()
        &&& self.graph_spec().edges_map() == o.graph_spec().edges_map()
        &&& self.graph_spec().directed_spec() == o.graph_spec().directed_spec()
    }

    /// A widget over the given graph with default settings and no
    /// subscribers.
    pub fn new(g: GraphWrapper) -> (r: GraphView)
        ensures
            r.graph_spec() == g,
            r.sint() == (SettingsInteraction {
                clicking_enabled: false,
                selection_enabled: false,
                selection_multi_enabled: false,
                dragging_enabled: false,
            }),
            r.snav().zoom_and_pan_enabled == false,
            r.snav().fit_to_screen_enabled == false,
            r.snav().zoom_speed@ == (Rat { n: 1, d: 10 }),
            r.snav().screen_padding@ == (Rat { n: 3, d: 10 }),
            r.snav().wf(),
            r.sstyle().node_radius@ == rat_of_int(5),
            r.sstyle().wf(),
            r.senders().0 is None,
            r.senders().1 is None,
    {
        GraphView {
            g,
            settings_interaction: Default::default(),
            settings_navigation: Default::default(),
            settings_style: Default::default(),
            changes_sender: None,
            events_publisher: None,
        }
    }

    /// Makes the widget interactive according to the provided settings.
    pub fn with_interactions(self, settings_interaction: &SettingsInteraction) -> (r: GraphView)
        ensures
            r.sint() == *settings_interaction,
            r.graph_spec() == self.graph_spec(),
            r.snav() == self.snav(),
            r.sstyle() == self.sstyle(),
            r.senders() == self.senders(),
    {
        GraphView { settings_interaction: *settings_interaction, ..self }
    }

    /// Modifies the default navigation behaviour.
    pub fn with_navigations(self, settings_navigation: &SettingsNavigation) -> (r: GraphView)
        ensures
            r.snav() == *settings_navigation,
            r.graph_spec() == self.graph_spec(),
            r.sint() == self.sint(),
            r.sstyle() == self.sstyle(),
            r.senders() == self.senders(),
    {
        GraphView { settings_navigation: *settings_navigation, ..self }
    }

    /// Modifies the default style settings.
    pub fn with_styles(self, settings_style: &SettingsStyle) -> (r: GraphView)
        ensures
            r.sstyle() == *settings_style,
            r.graph_spec() == self.graph_spec(),
            r.sint() == self.sint(),
            r.snav() == self.snav(),
            r.senders() == self.senders(),
    {
        GraphView { settings_style: *settings_style, ..self }
    }

    /// Every data mutation is sent to this channel as soon as it happens.
    pub fn with_changes(self, changes_sender: Sender<Change>) -> (r: GraphView)
        ensures
            r.senders().0 == Some(changes_sender),
            r.senders().1 == self.senders().1,
            r.graph_spec() == self.graph_spec(),
            r.sint() == self.sint(),
            r.snav() == self.snav(),
            r.sstyle() == self.sstyle(),
    {
        GraphView { changes_sender: Some(changes_sender), ..self }
    }

    /// Every navigation change is published to this channel.
    pub fn with_events(self, events_publisher: Sender<Event>) -> (r: GraphView)
        ensures
            r.senders().1 == Some(events_publisher),
            r.senders().0 == self.senders().0,
            r.graph_spec() == self.graph_spec(),
            r.sint() == self.sint(),
            r.snav() == self.snav(),
            r.sstyle() == self.sstyle(),
    {
        GraphView { events_publisher: Some(events_publisher), ..self }
    }

    /// Restores the default viewport: pan zero, zoom one, first frame set.
    pub fn reset_metadata(meta: &mut Metadata)
        ensures
            final(meta)@ == crate::metadata::meta_default(),
            final(meta).wf(),
    {
        meta.reset();
    }

    /// Read access to the wrapped graph.
    pub fn graph(&self) -> (r: &GraphWrapper)
        ensures
            *r == self.graph_spec(),
    {
        &self.g
    }

    /// Hands the wrapped graph back to the caller.
    pub fn into_graph(self) -> (r: GraphWrapper)
        ensures
            r == self.graph_spec(),
    {
        self.g
    }

    /// Recomputes the per-frame derived state from the wrapped graph.
    pub fn compute_state(&self) -> (r: Result<ComputedState, NumOverflow>)
        ensures
            (match r {
                Ok(c) => Some(c@) == spec_compute(self.nodes_map(), self.sstyle().node_radius@),
                Err(_) => spec_compute(self.nodes_map(), self.sstyle().node_radius@) is None,
            }),
    {
        ComputedState::compute(&self.g, &self.settings_style)
    }

    /// Fits the graph to the screen on the first frame, or on every frame
    /// when the always-fit setting is on.
    fn handle_fit_to_screen(
        &self,
        input: &FrameInput,
        bounds: Option<(V2q, V2q)>,
        meta: &mut Metadata,
    ) -> (r: Result<Vec<Event>, NumOverflow>)
        requires
            old(meta).wf(),
            input.wf(),
        ensures
            (match r {
                Ok(ev) => spec_fit(old(meta)@, bview(bounds), *input, self.snav()) == Some(
                    ((final(meta)@, ev@)),
                ) && final(meta).wf(),
                Err(_) => spec_fit(old(meta)@, bview(bounds), *input, self.snav()) is None
                    && *final(meta) == *old(meta),
            }),
    {
        if !meta.first_frame && !self.settings_navigation.fit_to_screen_enabled {
            return Ok(Vec::new());
        }
        let zero = V2q::new(Qr::from_int(0), Qr::from_int(0));
        let (bmin, bmax) = match bounds {
            Some(b) => b,
            None => (zero, zero),
        };
        let diag = match bmax.vsub(bmin) {
            Some(d) => d,
            None => {
                return Err(NumOverflow);
            },
        };
        let dzx = diag.x.num();
        let dzy = diag.y.num();
        let diag2 = if dzx == 0 && dzy == 0 {
            V2q::new(Qr::from_int(1), Qr::from_int(100))
        } else {
            diag
        };
        let padf = match Qr::from_int(1).add(self.settings_navigation.screen_padding) {
            Some(f) => f,
            None => {
                return Err(NumOverflow);
            },
        };
        let padded = match diag2.scale(padf) {
            Some(p) => p,
            None => {
                return Err(NumOverflow);
            },
        };
        if !(padded.x.is_pos() && padded.y.is_pos()) {
            return Err(NumOverflow);
        }
        let cw = match input.canvas_max.x.sub(input.canvas_min.x) {
            Some(v) => v,
            None => {
                return Err(NumOverflow);
            },
        };
        let ch = match input.canvas_max.y.sub(input.canvas_min.y) {
            Some(v) => v,
            None => {
                return Err(NumOverflow);
            },
        };
        let zx = match cw.div(padded.x) {
            Some(v) => v,
            None => {
                return Err(NumOverflow);
            },
        };
        let zy = match ch.div(padded.y) {
            Some(v) => v,
            None => {
                return Err(NumOverflow);
            },
        };
        let nz = zx.min_val(zy);
        let s1 = match bmin.vadd(bmax) {
            Some(v) => v,
            None => {
                return Err(NumOverflow);
            },
        };
        let half = Qr::from_ratio(1, 2);
        let gc = match s1.scale(half) {
            Some(v) => v,
            None => {
                return Err(NumOverflow);
            },
        };
        let s2 = match input.canvas_min.vadd(input.canvas_max) {
            Some(v) => v,
            None => {
                return Err(NumOverflow);
            },
        };
        let cc = match s2.scale(half) {
            Some(v) => v,
            None => {
                return Err(NumOverflow);
            },
        };
        let gz = match gc.scale(nz) {
            Some(v) => v,
            None => {
                return Err(NumOverflow);
            },
        };
        let npan = match cc.vsub(gz) {
            Some(v) => v,
            None => {
                return Err(NumOverflow);
            },
        };
        let zd = match nz.sub(meta.zoom) {
            Some(v) => v,
            None => {
                return Err(NumOverflow);
            },
        };
        let pd = match npan.vsub(meta.pan) {
            Some(v) => v,
            None => {
                return Err(NumOverflow);
            },
        };
        proof {
            lemma_mul_pos(cw@.n, padded.x@.d);
            lemma_mul_pos(ch@.n, padded.y@.d);
            lemma_view_qr_of(zd);
            lemma_view_v2q_of(pd);
        }
        meta.pan = npan;
        meta.zoom = nz;
        meta.first_frame = false;
        let mut ev: Vec<Event> = Vec::new();
        ev.push(Event::Zoom { delta: zd });
        ev.push(Event::Pan { delta: pd });
        proof {
            assert(ev@ =~= seq![Event::Zoom { delta: zd }, Event::Pan { delta: pd }]);
        }
        Ok(ev)
    }

    /// Applies a zoom gesture about the cursor, keeping the graph point
    /// under it fixed on screen.
    fn handle_zoom(&self, input: &FrameInput, meta: &mut Metadata) -> (r: Result<
        Vec<Event>,
        NumOverflow,
    >)
        requires
            old(meta).wf(),
            self.snav().wf(),
        ensures
            (match r {
                Ok(ev) => spec_zoom(old(meta)@, *input, self.snav()) == Some(
                    ((final(meta)@, ev@)),
                ) && final(meta).wf(),
                Err(_) => spec_zoom(old(meta)@, *input, self.snav()) is None && *final(meta)
                    == *old(meta),
            }),
    {
        let one = Qr::from_int(1);
        if !self.settings_navigation.zoom_and_pan_enabled || input.zoom_delta.eq_val(one) {
            return Ok(Vec::new());
        }
        let c = match input.hover_pos {
            Some(h) => h,
            None => {
                let s = match input.canvas_min.vadd(input.canvas_max) {
                    Some(v) => v,
                    None => {
                        return Err(NumOverflow);
                    },
                };
                match s.scale(Qr::from_ratio(1, 2)) {
                    Some(v) => v,
                    None => {
                        return Err(NumOverflow);
                    },
                }
            },
        };
        let step = if one.lt(input.zoom_delta) {
            self.settings_navigation.zoom_speed
        } else {
            self.settings_navigation.zoom_speed.neg()
        };
        let f = match one.add(step) {
            Some(v) => v,
            None => {
                return Err(NumOverflow);
            },
        };
        let nz = match meta.zoom.mul(f) {
            Some(v) => v,
            None => {
                return Err(NumOverflow);
            },
        };
        let gc = match crate::transform::graph_from_screen(c, meta.pan, meta.zoom) {
            Some(v) => v,
            None => {
                return Err(NumOverflow);
            },
        };
        let m1 = match gc.scale(meta.zoom) {
            Some(v) => v,
            None => {
                return Err(NumOverflow);
            },
        };
        let m2 = match gc.scale(nz) {
            Some(v) => v,
            None => {
                return Err(NumOverflow);
            },
        };
        let pdel = match m1.vsub(m2) {
            Some(v) => v,
            None => {
                return Err(NumOverflow);
            },
        };
        let npan = match meta.pan.vadd(pdel) {
            Some(v) => v,
            None => {
                return Err(NumOverflow);
            },
        };
        let zd = match nz.sub(meta.zoom) {
            Some(v) => v,
            None => {
                return Err(NumOverflow);
            },
        };
        proof {
            lemma_mul_pos(old(meta)@.zoom.n, f@.n);
            lemma_view_qr_of(zd);
        }
        meta.pan = npan;
        meta.zoom = nz;
        let mut ev: Vec<Event> = Vec::new();
        ev.push(Event::Zoom { delta: zd });
        proof {
            assert(ev@ =~= seq![Event::Zoom { delta: zd }]);
        }
        Ok(ev)
    }

    /// Pans the viewport by the raw drag delta while no node is dragged.
    fn handle_pan(&self, input: &FrameInput, comp: &ComputedState, meta: &mut Metadata) -> (r:
        Result<Vec<Event>, NumOverflow>)
        requires
            old(meta).wf(),
        ensures
            (match r {
                Ok(ev) => spec_pan(old(meta)@, *input, comp.dragged, self.snav()) == Some(
                    ((final(meta)@, ev@)),
                ) && final(meta).wf(),
                Err(_) => spec_pan(old(meta)@, *input, comp.dragged, self.snav()) is None
                    && *final(meta) == *old(meta),
            }),
    {
        if self.settings_navigation.zoom_and_pan_enabled && input.dragged && comp.dragged.is_none()
            && !input.drag_delta.is_zero() {
            let npan = match meta.pan.vadd(input.drag_delta) {
                Some(v) => v,
                None => {
                    return Err(NumOverflow);
                },
            };
            let pd = match npan.vsub(meta.pan) {
                Some(v) => v,
                None => {
                    return Err(NumOverflow);
                },
            };
            proof {
                lemma_view_v2q_of(pd);
            }
            meta.pan = npan;
            let mut ev: Vec<Event> = Vec::new();
            ev.push(Event::Pan { delta: pd });
            proof {
                assert(ev@ =~= seq![Event::Pan { delta: pd }]);
            }
            Ok(ev)
        } else {
            Ok(Vec::new())
        }
    }
}


/// At most one node carries the dragged flag.
pub open spec fn at_most_one_dragged(m: Map<u32, Node>) -> bool {
    forall|i: u32, j: u32|
        m.dom().contains(i) && m.dom().contains(j) && m[i].dragged && m[j].dragged ==> i == j
}

/// The hit test under an optional pointer position: no pointer, no hit.
pub open spec fn spec_hit_opt(
    m: Map<u32, Node>,
    meta: MetaR,
    style: SettingsStyle,
    hover: Option<V2q>,
) -> Option<Option<(u32, Node)>> {
    match hover {
        Some(h) => spec_node_by_pos(m, meta, style, h@),
        None => Some(None),
    }
}

pub open spec fn node_with_selected(n: Node, selected: bool) -> Node {
    Node { location: n.location, payload: n.payload, selected, dragged: n.dragged }
}

pub open spec fn node_with_dragged(n: Node, dragged: bool) -> Node {
    Node { location: n.location, payload: n.payload, selected: n.selected, dragged }
}

pub open spec fn node_with_location(n: Node, location: V2q) -> Node {
    Node { location, payload: n.payload, selected: n.selected, dragged: n.dragged }
}

/// Toggling one node's selected flag: the flipped flag and one record; an
/// absent id leaves the graph untouched and reports nothing.
pub open spec fn spec_toggle(m: Map<u32, Node>, id: u32) -> (Map<u32, Node>, Seq<Change>) {
    if m.dom().contains(id) {
        (
            m.insert(id, node_with_selected(m[id], !m[id].selected)),
            seq![
                Change::SelectionChanged { id, before: m[id].selected, after: !m[id].selected },
            ],
        )
    } else {
        (m, Seq::empty())
    }
}

/// Deselecting every id of the listing in order: one record per node.
pub open spec fn spec_deselect(m: Map<u32, Node>, sel: Seq<u32>) -> (Map<u32, Node>, Seq<Change>)
    decreases sel.len(),
{
    if sel.len() == 0 {
        (m, Seq::empty())
    } else {
        let first = spec_toggle(m, sel[0]);
        let rest = spec_deselect(first.0, sel.drop_first());
        (rest.0, first.1 + rest.1)
    }
}

/// A completed single click on the node `id`: a Clicked record if clicking
/// is enabled; then, if selection is enabled, toggle off an already
/// selected node, otherwise deselect everything first when multi-select is
/// off, and toggle the node on.
pub open spec fn spec_node_click(
    m: Map<u32, Node>,
    sel: Seq<u32>,
    id: u32,
    inter: SettingsInteraction,
) -> (Map<u32, Node>, Seq<Change>) {
    let c0: Seq<Change> = if inter.clicking_enabled {
        seq![Change::Clicked { id }]
    } else {
        Seq::empty()
    };
    if !inter.selection_enabled {
        (m, c0)
    } else if !m.dom().contains(id) {
        (m, c0)
    } else if m[id].selected {
        let t = spec_toggle(m, id);
        (t.0, c0 + t.1)
    } else if !inter.selection_multi_enabled {
        let d = spec_deselect(m, sel);
        let t = spec_toggle(d.0, id);
        (t.0, c0 + d.1 + t.1)
    } else {
        let t = spec_toggle(m, id);
        (t.0, c0 + t.1)
    }
}

/// Click handling: on a miss every selected node is deselected; on a hit a
/// double click yields one DoubleClicked record, a single click the
/// Clicked record and the selection logic. The first physical click of a
/// double click arrives as an ordinary click in an earlier frame and is
/// handled there; the DoubleClicked record is an addition, never a
/// replacement.
pub open spec fn spec_click(
    m: Map<u32, Node>,
    sel: Seq<u32>,
    meta: MetaR,
    input: FrameInput,
    inter: SettingsInteraction,
    style: SettingsStyle,
) -> Option<(Map<u32, Node>, Seq<Change>)> {
    if !(input.clicked || input.double_clicked) {
        Some((m, Seq::empty()))
    } else if !(inter.clicking_enabled || inter.selection_enabled) {
        Some((m, Seq::empty()))
    } else {
        match spec_hit_opt(m, meta, style, input.hover_pos) {
            None => None,
            Some(hit) => match hit {
                None => if inter.selection_enabled {
                    Some(spec_deselect(m, sel))
                } else {
                    Some((m, Seq::empty()))
                },
                Some(hn) => if input.double_clicked {
                    if inter.clicking_enabled {
                        Some((m, seq![Change::DoubleClicked { id: hn.0 }]))
                    } else {
                        Some((m, Seq::empty()))
                    }
                } else {
                    Some(spec_node_click(m, sel, hn.0, inter))
                },
            },
        }
    }
}

/// Drag start: on a hit, and only while no node is already dragged, the
/// hit node's dragged flag is set and one record is emitted.
pub open spec fn spec_drag_start(
    m: Map<u32, Node>,
    mdrag: Option<u32>,
    meta: MetaR,
    input: FrameInput,
    style: SettingsStyle,
) -> Option<(Map<u32, Node>, Seq<Change>)> {
    if input.drag_started {
        match spec_hit_opt(m, meta, style, input.hover_pos) {
            None => None,
            Some(hit) => if mdrag is None && hit is Some {
                let sid = hit.unwrap().0;
                Some(
                    (
                        m.insert(sid, node_with_dragged(m[sid], true)),
                        seq![
                            Change::DraggedChanged { id: sid, before: m[sid].dragged, after: true },
                        ],
                    ),
                )
            } else {
                Some((m, Seq::empty()))
            },
        }
    } else {
        Some((m, Seq::empty()))
    }
}

/// Drag continuation: the screen delta divided by the zoom is added to the
/// dragged node's position; one record carries the old and new position.
pub open spec fn spec_drag_move(
    m: Map<u32, Node>,
    mdrag: Option<u32>,
    meta: MetaR,
    input: FrameInput,
) -> Option<(Map<u32, Node>, Seq<Change>)> {
    if input.dragged && mdrag is Some && !(input.drag_delta@.x.n == 0 && input.drag_delta@.y.n
        == 0) {
        let di = mdrag.unwrap();
        if m.dom().contains(di) {
            match try_v2(v2_div_scale(input.drag_delta@, meta.zoom)) {
                None => None,
                Some(dg) => match try_v2(v2_add(m[di].location@, dg)) {
                    None => None,
                    Some(nl) => Some(
                        (
                            m.insert(di, node_with_location(m[di], v2q_of(nl))),
                            seq![
                                Change::LocationMoved {
                                    id: di,
                                    before: m[di].location,
                                    after: v2q_of(nl),
                                },
                            ],
                        ),
                    ),
                },
            }
        } else {
            Some((m, Seq::empty()))
        }
    } else {
        Some((m, Seq::empty()))
    }
}

/// Drag end: the dragged node's flag is cleared and one record emitted.
pub open spec fn spec_drag_release(m: Map<u32, Node>, mdrag: Option<u32>, input: FrameInput) -> (
    Map<u32, Node>,
    Seq<Change>,
) {
    if input.drag_released && mdrag is Some && m.dom().contains(mdrag.unwrap()) {
        let di = mdrag.unwrap();
        (
            m.insert(di, node_with_dragged(m[di], false)),
            seq![Change::DraggedChanged { id: di, before: m[di].dragged, after: false }],
        )
    } else {
        (m, Seq::empty())
    }
}

/// One frame of node dragging: start, continuation, end, in that order,
/// all against the dragged id computed at the start of the frame.
pub open spec fn spec_drag(
    m: Map<u32, Node>,
    mdrag: Option<u32>,
    meta: MetaR,
    input: FrameInput,
    inter: SettingsInteraction,
    style: SettingsStyle,
) -> Option<(Map<u32, Node>, Seq<Change>)> {
    if !inter.dragging_enabled {
        Some((m, Seq::empty()))
    } else {
        match spec_drag_start(m, mdrag, meta, input, style) {
            None => None,
            Some(s1) => match spec_drag_move(s1.0, mdrag, meta, input) {
                None => None,
                Some(s2) => {
                    let s3 = spec_drag_release(s2.0, mdrag, input);
                    Some((s3.0, s1.1 + s2.1 + s3.1))
                },
            },
        }
    }
}

/// What one frame settles on: the new node map, the new viewport, and the
/// records and events emitted, in order.
pub struct FrameRes {
    pub nodes: Map<u32, Node>,
    pub meta: MetaR,
    pub changes: Seq<Change>,
    pub events: Seq<Event>,
}

/// One whole frame: computed state, fit-to-screen, zoom gesture,
/// empty-canvas pan, node drag, click handling, in that order. `None` when
/// any step leaves the representable range.
pub open spec fn spec_frame(
    m: Map<u32, Node>,
    meta: MetaR,
    input: FrameInput,
    inter: SettingsInteraction,
    nav: SettingsNavigation,
    style: SettingsStyle,
) -> Option<FrameRes> {
    match spec_compute(m, style.node_radius@) {
        None => None,
        Some(comp) => match spec_fit(meta, comp.bounds, input, nav) {
            None => None,
            Some(f) => match spec_zoom(f.0, input, nav) {
                None => None,
                Some(z) => match spec_pan(z.0, input, comp.dragged, nav) {
                    None => None,
                    Some(p) => match spec_drag(m, comp.dragged, p.0, input, inter, style) {
                        None => None,
                        Some(d) => match spec_click(d.0, comp.selected, p.0, input, inter, style) {
                            None => None,
                            Some(c) => Some(
                                FrameRes {
                                    nodes: c.0,
                                    meta: p.0,
                                    changes: d.1 + c.1,
                                    events: f.1 + z.1 + p.1,
                                },
                            ),
                        },
                    },
                },
            },
        },
    }
}

impl GraphView {
    /// Flips one node's selected flag and reports the change.
    fn toggle_selection_node(&mut self, idx: u32) -> (r: Option<Change>)
        ensures
            final(self).nodes_map() == spec_toggle(old(self).nodes_map(), idx).0,
            (match r {
                Some(c) => seq![c] == spec_toggle(old(self).nodes_map(), idx).1,
                None => spec_toggle(old(self).nodes_map(), idx).1 == Seq::<Change>::empty(),
            }),
            final(self).same_shell(*old(self)),
    {
        match self.g.node(idx) {
            Some(n) => {
                let old_sel = n.selected;
                let nn = Node {
                    location: n.location,
                    payload: n.payload,
                    selected: !old_sel,
                    dragged: n.dragged,
                };
                let _present = self.g.set_node(idx, nn);
                Some(Change::SelectionChanged { id: idx, before: old_sel, after: !old_sel })
            },
            None => None,
        }
    }

    /// Deselects every node of the listing, one record per node, in order.
    fn deselect_all(&mut self, sel: &Vec<u32>) -> (r: Vec<Change>)
        ensures
            final(self).nodes_map() == spec_deselect(old(self).nodes_map(), sel@).0,
            r@ == spec_deselect(old(self).nodes_map(), sel@).1,
            final(self).same_shell(*old(self)),
    {
        let mut out: Vec<Change> = Vec::new();
        let mut i: usize = 0;
        proof {
            assert(sel@.skip(0) =~= sel@);
            assert(out@ + spec_deselect(self.nodes_map(), sel@).1 =~= spec_deselect(
                self.nodes_map(),
                sel@,
            ).1);
        }
        while i < sel.len()
            invariant
                0 <= i <= sel@.len(),
                spec_deselect(old(self).nodes_map(), sel@).0 == spec_deselect(
                    self.nodes_map(),
                    sel@.skip(i as int),
                ).0,
                spec_deselect(old(self).nodes_map(), sel@).1 == out@ + spec_deselect(
                    self.nodes_map(),
                    sel@.skip(i as int),
                ).1,
                self.same_shell(*old(self)),
            decreases sel@.len() - i,
        {
            let ghost pre = self.nodes_map();
            let ghost rest = sel@.skip(i as int);
            let ghost out_pre = out@;
            proof {
                assert(rest.len() == sel@.len() - i);
                assert(rest[0] == sel@[i as int]);
                assert(rest.drop_first() =~= sel@.skip(i + 1int));
            }
            match self.toggle_selection_node(sel[i]) {
                Some(c) => out.push(c),
                None => {},
            }
            proof {
                let first = spec_toggle(pre, sel@[i as int]);
                assert(out@ =~= out_pre + first.1);
                assert(out@ + spec_deselect(self.nodes_map(), sel@.skip(i + 1int)).1 =~= out_pre
                    + (first.1 + spec_deselect(first.0, rest.drop_first()).1));
            }
            i = i + 1;
        }
        proof {
            assert(sel@.skip(sel@.len() as int) =~= Seq::<u32>::empty());
            assert(out@ + Seq::<Change>::empty() =~= out@);
        }
        out
    }

    /// A double click on the node `idx`: one DoubleClicked record when
    /// clicking is enabled; the stored node data is untouched.
    fn handle_node_double_click(&self, idx: u32) -> (r: Vec<Change>)
        ensures
            r@ == (if self.sint().clicking_enabled {
                seq![Change::DoubleClicked { id: idx }]
            } else {
                Seq::<Change>::empty()
            }),
    {
        let mut out: Vec<Change> = Vec::new();
        if self.settings_interaction.clicking_enabled {
            out.push(Change::DoubleClicked { id: idx });
            proof {
                assert(out@ =~= seq![Change::DoubleClicked { id: idx }]);
            }
        }
        out
    }

    /// A completed single click on the node `idx`: the Clicked record, then
    /// the selection toggling.
    fn handle_node_click(&mut self, idx: u32, sel: &Vec<u32>) -> (r: Vec<Change>)
        ensures
            final(self).nodes_map() == spec_node_click(
                old(self).nodes_map(),
                sel@,
                idx,
                old(self).sint(),
            ).0,
            r@ == spec_node_click(old(self).nodes_map(), sel@, idx, old(self).sint()).1,
            final(self).same_shell(*old(self)),
    {
        let ghost m0 = self.nodes_map();
        let ghost c0: Seq<Change> = if self.sint().clicking_enabled {
            seq![Change::Clicked { id: idx }]
        } else {
            Seq::empty()
        };
        let mut out: Vec<Change> = Vec::new();
        if self.settings_interaction.clicking_enabled {
            out.push(Change::Clicked { id: idx });
        }
        proof {
            assert(out@ =~= c0);
        }
        if !self.settings_interaction.selection_enabled {
            return out;
        }
        let n = match self.g.node(idx) {
            Some(n) => n,
            None => {
                return out;
            },
        };
        if n.selected {
            let ghost t = spec_toggle(m0, idx);
            match self.toggle_selection_node(idx) {
                Some(c) => out.push(c),
                None => {},
            }
            proof {
                assert(out@ =~= c0 + t.1);
            }
            return out;
        }
        if !self.settings_interaction.selection_multi_enabled {
            let ghost d = spec_deselect(m0, sel@);
            let mut ds = self.deselect_all(sel);
            out.append(&mut ds);
            let ghost t = spec_toggle(d.0, idx);
            match self.toggle_selection_node(idx) {
                Some(c) => out.push(c),
                None => {},
            }
            proof {
                assert(out@ =~= c0 + d.1 + t.1);
            }
            out
        } else {
            let ghost t = spec_toggle(m0, idx);
            match self.toggle_selection_node(idx) {
                Some(c) => out.push(c),
                None => {},
            }
            proof {
                assert(out@ =~= c0 + t.1);
            }
            out
        }
    }

    /// Handles a completed click or double click: hit test at the pointer,
    /// then miss handling or node-click handling.
    fn handle_click(&mut self, input: &FrameInput, comp: &ComputedState, meta: &Metadata) -> (r:
        Result<Vec<Change>, NumOverflow>)
        requires
            meta.wf(),
            input.wf(),
        ensures
            (match r {
                Ok(ch) => Some((final(self).nodes_map(), ch@)) == spec_click(
                    old(self).nodes_map(),
                    comp.selected@,
                    meta@,
                    *input,
                    old(self).sint(),
                    old(self).sstyle(),
                ),
                Err(_) => spec_click(
                    old(self).nodes_map(),
                    comp.selected@,
                    meta@,
                    *input,
                    old(self).sint(),
                    old(self).sstyle(),
                ) is None && final(self).nodes_map() == old(self).nodes_map(),
            }),
            final(self).same_shell(*old(self)),
    {
        if !(input.clicked || input.double_clicked) {
            return Ok(Vec::new());
        }
        if !(self.settings_interaction.clicking_enabled
            || self.settings_interaction.selection_enabled) {
            return Ok(Vec::new());
        }
        let hover = input.hover_pos.unwrap();
        let hit = match self.g.node_by_pos(meta, &self.settings_style, hover) {
            Ok(h) => h,
            Err(e) => {
                return Err(e);
            },
        };
        match hit {
            None => {
                if self.settings_interaction.selection_enabled {
                    let ch = self.deselect_all(&comp.selected);
                    Ok(ch)
                } else {
                    Ok(Vec::new())
                }
            },
            Some((idx, _n)) => {
                if input.double_clicked {
                    Ok(self.handle_node_double_click(idx))
                } else {
                    Ok(self.handle_node_click(idx, &comp.selected))
                }
            },
        }
    }

    /// One frame of node dragging: hit test on drag start, position update
    /// while a node is dragged, flag clear on release. The dragged id is
    /// the one computed at the start of the frame, and a new drag may only
    /// start while no node is dragged, so at most one node is ever dragged.
    fn handle_node_drag(&mut self, input: &FrameInput, comp: &ComputedState, meta: &Metadata) -> (r:
        Result<Vec<Change>, NumOverflow>)
        requires
            meta.wf(),
            input.wf(),
        ensures
            (match r {
                Ok(ch) => Some((final(self).nodes_map(), ch@)) == spec_drag(
                    old(self).nodes_map(),
                    comp.dragged,
                    meta@,
                    *input,
                    old(self).sint(),
                    old(self).sstyle(),
                ),
                Err(_) => spec_drag(
                    old(self).nodes_map(),
                    comp.dragged,
                    meta@,
                    *input,
                    old(self).sint(),
                    old(self).sstyle(),
                ) is None && (final(self).nodes_map() == old(self).nodes_map() || (spec_drag_start(
                    old(self).nodes_map(),
                    comp.dragged,
                    meta@,
                    *input,
                    old(self).sstyle(),
                ) is Some && final(self).nodes_map() == spec_drag_start(
                    old(self).nodes_map(),
                    comp.dragged,
                    meta@,
                    *input,
                    old(self).sstyle(),
                ).unwrap().0)),
            }),
            final(self).same_shell(*old(self)),
    {
        if !self.settings_interaction.dragging_enabled {
            return Ok(Vec::new());
        }
        let ghost m0 = self.nodes_map();
        let mut out: Vec<Change> = Vec::new();
        if input.drag_started {
            let hover = input.hover_pos.unwrap();
            let hit = match self.g.node_by_pos(meta, &self.settings_style, hover) {
                Ok(h) => h,
                Err(e) => {
                    return Err(e);
                },
            };
            if comp.dragged.is_none() {
                match hit {
                    Some((sid, n)) => {
                        let before = n.dragged;
                        let nn = Node {
                            location: n.location,
                            payload: n.payload,
                            selected: n.selected,
                            dragged: true,
                        };
                        let _present = self.g.set_node(sid, nn);
                        out.push(Change::DraggedChanged { id: sid, before, after: true });
                    },
                    None => {},
                }
            }
        }
        let ghost s1 = (self.nodes_map(), out@);
        proof {
            assert(Some(s1) == spec_drag_start(m0, comp.dragged, meta@, *input, self.sstyle()));
        }
        if input.dragged && comp.dragged.is_some() && !input.drag_delta.is_zero() {
            let di = comp.dragged.unwrap();
            match self.g.node(di) {
                Some(n) => {
                    let dg = match input.drag_delta.div_scale(meta.zoom) {
                        Some(v) => v,
                        None => {
                            return Err(NumOverflow);
                        },
                    };
                    let nl = match n.location.vadd(dg) {
                        Some(v) => v,
                        None => {
                            return Err(NumOverflow);
                        },
                    };
                    proof {
                        lemma_view_v2q_of(nl);
                    }
                    let nn = Node {
                        location: nl,
                        payload: n.payload,
                        selected: n.selected,
                        dragged: n.dragged,
                    };
                    let _present = self.g.set_node(di, nn);
                    out.push(Change::LocationMoved { id: di, before: n.location, after: nl });
                },
                None => {},
            }
        }
        let ghost s2 = (self.nodes_map(), out@);
        proof {
            assert(spec_drag_move(s1.0, comp.dragged, meta@, *input) is Some);
            assert(s2.0 == spec_drag_move(s1.0, comp.dragged, meta@, *input).unwrap().0);
            assert(s2.1 =~= s1.1 + spec_drag_move(s1.0, comp.dragged, meta@, *input).unwrap().1);
        }
        if input.drag_released && comp.dragged.is_some() {
            let di = comp.dragged.unwrap();
            match self.g.node(di) {
                Some(n) => {
                    let nn = Node {
                        location: n.location,
                        payload: n.payload,
                        selected: n.selected,
                        dragged: false,
                    };
                    let _present = self.g.set_node(di, nn);
                    out.push(Change::DraggedChanged { id: di, before: n.dragged, after: false });
                },
                None => {},
            }
        }
        proof {
            let s3 = spec_drag_release(s2.0, comp.dragged, *input);
            assert(self.nodes_map() == s3.0);
            assert(out@ =~= s1.1 + spec_drag_move(s1.0, comp.dragged, meta@, *input).unwrap().1
                + s3.1);
        }
        Ok(out)
    }

    /// Pushes every change record to the subscriber channel, if one is set.
    fn send_changes(&self, changes: &Vec<Change>) {
        match &self.changes_sender {
            Some(s) => {
                let mut i: usize = 0;
                while i < changes.len()
                    invariant
                        0 <= i <= changes@.len(),
                    decreases changes@.len() - i,
                {
                    let _delivered = chan_send(s, changes[i]);
                    i = i + 1;
                }
            },
            None => {},
        }
    }

    /// Publishes every navigation event to its channel, if one is set.
    fn publish_events(&self, events: &Vec<Event>) {
        match &self.events_publisher {
            Some(s) => {
                let mut i: usize = 0;
                while i < events.len()
                    invariant
                        0 <= i <= events@.len(),
                    decreases events@.len() - i,
                {
                    let _delivered = chan_send(s, events[i]);
                    i = i + 1;
                }
            },
            None => {},
        }
    }

    /// Runs one frame: recomputes the derived state, then applies
    /// fit-to-screen, the zoom gesture, the empty-canvas pan, node dragging
    /// and click handling, in that order; sends every record and event to
    /// the subscribed channels; and returns them in emission order. When a
    /// step leaves the representable range the frame reports the overflow,
    /// sends nothing, and keeps the viewport well formed.
    pub fn frame(&mut self, input: &FrameInput, meta: &mut Metadata) -> (r: Result<
        FrameOutput,
        NumOverflow,
    >)
        requires
            input.wf(),
            old(meta).wf(),
            old(self).snav().wf(),
            old(self).sstyle().wf(),
        ensures
            final(self).same_shell(*old(self)),
            final(meta).wf(),
            (match r {
                Ok(out) => ({
                    let res = spec_frame(
                        old(self).nodes_map(),
                        old(meta)@,
                        *input,
                        old(self).sint(),
                        old(self).snav(),
                        old(self).sstyle(),
                    );
                    &&& res is Some
                    &&& final(self).nodes_map() == res.unwrap().nodes
                    &&& final(meta)@ == res.unwrap().meta
                    &&& out.changes@ == res.unwrap().changes
                    &&& out.events@ == res.unwrap().events
                }),
                Err(_) => spec_frame(
                    old(self).nodes_map(),
                    old(meta)@,
                    *input,
                    old(self).sint(),
                    old(self).snav(),
                    old(self).sstyle(),
                ) is None,
            }),
            at_most_one_dragged(old(self).nodes_map()) ==> at_most_one_dragged(
                final(self).nodes_map(),
            ),
    {
        let comp = match ComputedState::compute(&self.g, &self.settings_style) {
            Ok(c) => c,
            Err(e) => {
                return Err(e);
            },
        };
        let ev1 = match self.handle_fit_to_screen(input, comp.bounds, meta) {
            Ok(v) => v,
            Err(e) => {
                return Err(e);
            },
        };
        let ev2 = match self.handle_zoom(input, meta) {
            Ok(v) => v,
            Err(e) => {
                return Err(e);
            },
        };
        let ev3 = match self.handle_pan(input, &comp, meta) {
            Ok(v) => v,
            Err(e) => {
                return Err(e);
            },
        };
        let ghost meta_nav = meta@;
        let ch1 = match self.handle_node_drag(input, &comp, meta) {
            Ok(v) => v,
            Err(e) => {
                proof {
                    if at_most_one_dragged(old(self).nodes_map()) && self.nodes_map() != old(
                        self,
                    ).nodes_map() {
                        crate::laws::lemma_drag_start_exclusive(
                            old(self).nodes_map(),
                            meta_nav,
                            *input,
                            old(self).sstyle(),
                        );
                    }
                }
                return Err(e);
            },
        };
        let ch2 = match self.handle_click(input, &comp, meta) {
            Ok(v) => v,
            Err(e) => {
                proof {
                    if at_most_one_dragged(old(self).nodes_map()) {
                        crate::laws::lemma_drag_exclusive(
                            old(self).nodes_map(),
                            meta_nav,
                            *input,
                            old(self).sint(),
                            old(self).sstyle(),
                        );
                    }
                }
                return Err(e);
            },
        };
        proof {
            if at_most_one_dragged(old(self).nodes_map()) {
                crate::laws::lemma_frame_drag_exclusive(
                    old(self).nodes_map(),
                    old(meta)@,
                    *input,
                    old(self).sint(),
                    old(self).snav(),
                    old(self).sstyle(),
                );
            }
        }
        let mut changes = ch1;
        let mut more = ch2;
        changes.append(&mut more);
        let mut events = ev1;
        let mut more_ev2 = ev2;
        events.append(&mut more_ev2);
        let mut more_ev3 = ev3;
        events.append(&mut more_ev3);
        self.send_changes(&changes);
        self.publish_events(&events);
        Ok(FrameOutput { changes, events })
    }
}

} // verus!
