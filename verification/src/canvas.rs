//! The interactive canvas session: the graph, the selections, the pan/zoom
//! transform, the drag state machine, the context menus and the history,
//! with the pointer, wheel, key and command handlers that drive them.
//!
//! The zoom factor is an integer in thousandths (`1000` is 1:1), clamped to
//! `[MIN_ZOOM_MILLI, MAX_ZOOM_MILLI]`; the animation phase is an integer in
//! thousandths of a cycle. Screen positions arrive as integer pixels.

use crate::geometry::Point;
use crate::graph::strictly_increasing_below;
use crate::history::{graph_wf, History};
use crate::model::{EdgeConnection, EdgeStyle, FlowNode, NodeType, NODE_POS_LIMIT};
use vstd::prelude::*;

verus! {

/// Smallest zoom factor, in thousandths (1:4 out).
pub const MIN_ZOOM_MILLI: i64 = 250;

/// Largest zoom factor, in thousandths (4:1 in).
pub const MAX_ZOOM_MILLI: i64 = 4000;

/// One thousand: the fixed-point unit of the zoom factor and the phase.
pub const MILLI: i64 = 1000;

/// The animation phase advances by this much per timer tick (a full cycle
/// per second at fifty ticks per second).
pub const PHASE_TICK_MILLI: i64 = 20;

/// Bound on raw input screen coordinates (pointer positions, widget
/// origin).
pub const INPUT_LIMIT: i64 = 0x100_0000;

/// The pan offset is clamped to this bound.
pub const PAN_LIMIT: i64 = 0x100_0000_0000;

/// Bound on a pointer position mapped into canvas space: inputs and pan are
/// bounded and the zoom is at least a quarter.
pub const CANVAS_PT_LIMIT: i64 = 0x800_0000_0000;

/// Bound on a drag grab offset (a canvas point minus a node position).
pub const GRAB_LIMIT: i64 = 0x2000_0000_0000;

/// Largest per-edge or default line width.
pub const LINE_WIDTH_LIMIT: i64 = 64;

/// Padding around the content when fitting the view.
pub const FIT_VIEW_PADDING: i64 = 50;

/// Where a newly added node lands, relative to the canvas point at the
/// widget origin.
pub const ADD_NODE_OFFSET_X: i64 = 200;

/// Vertical counterpart of `ADD_NODE_OFFSET_X`.
pub const ADD_NODE_OFFSET_Y: i64 = 150;

/// The drag interaction in progress: exactly one mode at a time, replaced
/// whole on every transition.
pub enum DragState {
    /// No drag in progress.
    Idle,
    /// One node follows the pointer, grabbed at `offset` from its corner.
    DraggingNode { index: usize, offset: Point },
    /// A multi-selection follows the pointer, each node with its own grab
    /// offset.
    DraggingNodes { offsets: Vec<(usize, Point)> },
    /// The view pans with the pointer; `start` is the last pointer position
    /// in screen space.
    Panning { start: Point },
    /// A provisional edge follows the pointer from a port of `from_node`.
    CreatingEdge { from_node: usize, is_output: bool, cursor_pos: Point },
    /// A rubber-band selection box from `start` to `current`, in canvas
    /// space.
    SelectionBox { start: Point, current: Point },
}

/// Commands the canvas accepts from its surroundings.
pub enum FlowCanvasCommand {
    AddNode,
    Delete,
    FitView,
    Clear,
    SetLineStyle(EdgeStyle),
    SetLineWidth(i64),
    LoadDataflow { nodes: Vec<FlowNode>, edges: Vec<EdgeConnection> },
}

/// Events the canvas reports back to its surroundings.
#[derive(Clone, Copy, PartialEq, Eq, Structural, Debug)]
pub enum FlowCanvasAction {
    NodeAdded,
    NodeDeleted,
    EdgeCreated,
    EdgeDeleted,
    SelectionChanged,
    StatusUpdate { nodes: usize, edges: usize },
}

/// The keys the canvas reacts to.
#[derive(Clone, Copy, PartialEq, Eq, Structural, Debug)]
pub enum CanvasKey {
    Delete,
    SelectAll,
    Undo,
    Redo,
    Escape,
}

/// The whole interactive state of one canvas.
pub struct FlowCanvas {
    pub nodes: Vec<FlowNode>,
    pub edges: Vec<EdgeConnection>,
    pub drag_state: DragState,
    pub selected_nodes: Vec<usize>,
    pub selected_edges: Vec<usize>,
    pub pan_offset: Point,
    pub zoom_milli: i64,
    pub next_node_id: u64,
    pub animation_phase_milli: i64,
    pub context_menu_node: Option<usize>,
    pub context_menu_edge: Option<usize>,
    pub context_menu_pos: Point,
    pub history: History,
    pub line_width: i64,
    pub line_style: EdgeStyle,
    pub animate_edges: bool,
}

/// A point bounded by the pointer-in-canvas-space limit.
pub open spec fn canvas_pt_bounded(p: Point) -> bool {
    -CANVAS_PT_LIMIT <= p.x <= CANVAS_PT_LIMIT && -CANVAS_PT_LIMIT <= p.y <= CANVAS_PT_LIMIT
}

/// A grab offset within its bound.
pub open spec fn grab_bounded(p: Point) -> bool {
    -GRAB_LIMIT <= p.x <= GRAB_LIMIT && -GRAB_LIMIT <= p.y <= GRAB_LIMIT
}

/// A raw input screen point within its bound.
pub open spec fn input_pt_bounded(p: Point) -> bool {
    -INPUT_LIMIT <= p.x <= INPUT_LIMIT && -INPUT_LIMIT <= p.y <= INPUT_LIMIT
}

impl Default for DragState {
    /// No drag in progress.
    fn default() -> (r: DragState)
        ensures
            r is Idle,
    {
        DragState::Idle
    }
}

impl DragState {
    /// The drag state's indices are in range and its points bounded.
    pub open spec fn wf(self, node_count: int) -> bool {
        match self {
            DragState::Idle => true,
            DragState::DraggingNode { index, offset } => index < node_count && grab_bounded(offset),
            DragState::DraggingNodes { offsets } => forall|i: int|
                0 <= i < offsets@.len() ==> (#[trigger] offsets@[i]).0 < node_count && grab_bounded(
                    offsets@[i].1,
                ),
            DragState::Panning { start } => input_pt_bounded(start),
            DragState::CreatingEdge { from_node, is_output, cursor_pos } => from_node < node_count
                && canvas_pt_bounded(cursor_pos),
            DragState::SelectionBox { start, current } => canvas_pt_bounded(start)
                && canvas_pt_bounded(current),
        }
    }
}

impl FlowCanvas {
    /// The session invariant: well-formed nodes and edge widths, selections
    /// that are strictly increasing index lists into the live collections, a
    /// clamped transform, a bounded drag state and a bounded history.
    pub open spec fn wf(self) -> bool {
        &&& graph_wf(self.nodes@, self.edges@)
        &&& strictly_increasing_below(self.selected_nodes@, self.nodes@.len() as int)
        &&& strictly_increasing_below(self.selected_edges@, self.edges@.len() as int)
        &&& -PAN_LIMIT <= self.pan_offset.x <= PAN_LIMIT
        &&& -PAN_LIMIT <= self.pan_offset.y <= PAN_LIMIT
        &&& MIN_ZOOM_MILLI <= self.zoom_milli <= MAX_ZOOM_MILLI
        &&& 0 <= self.animation_phase_milli < MILLI
        &&& self.drag_state.wf(self.nodes@.len() as int)
        &&& self.history.wf()
        &&& 0 < self.line_width <= LINE_WIDTH_LIMIT
        &&& input_pt_bounded(self.context_menu_pos)
    }

    /// A fresh canvas: empty graph, identity-ish transform, no history.
    pub fn new() -> (r: FlowCanvas)
        ensures
            r.wf(),
            r.nodes@.len() == 0,
            r.edges@.len() == 0,
            r.selected_nodes@.len() == 0,
            r.selected_edges@.len() == 0,
            r.zoom_milli == MILLI,
            r.pan_offset == (Point { x: 0, y: 0 }),
            r.animation_phase_milli == 0,
            r.history.undo_stack@.len() == 0,
            r.history.redo_stack@.len() == 0,
    {
        FlowCanvas {
            nodes: Vec::new(),
            edges: Vec::new(),
            drag_state: DragState::Idle,
            selected_nodes: Vec::new(),
            selected_edges: Vec::new(),
            pan_offset: Point { x: 0, y: 0 },
            zoom_milli: MILLI,
            next_node_id: 4,
            animation_phase_milli: 0,
            context_menu_node: None,
            context_menu_edge: None,
            context_menu_pos: Point { x: 0, y: 0 },
            history: History::new(),
            line_width: 2,
            line_style: EdgeStyle::Solid,
            animate_edges: true,
        }
    }

    /// Number of nodes.
    pub fn node_count(&self) -> (r: usize)
        ensures
            r == self.nodes@.len(),
    {
        self.nodes.len()
    }

    /// Number of edges.
    pub fn edge_count(&self) -> (r: usize)
        ensures
            r == self.edges@.len(),
    {
        self.edges.len()
    }

    /// The node sequence.
    pub fn nodes(&self) -> (r: &Vec<FlowNode>)
        ensures
            r == &self.nodes,
    {
        &self.nodes
    }

    /// The edge sequence.
    pub fn edges(&self) -> (r: &Vec<EdgeConnection>)
        ensures
            r == &self.edges,
    {
        &self.edges
    }

    /// Advances the animation phase by one tick, wrapping at a full cycle.
    pub fn tick_animation(&mut self)
        requires
            old(self).wf(),
        ensures
            final(self).wf(),
            final(self).animation_phase_milli == (old(self).animation_phase_milli
                + PHASE_TICK_MILLI) % (MILLI as int),
            *final(self) == (FlowCanvas {
                animation_phase_milli: final(self).animation_phase_milli,
                ..*old(self)
            }),
    {
        let next = self.animation_phase_milli + PHASE_TICK_MILLI;
        self.animation_phase_milli = if next >= MILLI {
            next - MILLI
        } else {
            next
        };
    }
}

/// Floor division by a small positive divisor, matching integer division
/// in specifications (which floors toward negative infinity).
pub fn div_floor(a: i64, b: i64) -> (r: i64)
    requires
        0 < b <= 1000000,
        -0x2000_0000_0000_0000 <= a <= 0x2000_0000_0000_0000,
    ensures
        r == a as int / b as int,
        a >= 0 ==> 0 <= r <= a,
        a < 0 ==> a <= r <= 0,
{
    proof {
        vstd::arithmetic::div_mod::lemma_div_multiples_vanish(1, b as int);
    }
    if a >= 0 {
        let q = (a as u64) / (b as u64);
        proof {
            vstd::arithmetic::div_mod::lemma_div_is_ordered(0, a as int, b as int);
            vstd::arithmetic::div_mod::lemma_div_is_ordered_by_denominator(a as int, 1, b as int);
        }
        q as i64
    } else {
        // floor(a / b) == -ceil(-a / b) == -((-a + b - 1) / b)
        let m = (-a) as u64;
        let q = (m + (b as u64) - 1) / (b as u64);
        proof {
            let mi = m as int;
            let bi = b as int;
            vstd::arithmetic::div_mod::lemma_div_is_ordered(0, mi + bi - 1, bi);
            assert(mi + bi - 1 <= mi * bi + bi - 1) by (nonlinear_arith)
                requires
                    mi >= 1 && bi >= 1,
            ;
            vstd::arithmetic::div_mod::lemma_div_is_ordered(mi + bi - 1, mi * bi + bi - 1, bi);
            vstd::arithmetic::div_mod::lemma_div_multiples_vanish_fancy(mi, bi - 1, bi);
            assert(bi * mi + (bi - 1) == mi * bi + bi - 1) by (nonlinear_arith);
            assert((mi + bi - 1) / bi <= mi);
            lemma_neg_ceil_div(a as int, bi);
        }
        -(q as i64)
    }
}

/// Floor division of a negative numerator, written through the ceiling of
/// the negated fraction: `a / b == -((-a + b - 1) / b)` for `a < 0 < b`.
proof fn lemma_neg_ceil_div(a: int, b: int)
    requires
        a < 0,
        0 < b,
    ensures
        a / b == -((-a + b - 1) / b),
{
    let q = a / b;
    let r = a % b;
    vstd::arithmetic::div_mod::lemma_fundamental_div_mod(a, b);
    vstd::arithmetic::div_mod::lemma_mod_bound(a, b);
    // -a + b - 1 == b * (-q) + (b - 1 - r), with 0 <= b - 1 - r < b
    assert(-a + b - 1 == b * (-q) + (b - 1 - r)) by {
        assert(a == b * q + r);
        assert(b * (-q) == -(b * q)) by (nonlinear_arith);
    }
    vstd::arithmetic::div_mod::lemma_fundamental_div_mod_converse(
        -a + b - 1,
        b,
        -q,
        b - 1 - r,
    );
}

/// The canvas point under a screen position: the inverse of the view
/// transform, with flooring division.
pub open spec fn spec_screen_to_canvas(
    pan: Point,
    zoom_milli: i64,
    area_pos: Point,
    screen: Point,
) -> Point {
    Point {
        x: (((screen.x - area_pos.x - pan.x) * MILLI) / zoom_milli as int) as i64,
        y: (((screen.y - area_pos.y - pan.y) * MILLI) / zoom_milli as int) as i64,
    }
}

/// The screen position of a canvas point under the view transform
/// `screen = canvas * zoom + pan`, with flooring division.
pub open spec fn spec_canvas_to_screen(pan: Point, zoom_milli: i64, canvas: Point) -> Point {
    Point {
        x: ((canvas.x * zoom_milli) / MILLI as int + pan.x) as i64,
        y: ((canvas.y * zoom_milli) / MILLI as int + pan.y) as i64,
    }
}

impl FlowCanvas {
    /// Maps an absolute screen position to canvas space.
    pub fn screen_to_canvas(&self, screen: Point, area_pos: Point) -> (r: Point)
        requires
            self.wf(),
            input_pt_bounded(screen),
            input_pt_bounded(area_pos),
        ensures
            r == spec_screen_to_canvas(self.pan_offset, self.zoom_milli, area_pos, screen),
            canvas_pt_bounded(r),
    {
        let nx = (screen.x - area_pos.x - self.pan_offset.x) * MILLI;
        let ny = (screen.y - area_pos.y - self.pan_offset.y) * MILLI;
        let x = div_floor(nx, self.zoom_milli);
        let y = div_floor(ny, self.zoom_milli);
        proof {
            lemma_div_bound_by_quarter(nx as int, self.zoom_milli as int);
            lemma_div_bound_by_quarter(ny as int, self.zoom_milli as int);
        }
        Point { x, y }
    }

    /// Maps a canvas point to an absolute screen position.
    pub fn canvas_to_screen_pt(&self, canvas: Point) -> (r: Point)
        requires
            self.wf(),
            -GRAB_LIMIT <= canvas.x <= GRAB_LIMIT,
            -GRAB_LIMIT <= canvas.y <= GRAB_LIMIT,
        ensures
            r == spec_canvas_to_screen(self.pan_offset, self.zoom_milli, canvas),
            -SCREEN_OUT_LIMIT <= r.x <= SCREEN_OUT_LIMIT,
            -SCREEN_OUT_LIMIT <= r.y <= SCREEN_OUT_LIMIT,
    {
        proof {
            lemma_zoom_scale_bounded(canvas.x as int, self.zoom_milli as int);
            lemma_zoom_scale_bounded(canvas.y as int, self.zoom_milli as int);
            lemma_div_magnitude(
                canvas.x as int * self.zoom_milli as int,
                MILLI as int,
                GRAB_LIMIT as int * 16,
            );
            lemma_div_magnitude(
                canvas.y as int * self.zoom_milli as int,
                MILLI as int,
                GRAB_LIMIT as int * 16,
            );
        }
        let sx = div_floor(canvas.x * self.zoom_milli, MILLI) + self.pan_offset.x;
        let sy = div_floor(canvas.y * self.zoom_milli, MILLI) + self.pan_offset.y;
        Point { x: sx, y: sy }
    }
}

/// A numerator within `bound * 250` divided by a divisor of at least 250
/// stays within `bound`; used to bound pointer positions mapped into canvas
/// space and scaled canvas points mapped back to the screen.
proof fn lemma_div_magnitude(n: int, z: int, bound: int)
    requires
        250 <= z,
        0 <= bound,
        -bound * 250 <= n <= bound * 250,
    ensures
        -bound <= n / z <= bound,
{
    assert(bound * 250 <= bound * z && -(bound * z) <= -(bound * 250)) by (nonlinear_arith)
        requires
            0 <= bound && 250 <= z,
    ;
    assert(z * bound == bound * z) by (nonlinear_arith);
    assert(z * (-bound) == -(bound * z)) by (nonlinear_arith);
    vstd::arithmetic::div_mod::lemma_div_is_ordered(n, z * bound, z);
    vstd::arithmetic::div_mod::lemma_div_is_ordered(z * (-bound), n, z);
    vstd::arithmetic::div_mod::lemma_div_multiples_vanish(bound, z);
    vstd::arithmetic::div_mod::lemma_div_multiples_vanish(-bound, z);
}

/// The quarter-zoom case of `lemma_div_magnitude`, phrased for the inverse
/// view transform.
proof fn lemma_div_bound_by_quarter(n: int, z: int)
    requires
        MIN_ZOOM_MILLI <= z <= MAX_ZOOM_MILLI,
        -CANVAS_PT_LIMIT * 250 <= n <= CANVAS_PT_LIMIT * 250,
    ensures
        -CANVAS_PT_LIMIT <= n / z <= CANVAS_PT_LIMIT,
{
    lemma_div_magnitude(n, z, CANVAS_PT_LIMIT as int);
}

/// One zoom step: ten percent in or out, clamped to the zoom range.
pub open spec fn zoom_step_spec(zoom_milli: i64, zoom_in: bool) -> i64 {
    let raw = if zoom_in {
        zoom_milli as int * 11 / 10
    } else {
        zoom_milli as int * 9 / 10
    };
    if raw < MIN_ZOOM_MILLI {
        MIN_ZOOM_MILLI
    } else if raw > MAX_ZOOM_MILLI {
        MAX_ZOOM_MILLI
    } else {
        raw as i64
    }
}

/// However often the wheel turns, the zoom factor never leaves its range:
/// a step from inside the range stays inside, so zooming in never exceeds
/// the maximum and zooming out never falls below the minimum.
pub proof fn lemma_zoom_stays_clamped(zoom_milli: i64, zoom_in: bool)
    requires
        MIN_ZOOM_MILLI <= zoom_milli <= MAX_ZOOM_MILLI,
    ensures
        MIN_ZOOM_MILLI <= zoom_step_spec(zoom_milli, zoom_in) <= MAX_ZOOM_MILLI,
{
}

impl FlowCanvas {
    /// A wheel event: zooms ten percent in or out, clamped, and re-centers
    /// the pan offset so the canvas point under the cursor keeps its screen
    /// position (up to the fixed-point rounding), itself clamped to the pan
    /// range.
    pub fn wheel(&mut self, screen: Point, area_pos: Point, zoom_in: bool)
        requires
            old(self).wf(),
            input_pt_bounded(screen),
            input_pt_bounded(area_pos),
        ensures
            final(self).wf(),
            final(self).zoom_milli == zoom_step_spec(old(self).zoom_milli, zoom_in),
            ({
                let local = spec_screen_to_canvas(
                    old(self).pan_offset,
                    old(self).zoom_milli,
                    area_pos,
                    screen,
                );
                let z = final(self).zoom_milli;
                final(self).pan_offset == (Point {
                    x: clamp_pan((screen.x - area_pos.x) as int - (local.x * z) / (MILLI as int)),
                    y: clamp_pan((screen.y - area_pos.y) as int - (local.y * z) / (MILLI as int)),
                })
            }),
            final(self).nodes@ == old(self).nodes@,
            final(self).edges@ == old(self).edges@,
            final(self).selected_nodes@ == old(self).selected_nodes@,
            final(self).selected_edges@ == old(self).selected_edges@,
    {
        let local = self.screen_to_canvas(screen, area_pos);
        let raw = if zoom_in {
            div_floor(self.zoom_milli * 11, 10)
        } else {
            div_floor(self.zoom_milli * 9, 10)
        };
        self.zoom_milli = if raw < MIN_ZOOM_MILLI {
            MIN_ZOOM_MILLI
        } else if raw > MAX_ZOOM_MILLI {
            MAX_ZOOM_MILLI
        } else {
            raw
        };
        proof {
            lemma_zoom_scale_bounded(local.x as int, self.zoom_milli as int);
            lemma_zoom_scale_bounded(local.y as int, self.zoom_milli as int);
        }
        let px = clamp_pan_x(screen.x - area_pos.x - div_floor(local.x * self.zoom_milli, MILLI));
        let py = clamp_pan_x(screen.y - area_pos.y - div_floor(local.y * self.zoom_milli, MILLI));
        self.pan_offset = Point { x: px, y: py };
    }
}

/// Bound on a canvas point mapped to screen space.
pub const SCREEN_OUT_LIMIT: i64 = 0x1_0000_0000_0000;

/// A canvas coordinate within the grab bound, scaled by a clamped zoom
/// factor, stays well within the 64-bit range.
proof fn lemma_zoom_scale_bounded(c: int, z: int)
    by (nonlinear_arith)
    requires
        -GRAB_LIMIT <= c <= GRAB_LIMIT,
        0 < z <= MAX_ZOOM_MILLI,
    ensures
        -GRAB_LIMIT * 4000 <= c * z <= GRAB_LIMIT * 4000,
        -0x2000_0000_0000_0000 <= c * z <= 0x2000_0000_0000_0000,
{
}

/// Scaling a node dimension (or a layout constant) by the clamped zoom and
/// dividing by the unit keeps small bounds: a value within the node size
/// limit scaled by at most four stays within four times the limit.
pub proof fn lemma_zoom_scale_for_render(c: int, z: int)
    requires
        0 <= c <= crate::model::NODE_SIZE_LIMIT,
        MIN_ZOOM_MILLI <= z <= MAX_ZOOM_MILLI,
    ensures
        0 <= c * z <= 0x2000_0000_0000_0000,
        0 <= (c * z) / (MILLI as int),
        c <= 32 ==> (c * z) / (MILLI as int) <= 128,
        c <= 20 ==> (c * z) / (MILLI as int) <= 80,
        (c * z) / (MILLI as int) <= 0x400_0000,
{
    assert(0 <= c * z && c * z <= crate::model::NODE_SIZE_LIMIT * 4000) by (nonlinear_arith)
        requires
            0 <= c <= crate::model::NODE_SIZE_LIMIT,
            0 < z <= 4000,
    ;
    vstd::arithmetic::div_mod::lemma_div_is_ordered(0, c * z, MILLI as int);
    if c <= 32 {
        assert(c * z <= 128 * 1000) by (nonlinear_arith)
            requires
                0 <= c <= 32,
                0 < z <= 4000,
        ;
        vstd::arithmetic::div_mod::lemma_div_is_ordered(c * z, 128000int, MILLI as int);
        vstd::arithmetic::div_mod::lemma_div_multiples_vanish(128, MILLI as int);
    }
    if c <= 20 {
        assert(c * z <= 80 * 1000) by (nonlinear_arith)
            requires
                0 <= c <= 20,
                0 < z <= 4000,
        ;
        vstd::arithmetic::div_mod::lemma_div_is_ordered(c * z, 80000int, MILLI as int);
        vstd::arithmetic::div_mod::lemma_div_multiples_vanish(80, MILLI as int);
    }
    vstd::arithmetic::div_mod::lemma_div_is_ordered(
        c * z,
        crate::model::NODE_SIZE_LIMIT as int * 4000,
        MILLI as int,
    );
    vstd::arithmetic::div_mod::lemma_div_multiples_vanish(
        crate::model::NODE_SIZE_LIMIT as int * 4,
        MILLI as int,
    );
    assert((MILLI as int) * (crate::model::NODE_SIZE_LIMIT as int * 4)
        == crate::model::NODE_SIZE_LIMIT as int * 4000) by (nonlinear_arith);
}

/// A pan coordinate clamped to the pan range.
pub open spec fn clamp_pan(v: int) -> i64 {
    if v < -PAN_LIMIT {
        (-PAN_LIMIT) as i64
    } else if v > PAN_LIMIT {
        PAN_LIMIT
    } else {
        v as i64
    }
}

/// Clamps a pan coordinate to the pan range.
pub fn clamp_pan_x(v: i64) -> (r: i64)
    ensures
        r == clamp_pan(v as int),
{
    if v < -PAN_LIMIT {
        -PAN_LIMIT
    } else if v > PAN_LIMIT {
        PAN_LIMIT
    } else {
        v
    }
}



impl FlowCanvas {
    /// Toggles node `i` in the node selection: out if present, in if not.
    pub fn toggle_node_selection(&mut self, i: usize)
        requires
            old(self).wf(),
            i < old(self).nodes@.len(),
        ensures
            final(self).wf(),
            crate::graph::sel_set(final(self).selected_nodes@) == if crate::graph::sel_set(
                old(self).selected_nodes@,
            ).contains(i as int) {
                crate::graph::sel_set(old(self).selected_nodes@).remove(i as int)
            } else {
                crate::graph::sel_set(old(self).selected_nodes@).insert(i as int)
            },
            final(self).nodes@ == old(self).nodes@,
            final(self).edges@ == old(self).edges@,
            final(self).selected_edges@ == old(self).selected_edges@,
    {
        let ghost bound = self.nodes@.len() as int;
        sel_toggle(&mut self.selected_nodes, i, Ghost(bound));
    }

    /// Toggles edge `i` in the edge selection: out if present, in if not.
    pub fn toggle_edge_selection(&mut self, i: usize)
        requires
            old(self).wf(),
            i < old(self).edges@.len(),
        ensures
            final(self).wf(),
            crate::graph::sel_set(final(self).selected_edges@) == if crate::graph::sel_set(
                old(self).selected_edges@,
            ).contains(i as int) {
                crate::graph::sel_set(old(self).selected_edges@).remove(i as int)
            } else {
                crate::graph::sel_set(old(self).selected_edges@).insert(i as int)
            },
            final(self).nodes@ == old(self).nodes@,
            final(self).edges@ == old(self).edges@,
            final(self).selected_nodes@ == old(self).selected_nodes@,
    {
        let ghost bound = self.edges@.len() as int;
        sel_toggle(&mut self.selected_edges, i, Ghost(bound));
    }
}

/// Whether the selection `sel` holds the index `v`.
pub fn sel_contains(sel: &Vec<usize>, v: usize) -> (r: bool)
    ensures
        r == crate::graph::sel_set(sel@).contains(v as int),
{
    let mut i: usize = 0;
    while i < sel.len()
        invariant
            0 <= i <= sel@.len(),
            forall|j: int| 0 <= j < i ==> sel@[j] != v,
        decreases sel@.len() - i,
    {
        if sel[i] == v {
            assert(crate::graph::sel_set(sel@).contains(v as int));
            return true;
        }
        i += 1;
    }
    assert(!crate::graph::sel_set(sel@).contains(v as int));
    false
}

/// Inserts `v` into the sorted selection if absent, removes it if present.
pub fn sel_toggle(sel: &mut Vec<usize>, v: usize, Ghost(bound): Ghost<int>)
    requires
        strictly_increasing_below(old(sel)@, bound),
        v < bound,
    ensures
        strictly_increasing_below(final(sel)@, bound),
        crate::graph::sel_set(final(sel)@) == if crate::graph::sel_set(old(sel)@).contains(
            v as int,
        ) {
            crate::graph::sel_set(old(sel)@).remove(v as int)
        } else {
            crate::graph::sel_set(old(sel)@).insert(v as int)
        },
{
    let ghost pre = sel@;
    let mut i: usize = 0;
    while i < sel.len() && sel[i] < v
        invariant
            0 <= i <= sel@.len(),
            sel@ == pre,
            strictly_increasing_below(pre, bound),
            forall|j: int| 0 <= j < i ==> pre[j] < v,
            i < pre.len() ==> (forall|j: int| 0 <= j < i ==> pre[j] < pre[i as int]),
        decreases sel@.len() - i,
    {
        i += 1;
    }
    // every entry past i is at least v, and entries before i are below v
    assert(forall|j: int| i <= j < pre.len() ==> v <= #[trigger] pre[j]) by {
        assert forall|j: int| i <= j < pre.len() implies v <= #[trigger] pre[j] by {
            if j > i {
                assert(pre[i as int] < pre[j]);
            }
        }
    }
    if i < sel.len() && sel[i] == v {
        let _ = sel.remove(i);
        proof {
            assert forall|w: int|
                crate::graph::sel_set(sel@).contains(w) <==> crate::graph::sel_set(
                    pre,
                ).remove(v as int).contains(w) by {
                if crate::graph::sel_set(sel@).contains(w) {
                    let j = choose|j: int| 0 <= j < sel@.len() && sel@[j] == w;
                    if j < i {
                        assert(pre[j] == w);
                    } else {
                        assert(pre[j + 1] == w);
                    }
                }
                if crate::graph::sel_set(pre).remove(v as int).contains(w) {
                    let j = choose|j: int| 0 <= j < pre.len() && pre[j] == w;
                    if j < i {
                        assert(sel@[j] == w);
                    } else {
                        assert(j != i);
                        assert(sel@[j - 1] == w);
                    }
                }
            }
            assert(crate::graph::sel_set(sel@) =~= crate::graph::sel_set(pre).remove(v as int));
            assert(crate::graph::sel_set(pre).contains(v as int));
        }
    } else {
        sel.insert(i, v);
        proof {
            assert(forall|j: int| 0 <= j < pre.len() ==> pre[j] != v);
            assert(!crate::graph::sel_set(pre).contains(v as int));
            assert forall|w: int|
                crate::graph::sel_set(sel@).contains(w) <==> crate::graph::sel_set(pre).insert(
                    v as int,
                ).contains(w) by {
                if crate::graph::sel_set(sel@).contains(w) {
                    let j = choose|j: int| 0 <= j < sel@.len() && sel@[j] == w;
                    if j < i {
                        assert(pre[j] == w);
                    } else if j == i {
                    } else {
                        assert(pre[j - 1] == w);
                    }
                }
                if w != v && crate::graph::sel_set(pre).contains(w) {
                    let j = choose|j: int| 0 <= j < pre.len() && pre[j] == w;
                    if j < i {
                        assert(sel@[j] == w);
                    } else {
                        assert(sel@[j + 1] == w);
                    }
                }
                if w == v {
                    assert(sel@[i as int] == v);
                }
            }
            assert(crate::graph::sel_set(sel@) =~= crate::graph::sel_set(pre).insert(v as int));
        }
    }
}

/// The first node (in node order) whose output or input port hit box holds
/// `p`, scanning from index `i`; the output box of each node is tried
/// before its input box, and a camera has no input, a visualizer no output.
pub open spec fn port_hit_from(nodes: Seq<FlowNode>, p: Point, i: int) -> Option<(usize, bool)>
    decreases nodes.len() - i,
{
    if i < 0 || i >= nodes.len() {
        None
    } else if nodes[i].node_type != NodeType::Visualizer
        && nodes[i].spec_output_port_rect().spec_contains(p) {
        Some((i as usize, true))
    } else if nodes[i].node_type != NodeType::Camera
        && nodes[i].spec_input_port_rect().spec_contains(p) {
        Some((i as usize, false))
    } else {
        port_hit_from(nodes, p, i + 1)
    }
}

/// The topmost node (highest index, drawn last) whose bounding box holds
/// `p`, among the first `i` nodes.
pub open spec fn node_hit_before(nodes: Seq<FlowNode>, p: Point, i: int) -> Option<usize>
    decreases i,
{
    if i <= 0 || i > nodes.len() {
        None
    } else if nodes[i - 1].spec_contains(p) {
        Some((i - 1) as usize)
    } else {
        node_hit_before(nodes, p, i - 1)
    }
}

/// An edge whose endpoints are in range of the node sequence.
pub open spec fn edge_valid(e: EdgeConnection, node_count: int) -> bool {
    e.from_node < node_count && e.to_node < node_count
}

/// The first edge (in edge order) whose curve runs within the hit threshold
/// of `p`, scanning from index `i`; dangling edges never hit.
pub open spec fn edge_hit_from(
    nodes: Seq<FlowNode>,
    edges: Seq<EdgeConnection>,
    p: Point,
    i: int,
) -> Option<usize>
    decreases edges.len() - i,
{
    if i < 0 || i >= edges.len() {
        None
    } else if edge_valid(edges[i], nodes.len() as int) && crate::geometry::near_curve(
        p,
        nodes[edges[i].from_node as int].spec_output_pos(),
        nodes[edges[i].to_node as int].spec_input_pos(),
    ) {
        Some(i as usize)
    } else {
        edge_hit_from(nodes, edges, p, i + 1)
    }
}

impl FlowCanvas {
    /// Finds the port under `p`, as `port_hit_from` describes.
    pub fn find_port_hit(&self, p: Point) -> (r: Option<(usize, bool)>)
        requires
            self.wf(),
            canvas_pt_bounded(p),
        ensures
            r == port_hit_from(self.nodes@, p, 0),
            r matches Some((i, _)) ==> i < self.nodes@.len(),
    {
        let mut i: usize = 0;
        while i < self.nodes.len()
            invariant
                self.wf(),
                canvas_pt_bounded(p),
                0 <= i <= self.nodes@.len(),
                port_hit_from(self.nodes@, p, 0) == port_hit_from(self.nodes@, p, i as int),
            decreases self.nodes@.len() - i,
        {
            let node = &self.nodes[i];
            if !matches!(node.node_type, NodeType::Visualizer) {
                let rect = node.output_port_rect();
                if rect.contains(p) {
                    return Some((i, true));
                }
            }
            if !matches!(node.node_type, NodeType::Camera) {
                let rect = node.input_port_rect();
                if rect.contains(p) {
                    return Some((i, false));
                }
            }
            i += 1;
        }
        None
    }

    /// Finds the topmost node under `p`, as `node_hit_before` describes.
    pub fn find_node_hit(&self, p: Point) -> (r: Option<usize>)
        requires
            self.wf(),
        ensures
            r == node_hit_before(self.nodes@, p, self.nodes@.len() as int),
            r matches Some(i) ==> i < self.nodes@.len(),
    {
        let mut i: usize = self.nodes.len();
        while i > 0
            invariant
                self.wf(),
                0 <= i <= self.nodes@.len(),
                node_hit_before(self.nodes@, p, self.nodes@.len() as int) == node_hit_before(
                    self.nodes@,
                    p,
                    i as int,
                ),
            decreases i,
        {
            let node = &self.nodes[i - 1];
            if node.contains(p) {
                return Some(i - 1);
            }
            i -= 1;
        }
        None
    }

    /// Finds the first edge near `p`, as `edge_hit_from` describes.
    pub fn find_edge_hit(&self, p: Point) -> (r: Option<usize>)
        requires
            self.wf(),
            canvas_pt_bounded(p),
        ensures
            r == edge_hit_from(self.nodes@, self.edges@, p, 0),
            r matches Some(i) ==> i < self.edges@.len(),
    {
        let mut i: usize = 0;
        while i < self.edges.len()
            invariant
                self.wf(),
                canvas_pt_bounded(p),
                0 <= i <= self.edges@.len(),
                edge_hit_from(self.nodes@, self.edges@, p, 0) == edge_hit_from(
                    self.nodes@,
                    self.edges@,
                    p,
                    i as int,
                ),
            decreases self.edges@.len() - i,
        {
            let e = &self.edges[i];
            if e.from_node < self.nodes.len() && e.to_node < self.nodes.len() {
                let from = self.nodes[e.from_node].output_pos();
                let to = self.nodes[e.to_node].input_pos();
                if crate::geometry::point_near_curve(p, from, to) {
                    return Some(i);
                }
            }
            i += 1;
        }
        None
    }

    /// Selects every node and no edge.
    pub fn select_all(&mut self)
        requires
            old(self).wf(),
        ensures
            final(self).wf(),
            final(self).selected_nodes@.len() == final(self).nodes@.len(),
            forall|i: int|
                0 <= i < final(self).selected_nodes@.len() ==> final(self).selected_nodes@[i] == i,
            final(self).selected_edges@.len() == 0,
            *final(self) == (FlowCanvas {
                selected_nodes: final(self).selected_nodes,
                selected_edges: final(self).selected_edges,
                ..*old(self)
            }),
    {
        let mut sel: Vec<usize> = Vec::new();
        let mut i: usize = 0;
        while i < self.nodes.len()
            invariant
                0 <= i <= self.nodes@.len(),
                sel@.len() == i,
                forall|j: int| 0 <= j < i ==> sel@[j] == j,
            decreases self.nodes@.len() - i,
        {
            sel.push(i);
            i += 1;
        }
        self.selected_nodes = sel;
        self.selected_edges = Vec::new();
    }

    /// Clears the selections, closes any menu and abandons any drag.
    pub fn escape(&mut self)
        requires
            old(self).wf(),
        ensures
            final(self).wf(),
            final(self).selected_nodes@.len() == 0,
            final(self).selected_edges@.len() == 0,
            final(self).context_menu_node is None,
            final(self).context_menu_edge is None,
            final(self).drag_state is Idle,
            *final(self) == (FlowCanvas {
                selected_nodes: final(self).selected_nodes,
                selected_edges: final(self).selected_edges,
                context_menu_node: None,
                context_menu_edge: None,
                drag_state: final(self).drag_state,
                ..*old(self)
            }),
    {
        self.selected_nodes = Vec::new();
        self.selected_edges = Vec::new();
        self.context_menu_node = None;
        self.context_menu_edge = None;
        self.drag_state = DragState::Idle;
    }
}


/// The graph after deleting the selected nodes, processed from the largest
/// index down: each step drops the edges touching the node, decrements the
/// surviving edge endpoints past it, and removes the node.
pub open spec fn remove_nodes_desc(
    nodes: Seq<FlowNode>,
    edges: Seq<EdgeConnection>,
    sel: Seq<usize>,
) -> (Seq<FlowNode>, Seq<EdgeConnection>)
    decreases sel.len(),
{
    if sel.len() == 0 {
        (nodes, edges)
    } else {
        let idx = sel.last() as int;
        if idx < nodes.len() {
            remove_nodes_desc(
                nodes.remove(idx),
                crate::graph::reindexed(edges, idx),
                sel.drop_last(),
            )
        } else {
            remove_nodes_desc(nodes, edges, sel.drop_last())
        }
    }
}


/// What deleting the selection does: a no-op without one; else one
/// checkpoint of the old graph, the selected edges dropped, the selected
/// nodes removed from the largest index down with their edge cascades, and
/// the selections cleared.
pub open spec fn deletion_post(
    o: FlowCanvas,
    s: FlowCanvas,
    acts: Seq<FlowCanvasAction>,
) -> bool {
    &&& (o.selected_nodes@.len() == 0 && o.selected_edges@.len() == 0 ==> {
        &&& s == o
        &&& acts.len() == 0
    })
    &&& (o.selected_nodes@.len() > 0 || o.selected_edges@.len() > 0 ==> {
        let edges1 = if o.selected_edges@.len() > 0 {
            crate::graph::drop_indices(o.edges@, crate::graph::sel_set(o.selected_edges@))
        } else {
            o.edges@
        };
        let after = remove_nodes_desc(o.nodes@, edges1, o.selected_nodes@);
        &&& s.nodes@ == after.0
        &&& s.edges@ == after.1
        &&& s.selected_nodes@.len() == 0
        &&& s.selected_edges@.len() == 0
        &&& crate::history::stack_abs(s.history.undo_stack@) == crate::history::save_spec(
            crate::history::stack_abs(o.history.undo_stack@),
            crate::history::graph_abs(o.nodes@, o.edges@),
        )
        &&& s.history.redo_stack@.len() == 0
        &&& s.drag_state is Idle
        &&& s.context_menu_node is None
        &&& s.context_menu_edge is None
        &&& s == (FlowCanvas {
            nodes: s.nodes,
            edges: s.edges,
            selected_nodes: s.selected_nodes,
            selected_edges: s.selected_edges,
            drag_state: s.drag_state,
            context_menu_node: s.context_menu_node,
            context_menu_edge: s.context_menu_edge,
            history: s.history,
            ..o
        })
        &&& acts == (if o.selected_edges@.len() > 0 {
            seq![FlowCanvasAction::EdgeDeleted]
        } else {
            Seq::<FlowCanvasAction>::empty()
        }) + (if o.selected_nodes@.len() > 0 {
            seq![FlowCanvasAction::NodeDeleted]
        } else {
            Seq::<FlowCanvasAction>::empty()
        })
    })
}

impl FlowCanvas {
    /// Deletes the current selection: selected edges first, then selected
    /// nodes from the largest index down, each with its edge cascade; one
    /// checkpoint covers the whole deletion. A no-op without a selection.
    pub fn delete_selected(&mut self) -> (acts: Vec<FlowCanvasAction>)
        requires
            old(self).wf(),
        ensures
            final(self).wf(),
            deletion_post(*old(self), *final(self), acts@),
    {
        let mut acts: Vec<FlowCanvasAction> = Vec::new();
        if self.selected_edges.is_empty() && self.selected_nodes.is_empty() {
            return acts;
        }
        self.history.save_checkpoint(&self.nodes, &self.edges);
        if !self.selected_edges.is_empty() {
            crate::graph::remove_selected(&mut self.edges, &self.selected_edges);
            proof {
                crate::graph::lemma_drop_indices_elements(
                    old(self).edges@,
                    crate::graph::sel_set(old(self).selected_edges@),
                );
            }
            self.selected_edges = Vec::new();
            acts.push(FlowCanvasAction::EdgeDeleted);
        }
        let ghost edges1 = self.edges@;
        if !self.selected_nodes.is_empty() {
            let ghost all_sel = self.selected_nodes@;
            let mut k: usize = self.selected_nodes.len();
            proof {
                assert(all_sel.take(k as int) =~= all_sel);
            }
            while k > 0
                invariant
                    0 <= k <= all_sel.len(),
                    all_sel == self.selected_nodes@,
                    crate::history::graph_wf(self.nodes@, self.edges@),
                    strictly_increasing_below(
                        all_sel.take(k as int),
                        self.nodes@.len() as int,
                    ),
                    remove_nodes_desc(self.nodes@, self.edges@, all_sel.take(k as int))
                        == remove_nodes_desc(old(self).nodes@, edges1, all_sel),
                    *self == (FlowCanvas {
                        nodes: self.nodes,
                        edges: self.edges,
                        selected_edges: self.selected_edges,
                        history: self.history,
                        ..*old(self)
                    }),
                    self.history.wf(),
                    crate::history::stack_abs(self.history.undo_stack@)
                        == crate::history::save_spec(
                        crate::history::stack_abs(old(self).history.undo_stack@),
                        crate::history::graph_abs(old(self).nodes@, old(self).edges@),
                    ),
                    self.history.redo_stack@.len() == 0,
                    self.selected_edges@.len() == 0,
                decreases k,
            {
                let idx = self.selected_nodes[k - 1];
                proof {
                    assert(all_sel.take(k as int).last() == all_sel[k - 1]);
                    assert(all_sel.take(k as int).drop_last() =~= all_sel.take(k - 1));
                }
                if idx < self.nodes.len() {
                    let ghost pre_edges = self.edges@;
                    crate::graph::remove_node_edges(&mut self.edges, idx);
                    let _ = self.nodes.remove(idx);
                    proof {
                        crate::graph::lemma_reindexed_elements(pre_edges, idx as int);
                        assert forall|j: int|
                            0 <= j < all_sel.take(k - 1).len() implies #[trigger] all_sel.take(
                            k - 1,
                        )[j] < self.nodes@.len() by {
                            assert(all_sel.take(k as int)[j] < all_sel.take(k as int)[k - 1]);
                        }
                    }
                }
                k -= 1;
            }
            proof {
                assert(all_sel.take(0) =~= Seq::<usize>::empty());
            }
            self.selected_nodes = Vec::new();
            acts.push(FlowCanvasAction::NodeDeleted);
        }
        self.drag_state = DragState::Idle;
        self.context_menu_node = None;
        self.context_menu_edge = None;
        proof {
            let expect = (if old(self).selected_edges@.len() > 0 {
                seq![FlowCanvasAction::EdgeDeleted]
            } else {
                Seq::<FlowCanvasAction>::empty()
            }) + (if old(self).selected_nodes@.len() > 0 {
                seq![FlowCanvasAction::NodeDeleted]
            } else {
                Seq::<FlowCanvasAction>::empty()
            });
            assert(acts@ =~= expect);
            if old(self).selected_nodes@.len() == 0 {
                assert(remove_nodes_desc(old(self).nodes@, self.edges@, old(self).selected_nodes@)
                    == (old(self).nodes@, self.edges@));
            }
        }
        acts
    }

    /// Undoes the last checkpoint, clearing the selections; a no-op when
    /// there is nothing to undo.
    pub fn undo(&mut self) -> (did: bool)
        requires
            old(self).wf(),
        ensures
            final(self).wf(),
            did == (old(self).history.undo_stack@.len() > 0),
            ({
                let (u, r, c) = crate::history::undo_spec(
                    crate::history::stack_abs(old(self).history.undo_stack@),
                    crate::history::stack_abs(old(self).history.redo_stack@),
                    crate::history::graph_abs(old(self).nodes@, old(self).edges@),
                );
                &&& crate::history::stack_abs(final(self).history.undo_stack@) == u
                &&& crate::history::stack_abs(final(self).history.redo_stack@) == r
                &&& crate::history::graph_abs(final(self).nodes@, final(self).edges@) == c
            }),
            did ==> final(self).selected_nodes@.len() == 0 && final(self).selected_edges@.len() == 0,
            !did ==> {
                &&& final(self).nodes@ == old(self).nodes@
                &&& final(self).edges@ == old(self).edges@
                &&& final(self).selected_nodes@ == old(self).selected_nodes@
                &&& final(self).selected_edges@ == old(self).selected_edges@
                &&& final(self).drag_state == old(self).drag_state
            },
            *final(self) == (FlowCanvas {
                nodes: final(self).nodes,
                edges: final(self).edges,
                selected_nodes: final(self).selected_nodes,
                selected_edges: final(self).selected_edges,
                drag_state: final(self).drag_state,
                history: final(self).history,
                ..*old(self)
            }),
    {
        let did = self.history.undo(&mut self.nodes, &mut self.edges);
        if did {
            self.selected_nodes = Vec::new();
            self.selected_edges = Vec::new();
            self.drag_state = DragState::Idle;
        }
        did
    }

    /// Redoes the last undone checkpoint, clearing the selections; a no-op
    /// when there is nothing to redo.
    pub fn redo(&mut self) -> (did: bool)
        requires
            old(self).wf(),
        ensures
            final(self).wf(),
            did == (old(self).history.redo_stack@.len() > 0),
            ({
                let (u, r, c) = crate::history::redo_spec(
                    crate::history::stack_abs(old(self).history.undo_stack@),
                    crate::history::stack_abs(old(self).history.redo_stack@),
                    crate::history::graph_abs(old(self).nodes@, old(self).edges@),
                );
                &&& crate::history::stack_abs(final(self).history.undo_stack@) == u
                &&& crate::history::stack_abs(final(self).history.redo_stack@) == r
                &&& crate::history::graph_abs(final(self).nodes@, final(self).edges@) == c
            }),
            did ==> final(self).selected_nodes@.len() == 0 && final(self).selected_edges@.len() == 0,
            !did ==> {
                &&& final(self).nodes@ == old(self).nodes@
                &&& final(self).edges@ == old(self).edges@
                &&& final(self).selected_nodes@ == old(self).selected_nodes@
                &&& final(self).selected_edges@ == old(self).selected_edges@
                &&& final(self).drag_state == old(self).drag_state
            },
            *final(self) == (FlowCanvas {
                nodes: final(self).nodes,
                edges: final(self).edges,
                selected_nodes: final(self).selected_nodes,
                selected_edges: final(self).selected_edges,
                drag_state: final(self).drag_state,
                history: final(self).history,
                ..*old(self)
            }),
    {
        let did = self.history.redo(&mut self.nodes, &mut self.edges);
        if did {
            self.selected_nodes = Vec::new();
            self.selected_edges = Vec::new();
            self.drag_state = DragState::Idle;
        }
        did
    }

    /// Adds a node of the given kind near the center of the view, after a
    /// checkpoint, and selects it. A custom node is titled by the running
    /// node counter.
    pub fn add_node(&mut self, node_type: NodeType)
        requires
            old(self).wf(),
        ensures
            final(self).wf(),
            final(self).nodes@.len() == old(self).nodes@.len() + 1,
            final(self).nodes@.take(old(self).nodes@.len() as int) == old(self).nodes@,
            ({
                let n = final(self).nodes@.last();
                &&& n.x == crate::canvas::add_node_x(old(self).pan_offset.x, old(self).zoom_milli)
                &&& n.y == crate::canvas::add_node_y(old(self).pan_offset.y, old(self).zoom_milli)
                &&& n.node_type == node_type
                &&& (node_type == NodeType::Custom ==> n.title@ == "Node "@
                    + crate::text::dec_digits(old(self).next_node_id as int))
            }),
            final(self).edges@ == old(self).edges@,
            final(self).selected_nodes@ == seq![old(self).nodes@.len() as usize],
            final(self).selected_edges == old(self).selected_edges,
            final(self).next_node_id as int == if old(self).next_node_id < u64::MAX {
                old(self).next_node_id as int + 1
            } else {
                old(self).next_node_id as int
            },
            crate::history::stack_abs(final(self).history.undo_stack@)
                == crate::history::save_spec(
                crate::history::stack_abs(old(self).history.undo_stack@),
                crate::history::graph_abs(old(self).nodes@, old(self).edges@),
            ),
            final(self).history.redo_stack@.len() == 0,
            *final(self) == (FlowCanvas {
                nodes: final(self).nodes,
                selected_nodes: final(self).selected_nodes,
                next_node_id: final(self).next_node_id,
                history: final(self).history,
                ..*old(self)
            }),
    {
        self.history.save_checkpoint(&self.nodes, &self.edges);
        proof {
            lemma_div_magnitude(
                (0 - self.pan_offset.x as int) * MILLI as int,
                self.zoom_milli as int,
                PAN_LIMIT as int * 4,
            );
            lemma_div_magnitude(
                (0 - self.pan_offset.y as int) * MILLI as int,
                self.zoom_milli as int,
                PAN_LIMIT as int * 4,
            );
        }
        let x = div_floor((0 - self.pan_offset.x) * MILLI, self.zoom_milli) + ADD_NODE_OFFSET_X;
        let y = div_floor((0 - self.pan_offset.y) * MILLI, self.zoom_milli) + ADD_NODE_OFFSET_Y;
        let mut node = FlowNode::new(x, y, node_type);
        if matches!(node_type, NodeType::Custom) {
            let mut title_chars = crate::text::chars_of("Node ");
            crate::text::push_decimal(&mut title_chars, self.next_node_id);
            node.title = crate::text::string_from_chars(&title_chars);
        }
        if self.next_node_id < u64::MAX {
            self.next_node_id = self.next_node_id + 1;
        }
        self.nodes.push(node);
        let mut sel: Vec<usize> = Vec::new();
        sel.push(self.nodes.len() - 1);
        self.selected_nodes = sel;
        proof {
            assert(self.nodes@.take(old(self).nodes@.len() as int) =~= old(self).nodes@);
        }
    }

    /// Empties the graph after a checkpoint and clears the selections.
    pub fn clear(&mut self)
        requires
            old(self).wf(),
        ensures
            final(self).wf(),
            final(self).nodes@.len() == 0,
            final(self).edges@.len() == 0,
            final(self).selected_nodes@.len() == 0,
            final(self).selected_edges@.len() == 0,
            crate::history::stack_abs(final(self).history.undo_stack@)
                == crate::history::save_spec(
                crate::history::stack_abs(old(self).history.undo_stack@),
                crate::history::graph_abs(old(self).nodes@, old(self).edges@),
            ),
            final(self).history.redo_stack@.len() == 0,
            final(self).drag_state is Idle,
            *final(self) == (FlowCanvas {
                nodes: final(self).nodes,
                edges: final(self).edges,
                selected_nodes: final(self).selected_nodes,
                selected_edges: final(self).selected_edges,
                drag_state: final(self).drag_state,
                history: final(self).history,
                ..*old(self)
            }),
    {
        self.history.save_checkpoint(&self.nodes, &self.edges);
        self.nodes = Vec::new();
        self.edges = Vec::new();
        self.selected_nodes = Vec::new();
        self.selected_edges = Vec::new();
        self.drag_state = DragState::Idle;
    }

    /// Resets the view so the top-left of the content, less the padding,
    /// lands at the widget origin at 1:1 zoom; the pan is clamped to its
    /// range. A no-op on an empty graph.
    pub fn fit_view(&mut self)
        requires
            old(self).wf(),
        ensures
            final(self).wf(),
            old(self).nodes@.len() == 0 ==> *final(self) == *old(self),
            old(self).nodes@.len() > 0 ==> {
                &&& final(self).zoom_milli == MILLI
                &&& final(self).pan_offset.x == clamp_pan(
                    FIT_VIEW_PADDING - min_node_x(old(self).nodes@),
                )
                &&& final(self).pan_offset.y == clamp_pan(
                    FIT_VIEW_PADDING - min_node_y(old(self).nodes@),
                )
            },
            *final(self) == (FlowCanvas {
                pan_offset: final(self).pan_offset,
                zoom_milli: final(self).zoom_milli,
                ..*old(self)
            }),
    {
        if self.nodes.is_empty() {
            return;
        }
        let mut min_x = self.nodes[0].x;
        let mut min_y = self.nodes[0].y;
        let mut i: usize = 1;
        proof {
            assert(self.nodes@.take(1) =~= seq![self.nodes@[0]]);
        }
        while i < self.nodes.len()
            invariant
                self.wf(),
                1 <= i <= self.nodes@.len(),
                min_x == min_node_x(self.nodes@.take(i as int)),
                min_y == min_node_y(self.nodes@.take(i as int)),
                -NODE_POS_LIMIT <= min_x <= NODE_POS_LIMIT,
                -NODE_POS_LIMIT <= min_y <= NODE_POS_LIMIT,
            decreases self.nodes@.len() - i,
        {
            proof {
                assert(self.nodes@.take(i + 1).drop_last() =~= self.nodes@.take(i as int));
                assert(self.nodes@.take(i + 1).last() == self.nodes@[i as int]);
            }
            let n = &self.nodes[i];
            if n.x < min_x {
                min_x = n.x;
            }
            if n.y < min_y {
                min_y = n.y;
            }
            i += 1;
        }
        proof {
            assert(self.nodes@.take(self.nodes@.len() as int) =~= self.nodes@);
        }
        self.zoom_milli = MILLI;
        self.pan_offset = Point {
            x: clamp_pan_x(FIT_VIEW_PADDING - min_x),
            y: clamp_pan_x(FIT_VIEW_PADDING - min_y),
        };
    }

    /// Replaces the whole graph after a checkpoint and clears the
    /// selections.
    pub fn load_graph(&mut self, nodes: Vec<FlowNode>, edges: Vec<EdgeConnection>)
        requires
            old(self).wf(),
            crate::history::graph_wf(nodes@, edges@),
        ensures
            final(self).wf(),
            final(self).nodes@ == nodes@,
            final(self).edges@ == edges@,
            final(self).selected_nodes@.len() == 0,
            final(self).selected_edges@.len() == 0,
            crate::history::stack_abs(final(self).history.undo_stack@)
                == crate::history::save_spec(
                crate::history::stack_abs(old(self).history.undo_stack@),
                crate::history::graph_abs(old(self).nodes@, old(self).edges@),
            ),
            final(self).history.redo_stack@.len() == 0,
            final(self).drag_state is Idle,
            *final(self) == (FlowCanvas {
                nodes: final(self).nodes,
                edges: final(self).edges,
                selected_nodes: final(self).selected_nodes,
                selected_edges: final(self).selected_edges,
                drag_state: final(self).drag_state,
                history: final(self).history,
                ..*old(self)
            }),
    {
        self.history.save_checkpoint(&self.nodes, &self.edges);
        self.nodes = nodes;
        self.edges = edges;
        self.selected_nodes = Vec::new();
        self.selected_edges = Vec::new();
        self.drag_state = DragState::Idle;
    }

    /// Builds the small sample pipeline the canvas starts with: camera,
    /// detector, tracker and visualizer in a chain.
    pub fn create_sample_nodes(&mut self)
        requires
            old(self).wf(),
        ensures
            final(self).wf(),
            final(self).nodes@.len() == 4,
            final(self).edges@.len() == 3,
            final(self).nodes@[0].node_type == NodeType::Camera,
            final(self).nodes@[1].node_type == NodeType::Detector,
            final(self).nodes@[2].node_type == NodeType::Tracker,
            final(self).nodes@[3].node_type == NodeType::Visualizer,
            final(self).nodes@[0].x == 50 && final(self).nodes@[0].y == 100,
            final(self).nodes@[1].x == 300 && final(self).nodes@[1].y == 50,
            final(self).nodes@[2].x == 300 && final(self).nodes@[2].y == 200,
            final(self).nodes@[3].x == 550 && final(self).nodes@[3].y == 120,
            forall|i: int|
                0 <= i < 3 ==> (#[trigger] final(self).edges@[i]).from_node == i
                    && final(self).edges@[i].to_node == i + 1,
            forall|i: int|
                0 <= i < 3 ==> {
                    &&& (#[trigger] final(self).edges@[i]).style == EdgeStyle::Solid
                    &&& final(self).edges@[i].width == 2
                    &&& final(self).edges@[i].animated == true
                    &&& final(self).edges@[i].from_port@ == Seq::<char>::empty()
                    &&& final(self).edges@[i].to_port@ == Seq::<char>::empty()
                    &&& final(self).edges@[i].label@ == Seq::<char>::empty()
                    &&& final(self).edges@[i].marker_end == crate::model::EdgeMarker::Arrow
                },
            final(self).selected_nodes@.len() == 0,
            final(self).selected_edges@.len() == 0,
            final(self).drag_state is Idle,
            *final(self) == (FlowCanvas {
                nodes: final(self).nodes,
                edges: final(self).edges,
                selected_nodes: final(self).selected_nodes,
                selected_edges: final(self).selected_edges,
                drag_state: final(self).drag_state,
                ..*old(self)
            }),
    {
        let mut nodes: Vec<FlowNode> = Vec::new();
        nodes.push(FlowNode::new(50, 100, NodeType::Camera));
        nodes.push(FlowNode::new(300, 50, NodeType::Detector));
        nodes.push(FlowNode::new(300, 200, NodeType::Tracker));
        nodes.push(FlowNode::new(550, 120, NodeType::Visualizer));
        let mut edges: Vec<EdgeConnection> = Vec::new();
        edges.push(EdgeConnection::new(0, 1));
        edges.push(EdgeConnection::new(1, 2));
        edges.push(EdgeConnection::new(2, 3));
        self.nodes = nodes;
        self.edges = edges;
        self.selected_nodes = Vec::new();
        self.selected_edges = Vec::new();
        self.drag_state = DragState::Idle;
    }

    /// Performs one command from the canvas's surroundings, returning the
    /// events to report. Status updates carry the new node and edge counts.
    pub fn apply_command(&mut self, cmd: FlowCanvasCommand) -> (acts: Vec<FlowCanvasAction>)
        requires
            old(self).wf(),
        ensures
            final(self).wf(),
            cmd matches FlowCanvasCommand::SetLineStyle(style) ==> *final(self) == (FlowCanvas {
                line_style: style,
                ..*old(self)
            }),
            cmd matches FlowCanvasCommand::SetLineWidth(w) ==> *final(self) == (FlowCanvas {
                line_width: if 0 < w <= LINE_WIDTH_LIMIT {
                    w
                } else {
                    old(self).line_width
                },
                ..*old(self)
            }),
            cmd matches FlowCanvasCommand::LoadDataflow { nodes, edges } ==> {
                if graph_wf(nodes@, edges@) {
                    &&& final(self).nodes@ == nodes@
                    &&& final(self).edges@ == edges@
                    &&& final(self).selected_nodes@.len() == 0
                    &&& final(self).selected_edges@.len() == 0
                    &&& final(self).history.undo_stack@.len() == 0
                    &&& final(self).history.redo_stack@.len() == 0
                    &&& acts@ == seq![
                        FlowCanvasAction::StatusUpdate {
                            nodes: nodes@.len() as usize,
                            edges: edges@.len() as usize,
                        },
                    ]
                } else {
                    *final(self) == *old(self) && acts@.len() == 0
                }
            },
    {
        let mut acts: Vec<FlowCanvasAction> = Vec::new();
        match cmd {
            FlowCanvasCommand::AddNode => {
                self.add_node(NodeType::Custom);
                acts.push(
                    FlowCanvasAction::StatusUpdate {
                        nodes: self.nodes.len(),
                        edges: self.edges.len(),
                    },
                );
            },
            FlowCanvasCommand::Delete => {
                let mut inner = self.delete_selected();
                acts.append(&mut inner);
                acts.push(
                    FlowCanvasAction::StatusUpdate {
                        nodes: self.nodes.len(),
                        edges: self.edges.len(),
                    },
                );
            },
            FlowCanvasCommand::FitView => {
                self.fit_view();
            },
            FlowCanvasCommand::Clear => {
                self.clear();
                acts.push(
                    FlowCanvasAction::StatusUpdate {
                        nodes: self.nodes.len(),
                        edges: self.edges.len(),
                    },
                );
            },
            FlowCanvasCommand::SetLineStyle(style) => {
                self.line_style = style;
            },
            FlowCanvasCommand::SetLineWidth(w) => {
                if 0 < w && w <= LINE_WIDTH_LIMIT {
                    self.line_width = w;
                }
            },
            FlowCanvasCommand::LoadDataflow { nodes, edges } => {
                if check_graph(&nodes, &edges) {
                    self.nodes = nodes;
                    self.edges = edges;
                    self.selected_nodes = Vec::new();
                    self.selected_edges = Vec::new();
                    self.history = History::new();
                    self.drag_state = DragState::Idle;
                    acts.push(
                        FlowCanvasAction::StatusUpdate {
                            nodes: self.nodes.len(),
                            edges: self.edges.len(),
                        },
                    );
                }
            },
        }
        acts
    }
}

/// Decides `graph_wf` at run time: every node geometrically well-formed
/// and every edge width within the line-width bound.
pub fn check_graph(nodes: &Vec<FlowNode>, edges: &Vec<EdgeConnection>) -> (r: bool)
    ensures
        r == graph_wf(nodes@, edges@),
{
    let mut i: usize = 0;
    while i < nodes.len()
        invariant
            0 <= i <= nodes@.len(),
            forall|j: int| 0 <= j < i ==> (#[trigger] nodes@[j]).wf(),
        decreases nodes@.len() - i,
    {
        let n = &nodes[i];
        if !(0 < n.width && n.width <= crate::model::NODE_SIZE_LIMIT && 0 < n.height && n.height
            <= crate::model::NODE_SIZE_LIMIT && -NODE_POS_LIMIT <= n.x && n.x <= NODE_POS_LIMIT
            && -NODE_POS_LIMIT <= n.y && n.y <= NODE_POS_LIMIT && n.input_ports.len()
            <= crate::model::MAX_PORTS && n.output_ports.len() <= crate::model::MAX_PORTS) {
            return false;
        }
        i += 1;
    }
    let mut k: usize = 0;
    while k < edges.len()
        invariant
            0 <= k <= edges@.len(),
            forall|j: int| 0 <= j < nodes@.len() ==> (#[trigger] nodes@[j]).wf(),
            forall|j: int| 0 <= j < k ==> 0 < (#[trigger] edges@[j]).width <= 64,
        decreases edges@.len() - k,
    {
        let e = &edges[k];
        if !(0 < e.width && e.width <= 64) {
            return false;
        }
        k += 1;
    }
    true
}

/// The canvas x position where a freshly added node lands.
pub open spec fn add_node_x(pan_x: i64, zoom_milli: i64) -> int {
    ((0 - pan_x) * MILLI) / (zoom_milli as int) + ADD_NODE_OFFSET_X
}

/// The canvas y position where a freshly added node lands.
pub open spec fn add_node_y(pan_y: i64, zoom_milli: i64) -> int {
    ((0 - pan_y) * MILLI) / (zoom_milli as int) + ADD_NODE_OFFSET_Y
}

/// The smallest node x position (the left edge of the content).
pub open spec fn min_node_x(nodes: Seq<FlowNode>) -> int
    decreases nodes.len(),
{
    if nodes.len() <= 1 {
        if nodes.len() == 0 {
            0
        } else {
            nodes[0].x as int
        }
    } else {
        let m = min_node_x(nodes.drop_last());
        if nodes.last().x < m {
            nodes.last().x as int
        } else {
            m
        }
    }
}

/// The smallest node y position (the top edge of the content).
pub open spec fn min_node_y(nodes: Seq<FlowNode>) -> int
    decreases nodes.len(),
{
    if nodes.len() <= 1 {
        if nodes.len() == 0 {
            0
        } else {
            nodes[0].y as int
        }
    } else {
        let m = min_node_y(nodes.drop_last());
        if nodes.last().y < m {
            nodes.last().y as int
        } else {
            m
        }
    }
}


/// A dragged coordinate, clamped to the node position range (never
/// negative, never past the position bound).
pub open spec fn drag_clamp(v: int) -> i64 {
    if v < 0 {
        0
    } else if v > NODE_POS_LIMIT {
        NODE_POS_LIMIT
    } else {
        v as i64
    }
}

/// Clamps a dragged coordinate to the node position range.
pub fn drag_clamp_x(v: i64) -> (r: i64)
    ensures
        r == drag_clamp(v as int),
        0 <= r <= NODE_POS_LIMIT,
{
    if v < 0 {
        0
    } else if v > NODE_POS_LIMIT {
        NODE_POS_LIMIT
    } else {
        v
    }
}

/// `nodes` with node `i` moved to `(x, y)`.
pub open spec fn node_moved(nodes: Seq<FlowNode>, i: int, x: i64, y: i64) -> Seq<FlowNode> {
    nodes.update(i, FlowNode { x: x, y: y, ..nodes[i] })
}

/// Moves node `i` to `(x, y)`.
fn set_node_pos(nodes: &mut Vec<FlowNode>, i: usize, x: i64, y: i64)
    requires
        i < old(nodes)@.len(),
        0 <= x <= NODE_POS_LIMIT,
        0 <= y <= NODE_POS_LIMIT,
    ensures
        final(nodes)@ == node_moved(old(nodes)@, i as int, x, y),
{
    let mut n = nodes.remove(i);
    n.x = x;
    n.y = y;
    nodes.insert(i, n);
    proof {
        assert(nodes@ =~= node_moved(old(nodes)@, i as int, x, y));
    }
}

/// The node sequence after a multi-node drag: each captured node follows
/// the pointer at its own grab offset, clamped; indices out of range are
/// skipped.
pub open spec fn drag_all(
    nodes: Seq<FlowNode>,
    offsets: Seq<(usize, Point)>,
    local: Point,
) -> Seq<FlowNode>
    decreases offsets.len(),
{
    if offsets.len() == 0 {
        nodes
    } else {
        let rest = drag_all(nodes, offsets.drop_last(), local);
        let (i, off) = offsets.last();
        if i < rest.len() {
            node_moved(
                rest,
                i as int,
                drag_clamp(local.x - off.x),
                drag_clamp(local.y - off.y),
            )
        } else {
            rest
        }
    }
}

/// The center of `n` lies within the axis-aligned box spanned by `a` and
/// `b`, whichever way the box was dragged.
pub open spec fn node_center_in_box(n: FlowNode, a: Point, b: Point) -> bool {
    let cx = n.x + n.width / 2;
    let cy = n.y + n.height / 2;
    &&& (if a.x <= b.x {
        a.x <= cx <= b.x
    } else {
        b.x <= cx <= a.x
    })
    &&& (if a.y <= b.y {
        a.y <= cy <= b.y
    } else {
        b.y <= cy <= a.y
    })
}

/// Box membership does not depend on the drag direction: the box from `a`
/// to `b` selects the same centers as the box from `b` to `a`.
pub proof fn lemma_box_direction_irrelevant(n: FlowNode, a: Point, b: Point)
    ensures
        node_center_in_box(n, a, b) == node_center_in_box(n, b, a),
{
}

/// The first node other than `origin`, in node order from `i`, whose
/// opposite-direction port hit box holds `p`: an input port when the drag
/// started at an output, an output port otherwise.
pub open spec fn edge_target_from(
    nodes: Seq<FlowNode>,
    p: Point,
    origin: int,
    from_is_output: bool,
    i: int,
) -> Option<usize>
    decreases nodes.len() - i,
{
    if i < 0 || i >= nodes.len() {
        None
    } else if i != origin && from_is_output && nodes[i].node_type != NodeType::Camera
        && nodes[i].spec_input_port_rect().spec_contains(p) {
        Some(i as usize)
    } else if i != origin && !from_is_output && nodes[i].node_type != NodeType::Visualizer
        && nodes[i].spec_output_port_rect().spec_contains(p) {
        Some(i as usize)
    } else {
        edge_target_from(nodes, p, origin, from_is_output, i + 1)
    }
}

/// An edge from node `f` to node `t` is already present, whatever its port
/// names: the interactive no-duplicate rule keys on the node pair alone.
pub open spec fn has_edge_between(edges: Seq<EdgeConnection>, f: usize, t: usize) -> bool {
    exists|i: int|
        0 <= i < edges.len() && #[trigger] edges[i].from_node == f && edges[i].to_node == t
}

/// Decides `has_edge_between` at run time.
fn edge_between_exists(edges: &Vec<EdgeConnection>, f: usize, t: usize) -> (r: bool)
    ensures
        r == has_edge_between(edges@, f, t),
{
    let mut i: usize = 0;
    while i < edges.len()
        invariant
            0 <= i <= edges@.len(),
            forall|j: int|
                0 <= j < i ==> !(#[trigger] edges@[j].from_node == f && edges@[j].to_node == t),
        decreases edges@.len() - i,
    {
        if edges[i].from_node == f && edges[i].to_node == t {
            return true;
        }
        i += 1;
    }
    false
}

impl FlowCanvas {
    /// A pointer move: the reaction depends on the drag in progress. A node
    /// drag moves its node with the pointer (clamped to the position
    /// range); a multi-node drag moves every captured node; panning shifts
    /// the view by the pointer delta; edge creation tracks the pointer; a
    /// selection box re-selects exactly the nodes whose centers it covers.
    pub fn pointer_move(&mut self, pos: Point, area_pos: Point)
        requires
            old(self).wf(),
            input_pt_bounded(pos),
            input_pt_bounded(area_pos),
        ensures
            final(self).wf(),
            ({
                let local = spec_screen_to_canvas(
                    old(self).pan_offset,
                    old(self).zoom_milli,
                    area_pos,
                    pos,
                );
                match old(self).drag_state {
                    DragState::Idle => *final(self) == *old(self),
                    DragState::DraggingNode { index, offset } => {
                        &&& final(self).nodes@ == node_moved(
                            old(self).nodes@,
                            index as int,
                            drag_clamp(local.x - offset.x),
                            drag_clamp(local.y - offset.y),
                        )
                        &&& *final(self) == (FlowCanvas { nodes: final(self).nodes, ..*old(self) })
                    },
                    DragState::DraggingNodes { offsets } => {
                        &&& final(self).nodes@ == drag_all(old(self).nodes@, offsets@, local)
                        &&& *final(self) == (FlowCanvas { nodes: final(self).nodes, ..*old(self) })
                    },
                    DragState::Panning { start } => {
                        &&& final(self).pan_offset == (Point {
                            x: clamp_pan(old(self).pan_offset.x + pos.x - start.x),
                            y: clamp_pan(old(self).pan_offset.y + pos.y - start.y),
                        })
                        &&& final(self).drag_state == (DragState::Panning { start: pos })
                        &&& *final(self) == (FlowCanvas {
                            pan_offset: final(self).pan_offset,
                            drag_state: final(self).drag_state,
                            ..*old(self)
                        })
                    },
                    DragState::CreatingEdge { from_node, is_output, .. } => {
                        &&& final(self).drag_state == (DragState::CreatingEdge {
                            from_node,
                            is_output,
                            cursor_pos: local,
                        })
                        &&& *final(self) == (FlowCanvas {
                            drag_state: final(self).drag_state,
                            ..*old(self)
                        })
                    },
                    DragState::SelectionBox { start, .. } => {
                        &&& final(self).drag_state == (DragState::SelectionBox {
                            start,
                            current: local,
                        })
                        &&& strictly_increasing_below(
                            final(self).selected_nodes@,
                            old(self).nodes@.len() as int,
                        )
                        &&& forall|i: int|
                            crate::graph::sel_set(final(self).selected_nodes@).contains(i) <==> (0
                                <= i < old(self).nodes@.len() && node_center_in_box(
                                old(self).nodes@[i],
                                start,
                                local,
                            ))
                        &&& *final(self) == (FlowCanvas {
                            drag_state: final(self).drag_state,
                            selected_nodes: final(self).selected_nodes,
                            ..*old(self)
                        })
                    },
                }
            }),
    {
        let local = self.screen_to_canvas(pos, area_pos);
        match &self.drag_state {
            DragState::Idle => {},
            DragState::DraggingNode { index, offset } => {
                let i = *index;
                let off = *offset;
                let x = drag_clamp_x(local.x - off.x);
                let y = drag_clamp_x(local.y - off.y);
                set_node_pos(&mut self.nodes, i, x, y);
            },
            DragState::DraggingNodes { offsets } => {
                let mut captured: Vec<(usize, Point)> = Vec::new();
                let mut j: usize = 0;
                let n_off = offsets.len();
                let ghost offs = offsets@;
                while j < n_off
                    invariant
                        0 <= j <= offs.len(),
                        n_off == offs.len(),
                        *self == *old(self),
                        self.drag_state matches DragState::DraggingNodes { offsets: o } && o@
                            == offs,
                        captured@ == offs.take(j as int),
                    decreases n_off - j,
                {
                    let pair = match &self.drag_state {
                        DragState::DraggingNodes { offsets } => offsets[j],
                        _ => (0, Point { x: 0, y: 0 }),
                    };
                    captured.push(pair);
                    proof {
                        assert(captured@ =~= offs.take(j + 1));
                    }
                    j += 1;
                }
                proof {
                    assert(offs.take(n_off as int) =~= offs);
                }
                let ghost pre_nodes = self.nodes@;
                let mut k: usize = 0;
                proof {
                    assert(offs.take(0) =~= Seq::<(usize, Point)>::empty());
                }
                while k < captured.len()
                    invariant
                        0 <= k <= captured@.len(),
                        captured@ == offs,
                        pre_nodes == old(self).nodes@,
                        *self == (FlowCanvas { nodes: self.nodes, ..*old(self) }),
                        forall|i: int|
                            0 <= i < offs.len() ==> grab_bounded((#[trigger] offs[i]).1),
                        -CANVAS_PT_LIMIT <= local.x <= CANVAS_PT_LIMIT,
                        -CANVAS_PT_LIMIT <= local.y <= CANVAS_PT_LIMIT,
                        self.nodes@ == drag_all(pre_nodes, offs.take(k as int), local),
                        self.nodes@.len() == pre_nodes.len(),
                        forall|i: int|
                            0 <= i < self.nodes@.len() ==> (#[trigger] self.nodes@[i]).wf(),
                    decreases captured@.len() - k,
                {
                    let (idx, off) = captured[k];
                    proof {
                        assert(offs.take(k + 1).drop_last() =~= offs.take(k as int));
                        assert(offs.take(k + 1).last() == offs[k as int]);
                    }
                    if idx < self.nodes.len() {
                        let x = drag_clamp_x(local.x - off.x);
                        let y = drag_clamp_x(local.y - off.y);
                        set_node_pos(&mut self.nodes, idx, x, y);
                    }
                    k += 1;
                }
                proof {
                    assert(offs.take(captured@.len() as int) =~= offs);
                }
            },
            DragState::Panning { start } => {
                let st = *start;
                let px = clamp_pan_x(self.pan_offset.x + (pos.x - st.x));
                let py = clamp_pan_x(self.pan_offset.y + (pos.y - st.y));
                self.pan_offset = Point { x: px, y: py };
                self.drag_state = DragState::Panning { start: pos };
            },
            DragState::CreatingEdge { from_node, is_output, .. } => {
                let f = *from_node;
                let o = *is_output;
                self.drag_state = DragState::CreatingEdge {
                    from_node: f,
                    is_output: o,
                    cursor_pos: local,
                };
            },
            DragState::SelectionBox { start, .. } => {
                let a = *start;
                self.drag_state = DragState::SelectionBox { start: a, current: local };
                let mut sel: Vec<usize> = Vec::new();
                let mut i: usize = 0;
                while i < self.nodes.len()
                    invariant
                        *self == (FlowCanvas { drag_state: self.drag_state, ..*old(self) }),
                        self.drag_state == (DragState::SelectionBox { start: a, current: local }),
                        self.wf(),
                        0 <= i <= self.nodes@.len(),
                        strictly_increasing_below(sel@, i as int),
                        forall|v: int|
                            crate::graph::sel_set(sel@).contains(v) <==> (0 <= v < i
                                && node_center_in_box(self.nodes@[v], a, local)),
                    decreases self.nodes@.len() - i,
                {
                    let n = &self.nodes[i];
                    let cx = n.x + n.width / 2;
                    let cy = n.y + n.height / 2;
                    let min_x = if a.x <= local.x { a.x } else { local.x };
                    let max_x = if a.x <= local.x { local.x } else { a.x };
                    let min_y = if a.y <= local.y { a.y } else { local.y };
                    let max_y = if a.y <= local.y { local.y } else { a.y };
                    let ghost pre_sel = sel@;
                    if min_x <= cx && cx <= max_x && min_y <= cy && cy <= max_y {
                        sel.push(i);
                        proof {
                            assert(node_center_in_box(self.nodes@[i as int], a, local));
                            assert forall|v: int|
                                crate::graph::sel_set(sel@).contains(v) <==> (0 <= v < i + 1
                                    && node_center_in_box(self.nodes@[v], a, local)) by {
                                if crate::graph::sel_set(sel@).contains(v) {
                                    let j = choose|j: int|
                                        0 <= j < sel@.len() && sel@[j] == v;
                                    if j < pre_sel.len() {
                                        assert(pre_sel[j] == v);
                                        assert(crate::graph::sel_set(pre_sel).contains(v));
                                    } else {
                                        assert(v == i);
                                    }
                                }
                                if 0 <= v < i + 1 && node_center_in_box(
                                    self.nodes@[v],
                                    a,
                                    local,
                                ) {
                                    if v < i {
                                        assert(crate::graph::sel_set(pre_sel).contains(v));
                                        let j = choose|j: int|
                                            0 <= j < pre_sel.len() && pre_sel[j] == v;
                                        assert(sel@[j] == v);
                                        assert(crate::graph::sel_set(sel@).contains(v));
                                    } else {
                                        assert(sel@[sel@.len() - 1] == v);
                                        assert(crate::graph::sel_set(sel@).contains(v));
                                    }
                                }
                            }
                        }
                    } else {
                        proof {
                            assert(!node_center_in_box(self.nodes@[i as int], a, local));
                            assert forall|v: int|
                                crate::graph::sel_set(sel@).contains(v) <==> (0 <= v < i + 1
                                    && node_center_in_box(self.nodes@[v], a, local)) by {
                                if 0 <= v < i + 1 && node_center_in_box(
                                    self.nodes@[v],
                                    a,
                                    local,
                                ) {
                                    assert(v != i);
                                }
                            }
                        }
                    }
                    i += 1;
                }
                self.selected_nodes = sel;
            },
        }
    }

    /// A pointer release: if an edge was being created and the pointer sits
    /// on a compatible port of another node, the connection is added unless
    /// the two nodes are already connected in that direction (whatever the
    /// existing edge's port names); in every case the drag ends.
    pub fn pointer_up(&mut self, pos: Point, area_pos: Point) -> (acts: Vec<FlowCanvasAction>)
        requires
            old(self).wf(),
            input_pt_bounded(pos),
            input_pt_bounded(area_pos),
        ensures
            final(self).wf(),
            final(self).drag_state is Idle,
            final(self).nodes@ == old(self).nodes@,
            final(self).selected_nodes@ == old(self).selected_nodes@,
            final(self).selected_edges@ == old(self).selected_edges@,
            ({
                let local = spec_screen_to_canvas(
                    old(self).pan_offset,
                    old(self).zoom_milli,
                    area_pos,
                    pos,
                );
                match old(self).drag_state {
                    DragState::CreatingEdge { from_node, is_output, .. } => {
                        let target = edge_target_from(
                            old(self).nodes@,
                            local,
                            from_node as int,
                            is_output,
                            0,
                        );
                        match target {
                            Some(t) => {
                                let f = if is_output {
                                    from_node
                                } else {
                                    t
                                };
                                let t2 = if is_output {
                                    t
                                } else {
                                    from_node
                                };
                                if has_edge_between(old(self).edges@, f, t2) {
                                    final(self).edges@ == old(self).edges@ && acts@.len() == 0
                                } else {
                                    &&& final(self).edges@.len() == old(self).edges@.len() + 1
                                    &&& final(self).edges@.take(old(self).edges@.len() as int)
                                        == old(self).edges@
                                    &&& final(self).edges@.last().from_node == f
                                    &&& final(self).edges@.last().to_node == t2
                                    &&& final(self).edges@.last().from_port@ == Seq::<
                                        char,
                                    >::empty()
                                    &&& final(self).edges@.last().to_port@ == Seq::<char>::empty()
                                    &&& final(self).edges@.last().style == EdgeStyle::Solid
                                    &&& final(self).edges@.last().width == 2
                                    &&& final(self).edges@.last().animated == true
                                    &&& final(self).edges@.last().marker_end
                                        == crate::model::EdgeMarker::Arrow
                                    &&& acts@ == seq![FlowCanvasAction::EdgeCreated]
                                }
                            },
                            None => final(self).edges@ == old(self).edges@ && acts@.len() == 0,
                        }
                    },
                    _ => final(self).edges@ == old(self).edges@ && acts@.len() == 0,
                }
            }),
    {
        let local = self.screen_to_canvas(pos, area_pos);
        let mut acts: Vec<FlowCanvasAction> = Vec::new();
        let creating: Option<(usize, bool)> = match &self.drag_state {
            DragState::CreatingEdge { from_node, is_output, .. } => Some((*from_node, *is_output)),
            _ => None,
        };
        if let Some((from_idx, from_is_output)) = creating {
            let target = self.find_edge_target(local, from_idx, from_is_output);
            if let Some(t) = target {
                let f = if from_is_output {
                    from_idx
                } else {
                    t
                };
                let t2 = if from_is_output {
                    t
                } else {
                    from_idx
                };
                if !edge_between_exists(&self.edges, f, t2) {
                    let ghost pre = self.edges@;
                    self.edges.push(EdgeConnection::new(f, t2));
                    proof {
                        assert(self.edges@.take(pre.len() as int) =~= pre);
                    }
                    acts.push(FlowCanvasAction::EdgeCreated);
                }
            }
        }
        self.drag_state = DragState::Idle;
        acts
    }

    /// Finds the port a released edge drag connects to, as
    /// `edge_target_from` describes.
    fn find_edge_target(&self, p: Point, origin: usize, from_is_output: bool) -> (r: Option<usize>)
        requires
            self.wf(),
            canvas_pt_bounded(p),
        ensures
            r == edge_target_from(self.nodes@, p, origin as int, from_is_output, 0),
            r matches Some(i) ==> i < self.nodes@.len(),
    {
        let mut i: usize = 0;
        while i < self.nodes.len()
            invariant
                self.wf(),
                canvas_pt_bounded(p),
                0 <= i <= self.nodes@.len(),
                edge_target_from(self.nodes@, p, origin as int, from_is_output, 0)
                    == edge_target_from(self.nodes@, p, origin as int, from_is_output, i as int),
            decreases self.nodes@.len() - i,
        {
            if i != origin {
                let node = &self.nodes[i];
                if from_is_output && !matches!(node.node_type, NodeType::Camera) {
                    let rect = node.input_port_rect();
                    if rect.contains(p) {
                        return Some(i);
                    }
                }
                if !from_is_output && !matches!(node.node_type, NodeType::Visualizer) {
                    let rect = node.output_port_rect();
                    if rect.contains(p) {
                        return Some(i);
                    }
                }
            }
            i += 1;
        }
        None
    }
}


/// Width of a context menu, in screen pixels.
pub const MENU_WIDTH: i64 = 120;

/// Height of one context-menu item row, in screen pixels.
pub const MENU_ITEM_HEIGHT: i64 = 22;

/// What a click at a given position means to the open node context menu.
/// Menu rows are laid out in tenths of a pixel, since a section label takes
/// eight tenths of an item row and a divider half of one.
#[derive(Clone, Copy, PartialEq, Eq, Structural, Debug)]
pub enum NodeMenuHit {
    /// A shape item: the index into the shape list.
    Shape(usize),
    /// A border item: the chosen border width in pixels.
    Border(i64),
    /// Inside the menu but on no item: the click is consumed, the menu
    /// stays open.
    InsideBlank,
    /// Outside the menu: it closes and the click falls through.
    Outside,
}

/// What a click at a given position means to the open edge context menu.
#[derive(Clone, Copy, PartialEq, Eq, Structural, Debug)]
pub enum EdgeMenuHit {
    Style(EdgeStyle),
    Width(i64),
    Animated(bool),
    InsideBlank,
    Outside,
}

/// The shape list of the node context menu, by row.
pub open spec fn shape_of_index(k: int) -> crate::model::NodeShape {
    if k == 0 {
        crate::model::NodeShape::RoundedRect
    } else if k == 1 {
        crate::model::NodeShape::DoubleRoundedRect
    } else if k == 2 {
        crate::model::NodeShape::Rectangle
    } else if k == 3 {
        crate::model::NodeShape::Round
    } else {
        crate::model::NodeShape::Diamond
    }
}

/// Total height of the node context menu: one row per item (a multi-select
/// header adds one), plus padding above and below.
pub open spec fn node_menu_height(is_multi: bool) -> int {
    MENU_ITEM_HEIGHT * (if is_multi {
        12int
    } else {
        11int
    }) + 8
}

/// Where a click lands on the node context menu. In tenths of a pixel from
/// the top padding (and below the multi-select header if there is one): the
/// shape section label ends at 176, its five rows at 1276; the border rows
/// start at 1562 after a divider and the border label.
pub open spec fn node_menu_hit(p: Point, menu_pos: Point, is_multi: bool) -> NodeMenuHit {
    if menu_pos.x <= p.x <= menu_pos.x + MENU_WIDTH && menu_pos.y <= p.y <= menu_pos.y
        + node_menu_height(is_multi) {
        let rel10 = (p.y - menu_pos.y - 4 - (if is_multi {
            MENU_ITEM_HEIGHT as int
        } else {
            0int
        })) * 10;
        if 176 <= rel10 < 1276 {
            NodeMenuHit::Shape(((rel10 - 176) / 220) as usize)
        } else if rel10 >= 1562 {
            let k = (rel10 - 1562) / 220;
            NodeMenuHit::Border(
                if k + 1 < 4 {
                    (k + 1) as i64
                } else {
                    4
                },
            )
        } else {
            NodeMenuHit::InsideBlank
        }
    } else {
        NodeMenuHit::Outside
    }
}

/// Total height of the edge context menu.
pub const EDGE_MENU_HEIGHT: i64 = 300;

/// Where a click lands on the edge context menu. In tenths of a pixel from
/// the top padding: the three style rows span 176 to 836, the four width
/// rows 1122 to 2002, and the two animation rows start at 2288.
pub open spec fn edge_menu_hit(p: Point, menu_pos: Point) -> EdgeMenuHit {
    if menu_pos.x <= p.x <= menu_pos.x + MENU_WIDTH && menu_pos.y <= p.y <= menu_pos.y
        + EDGE_MENU_HEIGHT {
        let rel10 = (p.y - menu_pos.y - 8) * 10;
        if 176 <= rel10 < 836 {
            let k = (rel10 - 176) / 220;
            EdgeMenuHit::Style(
                if k == 0 {
                    EdgeStyle::Solid
                } else if k == 1 {
                    EdgeStyle::Dashed
                } else {
                    EdgeStyle::Dotted
                },
            )
        } else if 1122 <= rel10 < 2002 {
            let k = (rel10 - 1122) / 220;
            EdgeMenuHit::Width(
                if k + 1 < 4 {
                    (k + 1) as i64
                } else {
                    4
                },
            )
        } else if rel10 >= 2288 {
            EdgeMenuHit::Animated((rel10 - 2288) / 220 == 0)
        } else {
            EdgeMenuHit::InsideBlank
        }
    } else {
        EdgeMenuHit::Outside
    }
}

/// Computes `node_menu_hit` for a pointer position.
pub fn node_menu_hit_at(p: Point, menu_pos: Point, is_multi: bool) -> (r: NodeMenuHit)
    requires
        input_pt_bounded(p),
        input_pt_bounded(menu_pos),
    ensures
        r == node_menu_hit(p, menu_pos, is_multi),
{
    let height = MENU_ITEM_HEIGHT * (if is_multi {
        12
    } else {
        11
    }) + 8;
    if menu_pos.x <= p.x && p.x <= menu_pos.x + MENU_WIDTH && menu_pos.y <= p.y && p.y <= menu_pos.y
        + height {
        let rel10 = (p.y - menu_pos.y - 4 - (if is_multi {
            MENU_ITEM_HEIGHT
        } else {
            0
        })) * 10;
        if 176 <= rel10 && rel10 < 1276 {
            NodeMenuHit::Shape(div_floor(rel10 - 176, 220) as usize)
        } else if rel10 >= 1562 {
            let k = div_floor(rel10 - 1562, 220);
            NodeMenuHit::Border(
                if k + 1 < 4 {
                    k + 1
                } else {
                    4
                },
            )
        } else {
            NodeMenuHit::InsideBlank
        }
    } else {
        NodeMenuHit::Outside
    }
}

/// Computes `edge_menu_hit` for a pointer position.
pub fn edge_menu_hit_at(p: Point, menu_pos: Point) -> (r: EdgeMenuHit)
    requires
        input_pt_bounded(p),
        input_pt_bounded(menu_pos),
    ensures
        r == edge_menu_hit(p, menu_pos),
{
    if menu_pos.x <= p.x && p.x <= menu_pos.x + MENU_WIDTH && menu_pos.y <= p.y && p.y <= menu_pos.y
        + EDGE_MENU_HEIGHT {
        let rel10 = (p.y - menu_pos.y - 8) * 10;
        if 176 <= rel10 && rel10 < 836 {
            let k = div_floor(rel10 - 176, 220);
            EdgeMenuHit::Style(
                if k == 0 {
                    EdgeStyle::Solid
                } else if k == 1 {
                    EdgeStyle::Dashed
                } else {
                    EdgeStyle::Dotted
                },
            )
        } else if 1122 <= rel10 && rel10 < 2002 {
            let k = div_floor(rel10 - 1122, 220);
            EdgeMenuHit::Width(
                if k + 1 < 4 {
                    k + 1
                } else {
                    4
                },
            )
        } else if rel10 >= 2288 {
            EdgeMenuHit::Animated(div_floor(rel10 - 2288, 220) == 0)
        } else {
            EdgeMenuHit::InsideBlank
        }
    } else {
        EdgeMenuHit::Outside
    }
}

/// `nodes` with the shape of every node in `sel` replaced (out-of-range
/// indices skipped).
pub open spec fn set_shape_all(
    nodes: Seq<FlowNode>,
    sel: Seq<usize>,
    shape: crate::model::NodeShape,
) -> Seq<FlowNode>
    decreases sel.len(),
{
    if sel.len() == 0 {
        nodes
    } else {
        let rest = set_shape_all(nodes, sel.drop_last(), shape);
        let i = sel.last() as int;
        if i < rest.len() {
            rest.update(i, FlowNode { shape: shape, ..rest[i] })
        } else {
            rest
        }
    }
}

/// `nodes` with the border width of every node in `sel` replaced
/// (out-of-range indices skipped).
pub open spec fn set_border_all(nodes: Seq<FlowNode>, sel: Seq<usize>, border: i64) -> Seq<FlowNode>
    decreases sel.len(),
{
    if sel.len() == 0 {
        nodes
    } else {
        let rest = set_border_all(nodes, sel.drop_last(), border);
        let i = sel.last() as int;
        if i < rest.len() {
            rest.update(i, FlowNode { border_width: border, ..rest[i] })
        } else {
            rest
        }
    }
}

/// Replaces the shape of node `i`.
fn set_node_shape_at(nodes: &mut Vec<FlowNode>, i: usize, shape: crate::model::NodeShape)
    requires
        i < old(nodes)@.len(),
    ensures
        final(nodes)@ == old(nodes)@.update(
            i as int,
            FlowNode { shape: shape, ..old(nodes)@[i as int] },
        ),
{
    let mut n = nodes.remove(i);
    n.shape = shape;
    nodes.insert(i, n);
    proof {
        assert(nodes@ =~= old(nodes)@.update(
            i as int,
            FlowNode { shape: shape, ..old(nodes)@[i as int] },
        ));
    }
}

/// Replaces the border width of node `i`.
fn set_node_border_at(nodes: &mut Vec<FlowNode>, i: usize, border: i64)
    requires
        i < old(nodes)@.len(),
    ensures
        final(nodes)@ == old(nodes)@.update(
            i as int,
            FlowNode { border_width: border, ..old(nodes)@[i as int] },
        ),
{
    let mut n = nodes.remove(i);
    n.border_width = border;
    nodes.insert(i, n);
    proof {
        assert(nodes@ =~= old(nodes)@.update(
            i as int,
            FlowNode { border_width: border, ..old(nodes)@[i as int] },
        ));
    }
}

/// Applies a shape to every node in `sel`, as `set_shape_all` describes.
fn apply_shape_sel(nodes: &mut Vec<FlowNode>, sel: &Vec<usize>, shape: crate::model::NodeShape)
    ensures
        final(nodes)@ == set_shape_all(old(nodes)@, sel@, shape),
        final(nodes)@.len() == old(nodes)@.len(),
        forall|i: int|
            0 <= i < final(nodes)@.len() ==> (#[trigger] final(nodes)@[i]).wf() == old(
                nodes,
            )@[i].wf(),
{
    let ghost orig = old(nodes)@;
    let mut k: usize = 0;
    proof {
        assert(sel@.take(0) =~= Seq::<usize>::empty());
    }
    while k < sel.len()
        invariant
            0 <= k <= sel@.len(),
            nodes@ == set_shape_all(orig, sel@.take(k as int), shape),
            nodes@.len() == orig.len(),
            forall|i: int| 0 <= i < nodes@.len() ==> (#[trigger] nodes@[i]).wf() == orig[i].wf(),
        decreases sel@.len() - k,
    {
        let i = sel[k];
        proof {
            assert(sel@.take(k + 1).drop_last() =~= sel@.take(k as int));
            assert(sel@.take(k + 1).last() == sel@[k as int]);
        }
        if i < nodes.len() {
            set_node_shape_at(nodes, i, shape);
        }
        k += 1;
    }
    proof {
        assert(sel@.take(sel@.len() as int) =~= sel@);
    }
}

/// Applies a border width to every node in `sel`, as `set_border_all`
/// describes.
fn apply_border_sel(nodes: &mut Vec<FlowNode>, sel: &Vec<usize>, border: i64)
    ensures
        final(nodes)@ == set_border_all(old(nodes)@, sel@, border),
        final(nodes)@.len() == old(nodes)@.len(),
        forall|i: int|
            0 <= i < final(nodes)@.len() ==> (#[trigger] final(nodes)@[i]).wf() == old(
                nodes,
            )@[i].wf(),
{
    let ghost orig = old(nodes)@;
    let mut k: usize = 0;
    proof {
        assert(sel@.take(0) =~= Seq::<usize>::empty());
    }
    while k < sel.len()
        invariant
            0 <= k <= sel@.len(),
            nodes@ == set_border_all(orig, sel@.take(k as int), border),
            nodes@.len() == orig.len(),
            forall|i: int| 0 <= i < nodes@.len() ==> (#[trigger] nodes@[i]).wf() == orig[i].wf(),
        decreases sel@.len() - k,
    {
        let i = sel[k];
        proof {
            assert(sel@.take(k + 1).drop_last() =~= sel@.take(k as int));
            assert(sel@.take(k + 1).last() == sel@[k as int]);
        }
        if i < nodes.len() {
            set_node_border_at(nodes, i, border);
        }
        k += 1;
    }
    proof {
        assert(sel@.take(sel@.len() as int) =~= sel@);
    }
}

/// Replaces one field of edge `i` (style, width or animation flag).
fn set_edge_at(edges: &mut Vec<EdgeConnection>, i: usize, hit: EdgeMenuHit)
    requires
        i < old(edges)@.len(),
        hit matches EdgeMenuHit::Style(_) || hit matches EdgeMenuHit::Width(_) || hit
            matches EdgeMenuHit::Animated(_),
    ensures
        final(edges)@ == old(edges)@.update(
            i as int,
            match hit {
                EdgeMenuHit::Style(st) => EdgeConnection { style: st, ..old(edges)@[i as int] },
                EdgeMenuHit::Width(w) => EdgeConnection { width: w, ..old(edges)@[i as int] },
                EdgeMenuHit::Animated(b) => EdgeConnection {
                    animated: b,
                    ..old(edges)@[i as int]
                },
                _ => old(edges)@[i as int],
            },
        ),
{
    let mut e = edges.remove(i);
    match hit {
        EdgeMenuHit::Style(st) => {
            e.style = st;
        },
        EdgeMenuHit::Width(w) => {
            e.width = w;
        },
        EdgeMenuHit::Animated(b) => {
            e.animated = b;
        },
        _ => {},
    }
    edges.insert(i, e);
    proof {
        assert(edges@ =~= old(edges)@.update(
            i as int,
            match hit {
                EdgeMenuHit::Style(st) => EdgeConnection { style: st, ..old(edges)@[i as int] },
                EdgeMenuHit::Width(w) => EdgeConnection { width: w, ..old(edges)@[i as int] },
                EdgeMenuHit::Animated(b) => EdgeConnection {
                    animated: b,
                    ..old(edges)@[i as int]
                },
                _ => old(edges)@[i as int],
            },
        ));
    }
}


/// The final state differs from `o` in at most the drag state.
pub open spec fn eq_except_drag(o: FlowCanvas, s: FlowCanvas) -> bool {
    s == (FlowCanvas { drag_state: s.drag_state, ..o })
}

/// The final state differs from `o` in at most the menu fields.
pub open spec fn eq_except_menus(o: FlowCanvas, s: FlowCanvas) -> bool {
    s == (FlowCanvas {
        context_menu_node: s.context_menu_node,
        context_menu_edge: s.context_menu_edge,
        context_menu_pos: s.context_menu_pos,
        ..o
    })
}

/// The final state differs from `o` in at most the nodes and the node
/// context menu.
pub open spec fn eq_except_nodes_nodemenu(o: FlowCanvas, s: FlowCanvas) -> bool {
    s == (FlowCanvas { nodes: s.nodes, context_menu_node: s.context_menu_node, ..o })
}

/// The final state differs from `o` in at most the edges and the edge
/// context menu.
pub open spec fn eq_except_edges_edgemenu(o: FlowCanvas, s: FlowCanvas) -> bool {
    s == (FlowCanvas { edges: s.edges, context_menu_edge: s.context_menu_edge, ..o })
}

/// The final state differs from `o` in at most the selections, the drag
/// state and the menu fields.
pub open spec fn eq_except_sel_drag_menus(o: FlowCanvas, s: FlowCanvas) -> bool {
    s == (FlowCanvas {
        selected_nodes: s.selected_nodes,
        selected_edges: s.selected_edges,
        drag_state: s.drag_state,
        context_menu_node: s.context_menu_node,
        context_menu_edge: s.context_menu_edge,
        context_menu_pos: s.context_menu_pos,
        ..o
    })
}

/// What a pointer-down does once no open menu has consumed it: panning on
/// shift, else port, node, edge and empty-space hit tests in that priority
/// order. `o` is the state entering this dispatch (menus already closed by
/// a fall-through click, if any).
pub open spec fn pointer_down_dispatch(
    o: FlowCanvas,
    s: FlowCanvas,
    acts: Seq<FlowCanvasAction>,
    pos: Point,
    local: Point,
    shift: bool,
    ctrl: bool,
) -> bool {
    if shift {
        &&& eq_except_drag(o, s)
        &&& s.drag_state == (DragState::Panning { start: pos })
        &&& acts.len() == 0
    } else {
        match port_hit_from(o.nodes@, local, 0) {
            Some((i, is_output)) => {
                &&& eq_except_drag(o, s)
                &&& s.drag_state == (DragState::CreatingEdge {
                    from_node: i,
                    is_output,
                    cursor_pos: local,
                })
                &&& acts.len() == 0
            },
            None => match node_hit_before(o.nodes@, local, o.nodes@.len() as int) {
                Some(i) => {
                    if ctrl && local.y < o.nodes@[i as int].y + crate::model::HEADER_HEIGHT {
                        &&& eq_except_menus(o, s)
                        &&& s.context_menu_node == Some(i)
                        &&& s.context_menu_edge == o.context_menu_edge
                        &&& s.context_menu_pos == pos
                        &&& acts.len() == 0
                    } else {
                        &&& eq_except_sel_drag_menus(o, s)
                        &&& s.selected_nodes@ == seq![i]
                        &&& s.selected_edges@.len() == 0
                        &&& s.context_menu_node is None
                        &&& s.context_menu_edge == o.context_menu_edge
                        &&& s.context_menu_pos == o.context_menu_pos
                        &&& s.drag_state == (DragState::DraggingNode {
                            index: i,
                            offset: Point {
                                x: (local.x - o.nodes@[i as int].x) as i64,
                                y: (local.y - o.nodes@[i as int].y) as i64,
                            },
                        })
                        &&& acts == seq![FlowCanvasAction::SelectionChanged]
                    }
                },
                None => match edge_hit_from(o.nodes@, o.edges@, local, 0) {
                    Some(i) => {
                        if ctrl {
                            &&& eq_except_menus(o, s)
                            &&& s.context_menu_edge == Some(i)
                            &&& s.context_menu_node is None
                            &&& s.context_menu_pos == pos
                            &&& acts.len() == 0
                        } else {
                            &&& eq_except_sel_drag_menus(o, s)
                            &&& s.selected_edges@ == seq![i]
                            &&& s.selected_nodes@.len() == 0
                            &&& s.context_menu_edge is None
                            &&& s.context_menu_node == o.context_menu_node
                            &&& s.context_menu_pos == o.context_menu_pos
                            &&& s.drag_state == o.drag_state
                            &&& acts == seq![FlowCanvasAction::SelectionChanged]
                        }
                    },
                    None => {
                        &&& eq_except_sel_drag_menus(o, s)
                        &&& s.drag_state == (DragState::SelectionBox {
                            start: local,
                            current: local,
                        })
                        &&& s.selected_nodes@.len() == 0
                        &&& s.selected_edges@.len() == 0
                        &&& s.context_menu_node is None
                        &&& s.context_menu_edge is None
                        &&& s.context_menu_pos == o.context_menu_pos
                        &&& acts == seq![FlowCanvasAction::SelectionChanged]
                    },
                },
            },
        }
    }
}

/// What a pointer-down does to the whole canvas: an open, valid node menu
/// is consulted first, then an open, valid edge menu; a click outside an
/// open menu closes it and falls through to the normal dispatch, for both
/// menus alike.
pub open spec fn pointer_down_post(
    o: FlowCanvas,
    s: FlowCanvas,
    acts: Seq<FlowCanvasAction>,
    pos: Point,
    area_pos: Point,
    shift: bool,
    ctrl: bool,
) -> bool {
    let local = spec_screen_to_canvas(o.pan_offset, o.zoom_milli, area_pos, pos);
    match o.context_menu_node {
        Some(mi) => {
            if mi < o.nodes@.len() {
                let is_multi = crate::graph::sel_set(o.selected_nodes@).contains(mi as int)
                    && o.selected_nodes@.len() > 1;
                let sel = if is_multi {
                    o.selected_nodes@
                } else {
                    seq![mi]
                };
                match node_menu_hit(pos, o.context_menu_pos, is_multi) {
                    NodeMenuHit::Shape(k) => {
                        &&& eq_except_nodes_nodemenu(o, s)
                        &&& s.nodes@ == set_shape_all(o.nodes@, sel, shape_of_index(k as int))
                        &&& s.context_menu_node is None
                        &&& acts.len() == 0
                    },
                    NodeMenuHit::Border(w) => {
                        &&& eq_except_nodes_nodemenu(o, s)
                        &&& s.nodes@ == set_border_all(o.nodes@, sel, w)
                        &&& s.context_menu_node is None
                        &&& acts.len() == 0
                    },
                    NodeMenuHit::InsideBlank => s == o && acts.len() == 0,
                    NodeMenuHit::Outside => pointer_down_after_node_menu(
                        FlowCanvas { context_menu_node: None, ..o },
                        s,
                        acts,
                        pos,
                        local,
                        shift,
                        ctrl,
                    ),
                }
            } else {
                pointer_down_after_node_menu(o, s, acts, pos, local, shift, ctrl)
            }
        },
        None => pointer_down_after_node_menu(o, s, acts, pos, local, shift, ctrl),
    }
}

/// The edge-menu stage of a pointer-down, after the node menu (if any) has
/// had its chance.
pub open spec fn pointer_down_after_node_menu(
    o: FlowCanvas,
    s: FlowCanvas,
    acts: Seq<FlowCanvasAction>,
    pos: Point,
    local: Point,
    shift: bool,
    ctrl: bool,
) -> bool {
    match o.context_menu_edge {
        Some(ei) => {
            if ei < o.edges@.len() {
                match edge_menu_hit(pos, o.context_menu_pos) {
                    EdgeMenuHit::Style(st) => {
                        &&& eq_except_edges_edgemenu(o, s)
                        &&& s.edges@ == o.edges@.update(
                            ei as int,
                            EdgeConnection { style: st, ..o.edges@[ei as int] },
                        )
                        &&& s.context_menu_edge is None
                        &&& acts.len() == 0
                    },
                    EdgeMenuHit::Width(w) => {
                        &&& eq_except_edges_edgemenu(o, s)
                        &&& s.edges@ == o.edges@.update(
                            ei as int,
                            EdgeConnection { width: w, ..o.edges@[ei as int] },
                        )
                        &&& s.context_menu_edge is None
                        &&& acts.len() == 0
                    },
                    EdgeMenuHit::Animated(b) => {
                        &&& eq_except_edges_edgemenu(o, s)
                        &&& s.edges@ == o.edges@.update(
                            ei as int,
                            EdgeConnection { animated: b, ..o.edges@[ei as int] },
                        )
                        &&& s.context_menu_edge is None
                        &&& acts.len() == 0
                    },
                    EdgeMenuHit::InsideBlank => s == o && acts.len() == 0,
                    EdgeMenuHit::Outside => pointer_down_dispatch(
                        FlowCanvas { context_menu_edge: None, ..o },
                        s,
                        acts,
                        pos,
                        local,
                        shift,
                        ctrl,
                    ),
                }
            } else {
                pointer_down_dispatch(o, s, acts, pos, local, shift, ctrl)
            }
        },
        None => pointer_down_dispatch(o, s, acts, pos, local, shift, ctrl),
    }
}

impl FlowCanvas {
    /// A pointer press. An open context menu is consulted first: a click on
    /// one of its items applies that item and closes the menu, a click
    /// inside it otherwise is consumed, and a click outside closes it and
    /// falls through. The remaining dispatch, in priority order: shift
    /// starts panning; a port hit starts edge creation; a node hit opens
    /// its menu (on ctrl over the header) or selects and starts dragging
    /// it; an edge hit opens its menu (on ctrl) or selects it; empty space
    /// clears the selection and starts a selection box.
    #[verifier::rlimit(100)]
    #[verifier::spinoff_prover]
    pub fn pointer_down(&mut self, pos: Point, area_pos: Point, shift: bool, ctrl: bool) -> (acts:
        Vec<FlowCanvasAction>)
        requires
            old(self).wf(),
            input_pt_bounded(pos),
            input_pt_bounded(area_pos),
        ensures
            final(self).wf(),
            pointer_down_post(*old(self), *final(self), acts@, pos, area_pos, shift, ctrl),
    {
        let local = self.screen_to_canvas(pos, area_pos);
        let mut acts: Vec<FlowCanvasAction> = Vec::new();
        let nm = self.context_menu_node;
        if let Some(mi) = nm {
            if mi < self.nodes.len() {
                let is_multi = sel_contains(&self.selected_nodes, mi) && self.selected_nodes.len()
                    > 1;
                let hit = node_menu_hit_at(pos, self.context_menu_pos, is_multi);
                match hit {
                    NodeMenuHit::Shape(k) => {
                        let shape = if k == 0 {
                            crate::model::NodeShape::RoundedRect
                        } else if k == 1 {
                            crate::model::NodeShape::DoubleRoundedRect
                        } else if k == 2 {
                            crate::model::NodeShape::Rectangle
                        } else if k == 3 {
                            crate::model::NodeShape::Round
                        } else {
                            crate::model::NodeShape::Diamond
                        };
                        if is_multi {
                            apply_shape_sel(&mut self.nodes, &self.selected_nodes, shape);
                        } else {
                            set_node_shape_at(&mut self.nodes, mi, shape);
                            proof {
                                let sel = seq![mi];
                                assert(sel.drop_last() =~= Seq::<usize>::empty());
                                assert(set_shape_all(old(self).nodes@, Seq::<usize>::empty(), shape)
                                    == old(self).nodes@);
                                assert(self.nodes@ == set_shape_all(old(self).nodes@, sel, shape));
                            }
                        }
                        self.context_menu_node = None;
                        return acts;
                    },
                    NodeMenuHit::Border(w) => {
                        if is_multi {
                            apply_border_sel(&mut self.nodes, &self.selected_nodes, w);
                        } else {
                            set_node_border_at(&mut self.nodes, mi, w);
                            proof {
                                let sel = seq![mi];
                                assert(sel.drop_last() =~= Seq::<usize>::empty());
                                assert(set_border_all(old(self).nodes@, Seq::<usize>::empty(), w)
                                    == old(self).nodes@);
                                assert(self.nodes@ == set_border_all(old(self).nodes@, sel, w));
                            }
                        }
                        self.context_menu_node = None;
                        return acts;
                    },
                    NodeMenuHit::InsideBlank => {
                        return acts;
                    },
                    NodeMenuHit::Outside => {
                        self.context_menu_node = None;
                    },
                }
            }
        }
        let em = self.context_menu_edge;
        if let Some(ei) = em {
            if ei < self.edges.len() {
                let hit = edge_menu_hit_at(pos, self.context_menu_pos);
                match hit {
                    EdgeMenuHit::Style(_) | EdgeMenuHit::Width(_) | EdgeMenuHit::Animated(_) => {
                        set_edge_at(&mut self.edges, ei, hit);
                        self.context_menu_edge = None;
                        return acts;
                    },
                    EdgeMenuHit::InsideBlank => {
                        return acts;
                    },
                    EdgeMenuHit::Outside => {
                        self.context_menu_edge = None;
                    },
                }
            }
        }
        let ghost pre_acts = acts@;
        let mut inner = self.dispatch_pointer_down(pos, local, shift, ctrl);
        let ghost inner_view = inner@;
        acts.append(&mut inner);
        proof {
            assert(pre_acts.len() == 0);
            assert(acts@ =~= inner_view);
        }
        acts
    }

    /// The hit-test stage of a pointer press, once no open menu has
    /// consumed the click.
    fn dispatch_pointer_down(&mut self, pos: Point, local: Point, shift: bool, ctrl: bool) -> (acts:
        Vec<FlowCanvasAction>)
        requires
            old(self).wf(),
            input_pt_bounded(pos),
            canvas_pt_bounded(local),
        ensures
            final(self).wf(),
            pointer_down_dispatch(*old(self), *final(self), acts@, pos, local, shift, ctrl),
    {
        let mut acts: Vec<FlowCanvasAction> = Vec::new();
        if shift {
            self.drag_state = DragState::Panning { start: pos };
            return acts;
        }
        if let Some((i, is_output)) = self.find_port_hit(local) {
            self.drag_state = DragState::CreatingEdge {
                from_node: i,
                is_output,
                cursor_pos: local,
            };
            return acts;
        }
        if let Some(i) = self.find_node_hit(local) {
            let node_x = self.nodes[i].x;
            let node_y = self.nodes[i].y;
            if ctrl && local.y < node_y + crate::model::HEADER_HEIGHT {
                self.context_menu_node = Some(i);
                self.context_menu_pos = pos;
                return acts;
            }
            self.context_menu_node = None;
            let mut sel: Vec<usize> = Vec::new();
            sel.push(i);
            self.selected_nodes = sel;
            self.selected_edges = Vec::new();
            self.drag_state = DragState::DraggingNode {
                index: i,
                offset: Point { x: local.x - node_x, y: local.y - node_y },
            };
            acts.push(FlowCanvasAction::SelectionChanged);
            return acts;
        }
        if let Some(i) = self.find_edge_hit(local) {
            if ctrl {
                self.context_menu_edge = Some(i);
                self.context_menu_node = None;
                self.context_menu_pos = pos;
                return acts;
            }
            let mut sel: Vec<usize> = Vec::new();
            sel.push(i);
            self.selected_edges = sel;
            self.selected_nodes = Vec::new();
            self.context_menu_edge = None;
            acts.push(FlowCanvasAction::SelectionChanged);
            return acts;
        }
        self.drag_state = DragState::SelectionBox { start: local, current: local };
        self.selected_nodes = Vec::new();
        self.selected_edges = Vec::new();
        self.context_menu_node = None;
        self.context_menu_edge = None;
        acts.push(FlowCanvasAction::SelectionChanged);
        acts
    }

    /// A key press: delete removes the selection, select-all selects every
    /// node, undo and redo walk the history, and escape clears selections,
    /// menus and any drag.
    pub fn handle_key(&mut self, key: CanvasKey) -> (acts: Vec<FlowCanvasAction>)
        requires
            old(self).wf(),
        ensures
            final(self).wf(),
            key == CanvasKey::Delete ==> {
                &&& acts@.len() > 0
                &&& deletion_post(*old(self), *final(self), acts@.drop_last())
                &&& acts@.last() == (FlowCanvasAction::StatusUpdate {
                    nodes: final(self).nodes@.len() as usize,
                    edges: final(self).edges@.len() as usize,
                })
            },
            key == CanvasKey::SelectAll ==> {
                &&& final(self).selected_nodes@.len() == final(self).nodes@.len()
                &&& (forall|i: int|
                    0 <= i < final(self).selected_nodes@.len() ==> final(self).selected_nodes@[i]
                        == i)
                &&& final(self).selected_edges@.len() == 0
                &&& *final(self) == (FlowCanvas {
                    selected_nodes: final(self).selected_nodes,
                    selected_edges: final(self).selected_edges,
                    ..*old(self)
                })
                &&& acts@ == seq![FlowCanvasAction::SelectionChanged]
            },
            key == CanvasKey::Undo ==> {
                let (u, r, c) = crate::history::undo_spec(
                    crate::history::stack_abs(old(self).history.undo_stack@),
                    crate::history::stack_abs(old(self).history.redo_stack@),
                    crate::history::graph_abs(old(self).nodes@, old(self).edges@),
                );
                &&& crate::history::stack_abs(final(self).history.undo_stack@) == u
                &&& crate::history::stack_abs(final(self).history.redo_stack@) == r
                &&& crate::history::graph_abs(final(self).nodes@, final(self).edges@) == c
                &&& *final(self) == (FlowCanvas {
                    nodes: final(self).nodes,
                    edges: final(self).edges,
                    selected_nodes: final(self).selected_nodes,
                    selected_edges: final(self).selected_edges,
                    drag_state: final(self).drag_state,
                    history: final(self).history,
                    ..*old(self)
                })
                &&& acts@ == seq![
                    FlowCanvasAction::StatusUpdate {
                        nodes: final(self).nodes@.len() as usize,
                        edges: final(self).edges@.len() as usize,
                    },
                ]
            },
            key == CanvasKey::Redo ==> {
                let (u, r, c) = crate::history::redo_spec(
                    crate::history::stack_abs(old(self).history.undo_stack@),
                    crate::history::stack_abs(old(self).history.redo_stack@),
                    crate::history::graph_abs(old(self).nodes@, old(self).edges@),
                );
                &&& crate::history::stack_abs(final(self).history.undo_stack@) == u
                &&& crate::history::stack_abs(final(self).history.redo_stack@) == r
                &&& crate::history::graph_abs(final(self).nodes@, final(self).edges@) == c
                &&& *final(self) == (FlowCanvas {
                    nodes: final(self).nodes,
                    edges: final(self).edges,
                    selected_nodes: final(self).selected_nodes,
                    selected_edges: final(self).selected_edges,
                    drag_state: final(self).drag_state,
                    history: final(self).history,
                    ..*old(self)
                })
                &&& acts@ == seq![
                    FlowCanvasAction::StatusUpdate {
                        nodes: final(self).nodes@.len() as usize,
                        edges: final(self).edges@.len() as usize,
                    },
                ]
            },
            key == CanvasKey::Escape ==> {
                &&& final(self).selected_nodes@.len() == 0
                &&& final(self).selected_edges@.len() == 0
                &&& final(self).context_menu_node is None
                &&& final(self).context_menu_edge is None
                &&& final(self).drag_state is Idle
                &&& *final(self) == (FlowCanvas {
                    selected_nodes: final(self).selected_nodes,
                    selected_edges: final(self).selected_edges,
                    context_menu_node: None,
                    context_menu_edge: None,
                    drag_state: final(self).drag_state,
                    ..*old(self)
                })
                &&& acts@ == seq![FlowCanvasAction::SelectionChanged]
            },
    {
        let mut acts: Vec<FlowCanvasAction> = Vec::new();
        match key {
            CanvasKey::Delete => {
                let mut inner = self.delete_selected();
                let ghost inner_view = inner@;
                acts.append(&mut inner);
                acts.push(
                    FlowCanvasAction::StatusUpdate {
                        nodes: self.nodes.len(),
                        edges: self.edges.len(),
                    },
                );
                proof {
                    assert(acts@.drop_last() =~= inner_view);
                }
            },
            CanvasKey::SelectAll => {
                self.select_all();
                acts.push(FlowCanvasAction::SelectionChanged);
            },
            CanvasKey::Undo => {
                let _ = self.undo();
                acts.push(
                    FlowCanvasAction::StatusUpdate {
                        nodes: self.nodes.len(),
                        edges: self.edges.len(),
                    },
                );
            },
            CanvasKey::Redo => {
                let _ = self.redo();
                acts.push(
                    FlowCanvasAction::StatusUpdate {
                        nodes: self.nodes.len(),
                        edges: self.edges.len(),
                    },
                );
            },
            CanvasKey::Escape => {
                self.escape();
                acts.push(FlowCanvasAction::SelectionChanged);
            },
        }
        acts
    }
}

} // verus!
