//! The renderer adapter: turns the current graph, selections, drag state
//! and view transform into screen-space draw data — curve polylines with
//! their style and animation attributes, node boxes with header, ports and
//! truncated labels, and the selection box. Rasterizing these primitives
//! (scanline fills, dashes, particles, text) is the display back-end's job.

use crate::canvas::{spec_canvas_to_screen, DragState, FlowCanvas, MILLI, SCREEN_OUT_LIMIT};
use crate::geometry::{bezier_point, control_from, control_to, Point, Rect};
use crate::model::{
    EdgeConnection, EdgeMarker, EdgeStyle, FlowNode, NodeCategory, NodeShape, Port, HEADER_HEIGHT,
    PORT_ROW_HEIGHT,
};
use crate::text::{chars_of, string_from_chars};
use vstd::prelude::*;

verus! {

/// Number of segments a rendered curve is sampled into.
pub const RENDER_SEGMENTS: usize = 100;

/// Longest node title drawn before truncation.
pub const TITLE_MAX_CHARS: usize = 20;

/// Longest port label drawn before truncation.
pub const LABEL_MAX_CHARS: usize = 12;

/// One edge ready to draw: screen-space endpoints, the sampled polyline,
/// and the per-edge attributes the rasterizer needs.
pub struct EdgeDraw {
    pub from: Point,
    pub to: Point,
    pub points: Vec<Point>,
    pub selected: bool,
    pub style: EdgeStyle,
    pub width: i64,
    pub animated: bool,
    pub marker: EdgeMarker,
    pub label: String,
}

/// One node ready to draw: its screen-space box and header, its category
/// and shape, and its port circles with truncated labels.
pub struct NodeDraw {
    pub rect: Rect,
    pub header: Rect,
    pub selected: bool,
    pub shape: NodeShape,
    pub category: NodeCategory,
    pub border_width: i64,
    pub title: String,
    pub input_ports: Vec<(Point, String)>,
    pub output_ports: Vec<(Point, String)>,
}

/// Everything one frame draws, in drawing order: edges first (dangling ones
/// skipped as `None`), then the provisional edge of a drag, then the nodes,
/// then the selection box.
pub struct RenderPlan {
    pub edges: Vec<Option<EdgeDraw>>,
    pub creating: Option<(Point, Point)>,
    pub nodes: Vec<NodeDraw>,
    pub selection_box: Option<Rect>,
}

/// The first port of `ports` named `id`, if any.
pub open spec fn first_port_index(ports: Seq<Port>, id: Seq<char>) -> Option<int>
    decreases ports.len(),
{
    if ports.len() == 0 {
        None
    } else if ports[0].id@ == id {
        Some(0)
    } else {
        match first_port_index(ports.drop_first(), id) {
            Some(i) => Some(i + 1),
            None => None,
        }
    }
}

/// Where an edge leaves its source node, in canvas space: the named output
/// port when the edge names one that exists, else the node's default
/// output position.
pub open spec fn resolved_from_pos(n: FlowNode, e: EdgeConnection) -> Point {
    if e.from_port@.len() > 0 {
        match first_port_index(n.output_ports@, e.from_port@) {
            Some(i) => n.spec_output_port_pos(i),
            None => n.spec_output_pos(),
        }
    } else {
        n.spec_output_pos()
    }
}

/// Where an edge enters its target node, in canvas space.
pub open spec fn resolved_to_pos(n: FlowNode, e: EdgeConnection) -> Point {
    if e.to_port@.len() > 0 {
        match first_port_index(n.input_ports@, e.to_port@) {
            Some(i) => n.spec_input_port_pos(i),
            None => n.spec_input_pos(),
        }
    } else {
        n.spec_input_pos()
    }
}

/// `s` cut to at most `max` characters: longer texts keep the first
/// `keep` characters and end in the ellipsis `suffix`.
pub open spec fn truncated(s: Seq<char>, max: int, keep: int, suffix: Seq<char>) -> Seq<char> {
    if s.len() > max {
        s.take(keep) + suffix
    } else {
        s
    }
}

/// `d` is exactly the draw data of edge `i` on canvas `c`: endpoints
/// resolved by port name, mapped to screen space, the curve sampled at
/// `RENDER_SEGMENTS` segments, and the edge's own attributes (animation
/// only when the canvas animates at all).
pub open spec fn edge_draw_matches(c: FlowCanvas, i: int, d: EdgeDraw) -> bool {
    let e = c.edges@[i];
    let from = spec_canvas_to_screen(
        c.pan_offset,
        c.zoom_milli,
        resolved_from_pos(c.nodes@[e.from_node as int], e),
    );
    let to = spec_canvas_to_screen(
        c.pan_offset,
        c.zoom_milli,
        resolved_to_pos(c.nodes@[e.to_node as int], e),
    );
    &&& d.from == from
    &&& d.to == to
    &&& d.points@.len() == RENDER_SEGMENTS + 1
    &&& (forall|j: int|
        0 <= j <= RENDER_SEGMENTS ==> d.points@[j] == bezier_point(
            from,
            control_from(from, to),
            control_to(from, to),
            to,
            j,
            RENDER_SEGMENTS as int,
        ))
    &&& d.selected == crate::graph::sel_set(c.selected_edges@).contains(i)
    &&& d.style == e.style
    &&& d.width == e.width
    &&& d.animated == (c.animate_edges && e.animated)
    &&& d.marker == e.marker_end
    &&& d.label@ == e.label@
}

/// `d` is exactly the draw data of node `i` on canvas `c`: its box and
/// header mapped to screen space and scaled by the zoom, its title cut to
/// twenty characters, and one circle position with a label cut to twelve
/// characters per port.
pub open spec fn node_draw_matches(c: FlowCanvas, i: int, d: NodeDraw) -> bool {
    let n = c.nodes@[i];
    let pos = spec_canvas_to_screen(c.pan_offset, c.zoom_milli, Point { x: n.x, y: n.y });
    let sw = (n.width * c.zoom_milli) as int / (MILLI as int);
    let sh = (n.height * c.zoom_milli) as int / (MILLI as int);
    let header_h = (HEADER_HEIGHT * c.zoom_milli) as int / (MILLI as int);
    let row_h = (PORT_ROW_HEIGHT * c.zoom_milli) as int / (MILLI as int);
    &&& d.rect == (Rect { pos, size: Point { x: sw as i64, y: sh as i64 } })
    &&& d.header == (Rect {
        pos,
        size: Point { x: sw as i64, y: header_h as i64 },
    })
    &&& d.selected == crate::graph::sel_set(c.selected_nodes@).contains(i)
    &&& d.shape == n.shape
    &&& d.category == n.category
    &&& d.border_width == n.border_width
    &&& d.title@ == truncated(n.title@, TITLE_MAX_CHARS as int, TITLE_MAX_CHARS - 2, ".."@)
    &&& d.input_ports@.len() == n.input_ports@.len()
    &&& (forall|j: int|
        0 <= j < n.input_ports@.len() ==> {
            &&& (#[trigger] d.input_ports@[j]).0 == (Point {
                x: pos.x,
                y: (pos.y + header_h + j * row_h + row_h / 2) as i64,
            })
            &&& d.input_ports@[j].1@ == truncated(
                n.input_ports@[j].label@,
                LABEL_MAX_CHARS as int,
                LABEL_MAX_CHARS - 2,
                "..."@,
            )
        })
    &&& d.output_ports@.len() == n.output_ports@.len()
    &&& (forall|j: int|
        0 <= j < n.output_ports@.len() ==> {
            &&& (#[trigger] d.output_ports@[j]).0 == (Point {
                x: (pos.x + sw) as i64,
                y: (pos.y + header_h + j * row_h + row_h / 2) as i64,
            })
            &&& d.output_ports@[j].1@ == truncated(
                n.output_ports@[j].label@,
                LABEL_MAX_CHARS as int,
                LABEL_MAX_CHARS - 2,
                "..."@,
            )
        })
}

/// Cuts a text to `max` characters, keeping the first `keep` and appending
/// `suffix` when it is longer, as `truncated` describes.
fn truncate_chars(s: &str, max: usize, keep: usize, suffix: &str) -> (r: String)
    requires
        keep <= max,
    ensures
        r@ == truncated(s@, max as int, keep as int, suffix@),
{
    let cs = chars_of(s);
    if cs.len() > max {
        let mut out: Vec<char> = Vec::new();
        let mut i: usize = 0;
        while i < keep
            invariant
                0 <= i <= keep,
                keep <= cs@.len(),
                cs@ == s@,
                out@ == s@.take(i as int),
            decreases keep - i,
        {
            out.push(cs[i]);
            proof {
                assert(out@ =~= s@.take(i + 1));
            }
            i += 1;
        }
        let sfx = chars_of(suffix);
        let mut k: usize = 0;
        while k < sfx.len()
            invariant
                0 <= k <= sfx@.len(),
                sfx@ == suffix@,
                out@ == s@.take(keep as int) + suffix@.take(k as int),
            decreases sfx@.len() - k,
        {
            out.push(sfx[k]);
            proof {
                assert(out@ =~= s@.take(keep as int) + suffix@.take(k + 1));
            }
            k += 1;
        }
        proof {
            assert(suffix@.take(suffix@.len() as int) =~= suffix@);
        }
        string_from_chars(&out)
    } else {
        s.to_owned()
    }
}

impl FlowCanvas {
    /// The draw data of edge `i`, or nothing when the edge is dangling.
    pub fn edge_draw(&self, i: usize) -> (r: Option<EdgeDraw>)
        requires
            self.wf(),
            i < self.edges@.len(),
        ensures
            match r {
                Some(d) => edge_valid_at(*self, i as int) && edge_draw_matches(*self, i as int, d),
                None => !edge_valid_at(*self, i as int),
            },
    {
        let e = &self.edges[i];
        if e.from_node >= self.nodes.len() || e.to_node >= self.nodes.len() {
            return None;
        }
        let from_node = &self.nodes[e.from_node];
        let to_node = &self.nodes[e.to_node];
        let from_canvas = if !crate::text::str_is_empty(e.from_port.as_str()) {
            match from_node.output_port_index(e.from_port.as_str()) {
                Some(pi) => {
                    proof {
                        lemma_first_port_index(from_node.output_ports@, e.from_port@, pi as int);
                    }
                    from_node.output_port_pos(pi)
                },
                None => {
                    proof {
                        lemma_no_port_index(from_node.output_ports@, e.from_port@);
                    }
                    from_node.output_pos()
                },
            }
        } else {
            from_node.output_pos()
        };
        let to_canvas = if !crate::text::str_is_empty(e.to_port.as_str()) {
            match to_node.input_port_index(e.to_port.as_str()) {
                Some(pi) => {
                    proof {
                        lemma_first_port_index(to_node.input_ports@, e.to_port@, pi as int);
                    }
                    to_node.input_port_pos(pi)
                },
                None => {
                    proof {
                        lemma_no_port_index(to_node.input_ports@, e.to_port@);
                    }
                    to_node.input_pos()
                },
            }
        } else {
            to_node.input_pos()
        };
        let from = self.canvas_to_screen_pt(from_canvas);
        let to = self.canvas_to_screen_pt(to_canvas);
        let points = crate::geometry::sample_curve(from, to, RENDER_SEGMENTS);
        let selected = crate::canvas::sel_contains(&self.selected_edges, i);
        Some(
            EdgeDraw {
                from,
                to,
                points,
                selected,
                style: e.style,
                width: e.width,
                animated: self.animate_edges && e.animated,
                marker: e.marker_end,
                label: e.label.clone(),
            },
        )
    }

    /// The draw data of node `i`.
    pub fn node_draw(&self, i: usize) -> (r: NodeDraw)
        requires
            self.wf(),
            i < self.nodes@.len(),
        ensures
            node_draw_matches(*self, i as int, r),
    {
        let n = &self.nodes[i];
        let pos = self.canvas_to_screen_pt(Point { x: n.x, y: n.y });
        proof {
            crate::canvas::lemma_zoom_scale_for_render(n.width as int, self.zoom_milli as int);
            crate::canvas::lemma_zoom_scale_for_render(n.height as int, self.zoom_milli as int);
            crate::canvas::lemma_zoom_scale_for_render(HEADER_HEIGHT as int, self.zoom_milli as int);
            crate::canvas::lemma_zoom_scale_for_render(
                PORT_ROW_HEIGHT as int,
                self.zoom_milli as int,
            );
        }
        let sw = crate::canvas::div_floor(n.width * self.zoom_milli, MILLI);
        let sh = crate::canvas::div_floor(n.height * self.zoom_milli, MILLI);
        let header_h = crate::canvas::div_floor(HEADER_HEIGHT * self.zoom_milli, MILLI);
        let row_h = crate::canvas::div_floor(PORT_ROW_HEIGHT * self.zoom_milli, MILLI);
        let title = truncate_chars(n.title.as_str(), TITLE_MAX_CHARS, TITLE_MAX_CHARS - 2, "..");
        let mut input_ports: Vec<(Point, String)> = Vec::new();
        let mut j: usize = 0;
        while j < n.input_ports.len()
            invariant
                0 <= j <= n.input_ports@.len(),
                n.input_ports@.len() <= 4096,
                n == &self.nodes@[i as int],
                self.wf(),
                i < self.nodes@.len(),
                n.input_ports@.len() <= crate::model::MAX_PORTS,
                0 <= row_h <= 80,
                0 <= header_h <= 128,
                -SCREEN_OUT_LIMIT <= pos.x <= SCREEN_OUT_LIMIT,
                -SCREEN_OUT_LIMIT <= pos.y <= SCREEN_OUT_LIMIT,
                input_ports@.len() == j,
                forall|q: int|
                    0 <= q < j ==> {
                        &&& (#[trigger] input_ports@[q]).0 == (Point {
                            x: pos.x,
                            y: (pos.y + header_h + q * row_h + row_h / 2) as i64,
                        })
                        &&& input_ports@[q].1@ == truncated(
                            self.nodes@[i as int].input_ports@[q].label@,
                            LABEL_MAX_CHARS as int,
                            LABEL_MAX_CHARS - 2,
                            "..."@,
                        )
                    },
            decreases n.input_ports@.len() - j,
        {
            proof {
                assert(0 <= (j as i64) * row_h <= 4096 * 80) by (nonlinear_arith)
                    requires
                        0 <= j <= 4096,
                        0 <= row_h <= 80,
                ;
            }
            let py = pos.y + header_h + (j as i64) * row_h + row_h / 2;
            let label = truncate_chars(
                n.input_ports[j].label.as_str(),
                LABEL_MAX_CHARS,
                LABEL_MAX_CHARS - 2,
                "...",
            );
            input_ports.push((Point { x: pos.x, y: py }, label));
            j += 1;
        }
        let mut output_ports: Vec<(Point, String)> = Vec::new();
        let mut k: usize = 0;
        while k < n.output_ports.len()
            invariant
                0 <= k <= n.output_ports@.len(),
                n.output_ports@.len() <= 4096,
                n == &self.nodes@[i as int],
                self.wf(),
                i < self.nodes@.len(),
                n.output_ports@.len() <= crate::model::MAX_PORTS,
                0 <= row_h <= 80,
                0 <= header_h <= 128,
                0 <= sw <= 0x400_0000,
                -SCREEN_OUT_LIMIT <= pos.x <= SCREEN_OUT_LIMIT,
                -SCREEN_OUT_LIMIT <= pos.y <= SCREEN_OUT_LIMIT,
                output_ports@.len() == k,
                forall|q: int|
                    0 <= q < k ==> {
                        &&& (#[trigger] output_ports@[q]).0 == (Point {
                            x: (pos.x + sw) as i64,
                            y: (pos.y + header_h + q * row_h + row_h / 2) as i64,
                        })
                        &&& output_ports@[q].1@ == truncated(
                            self.nodes@[i as int].output_ports@[q].label@,
                            LABEL_MAX_CHARS as int,
                            LABEL_MAX_CHARS - 2,
                            "..."@,
                        )
                    },
            decreases n.output_ports@.len() - k,
        {
            proof {
                assert(0 <= (k as i64) * row_h <= 4096 * 80) by (nonlinear_arith)
                    requires
                        0 <= k <= 4096,
                        0 <= row_h <= 80,
                ;
            }
            let py = pos.y + header_h + (k as i64) * row_h + row_h / 2;
            let label = truncate_chars(
                n.output_ports[k].label.as_str(),
                LABEL_MAX_CHARS,
                LABEL_MAX_CHARS - 2,
                "...",
            );
            output_ports.push((Point { x: pos.x + sw, y: py }, label));
            k += 1;
        }
        let selected = crate::canvas::sel_contains(&self.selected_nodes, i);
        NodeDraw {
            rect: Rect { pos, size: Point { x: sw, y: sh } },
            header: Rect { pos, size: Point { x: sw, y: header_h } },
            selected,
            shape: n.shape,
            category: n.category,
            border_width: n.border_width,
            title,
            input_ports,
            output_ports,
        }
    }

    /// The screen-space rectangle of the selection box, normalized whatever
    /// way the box was dragged; nothing when no box is active.
    pub fn selection_box_rect(&self) -> (r: Option<Rect>)
        requires
            self.wf(),
        ensures
            match r {
                Some(rect) => self.drag_state matches DragState::SelectionBox { start, current }
                    && rect == normalized_box(
                    spec_canvas_to_screen(self.pan_offset, self.zoom_milli, start),
                    spec_canvas_to_screen(self.pan_offset, self.zoom_milli, current),
                ),
                None => !(self.drag_state is SelectionBox),
            },
    {
        match &self.drag_state {
            DragState::SelectionBox { start, current } => {
                let a = self.canvas_to_screen_pt(*start);
                let b = self.canvas_to_screen_pt(*current);
                let min_x = if a.x <= b.x { a.x } else { b.x };
                let max_x = if a.x <= b.x { b.x } else { a.x };
                let min_y = if a.y <= b.y { a.y } else { b.y };
                let max_y = if a.y <= b.y { b.y } else { a.y };
                Some(
                    Rect {
                        pos: Point { x: min_x, y: min_y },
                        size: Point { x: max_x - min_x, y: max_y - min_y },
                    },
                )
            },
            _ => None,
        }
    }

    /// The screen-space endpoints of the provisional edge of an edge drag;
    /// nothing when no edge is being created or its origin is gone.
    pub fn creating_edge_draw(&self) -> (r: Option<(Point, Point)>)
        requires
            self.wf(),
        ensures
            match r {
                Some(pts) => self.drag_state matches DragState::CreatingEdge {
                    from_node,
                    is_output,
                    cursor_pos,
                } && {
                    let port = if is_output {
                        self.nodes@[from_node as int].spec_output_pos()
                    } else {
                        self.nodes@[from_node as int].spec_input_pos()
                    };
                    pts.0 == spec_canvas_to_screen(self.pan_offset, self.zoom_milli, port)
                        && pts.1 == spec_canvas_to_screen(
                        self.pan_offset,
                        self.zoom_milli,
                        cursor_pos,
                    )
                },
                None => !(self.drag_state is CreatingEdge),
            },
    {
        match &self.drag_state {
            DragState::CreatingEdge { from_node, is_output, cursor_pos } => {
                let node = &self.nodes[*from_node];
                let port = if *is_output {
                    node.output_pos()
                } else {
                    node.input_pos()
                };
                Some((self.canvas_to_screen_pt(port), self.canvas_to_screen_pt(*cursor_pos)))
            },
            _ => None,
        }
    }

    /// The whole frame: every edge's draw data (dangling edges as `None`),
    /// the provisional edge, every node's draw data in z-order, and the
    /// selection box.
    pub fn render_plan(&self) -> (r: RenderPlan)
        requires
            self.wf(),
        ensures
            r.edges@.len() == self.edges@.len(),
            forall|i: int|
                0 <= i < self.edges@.len() ==> match #[trigger] r.edges@[i] {
                    Some(d) => edge_valid_at(*self, i) && edge_draw_matches(*self, i, d),
                    None => !edge_valid_at(*self, i),
                },
            r.nodes@.len() == self.nodes@.len(),
            forall|i: int|
                0 <= i < self.nodes@.len() ==> node_draw_matches(*self, i, #[trigger] r.nodes@[i]),
    {
        let mut edges: Vec<Option<EdgeDraw>> = Vec::new();
        let mut i: usize = 0;
        while i < self.edges.len()
            invariant
                self.wf(),
                0 <= i <= self.edges@.len(),
                edges@.len() == i,
                forall|q: int|
                    0 <= q < i ==> match #[trigger] edges@[q] {
                        Some(d) => edge_valid_at(*self, q) && edge_draw_matches(*self, q, d),
                        None => !edge_valid_at(*self, q),
                    },
            decreases self.edges@.len() - i,
        {
            edges.push(self.edge_draw(i));
            i += 1;
        }
        let mut nodes: Vec<NodeDraw> = Vec::new();
        let mut k: usize = 0;
        while k < self.nodes.len()
            invariant
                self.wf(),
                0 <= k <= self.nodes@.len(),
                nodes@.len() == k,
                forall|q: int|
                    0 <= q < k ==> node_draw_matches(*self, q, #[trigger] nodes@[q]),
            decreases self.nodes@.len() - k,
        {
            nodes.push(self.node_draw(k));
            k += 1;
        }
        RenderPlan {
            edges,
            creating: self.creating_edge_draw(),
            nodes,
            selection_box: self.selection_box_rect(),
        }
    }
}

/// Edge `i` of the canvas references nodes that exist.
pub open spec fn edge_valid_at(c: FlowCanvas, i: int) -> bool {
    crate::canvas::edge_valid(c.edges@[i], c.nodes@.len() as int)
}

/// The axis-aligned rectangle spanned by two corners, whichever way they
/// were dragged.
pub open spec fn normalized_box(a: Point, b: Point) -> Rect {
    let min_x = if a.x <= b.x {
        a.x
    } else {
        b.x
    };
    let max_x = if a.x <= b.x {
        b.x
    } else {
        a.x
    };
    let min_y = if a.y <= b.y {
        a.y
    } else {
        b.y
    };
    let max_y = if a.y <= b.y {
        b.y
    } else {
        a.y
    };
    Rect {
        pos: Point { x: min_x, y: min_y },
        size: Point { x: (max_x - min_x) as i64, y: (max_y - min_y) as i64 },
    }
}

/// A found port index is the first index with that id.
proof fn lemma_first_port_index(ports: Seq<Port>, id: Seq<char>, i: int)
    requires
        0 <= i < ports.len(),
        ports[i].id@ == id,
        forall|j: int| 0 <= j < i ==> ports[j].id@ != id,
    ensures
        first_port_index(ports, id) == Some(i),
    decreases i,
{
    if i > 0 {
        assert(ports[0].id@ != id);
        assert forall|j: int| 0 <= j < i - 1 implies ports.drop_first()[j].id@ != id by {
            assert(ports.drop_first()[j] == ports[j + 1]);
        }
        assert(ports.drop_first()[i - 1] == ports[i]);
        lemma_first_port_index(ports.drop_first(), id, i - 1);
    } else {
        assert(first_port_index(ports, id) == Some(0int));
    }
}

/// A port id found nowhere has no first index.
proof fn lemma_no_port_index(ports: Seq<Port>, id: Seq<char>)
    requires
        forall|j: int| 0 <= j < ports.len() ==> ports[j].id@ != id,
    ensures
        first_port_index(ports, id) is None,
    decreases ports.len(),
{
    if ports.len() > 0 {
        assert forall|j: int| 0 <= j < ports.drop_first().len() implies ports.drop_first()[j].id@
            != id by {
            assert(ports.drop_first()[j] == ports[j + 1]);
        }
        lemma_no_port_index(ports.drop_first(), id);
    }
}


/// One row of a context menu: its text and whether it shows as the current
/// choice.
pub struct MenuRow {
    pub label: String,
    pub selected: bool,
}

impl FlowCanvas {
    /// The rows of the open edge context menu, in drawing order: the style
    /// section, the width section and the animation section, each with its
    /// current choice marked. Nothing when no valid edge menu is open.
    pub fn edge_menu_rows(&self) -> (r: Option<Vec<MenuRow>>)
        requires
            self.wf(),
        ensures
            match r {
                Some(rows) => self.context_menu_edge matches Some(ei) && ei < self.edges@.len()
                    && {
                    let e = self.edges@[ei as int];
                    &&& rows@.len() == 12
                    &&& rows@[0].label@ == "Style"@ && !rows@[0].selected
                    &&& rows@[1].label@ == "Solid"@ && rows@[1].selected == (e.style
                        == EdgeStyle::Solid)
                    &&& rows@[2].label@ == "Dashed"@ && rows@[2].selected == (e.style
                        == EdgeStyle::Dashed)
                    &&& rows@[3].label@ == "Dotted"@ && rows@[3].selected == (e.style
                        == EdgeStyle::Dotted)
                    &&& rows@[4].label@ == "Width"@ && !rows@[4].selected
                    &&& rows@[5].label@ == "1px"@ && rows@[5].selected == (e.width == 1)
                    &&& rows@[6].label@ == "2px"@ && rows@[6].selected == (e.width == 2)
                    &&& rows@[7].label@ == "3px"@ && rows@[7].selected == (e.width == 3)
                    &&& rows@[8].label@ == "4px"@ && rows@[8].selected == (e.width == 4)
                    &&& rows@[9].label@ == "Animation"@ && !rows@[9].selected
                    &&& rows@[10].label@ == "On"@ && rows@[10].selected == e.animated
                    &&& rows@[11].label@ == "Off"@ && rows@[11].selected == !e.animated
                },
                None => !(self.context_menu_edge matches Some(ei) && ei < self.edges@.len()),
            },
    {
        let ei = match self.context_menu_edge {
            Some(ei) => ei,
            None => {
                return None;
            },
        };
        if ei >= self.edges.len() {
            return None;
        }
        let e = &self.edges[ei];
        let mut rows: Vec<MenuRow> = Vec::new();
        rows.push(MenuRow { label: "Style".to_owned(), selected: false });
        rows.push(
            MenuRow {
                label: "Solid".to_owned(),
                selected: matches!(e.style, EdgeStyle::Solid),
            },
        );
        rows.push(
            MenuRow {
                label: "Dashed".to_owned(),
                selected: matches!(e.style, EdgeStyle::Dashed),
            },
        );
        rows.push(
            MenuRow {
                label: "Dotted".to_owned(),
                selected: matches!(e.style, EdgeStyle::Dotted),
            },
        );
        rows.push(MenuRow { label: "Width".to_owned(), selected: false });
        rows.push(MenuRow { label: "1px".to_owned(), selected: e.width == 1 });
        rows.push(MenuRow { label: "2px".to_owned(), selected: e.width == 2 });
        rows.push(MenuRow { label: "3px".to_owned(), selected: e.width == 3 });
        rows.push(MenuRow { label: "4px".to_owned(), selected: e.width == 4 });
        rows.push(MenuRow { label: "Animation".to_owned(), selected: false });
        rows.push(MenuRow { label: "On".to_owned(), selected: e.animated });
        rows.push(MenuRow { label: "Off".to_owned(), selected: !e.animated });
        Some(rows)
    }

    /// The rows of the open node context menu: a header naming the
    /// selection size when the menu applies to a multi-selection, then the
    /// shape section and the border section. Nothing when no valid node
    /// menu is open.
    pub fn node_menu_rows(&self) -> (r: Option<Vec<MenuRow>>)
        requires
            self.wf(),
        ensures
            match r {
                Some(rows) => self.context_menu_node matches Some(mi) && mi < self.nodes@.len()
                    && {
                    let is_multi = crate::graph::sel_set(self.selected_nodes@).contains(mi as int)
                        && self.selected_nodes@.len() > 1;
                    let base = if is_multi {
                        1int
                    } else {
                        0int
                    };
                    &&& rows@.len() == base + 11
                    &&& (is_multi ==> rows@[0].label@ == "Apply to "@ + crate::text::dec_digits(
                        self.selected_nodes@.len() as int,
                    ) + " nodes"@)
                    &&& rows@[base].label@ == "Shape"@
                    &&& rows@[base + 1].label@ == "Rounded Rect"@
                    &&& rows@[base + 2].label@ == "Double Rounded"@
                    &&& rows@[base + 3].label@ == "Rectangle"@
                    &&& rows@[base + 4].label@ == "Round"@
                    &&& rows@[base + 5].label@ == "Diamond"@
                    &&& rows@[base + 6].label@ == "Border"@
                    &&& rows@[base + 7].label@ == "1px"@
                    &&& rows@[base + 8].label@ == "2px"@
                    &&& rows@[base + 9].label@ == "3px"@
                    &&& rows@[base + 10].label@ == "4px"@
                },
                None => !(self.context_menu_node matches Some(mi) && mi < self.nodes@.len()),
            },
    {
        let mi = match self.context_menu_node {
            Some(mi) => mi,
            None => {
                return None;
            },
        };
        if mi >= self.nodes.len() {
            return None;
        }
        let is_multi = crate::canvas::sel_contains(&self.selected_nodes, mi)
            && self.selected_nodes.len() > 1;
        let mut rows: Vec<MenuRow> = Vec::new();
        if is_multi {
            let mut header = chars_of("Apply to ");
            crate::text::push_decimal(&mut header, self.selected_nodes.len() as u64);
            let mut tail = chars_of(" nodes");
            header.append(&mut tail);
            rows.push(MenuRow { label: string_from_chars(&header), selected: false });
        }
        rows.push(MenuRow { label: "Shape".to_owned(), selected: false });
        rows.push(MenuRow { label: "Rounded Rect".to_owned(), selected: false });
        rows.push(MenuRow { label: "Double Rounded".to_owned(), selected: false });
        rows.push(MenuRow { label: "Rectangle".to_owned(), selected: false });
        rows.push(MenuRow { label: "Round".to_owned(), selected: false });
        rows.push(MenuRow { label: "Diamond".to_owned(), selected: false });
        rows.push(MenuRow { label: "Border".to_owned(), selected: false });
        rows.push(MenuRow { label: "1px".to_owned(), selected: false });
        rows.push(MenuRow { label: "2px".to_owned(), selected: false });
        rows.push(MenuRow { label: "3px".to_owned(), selected: false });
        rows.push(MenuRow { label: "4px".to_owned(), selected: false });
        Some(rows)
    }
}

} // verus!
