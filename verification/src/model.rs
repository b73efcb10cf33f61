//! The node, port and edge data model, with the geometric queries the
//! canvas asks of it: bounding-box and port hit rectangles and exact port
//! positions in canvas space.

use crate::geometry::{Point, Rect};
use crate::text::{push_decimal, string_from_chars};
use vstd::prelude::*;

verus! {

/// Default node width in canvas units.
pub const NODE_WIDTH: i64 = 180;

/// Minimum node height.
pub const MIN_NODE_HEIGHT: i64 = 80;

/// Height of a camera node.
pub const CAMERA_HEIGHT: i64 = 80;

/// Default node height.
pub const DEFAULT_NODE_HEIGHT: i64 = 100;

/// Height of a node header.
pub const HEADER_HEIGHT: i64 = 32;

/// Height of one port row.
pub const PORT_ROW_HEIGHT: i64 = 20;

/// Padding below the last port row.
pub const BODY_PADDING: i64 = 16;

/// Vertical offset of the single implicit port of a node from before
/// multi-port support.
pub const LEGACY_PORT_Y_OFFSET: i64 = 54;

/// Side of the square hit box around a port.
pub const PORT_HIT_SIZE: i64 = 18;

/// Horizontal offset of an output port's hit box from the port position.
pub const PORT_HIT_OFFSET_X: i64 = 12;

/// Vertical offset of a port's hit box from the port position.
pub const PORT_HIT_OFFSET_Y: i64 = 6;

/// Node positions stay within this bound.
pub const NODE_POS_LIMIT: i64 = 0x1000_0000_0000;

/// Node widths and heights stay within this bound.
pub const NODE_SIZE_LIMIT: i64 = 0x10_0000;

/// A node holds at most this many ports on either side.
pub const MAX_PORTS: usize = 0x1000;

/// A connection point on a node. Its identity is the `id`, unique within
/// the owning node's input list or output list.
#[derive(Debug)]
pub struct Port {
    pub id: String,
    pub label: String,
}

impl Clone for Port {
    /// A deep copy equal to the original.
    fn clone(&self) -> (res: Port)
        ensures
            res == *self,
    {
        Port { id: self.id.clone(), label: self.label.clone() }
    }
}

impl Port {
    /// A port whose label is its id.
    pub fn new(id: &str) -> (r: Port)
        ensures
            r.id@ == id@,
            r.label@ == id@,
    {
        Port { id: id.to_owned(), label: id.to_owned() }
    }
}

/// How a node is drawn.
#[derive(Clone, Copy, PartialEq, Eq, Structural, Debug)]
pub enum NodeShape {
    RoundedRect,
    DoubleRoundedRect,
    Rectangle,
    Round,
    Diamond,
}

/// Which family of the dataflow a node belongs to; decides its column in
/// the layout and its colors in the renderer.
#[derive(Clone, Copy, PartialEq, Eq, Structural, Debug)]
pub enum NodeCategory {
    Default,
    MaaS,
    TTS,
    Bridge,
    Controller,
    MoFA,
    Segmenter,
}

/// The built-in node kinds of the sample pipeline, plus `Custom` for
/// everything created interactively or loaded from a description.
#[derive(Clone, Copy, PartialEq, Eq, Structural, Debug)]
pub enum NodeType {
    Camera,
    Detector,
    Tracker,
    Visualizer,
    Custom,
}

impl NodeType {
    /// The display title of this kind.
    pub open spec fn spec_title(self) -> Seq<char> {
        match self {
            NodeType::Camera => "Camera"@,
            NodeType::Detector => "Object Detector"@,
            NodeType::Tracker => "Tracker"@,
            NodeType::Visualizer => "Visualizer"@,
            NodeType::Custom => "Processor"@,
        }
    }

    /// The display title of this kind.
    pub fn title(&self) -> (r: &'static str)
        ensures
            r@ == self.spec_title(),
    {
        match self {
            NodeType::Camera => "Camera",
            NodeType::Detector => "Object Detector",
            NodeType::Tracker => "Tracker",
            NodeType::Visualizer => "Visualizer",
            NodeType::Custom => "Processor",
        }
    }

    /// Every kind but a camera accepts input.
    pub fn has_input(&self) -> (r: bool)
        ensures
            r == (*self != NodeType::Camera),
    {
        !matches!(self, NodeType::Camera)
    }

    /// Every kind but a visualizer produces output.
    pub fn has_output(&self) -> (r: bool)
        ensures
            r == (*self != NodeType::Visualizer),
    {
        !matches!(self, NodeType::Visualizer)
    }
}

/// A node of the graph. `(x, y)` is the top-left corner in canvas space.
#[derive(Debug)]
pub struct FlowNode {
    pub id: String,
    pub x: i64,
    pub y: i64,
    pub width: i64,
    pub height: i64,
    pub node_type: NodeType,
    pub title: String,
    pub shape: NodeShape,
    pub border_width: i64,
    pub category: NodeCategory,
    pub input_ports: Vec<Port>,
    pub output_ports: Vec<Port>,
}

/// A deep copy of a port list, equal to the original.
pub fn clone_ports(v: &Vec<Port>) -> (r: Vec<Port>)
    ensures
        r@ == v@,
{
    let mut r: Vec<Port> = Vec::new();
    let mut i: usize = 0;
    while i < v.len()
        invariant
            0 <= i <= v@.len(),
            r@ == v@.take(i as int),
        decreases v@.len() - i,
    {
        r.push(v[i].clone());
        proof {
            assert(v@.take(i + 1).drop_last() =~= v@.take(i as int));
            assert(r@ =~= v@.take(i + 1));
        }
        i += 1;
    }
    proof {
        assert(v@.take(v@.len() as int) =~= v@);
    }
    r
}

/// `a` and `b` agree in every field; port lists are compared as sequences,
/// so a node and its deep copy are equivalent.
pub open spec fn node_equiv(a: FlowNode, b: FlowNode) -> bool {
    &&& a.id == b.id
    &&& a.x == b.x
    &&& a.y == b.y
    &&& a.width == b.width
    &&& a.height == b.height
    &&& a.node_type == b.node_type
    &&& a.title == b.title
    &&& a.shape == b.shape
    &&& a.border_width == b.border_width
    &&& a.category == b.category
    &&& a.input_ports@ == b.input_ports@
    &&& a.output_ports@ == b.output_ports@
}

/// Sequences of nodes, equivalent element by element.
pub open spec fn nodes_equiv(a: Seq<FlowNode>, b: Seq<FlowNode>) -> bool {
    a.len() == b.len() && forall|i: int| 0 <= i < a.len() ==> node_equiv(#[trigger] a[i], b[i])
}

impl Clone for FlowNode {
    /// A deep copy, equivalent to the original in every field.
    fn clone(&self) -> (res: FlowNode)
        ensures
            node_equiv(res, *self),
    {
        FlowNode {
            id: self.id.clone(),
            x: self.x,
            y: self.y,
            width: self.width,
            height: self.height,
            node_type: self.node_type,
            title: self.title.clone(),
            shape: self.shape,
            border_width: self.border_width,
            category: self.category,
            input_ports: clone_ports(&self.input_ports),
            output_ports: clone_ports(&self.output_ports),
        }
    }
}

impl FlowNode {
    /// Geometric well-formedness: positive size, bounded position and size,
    /// bounded port counts. Every operation of the canvas preserves it.
    pub open spec fn wf(self) -> bool {
        &&& 0 < self.width <= NODE_SIZE_LIMIT
        &&& 0 < self.height <= NODE_SIZE_LIMIT
        &&& -NODE_POS_LIMIT <= self.x <= NODE_POS_LIMIT
        &&& -NODE_POS_LIMIT <= self.y <= NODE_POS_LIMIT
        &&& self.input_ports.len() <= MAX_PORTS
        &&& self.output_ports.len() <= MAX_PORTS
    }

    /// The canvas-space position of input port `index`: on the left edge,
    /// centered in its port row below the header.
    pub open spec fn spec_input_port_pos(self, index: int) -> Point {
        Point {
            x: self.x,
            y: (self.y + HEADER_HEIGHT + index * PORT_ROW_HEIGHT + PORT_ROW_HEIGHT / 2) as i64,
        }
    }

    /// The canvas-space position of output port `index`: on the right edge,
    /// centered in its port row below the header.
    pub open spec fn spec_output_port_pos(self, index: int) -> Point {
        Point {
            x: (self.x + self.width) as i64,
            y: (self.y + HEADER_HEIGHT + index * PORT_ROW_HEIGHT + PORT_ROW_HEIGHT / 2) as i64,
        }
    }

    /// Where an edge leaves this node: the first output port, or the legacy
    /// fixed offset if the node declares no output ports.
    pub open spec fn spec_output_pos(self) -> Point {
        if self.output_ports.len() == 0 {
            Point { x: (self.x + self.width) as i64, y: (self.y + LEGACY_PORT_Y_OFFSET) as i64 }
        } else {
            self.spec_output_port_pos(0)
        }
    }

    /// Where an edge enters this node: the first input port, or the legacy
    /// fixed offset if the node declares no input ports.
    pub open spec fn spec_input_pos(self) -> Point {
        if self.input_ports.len() == 0 {
            Point { x: self.x, y: (self.y + LEGACY_PORT_Y_OFFSET) as i64 }
        } else {
            self.spec_input_port_pos(0)
        }
    }

    /// `p` lies on the node's bounding box (edges included).
    pub open spec fn spec_contains(self, p: Point) -> bool {
        self.x <= p.x <= self.x + self.width && self.y <= p.y <= self.y + self.height
    }

    /// A new node of the given kind at `(x, y)`, with the kind's default
    /// ports and size, and an id derived from the position.
    pub fn new(x: i64, y: i64, node_type: NodeType) -> (r: FlowNode)
        requires
            -NODE_POS_LIMIT <= x <= NODE_POS_LIMIT,
            -NODE_POS_LIMIT <= y <= NODE_POS_LIMIT,
        ensures
            r.wf(),
            r.x == x && r.y == y,
            r.width == NODE_WIDTH,
            r.height == if node_type == NodeType::Camera {
                CAMERA_HEIGHT as int
            } else {
                DEFAULT_NODE_HEIGHT as int
            },
            r.node_type == node_type,
            r.title@ == node_type.spec_title(),
            r.shape == NodeShape::RoundedRect,
            r.border_width == 2,
            r.category == NodeCategory::Default,
            r.input_ports.len() == if node_type == NodeType::Camera {
                0int
            } else {
                1int
            },
            r.output_ports.len() == if node_type == NodeType::Visualizer {
                0int
            } else {
                1int
            },
            node_type != NodeType::Camera ==> r.input_ports@[0].id@ == "input"@
                && r.input_ports@[0].label@ == "input"@,
            node_type == NodeType::Camera ==> r.output_ports@[0].id@ == "image"@
                && r.output_ports@[0].label@ == "image"@,
            node_type != NodeType::Camera && node_type != NodeType::Visualizer
                ==> r.output_ports@[0].id@ == "output"@ && r.output_ports@[0].label@
                == "output"@,
    {
        let height = if matches!(node_type, NodeType::Camera) {
            CAMERA_HEIGHT
        } else {
            DEFAULT_NODE_HEIGHT
        };
        let mut input_ports: Vec<Port> = Vec::new();
        let mut output_ports: Vec<Port> = Vec::new();
        if !matches!(node_type, NodeType::Camera) {
            input_ports.push(Port::new("input"));
        }
        if !matches!(node_type, NodeType::Visualizer) {
            output_ports.push(Port::new(if matches!(node_type, NodeType::Camera) {
                "image"
            } else {
                "output"
            }));
        }
        let mut id_chars = crate::text::chars_of("node_");
        push_signed_decimal(&mut id_chars, x, y);
        let id = string_from_chars(&id_chars);
        let title = node_type.title().to_owned();
        FlowNode {
            id,
            x,
            y,
            width: NODE_WIDTH,
            height,
            node_type,
            title,
            shape: NodeShape::RoundedRect,
            border_width: 2,
            category: NodeCategory::Default,
            input_ports,
            output_ports,
        }
    }

    /// A node built from a dataflow description: its height grows with its
    /// port count, at least the minimum height.
    pub fn new_dataflow(
        id: &str,
        x: i64,
        y: i64,
        title: &str,
        category: NodeCategory,
        inputs: Vec<Port>,
        outputs: Vec<Port>,
    ) -> (r: FlowNode)
        requires
            -NODE_POS_LIMIT <= x <= NODE_POS_LIMIT,
            -NODE_POS_LIMIT <= y <= NODE_POS_LIMIT,
            inputs.len() <= MAX_PORTS,
            outputs.len() <= MAX_PORTS,
        ensures
            r.wf(),
            r.id@ == id@,
            r.x == x && r.y == y,
            r.width == NODE_WIDTH,
            r.height == dataflow_node_height(inputs.len() as int, outputs.len() as int),
            r.node_type == NodeType::Custom,
            r.title@ == title@,
            r.shape == NodeShape::DoubleRoundedRect,
            r.border_width == 2,
            r.category == category,
            r.input_ports == inputs,
            r.output_ports == outputs,
    {
        let port_count = if inputs.len() >= outputs.len() {
            inputs.len()
        } else {
            outputs.len()
        };
        let grown = HEADER_HEIGHT + (port_count as i64) * PORT_ROW_HEIGHT + BODY_PADDING;
        let height = if grown >= MIN_NODE_HEIGHT {
            grown
        } else {
            MIN_NODE_HEIGHT
        };
        FlowNode {
            id: id.to_owned(),
            x,
            y,
            width: NODE_WIDTH,
            height,
            node_type: NodeType::Custom,
            title: title.to_owned(),
            shape: NodeShape::DoubleRoundedRect,
            border_width: 2,
            category,
            input_ports: inputs,
            output_ports: outputs,
        }
    }

    /// Bounding-box hit test.
    pub fn contains(&self, pos: Point) -> (r: bool)
        requires
            self.wf(),
        ensures
            r == self.spec_contains(pos),
    {
        pos.x >= self.x && pos.x <= self.x + self.width && pos.y >= self.y && pos.y <= self.y
            + self.height
    }

    /// Canvas-space position of input port `index`.
    pub fn input_port_pos(&self, index: usize) -> (r: Point)
        requires
            self.wf(),
            index <= MAX_PORTS,
        ensures
            r == self.spec_input_port_pos(index as int),
    {
        Point {
            x: self.x,
            y: self.y + HEADER_HEIGHT + (index as i64) * PORT_ROW_HEIGHT + PORT_ROW_HEIGHT / 2,
        }
    }

    /// Canvas-space position of output port `index`.
    pub fn output_port_pos(&self, index: usize) -> (r: Point)
        requires
            self.wf(),
            index <= MAX_PORTS,
        ensures
            r == self.spec_output_port_pos(index as int),
    {
        Point {
            x: self.x + self.width,
            y: self.y + HEADER_HEIGHT + (index as i64) * PORT_ROW_HEIGHT + PORT_ROW_HEIGHT / 2,
        }
    }

    /// Where an edge leaves this node.
    pub fn output_pos(&self) -> (r: Point)
        requires
            self.wf(),
        ensures
            r == self.spec_output_pos(),
    {
        if self.output_ports.is_empty() {
            Point { x: self.x + self.width, y: self.y + LEGACY_PORT_Y_OFFSET }
        } else {
            self.output_port_pos(0)
        }
    }

    /// Where an edge enters this node.
    pub fn input_pos(&self) -> (r: Point)
        requires
            self.wf(),
        ensures
            r == self.spec_input_pos(),
    {
        if self.input_ports.is_empty() {
            Point { x: self.x, y: self.y + LEGACY_PORT_Y_OFFSET }
        } else {
            self.input_port_pos(0)
        }
    }

    /// The hit box of the first output port: larger than the visible circle
    /// and offset toward the outside, for easier grabbing.
    pub open spec fn spec_output_port_rect(self) -> Rect {
        let pos = self.spec_output_pos();
        Rect {
            pos: Point {
                x: (pos.x - PORT_HIT_OFFSET_X) as i64,
                y: (pos.y - PORT_HIT_OFFSET_Y) as i64,
            },
            size: Point { x: PORT_HIT_SIZE, y: PORT_HIT_SIZE },
        }
    }

    /// The hit box of the first input port.
    pub open spec fn spec_input_port_rect(self) -> Rect {
        let pos = self.spec_input_pos();
        Rect {
            pos: Point {
                x: (pos.x - PORT_HIT_OFFSET_Y) as i64,
                y: (pos.y - PORT_HIT_OFFSET_Y) as i64,
            },
            size: Point { x: PORT_HIT_SIZE, y: PORT_HIT_SIZE },
        }
    }

    /// The hit box of the first output port.
    pub fn output_port_rect(&self) -> (r: Rect)
        requires
            self.wf(),
        ensures
            r == self.spec_output_port_rect(),
    {
        let pos = self.output_pos();
        Rect {
            pos: Point { x: pos.x - PORT_HIT_OFFSET_X, y: pos.y - PORT_HIT_OFFSET_Y },
            size: Point { x: PORT_HIT_SIZE, y: PORT_HIT_SIZE },
        }
    }

    /// The hit box of the first input port.
    pub fn input_port_rect(&self) -> (r: Rect)
        requires
            self.wf(),
        ensures
            r == self.spec_input_port_rect(),
    {
        let pos = self.input_pos();
        Rect {
            pos: Point { x: pos.x - PORT_HIT_OFFSET_Y, y: pos.y - PORT_HIT_OFFSET_Y },
            size: Point { x: PORT_HIT_SIZE, y: PORT_HIT_SIZE },
        }
    }

    /// Index of the input port named `port_id`, if any (first match).
    pub fn input_port_index(&self, port_id: &str) -> (r: Option<usize>)
        ensures
            match r {
                Some(i) => 0 <= i < self.input_ports.len() && self.input_ports[i as int].id@
                    == port_id@ && forall|j: int|
                    0 <= j < i ==> self.input_ports[j].id@ != port_id@,
                None => forall|j: int|
                    0 <= j < self.input_ports.len() ==> self.input_ports[j].id@ != port_id@,
            },
    {
        port_index_in(&self.input_ports, port_id)
    }

    /// Index of the output port named `port_id`, if any (first match).
    pub fn output_port_index(&self, port_id: &str) -> (r: Option<usize>)
        ensures
            match r {
                Some(i) => 0 <= i < self.output_ports.len() && self.output_ports[i as int].id@
                    == port_id@ && forall|j: int|
                    0 <= j < i ==> self.output_ports[j].id@ != port_id@,
                None => forall|j: int|
                    0 <= j < self.output_ports.len() ==> self.output_ports[j].id@ != port_id@,
            },
    {
        port_index_in(&self.output_ports, port_id)
    }
}

/// The derived height of a dataflow node: header plus one row per port,
/// padded, and never below the minimum height.
pub open spec fn dataflow_node_height(inputs: int, outputs: int) -> int {
    let rows = if inputs >= outputs {
        inputs
    } else {
        outputs
    };
    let grown = HEADER_HEIGHT + rows * PORT_ROW_HEIGHT + BODY_PADDING;
    if grown >= MIN_NODE_HEIGHT {
        grown
    } else {
        MIN_NODE_HEIGHT as int
    }
}

/// First index of `port_id` in `ports`, if any.
fn port_index_in(ports: &Vec<Port>, port_id: &str) -> (r: Option<usize>)
    ensures
        match r {
            Some(i) => 0 <= i < ports.len() && ports[i as int].id@ == port_id@ && forall|j: int|
                0 <= j < i ==> ports[j].id@ != port_id@,
            None => forall|j: int| 0 <= j < ports.len() ==> ports[j].id@ != port_id@,
        },
{
    let mut i: usize = 0;
    while i < ports.len()
        invariant
            0 <= i <= ports.len(),
            forall|j: int| 0 <= j < i ==> ports[j].id@ != port_id@,
        decreases ports.len() - i,
    {
        if str_eq(ports[i].id.as_str(), port_id) {
            return Some(i);
        }
        i += 1;
    }
    None
}

/// String equality by view.
pub fn str_eq(a: &str, b: &str) -> (r: bool)
    ensures
        r == (a@ == b@),
{
    let av = a.to_owned();
    let bv = b.to_owned();
    av.eq(&bv)
}

/// Appends the decimal form of `x + y` (the id suffix a new node derives
/// from its position), with a leading minus sign when the sum is negative.
fn push_signed_decimal(out: &mut Vec<char>, x: i64, y: i64)
    requires
        -NODE_POS_LIMIT <= x <= NODE_POS_LIMIT,
        -NODE_POS_LIMIT <= y <= NODE_POS_LIMIT,
    ensures
        final(out)@ == old(out)@ + spec_signed_decimal(x as int + y as int),
{
    let s = x + y;
    if s < 0 {
        out.push('-');
        push_decimal(out, (-s) as u64);
        assert(out@ =~= old(out)@ + spec_signed_decimal(x as int + y as int));
    } else {
        push_decimal(out, s as u64);
    }
}

/// The decimal form of `v`, signed.
pub open spec fn spec_signed_decimal(v: int) -> Seq<char> {
    if v < 0 {
        seq!['-'] + crate::text::dec_digits(-v)
    } else {
        crate::text::dec_digits(v)
    }
}

/// How an edge line is drawn.
#[derive(Clone, Copy, PartialEq, Eq, Structural, Debug)]
pub enum EdgeStyle {
    Solid,
    Dashed,
    Dotted,
}

/// The marker drawn at an edge's end.
#[derive(Clone, Copy, PartialEq, Eq, Structural, Debug)]
pub enum EdgeMarker {
    NoMarker,
    Arrow,
    ArrowFilled,
    Circle,
}

/// A directed connection between two nodes, referenced by their positional
/// indices in the graph's node sequence. An edge whose index is out of
/// range is dangling and is skipped by rendering and hit-testing.
#[derive(Debug)]
pub struct EdgeConnection {
    pub from_node: usize,
    pub to_node: usize,
    pub from_port: String,
    pub to_port: String,
    pub style: EdgeStyle,
    pub width: i64,
    pub animated: bool,
    pub label: String,
    pub marker_end: EdgeMarker,
}

impl Clone for EdgeConnection {
    /// A deep copy equal to the original.
    fn clone(&self) -> (res: EdgeConnection)
        ensures
            res == *self,
    {
        EdgeConnection {
            from_node: self.from_node,
            to_node: self.to_node,
            from_port: self.from_port.clone(),
            to_port: self.to_port.clone(),
            style: self.style,
            width: self.width,
            animated: self.animated,
            label: self.label.clone(),
            marker_end: self.marker_end,
        }
    }
}

impl EdgeConnection {
    /// An interactively created edge: no port names, solid, animated, with
    /// an arrow marker.
    pub fn new(from_node: usize, to_node: usize) -> (r: EdgeConnection)
        ensures
            r.from_node == from_node,
            r.to_node == to_node,
            r.from_port@ == Seq::<char>::empty(),
            r.to_port@ == Seq::<char>::empty(),
            r.style == EdgeStyle::Solid,
            r.width == 2,
            r.animated == true,
            r.label@ == Seq::<char>::empty(),
            r.marker_end == EdgeMarker::Arrow,
    {
        EdgeConnection {
            from_node,
            to_node,
            from_port: String::new(),
            to_port: String::new(),
            style: EdgeStyle::Solid,
            width: 2,
            animated: true,
            label: String::new(),
            marker_end: EdgeMarker::Arrow,
        }
    }

    /// An edge from a dataflow description: port names resolved, not
    /// animated.
    pub fn new_with_ports(from_node: usize, from_port: &str, to_node: usize, to_port: &str) -> (r:
        EdgeConnection)
        ensures
            r.from_node == from_node,
            r.to_node == to_node,
            r.from_port@ == from_port@,
            r.to_port@ == to_port@,
            r.style == EdgeStyle::Solid,
            r.width == 2,
            r.animated == false,
            r.label@ == Seq::<char>::empty(),
            r.marker_end == EdgeMarker::Arrow,
    {
        EdgeConnection {
            from_node,
            to_node,
            from_port: from_port.to_owned(),
            to_port: to_port.to_owned(),
            style: EdgeStyle::Solid,
            width: 2,
            animated: false,
            label: String::new(),
            marker_end: EdgeMarker::Arrow,
        }
    }
}

/// Input and output port positions are pure functions of the node's
/// geometry: two nodes of the same width place any port index at the same
/// offset from their own top-left corner.
pub proof fn lemma_port_pos_relative(a: FlowNode, b: FlowNode, index: int)
    requires
        a.wf(),
        b.wf(),
        0 <= index <= MAX_PORTS,
        a.width == b.width,
    ensures
        a.spec_input_port_pos(index).x - a.x == b.spec_input_port_pos(index).x - b.x,
        a.spec_input_port_pos(index).y - a.y == b.spec_input_port_pos(index).y - b.y,
        a.spec_output_port_pos(index).x - a.x == b.spec_output_port_pos(index).x - b.x,
        a.spec_output_port_pos(index).y - a.y == b.spec_output_port_pos(index).y - b.y,
{
}

} // verus!
