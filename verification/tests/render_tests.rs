use flow_canvas::canvas::{DragState, FlowCanvas};
use flow_canvas::geometry::Point;
use flow_canvas::model::{
    EdgeConnection, FlowNode, NodeCategory, NodeType, Port,
};

fn canvas_with_samples() -> FlowCanvas {
    let mut c = FlowCanvas::new();
    c.create_sample_nodes();
    c
}

#[test]
fn dangling_edges_are_skipped_by_the_renderer() {
    let mut c = canvas_with_samples();
    c.edges.push(EdgeConnection::new(0, 99));
    let plan = c.render_plan();
    assert_eq!(plan.edges.len(), 4);
    assert!(plan.edges[0].is_some());
    assert!(plan.edges[3].is_none());
}

#[test]
fn edge_polylines_run_between_the_port_positions() {
    let c = canvas_with_samples();
    // identity transform: zoom 1:1, no pan
    let plan = c.render_plan();
    let d = plan.edges[0].as_ref().unwrap();
    // the camera's first output port and the detector's first input port
    assert_eq!(d.from, c.nodes[0].output_port_pos(0));
    assert_eq!(d.to, c.nodes[1].input_port_pos(0));
    assert_eq!(d.points.len(), 101);
    assert_eq!(d.points[0], d.from);
    assert_eq!(d.points[100], d.to);
    assert!(d.animated);
    assert_eq!(d.width, 2);
}

#[test]
fn named_ports_resolve_to_their_rows() {
    let mut c = FlowCanvas::new();
    let from = FlowNode::new_dataflow(
        "a",
        0,
        0,
        "a",
        NodeCategory::Default,
        vec![],
        vec![Port::new("p"), Port::new("q")],
    );
    let to = FlowNode::new_dataflow(
        "b",
        400,
        0,
        "b",
        NodeCategory::Default,
        vec![Port::new("x"), Port::new("y")],
        vec![],
    );
    c.nodes = vec![from, to];
    c.edges = vec![EdgeConnection::new_with_ports(0, "q", 1, "y")];
    let plan = c.render_plan();
    let d = plan.edges[0].as_ref().unwrap();
    // "q" is the second output row, "y" the second input row
    assert_eq!(d.from, c.nodes[0].output_port_pos(1));
    assert_eq!(d.to, c.nodes[1].input_port_pos(1));
    assert!(!d.animated);
}

#[test]
fn long_titles_and_labels_are_truncated() {
    let mut c = FlowCanvas::new();
    let n = FlowNode::new_dataflow(
        "n",
        0,
        0,
        "a-very-long-node-title-indeed",
        NodeCategory::Default,
        vec![Port::new("quite-a-long-port-name")],
        vec![],
    );
    c.nodes = vec![n];
    let plan = c.render_plan();
    assert_eq!(plan.nodes[0].title, "a-very-long-node-t..");
    assert_eq!(plan.nodes[0].input_ports[0].1, "quite-a-lo...");
    // short ones pass through
    assert_eq!(plan.nodes.len(), 1);
}

#[test]
fn node_boxes_scale_with_the_zoom() {
    let mut c = canvas_with_samples();
    c.zoom_milli = 2000;
    let plan = c.render_plan();
    let d = &plan.nodes[0];
    // the camera is 180 x 80 at (50, 100): doubled and shifted by no pan
    assert_eq!(d.rect.pos, Point { x: 100, y: 200 });
    assert_eq!(d.rect.size, Point { x: 360, y: 160 });
    assert_eq!(d.header.size, Point { x: 360, y: 64 });
}

#[test]
fn the_selection_box_rectangle_is_normalized() {
    let mut c = FlowCanvas::new();
    c.drag_state = DragState::SelectionBox {
        start: Point { x: 100, y: 20 },
        current: Point { x: 40, y: 80 },
    };
    let plan = c.render_plan();
    let r = plan.selection_box.unwrap();
    assert_eq!(r.pos, Point { x: 40, y: 20 });
    assert_eq!(r.size, Point { x: 60, y: 60 });
    assert!(plan.creating.is_none());
}

#[test]
fn a_drag_in_progress_draws_a_provisional_edge() {
    let mut c = canvas_with_samples();
    c.drag_state = DragState::CreatingEdge {
        from_node: 0,
        is_output: true,
        cursor_pos: Point { x: 300, y: 300 },
    };
    let plan = c.render_plan();
    let (from, to) = plan.creating.unwrap();
    assert_eq!(from, c.nodes[0].output_port_pos(0));
    assert_eq!(to, Point { x: 300, y: 300 });
}

#[test]
fn selection_state_reaches_the_draw_data() {
    let mut c = canvas_with_samples();
    c.selected_nodes = vec![2];
    c.selected_edges = vec![0];
    let plan = c.render_plan();
    assert!(plan.nodes[2].selected);
    assert!(!plan.nodes[0].selected);
    assert!(plan.edges[0].as_ref().unwrap().selected);
    assert!(!plan.edges[1].as_ref().unwrap().selected);
}

#[test]
fn a_node_of_type_camera_keeps_its_shape_and_category_in_the_plan() {
    let c = canvas_with_samples();
    let plan = c.render_plan();
    assert_eq!(plan.nodes[0].shape, flow_canvas::model::NodeShape::RoundedRect);
    assert_eq!(plan.nodes[0].category, NodeCategory::Default);
    assert_eq!(plan.nodes[0].border_width, 2);
    assert_eq!(plan.nodes[0].title, "Camera");
    assert_eq!(plan.nodes[0].output_ports.len(), 1);
    assert_eq!(plan.nodes[0].output_ports[0].0, c.nodes[0].output_port_pos(0));
}
