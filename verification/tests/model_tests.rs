use flow_canvas::geometry::Point;
use flow_canvas::model::{
    EdgeConnection, EdgeMarker, EdgeStyle, FlowNode, NodeCategory, NodeShape, NodeType, Port,
};

#[test]
fn node_kinds_have_their_titles_and_port_directions() {
    assert_eq!(NodeType::Camera.title(), "Camera");
    assert_eq!(NodeType::Detector.title(), "Object Detector");
    assert_eq!(NodeType::Visualizer.title(), "Visualizer");
    assert_eq!(NodeType::Custom.title(), "Processor");
    assert!(!NodeType::Camera.has_input());
    assert!(NodeType::Camera.has_output());
    assert!(NodeType::Visualizer.has_input());
    assert!(!NodeType::Visualizer.has_output());
    assert!(NodeType::Tracker.has_input());
    assert!(NodeType::Tracker.has_output());
}

#[test]
fn new_nodes_take_the_kind_heights_and_default_ports() {
    let cam = FlowNode::new(50, 100, NodeType::Camera);
    assert_eq!(cam.width, 180);
    assert_eq!(cam.height, 80);
    assert_eq!(cam.input_ports.len(), 0);
    assert_eq!(cam.output_ports.len(), 1);
    assert_eq!(cam.output_ports[0].id, "image");
    let det = FlowNode::new(300, 50, NodeType::Detector);
    assert_eq!(det.height, 100);
    assert_eq!(det.input_ports[0].id, "input");
    assert_eq!(det.output_ports[0].id, "output");
    assert_eq!(det.id, "node_350");
}

#[test]
fn dataflow_node_height_grows_with_its_ports() {
    let inputs = vec![Port::new("a"), Port::new("b"), Port::new("c")];
    let outputs = vec![Port::new("x")];
    let n = FlowNode::new_dataflow("n", 0, 0, "n", NodeCategory::Default, inputs, outputs);
    // header 32 + 3 rows of 20 + padding 16 = 108
    assert_eq!(n.height, 108);
    assert_eq!(n.shape, NodeShape::DoubleRoundedRect);
    let tiny = FlowNode::new_dataflow("t", 0, 0, "t", NodeCategory::MaaS, vec![], vec![]);
    // never below the minimum height
    assert_eq!(tiny.height, 80);
}

#[test]
fn port_positions_are_pure_functions_of_geometry() {
    let inputs = vec![Port::new("a"), Port::new("b")];
    let outputs = vec![Port::new("x"), Port::new("y")];
    let n1 = FlowNode::new_dataflow("n1", 100, 200, "n1", NodeCategory::Default, inputs, outputs);
    let inputs2 = vec![Port::new("a"), Port::new("b")];
    let outputs2 = vec![Port::new("x"), Port::new("y")];
    let n2 = FlowNode::new_dataflow("n2", 700, 40, "n2", NodeCategory::TTS, inputs2, outputs2);
    for i in 0..2 {
        let a_in = n1.input_port_pos(i);
        let b_in = n2.input_port_pos(i);
        assert_eq!(a_in.x - n1.x, b_in.x - n2.x);
        assert_eq!(a_in.y - n1.y, b_in.y - n2.y);
        let a_out = n1.output_port_pos(i);
        let b_out = n2.output_port_pos(i);
        assert_eq!(a_out.x - n1.x, b_out.x - n2.x);
        assert_eq!(a_out.y - n1.y, b_out.y - n2.y);
    }
    // the exact formula: left edge, header plus row center
    assert_eq!(n1.input_port_pos(0), Point { x: 100, y: 200 + 32 + 10 });
    assert_eq!(n1.output_port_pos(1), Point { x: 280, y: 200 + 32 + 20 + 10 });
}

#[test]
fn legacy_positions_and_hit_rects() {
    let mut n = FlowNode::new(10, 20, NodeType::Custom);
    n.input_ports.clear();
    n.output_ports.clear();
    assert_eq!(n.output_pos(), Point { x: 190, y: 74 });
    assert_eq!(n.input_pos(), Point { x: 10, y: 74 });
    let out_rect = n.output_port_rect();
    assert_eq!(out_rect.pos, Point { x: 190 - 12, y: 74 - 6 });
    assert_eq!(out_rect.size, Point { x: 18, y: 18 });
    let in_rect = n.input_port_rect();
    assert_eq!(in_rect.pos, Point { x: 10 - 6, y: 74 - 6 });
}

#[test]
fn port_lookup_finds_the_first_match() {
    let n = FlowNode::new_dataflow(
        "n",
        0,
        0,
        "n",
        NodeCategory::Default,
        vec![Port::new("text"), Port::new("audio")],
        vec![Port::new("out")],
    );
    assert_eq!(n.input_port_index("audio"), Some(1));
    assert_eq!(n.input_port_index("missing"), None);
    assert_eq!(n.output_port_index("out"), Some(0));
}

#[test]
fn node_contains_its_bounding_box() {
    let n = FlowNode::new(100, 100, NodeType::Custom);
    assert!(n.contains(Point { x: 100, y: 100 }));
    assert!(n.contains(Point { x: 280, y: 200 }));
    assert!(!n.contains(Point { x: 281, y: 150 }));
    assert!(!n.contains(Point { x: 150, y: 99 }));
}

#[test]
fn edge_constructors_set_the_documented_defaults() {
    let e = EdgeConnection::new(2, 5);
    assert_eq!(e.from_node, 2);
    assert_eq!(e.to_node, 5);
    assert_eq!(e.style, EdgeStyle::Solid);
    assert_eq!(e.width, 2);
    assert!(e.animated);
    assert_eq!(e.marker_end, EdgeMarker::Arrow);
    assert_eq!(e.from_port, "");
    let ep = EdgeConnection::new_with_ports(0, "image", 1, "frame");
    assert!(!ep.animated);
    assert_eq!(ep.from_port, "image");
    assert_eq!(ep.to_port, "frame");
}
