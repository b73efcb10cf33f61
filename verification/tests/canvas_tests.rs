use flow_canvas::canvas::{
    CanvasKey, DragState, FlowCanvas, FlowCanvasAction, FlowCanvasCommand,
};
use flow_canvas::geometry::Point;
use flow_canvas::model::{EdgeConnection, EdgeStyle, FlowNode, NodeType};

const ORIGIN: Point = Point { x: 0, y: 0 };

fn canvas_with_samples() -> FlowCanvas {
    let mut c = FlowCanvas::new();
    c.create_sample_nodes();
    c
}

#[test]
fn repeated_zoom_stays_clamped() {
    let mut c = FlowCanvas::new();
    for _ in 0..40 {
        c.wheel(ORIGIN, ORIGIN, true);
        assert!(c.zoom_milli <= 4000);
    }
    assert_eq!(c.zoom_milli, 4000);
    for _ in 0..100 {
        c.wheel(ORIGIN, ORIGIN, false);
        assert!(c.zoom_milli >= 250);
    }
    assert_eq!(c.zoom_milli, 250);
}

#[test]
fn one_wheel_notch_changes_zoom_by_ten_percent() {
    let mut c = FlowCanvas::new();
    c.wheel(ORIGIN, ORIGIN, true);
    assert_eq!(c.zoom_milli, 1100);
    c.wheel(ORIGIN, ORIGIN, false);
    assert_eq!(c.zoom_milli, 990);
}

#[test]
fn selection_box_selects_exactly_the_covered_centers() {
    let mut c = FlowCanvas::new();
    let mut a = FlowNode::new(0, 0, NodeType::Custom);
    a.width = 100;
    a.height = 100;  // center (50, 50): inside
    let mut b = FlowNode::new(200, 200, NodeType::Custom);
    b.width = 100;
    b.height = 100;  // center (250, 250): outside
    let mut d = FlowNode::new(50, 50, NodeType::Custom);
    d.width = 100;
    d.height = 100;  // center (100, 100): on the border, inside
    c.nodes = vec![a, b, d];
    // identity transform: press on empty space at (400, 0), drag to origin
    let start = Point { x: 400, y: 0 };
    c.pointer_down(start, ORIGIN, false, false);
    assert!(matches!(c.drag_state, DragState::SelectionBox { .. }));
    // replace the box with one from (0,0) to (100,100) dragged backward
    c.drag_state = DragState::SelectionBox {
        start: Point { x: 100, y: 100 },
        current: Point { x: 100, y: 100 },
    };
    c.pointer_move(ORIGIN, ORIGIN);
    assert_eq!(c.selected_nodes, vec![0, 2]);
}

#[test]
fn plain_click_selects_and_starts_dragging_the_topmost_node() {
    let mut c = canvas_with_samples();
    // the camera sits at (50, 100) with size 180 x 80
    let acts = c.pointer_down(Point { x: 60, y: 110 }, ORIGIN, false, false);
    assert_eq!(acts, vec![FlowCanvasAction::SelectionChanged]);
    assert_eq!(c.selected_nodes, vec![0]);
    assert!(matches!(c.drag_state, DragState::DraggingNode { index: 0, .. }));
    // dragging moves the node with the grab offset kept
    c.pointer_move(Point { x: 160, y: 210 }, ORIGIN);
    assert_eq!(c.nodes[0].x, 150);
    assert_eq!(c.nodes[0].y, 200);
    // a drag below the origin clamps to zero
    c.pointer_move(Point { x: -500, y: -500 }, ORIGIN);
    assert_eq!(c.nodes[0].x, 0);
    assert_eq!(c.nodes[0].y, 0);
    c.pointer_up(Point { x: 0, y: 0 }, ORIGIN);
    assert!(matches!(c.drag_state, DragState::Idle));
}

#[test]
fn dragging_between_ports_creates_one_edge_only() {
    let mut c = FlowCanvas::new();
    c.nodes = vec![
        FlowNode::new(0, 0, NodeType::Camera),
        FlowNode::new(400, 0, NodeType::Visualizer),
    ];
    // the camera's output port sits at (180, 42): its hit box is grabbable
    let acts = c.pointer_down(Point { x: 180, y: 42 }, ORIGIN, false, false);
    assert!(acts.is_empty());
    assert!(matches!(
        c.drag_state,
        DragState::CreatingEdge { from_node: 0, is_output: true, .. }
    ));
    // release over the visualizer's input port at (400, 42)
    let acts = c.pointer_up(Point { x: 400, y: 42 }, ORIGIN);
    assert_eq!(acts, vec![FlowCanvasAction::EdgeCreated]);
    assert_eq!(c.edges.len(), 1);
    assert_eq!((c.edges[0].from_node, c.edges[0].to_node), (0, 1));
    // the same drag again is refused as a duplicate
    c.pointer_down(Point { x: 180, y: 42 }, ORIGIN, false, false);
    let acts = c.pointer_up(Point { x: 400, y: 42 }, ORIGIN);
    assert!(acts.is_empty());
    assert_eq!(c.edges.len(), 1);
}

#[test]
fn shift_press_pans_the_view() {
    let mut c = canvas_with_samples();
    c.pointer_down(Point { x: 10, y: 10 }, ORIGIN, true, false);
    assert!(matches!(c.drag_state, DragState::Panning { .. }));
    c.pointer_move(Point { x: 35, y: -15 }, ORIGIN);
    assert_eq!(c.pan_offset, Point { x: 25, y: -25 });
}

#[test]
fn delete_key_removes_the_selection_with_one_checkpoint() {
    let mut c = canvas_with_samples();
    assert_eq!(c.node_count(), 4);
    assert_eq!(c.edge_count(), 3);
    c.selected_nodes = vec![1];
    let acts = c.handle_key(CanvasKey::Delete);
    assert_eq!(c.node_count(), 3);
    // edges (0,1) and (1,2) are dropped, (2,3) survives as (1,2)
    assert_eq!(c.edge_count(), 1);
    assert_eq!((c.edges[0].from_node, c.edges[0].to_node), (1, 2));
    assert!(acts.contains(&FlowCanvasAction::NodeDeleted));
    assert_eq!(c.history.undo_stack.len(), 1);
    // undo brings everything back
    assert!(c.undo());
    assert_eq!(c.node_count(), 4);
    assert_eq!(c.edge_count(), 3);
}

#[test]
fn select_all_selects_every_node() {
    let mut c = canvas_with_samples();
    c.handle_key(CanvasKey::SelectAll);
    assert_eq!(c.selected_nodes, vec![0, 1, 2, 3]);
    assert!(c.selected_edges.is_empty());
    c.handle_key(CanvasKey::Escape);
    assert!(c.selected_nodes.is_empty());
}

#[test]
fn undo_and_redo_are_no_ops_on_empty_stacks() {
    let mut c = canvas_with_samples();
    assert!(!c.undo());
    assert!(!c.redo());
    assert_eq!(c.node_count(), 4);
}

#[test]
fn commands_drive_the_canvas() {
    let mut c = canvas_with_samples();
    let acts = c.apply_command(FlowCanvasCommand::AddNode);
    assert_eq!(c.node_count(), 5);
    assert_eq!(c.nodes[4].title, "Node 4");
    assert_eq!(
        acts,
        vec![FlowCanvasAction::StatusUpdate { nodes: 5, edges: 3 }]
    );
    c.apply_command(FlowCanvasCommand::SetLineStyle(EdgeStyle::Dashed));
    assert_eq!(c.line_style, EdgeStyle::Dashed);
    c.apply_command(FlowCanvasCommand::SetLineWidth(3));
    assert_eq!(c.line_width, 3);
    // an out-of-range width is ignored
    c.apply_command(FlowCanvasCommand::SetLineWidth(-7));
    assert_eq!(c.line_width, 3);
    c.apply_command(FlowCanvasCommand::Clear);
    assert_eq!(c.node_count(), 0);
    assert_eq!(c.edge_count(), 0);
}

#[test]
fn load_dataflow_replaces_the_graph_and_clears_history() {
    let mut c = canvas_with_samples();
    c.apply_command(FlowCanvasCommand::AddNode);
    assert!(c.history.undo_stack.len() > 0);
    let nodes = vec![FlowNode::new(0, 0, NodeType::Custom)];
    let edges = vec![EdgeConnection::new(0, 0)];
    let acts = c.apply_command(FlowCanvasCommand::LoadDataflow { nodes, edges });
    assert_eq!(c.node_count(), 1);
    assert_eq!(c.edge_count(), 1);
    assert_eq!(c.history.undo_stack.len(), 0);
    assert_eq!(
        acts,
        vec![FlowCanvasAction::StatusUpdate { nodes: 1, edges: 1 }]
    );
}

#[test]
fn fit_view_resets_zoom_and_pads_the_top_left_corner() {
    let mut c = canvas_with_samples();
    c.zoom_milli = 2000;
    c.fit_view();
    assert_eq!(c.zoom_milli, 1000);
    // the leftmost node is at x 50, the topmost at y 50: pan is padding minus minimum
    assert_eq!(c.pan_offset, Point { x: 0, y: 0 });
    c.nodes[0].x = 500;
    c.nodes[0].y = 500;
    c.nodes[1].x = 600;
    c.nodes[1].y = 600;
    c.nodes[2].x = 700;
    c.nodes[2].y = 700;
    c.nodes[3].x = 800;
    c.nodes[3].y = 800;
    c.fit_view();
    assert_eq!(c.pan_offset, Point { x: -450, y: -450 });
}

#[test]
fn the_animation_phase_wraps_after_a_full_cycle() {
    let mut c = FlowCanvas::new();
    for _ in 0..49 {
        c.tick_animation();
    }
    assert_eq!(c.animation_phase_milli, 980);
    c.tick_animation();
    assert_eq!(c.animation_phase_milli, 0);
}

#[test]
fn ctrl_click_on_a_header_opens_the_node_menu() {
    let mut c = canvas_with_samples();
    // the camera's header spans y 100 to 132 at x 50..230
    c.pointer_down(Point { x: 60, y: 110 }, ORIGIN, false, true);
    assert_eq!(c.context_menu_node, Some(0));
    assert_eq!(c.context_menu_pos, Point { x: 60, y: 110 });
    // a click outside the menu closes it and falls through to the canvas
    c.pointer_down(Point { x: 1000, y: 1000 }, ORIGIN, false, false);
    assert_eq!(c.context_menu_node, None);
    assert!(matches!(c.drag_state, DragState::SelectionBox { .. }));
}

#[test]
fn a_menu_shape_click_restyles_the_node() {
    let mut c = canvas_with_samples();
    c.pointer_down(Point { x: 60, y: 110 }, ORIGIN, false, true);
    assert_eq!(c.context_menu_node, Some(0));
    // the third shape row (Rectangle) starts 17.6 + 2*22 px below the menu
    // padding: click its middle
    let item_y = 110 + 4 + 18 + 44 + 10;
    c.pointer_down(Point { x: 70, y: item_y }, ORIGIN, false, false);
    assert_eq!(c.context_menu_node, None);
    assert_eq!(c.nodes[0].shape, flow_canvas::model::NodeShape::Rectangle);
}

#[test]
fn toggling_selection_membership_flips_it() {
    let mut c = canvas_with_samples();
    c.toggle_node_selection(2);
    c.toggle_node_selection(0);
    assert_eq!(c.selected_nodes, vec![0, 2]);
    c.toggle_node_selection(2);
    assert_eq!(c.selected_nodes, vec![0]);
    c.toggle_edge_selection(1);
    assert_eq!(c.selected_edges, vec![1]);
    c.toggle_edge_selection(1);
    assert!(c.selected_edges.is_empty());
}

#[test]
fn a_drag_between_already_connected_nodes_is_refused_whatever_the_ports() {
    // a loaded dataflow edge carries port names; the interactive
    // no-duplicate rule still keys on the node pair alone
    let mut c = FlowCanvas::new();
    c.nodes = vec![
        FlowNode::new(0, 0, NodeType::Camera),
        FlowNode::new(400, 0, NodeType::Visualizer),
    ];
    c.edges = vec![EdgeConnection::new_with_ports(0, "image", 1, "frame")];
    c.pointer_down(Point { x: 180, y: 42 }, ORIGIN, false, false);
    let acts = c.pointer_up(Point { x: 400, y: 42 }, ORIGIN);
    assert!(acts.is_empty());
    assert_eq!(c.edges.len(), 1);
    assert_eq!(c.edges[0].from_port, "image");
}

#[test]
fn adding_a_node_keeps_the_edge_selection_and_advances_the_counter() {
    let mut c = canvas_with_samples();
    c.selected_edges = vec![1];
    let before = c.next_node_id;
    c.apply_command(FlowCanvasCommand::AddNode);
    assert_eq!(c.selected_edges, vec![1]);
    assert_eq!(c.next_node_id, before + 1);
}
