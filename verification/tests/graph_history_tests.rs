use flow_canvas::graph::{add_edge_if_absent, remove_node_edges, remove_selected};
use flow_canvas::history::History;
use flow_canvas::model::{EdgeConnection, FlowNode, NodeType};

fn four_nodes() -> Vec<FlowNode> {
    vec![
        FlowNode::new(0, 0, NodeType::Camera),
        FlowNode::new(200, 0, NodeType::Detector),
        FlowNode::new(400, 0, NodeType::Tracker),
        FlowNode::new(600, 0, NodeType::Visualizer),
    ]
}

#[test]
fn deleting_a_node_drops_its_edges_and_renumbers_the_rest() {
    // edges {(0,2),(1,2),(2,3)}; removing node 1 drops both edges touching it
    // and (2,3) survives as (1,2)
    let mut edges = vec![
        EdgeConnection::new(0, 2),
        EdgeConnection::new(1, 2),
        EdgeConnection::new(2, 3),
    ];
    remove_node_edges(&mut edges, 1);
    assert_eq!(edges.len(), 2);
    assert_eq!((edges[0].from_node, edges[0].to_node), (0, 1));
    assert_eq!((edges[1].from_node, edges[1].to_node), (1, 2));
}

#[test]
fn deleting_node_one_from_the_chain_keeps_only_the_tail() {
    // edges {(0,1),(1,2),(2,3)}: node 1 leaves, (2,3) becomes (1,2)
    let mut edges = vec![
        EdgeConnection::new(0, 1),
        EdgeConnection::new(1, 2),
        EdgeConnection::new(2, 3),
    ];
    remove_node_edges(&mut edges, 1);
    assert_eq!(edges.len(), 1);
    assert_eq!((edges[0].from_node, edges[0].to_node), (1, 2));
}

#[test]
fn adding_the_same_edge_twice_keeps_one() {
    let mut edges: Vec<EdgeConnection> = Vec::new();
    let added = add_edge_if_absent(&mut edges, EdgeConnection::new(0, 1));
    assert!(added);
    let added_again = add_edge_if_absent(&mut edges, EdgeConnection::new(0, 1));
    assert!(!added_again);
    assert_eq!(edges.len(), 1);
    // a different pair still goes in
    assert!(add_edge_if_absent(&mut edges, EdgeConnection::new(1, 0)));
    assert_eq!(edges.len(), 2);
    // same node pair with different port names is a different edge
    assert!(add_edge_if_absent(
        &mut edges,
        EdgeConnection::new_with_ports(0, "a", 1, "b")
    ));
    assert_eq!(edges.len(), 3);
}

#[test]
fn removing_a_selection_keeps_the_rest_in_order() {
    let mut items = vec![10i64, 11, 12, 13, 14];
    let sel = vec![0usize, 2, 4];
    remove_selected(&mut items, &sel);
    assert_eq!(items, vec![11, 13]);
}

#[test]
fn undo_then_redo_restores_the_pre_undo_state() {
    let mut h = History::new();
    let mut nodes = four_nodes();
    let mut edges = vec![EdgeConnection::new(0, 1)];
    h.save_checkpoint(&nodes, &edges);
    // mutate
    nodes[0].x = 999;
    edges.push(EdgeConnection::new(1, 2));
    let nodes_before_undo: Vec<i64> = nodes.iter().map(|n| n.x).collect();
    let edges_before_undo = edges.len();
    assert!(h.undo(&mut nodes, &mut edges));
    assert_eq!(nodes[0].x, 0);
    assert_eq!(edges.len(), 1);
    assert!(h.redo(&mut nodes, &mut edges));
    let nodes_after_redo: Vec<i64> = nodes.iter().map(|n| n.x).collect();
    assert_eq!(nodes_after_redo, nodes_before_undo);
    assert_eq!(edges.len(), edges_before_undo);
}

#[test]
fn as_many_undos_as_saves_return_to_the_first_state() {
    let mut h = History::new();
    let mut nodes = four_nodes();
    let mut edges: Vec<EdgeConnection> = Vec::new();
    for step in 0..3 {
        h.save_checkpoint(&nodes, &edges);
        nodes[0].x = 1000 + step;
    }
    for _ in 0..3 {
        assert!(h.undo(&mut nodes, &mut edges));
    }
    assert_eq!(nodes[0].x, 0);
    assert_eq!(h.undo_stack.len(), 0);
    // one more undo is a no-op
    assert!(!h.undo(&mut nodes, &mut edges));
    assert_eq!(nodes[0].x, 0);
}

#[test]
fn sixty_checkpoints_keep_fifty_with_the_oldest_ten_evicted() {
    let mut h = History::new();
    let mut nodes = vec![FlowNode::new(0, 0, NodeType::Custom)];
    let edges: Vec<EdgeConnection> = Vec::new();
    for k in 0..60 {
        nodes[0].x = k;
        h.save_checkpoint(&nodes, &edges);
    }
    assert_eq!(h.undo_stack.len(), 50);
    // the oldest surviving snapshot is the eleventh one saved
    assert_eq!(h.undo_stack[0].nodes[0].x, 10);
    assert_eq!(h.undo_stack[49].nodes[0].x, 59);
}

#[test]
fn a_new_checkpoint_clears_the_redo_stack() {
    let mut h = History::new();
    let mut nodes = four_nodes();
    let mut edges: Vec<EdgeConnection> = Vec::new();
    h.save_checkpoint(&nodes, &edges);
    nodes[0].x = 5;
    assert!(h.undo(&mut nodes, &mut edges));
    assert_eq!(h.redo_stack.len(), 1);
    h.save_checkpoint(&nodes, &edges);
    assert_eq!(h.redo_stack.len(), 0);
    assert!(!h.redo(&mut nodes, &mut edges));
}
