use flow_canvas::layout::{categorize, column_of, layout_dataflow, NodeDesc};
use flow_canvas::model::NodeCategory;
use flow_canvas::yaml::parse_dataflow;

#[test]
fn categories_follow_the_first_matching_rule() {
    assert_eq!(categorize("mofa-ui", None), NodeCategory::MoFA);
    assert_eq!(categorize("student1", None), NodeCategory::MaaS);
    assert_eq!(categorize("random-node", Some("dynamic")), NodeCategory::MoFA);
    assert_eq!(categorize("random-node", None), NodeCategory::Default);
    assert_eq!(categorize("bridge-to-tutor", None), NodeCategory::Bridge);
    assert_eq!(categorize("conference-controller", None), NodeCategory::Controller);
    assert_eq!(categorize("primespeech-tutor", None), NodeCategory::TTS);
    assert_eq!(categorize("my-tts-engine", None), NodeCategory::TTS);
    assert_eq!(categorize("multi-text-segmenter", None), NodeCategory::Segmenter);
    assert_eq!(categorize("the-tutor", None), NodeCategory::MaaS);
    // matching is case-insensitive on the id
    assert_eq!(categorize("MOFA-audio", None), NodeCategory::MoFA);
    assert_eq!(categorize("Student2", None), NodeCategory::MaaS);
    // the path rule is literal
    assert_eq!(categorize("random-node", Some("Dynamic")), NodeCategory::Default);
}

#[test]
fn categories_map_to_their_columns() {
    assert_eq!(column_of(NodeCategory::MaaS), 0);
    assert_eq!(column_of(NodeCategory::Bridge), 1);
    assert_eq!(column_of(NodeCategory::Segmenter), 2);
    assert_eq!(column_of(NodeCategory::Controller), 2);
    assert_eq!(column_of(NodeCategory::Default), 2);
    assert_eq!(column_of(NodeCategory::TTS), 3);
    assert_eq!(column_of(NodeCategory::MoFA), 4);
}

fn chain_descs() -> Vec<NodeDesc> {
    vec![
        NodeDesc {
            id: "student1".to_string(),
            path: None,
            inputs: vec![],
            outputs: vec!["image".to_string()],
        },
        NodeDesc {
            id: "bridge-detector".to_string(),
            path: None,
            inputs: vec![(
                "image".to_string(),
                Some("student1/image".to_string()),
            )],
            outputs: vec!["boxes".to_string()],
        },
        NodeDesc {
            id: "tracker".to_string(),
            path: None,
            inputs: vec![(
                "boxes".to_string(),
                Some("bridge-detector/boxes".to_string()),
            )],
            outputs: vec!["tracks".to_string()],
        },
        NodeDesc {
            id: "mofa-visualizer".to_string(),
            path: None,
            inputs: vec![(
                "tracks".to_string(),
                Some("tracker/tracks".to_string()),
            )],
            outputs: vec![],
        },
    ]
}

#[test]
fn the_layout_engine_is_deterministic() {
    let descs = chain_descs();
    let (nodes1, edges1) = layout_dataflow(&descs);
    let (nodes2, edges2) = layout_dataflow(&descs);
    assert_eq!(nodes1.len(), nodes2.len());
    for (a, b) in nodes1.iter().zip(nodes2.iter()) {
        assert_eq!(a.id, b.id);
        assert_eq!(a.x, b.x);
        assert_eq!(a.y, b.y);
        assert_eq!(a.category, b.category);
    }
    assert_eq!(edges1.len(), edges2.len());
    for (a, b) in edges1.iter().zip(edges2.iter()) {
        assert_eq!(a.from_node, b.from_node);
        assert_eq!(a.to_node, b.to_node);
        assert_eq!(a.from_port, b.from_port);
        assert_eq!(a.to_port, b.to_port);
    }
}

#[test]
fn a_linear_chain_lands_in_ascending_columns_with_resolved_ports() {
    let yaml = "nodes:\n  - id: student1\n    outputs:\n      - image\n  - id: bridge-detector\n    inputs:\n      image: student1/image\n    outputs:\n      - boxes\n  - id: tracker\n    inputs:\n      boxes: bridge-detector/boxes\n    outputs:\n      - tracks\n  - id: mofa-visualizer\n    inputs:\n      tracks:\n        source: tracker/tracks\n";
    let (nodes, edges) = parse_dataflow(yaml).expect("the chain parses");
    assert_eq!(nodes.len(), 4);
    assert_eq!(edges.len(), 3);
    // columns: MaaS 0, Bridge 1, Default 2, MoFA 4, at 300 units spacing from x 50
    assert_eq!(nodes[0].x, 50);
    assert_eq!(nodes[1].x, 350);
    assert_eq!(nodes[2].x, 650);
    assert_eq!(nodes[3].x, 1250);
    assert!(nodes[0].x < nodes[1].x && nodes[1].x < nodes[2].x && nodes[2].x < nodes[3].x);
    assert_eq!(nodes[0].category, NodeCategory::MaaS);
    assert_eq!(nodes[1].category, NodeCategory::Bridge);
    assert_eq!(nodes[2].category, NodeCategory::Default);
    assert_eq!(nodes[3].category, NodeCategory::MoFA);
    // the edges carry the declared port names
    assert_eq!((edges[0].from_node, edges[0].to_node), (0, 1));
    assert_eq!(edges[0].from_port, "image");
    assert_eq!(edges[0].to_port, "image");
    assert_eq!((edges[1].from_node, edges[1].to_node), (1, 2));
    assert_eq!(edges[1].from_port, "boxes");
    assert_eq!((edges[2].from_node, edges[2].to_node), (2, 3));
    assert_eq!(edges[2].from_port, "tracks");
    assert_eq!(edges[2].to_port, "tracks");
    // running the whole pipeline again gives identical positions
    let (nodes2, _) = parse_dataflow(yaml).expect("the chain parses again");
    for (a, b) in nodes.iter().zip(nodes2.iter()) {
        assert_eq!((a.x, a.y), (b.x, b.y));
    }
}

#[test]
fn sources_without_exactly_one_slash_are_dropped() {
    let mut descs = chain_descs();
    descs[1].inputs[0].1 = Some("student1".to_string());
    let (_, edges) = layout_dataflow(&descs);
    assert_eq!(edges.len(), 2);
    descs[1].inputs[0].1 = Some("student1/image/extra".to_string());
    let (_, edges) = layout_dataflow(&descs);
    assert_eq!(edges.len(), 2);
}

#[test]
fn sources_naming_unknown_nodes_are_dropped() {
    let mut descs = chain_descs();
    descs[1].inputs[0].1 = Some("missing/image".to_string());
    let (_, edges) = layout_dataflow(&descs);
    assert_eq!(edges.len(), 2);
}

#[test]
fn malformed_documents_are_errors() {
    assert!(parse_dataflow(": : :").is_err());
    assert!(parse_dataflow("just a string").is_err());
    assert!(parse_dataflow("other: 1").is_err());
    assert!(parse_dataflow("nodes: 3").is_err());
    // a node without an id is malformed
    assert!(parse_dataflow("nodes:\n  - path: dynamic\n").is_err());
    // outputs must be a list of strings
    assert!(parse_dataflow("nodes:\n  - id: a\n    outputs: 7\n").is_err());
    assert!(parse_dataflow("nodes:\n  - id: a\n    outputs:\n      - 7\n").is_err());
}

#[test]
fn sibling_nodes_in_one_column_start_in_id_order() {
    let yaml = "nodes:\n  - id: zeta\n  - id: alpha\n  - id: middle\n";
    let (nodes, edges) = parse_dataflow(yaml).expect("parses");
    assert_eq!(edges.len(), 0);
    // all three land in the default column; rows follow the id order
    let alpha = nodes.iter().find(|n| n.id == "alpha").unwrap();
    let middle = nodes.iter().find(|n| n.id == "middle").unwrap();
    let zeta = nodes.iter().find(|n| n.id == "zeta").unwrap();
    assert!(alpha.y < middle.y && middle.y < zeta.y);
    // each stacked node advances by its extent: 60 + 0 port rows + 20 gap
    assert_eq!(middle.y - alpha.y, 80);
}

#[test]
fn the_barycenter_pass_pulls_a_target_toward_its_source_row() {
    // two sources in column 0 (maas), two sinks in column 1 (bridge):
    // sink "bridge-a" connects to the lower source, sink "bridge-b" to the
    // upper one; the passes swap the sinks to reduce the crossing
    let yaml = "nodes:\n  - id: student-upper\n    outputs:\n      - o\n  - id: tutor-lower\n    outputs:\n      - o\n  - id: bridge-a\n    inputs:\n      i: tutor-lower/o\n  - id: bridge-b\n    inputs:\n      i: student-upper/o\n";
    let (nodes, edges) = parse_dataflow(yaml).expect("parses");
    assert_eq!(edges.len(), 2);
    let upper = nodes.iter().find(|n| n.id == "student-upper").unwrap();
    let lower = nodes.iter().find(|n| n.id == "tutor-lower").unwrap();
    let a = nodes.iter().find(|n| n.id == "bridge-a").unwrap();
    let b = nodes.iter().find(|n| n.id == "bridge-b").unwrap();
    // initial id order put student-upper above tutor-lower
    assert!(upper.y < lower.y);
    // after the passes, b (fed by the upper source) sits above a
    assert!(b.y < a.y);
}
