use karakuri_bridge::layer::{Layer, NodeAddress, OpLayer};
use karakuri_bridge::staging::{
    build_rows, changed_rows, kept, settle, staged, verdict, Candidate, Changed, Event, NodeOfSet, Stage, Verdict,
};

fn row(deck: usize, name: &str, at: Option<NodeAddress>) -> Candidate {
    Candidate {
        deck,
        at,
        addr: String::new(),
        name: name.to_string(),
        stage: Stage::Landed,
        said: Vec::new(),
    }
}

fn names(lane: &[Candidate]) -> Vec<(usize, String)> {
    lane.iter().map(|c| (c.deck, c.name.clone())).collect()
}

#[test]
fn a_verdict_replaces_its_decks_rows_and_no_others() {
    let mut lane = vec![row(0, "a", None), row(1, "b1", None), row(1, "b2", None), row(3, "d", None)];
    settle(&mut lane, 1, "build 7", Stage::Refused, &["no".to_string()], &[]);
    assert_eq!(
        names(&lane),
        vec![(0, "a".to_string()), (1, "build 7".to_string()), (3, "d".to_string())]
    );
    assert_eq!(lane[1].stage, Stage::Refused);
    assert_eq!(lane[1].said, vec!["no".to_string()]);
    assert_eq!(lane[1].at, None);
}

#[test]
fn a_deck_with_no_rows_gets_them_in_deck_order() {
    let mut lane = vec![row(0, "a", None), row(3, "d", None)];
    let node = NodeAddress { layer: OpLayer::L2, index: 0 };
    let changed = vec![
        Changed { at: node, addr: "L2:0".to_string(), name: "drift".to_string() },
        Changed { at: NodeAddress { layer: OpLayer::L4, index: 1 }, addr: "L4:1".to_string(), name: "glow".to_string() },
    ];
    settle(&mut lane, 2, "build 9", Stage::Landed, &[], &changed);
    assert_eq!(
        names(&lane),
        vec![(0, "a".to_string()), (2, "drift".to_string()), (2, "glow".to_string()), (3, "d".to_string())]
    );
    assert_eq!(lane[1].at, Some(node));
    assert_eq!(lane[1].addr, "L2:0");
}

#[test]
fn a_keep_takes_the_nodes_row_out() {
    let node = NodeAddress { layer: OpLayer::L2, index: 0 };
    let other = NodeAddress { layer: OpLayer::L4, index: 0 };
    let mut lane = vec![row(1, "drift", Some(node)), row(1, "glow", Some(other)), row(2, "drift", Some(node))];
    let said = kept(&mut lane, 1, node);
    assert_eq!(names(&lane), vec![(1, "glow".to_string()), (2, "drift".to_string())]);
    assert_eq!(
        said,
        "  keep: deck B L2:0 -> KeepCandidate -> no record, and that is settled: the material already changed and its `procedure` record was written at the swap. The row leaves the lane and nothing else moves; 2 rows still waiting"
    );
}

#[test]
fn a_keep_on_the_last_row_leaves_nothing_waiting() {
    let node = NodeAddress { layer: OpLayer::Field, index: 3 };
    let mut lane = vec![row(0, "f", Some(node))];
    let said = kept(&mut lane, 0, node);
    assert!(lane.is_empty());
    assert!(said.ends_with("nothing still waiting"));
    assert!(said.starts_with("  keep: deck A F:3 -> KeepCandidate"));
}

#[test]
fn a_keep_with_no_row_moves_nothing() {
    let node = NodeAddress { layer: OpLayer::L1, index: 0 };
    let mut lane = vec![row(0, "a", None)];
    let said = kept(&mut lane, 0, node);
    assert_eq!(lane.len(), 1);
    assert_eq!(
        said,
        "  keep: deck A L1:0 has no candidate row — nothing was outstanding on that node, and the lane is as it was"
    );
}

#[test]
fn events_are_verdicts() {
    let swapped = Event::Swapped { label: "b1".to_string(), id: 1 };
    assert!(matches!(verdict(&swapped), Verdict::Waiting("b1", Stage::Landed)));
    assert!(matches!(verdict(&Event::Rejected { label: "b2".to_string() }), Verdict::Waiting("b2", Stage::Refused)));
    assert!(matches!(verdict(&Event::Overloaded { label: "b3".to_string(), id: 3 }), Verdict::Waiting("b3", Stage::Overloaded)));
    assert!(matches!(
        verdict(&Event::SourceRefused { label: "b4".to_string(), said: vec![] }),
        Verdict::Waiting("b4", Stage::NotCompiled)
    ));
    assert!(matches!(verdict(&Event::Accepted), Verdict::Settled));
    assert!(matches!(verdict(&Event::WorkerLost), Verdict::Nothing));
}

#[test]
fn an_event_moves_the_lane_and_its_health() {
    let mut lane = vec![row(0, "a", None), row(1, "b", None)];
    let mut health = None;
    assert!(staged(&mut lane, 1, &Event::Swapped { label: "b2".to_string(), id: 2 }, &[], &mut health));
    assert_eq!(health, Some(Stage::Landed));
    assert_eq!(names(&lane), vec![(0, "a".to_string()), (1, "b2".to_string())]);

    let refused = Event::SourceRefused { label: "b3".to_string(), said: vec!["line 1: no".to_string()] };
    assert!(!staged(&mut lane, 0, &refused, &[], &mut health));
    assert_eq!(health, Some(Stage::NotCompiled));
    assert_eq!(lane[0].said, vec!["line 1: no".to_string()]);

    assert!(!staged(&mut lane, 0, &Event::Accepted, &[], &mut health));
    assert_eq!(names(&lane), vec![(1, "b2".to_string())]);
    assert_eq!(health, Some(Stage::NotCompiled));

    assert!(!staged(&mut lane, 1, &Event::WorkerLost, &[], &mut health));
    assert_eq!(names(&lane), vec![(1, "b2".to_string())]);
}

fn node_of_set(name: &str, layer: Layer, index: u32, kind: &str) -> NodeOfSet {
    NodeOfSet { name: name.to_string(), layer, index, kind: kind.to_string() }
}

#[test]
fn a_swap_lists_the_nodes_it_changed_in_set_order() {
    let nodes = vec![
        node_of_set("geo", Layer::L2, 0, "L2"),
        node_of_set("cam", Layer::L3, 0, "L3"),
        node_of_set("look", Layer::L4, 0, "L4"),
        node_of_set("look2", Layer::L4, 1, "L4"),
    ];
    let rows = changed_rows(&nodes, &[("L4".to_string(), 1), ("L2".to_string(), 0), ("L5".to_string(), 0)]);
    let got: Vec<(NodeAddress, &str, &str)> = rows.iter().map(|c| (c.at, c.addr.as_str(), c.name.as_str())).collect();
    assert_eq!(
        got,
        vec![
            (NodeAddress { layer: OpLayer::L2, index: 0 }, "L2:0", "geo"),
            (NodeAddress { layer: OpLayer::L4, index: 1 }, "L4:1", "look2"),
        ]
    );
    assert!(changed_rows(&nodes, &[]).is_empty());
}

#[test]
fn an_overload_is_matched_to_the_swap_of_its_build() {
    let built = vec![4u64, 7, 7];
    assert_eq!(build_rows(&built, &Event::Overloaded { label: "b".to_string(), id: 7 }), Some(1));
    assert_eq!(build_rows(&built, &Event::Swapped { label: "b".to_string(), id: 4 }), Some(0));
    assert_eq!(build_rows(&built, &Event::Overloaded { label: "b".to_string(), id: 9 }), None);
    assert_eq!(build_rows(&built, &Event::Accepted), None);
}
