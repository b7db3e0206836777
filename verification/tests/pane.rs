use karakuri_bridge::inspector::Published;
use karakuri_bridge::layer::{Layer, NodeAddress, OpLayer};
use karakuri_bridge::pane::{
    pane_groups, pane_heads, pane_rows, panes_shown, unseated, uses_of, Edge, PaneRow, SetNode,
};

fn node(name: &str, layer: Layer, index: u32, authority: Option<u8>) -> SetNode<u8> {
    SetNode { name: name.to_string(), layer, index, authority }
}

fn set() -> Vec<SetNode<u8>> {
    vec![
        node("geo", Layer::L2, 0, Some(2)),
        node("cam", Layer::L3, 0, None),
        node("orbit", Layer::L3, 1, None),
        node("r0", Layer::L4, 0, Some(1)),
        node("r1", Layer::L4, 1, None),
        node("post", Layer::L5, 0, None),
    ]
}

fn control(key: &str, at: Option<(Layer, u32)>, landing: Vec<(Layer, u32)>) -> (Published, Vec<(Layer, u32)>) {
    (Published { name: key.to_string(), at, key: key.to_string() }, landing)
}

fn published() -> Vec<(Published, Vec<(Layer, u32)>)> {
    vec![
        control("radius", None, vec![(Layer::L2, 0)]),
        control("speed", Some((Layer::L4, 1)), vec![(Layer::L4, 1)]),
        control("gain", None, vec![(Layer::L4, 0), (Layer::L4, 1)]),
    ]
}

fn declared() -> Vec<(Published, Vec<(Layer, u32)>)> {
    vec![
        control("radius", None, vec![(Layer::L2, 0)]),
        control("tint", Some((Layer::L4, 0)), vec![(Layer::L4, 0)]),
        control("speed", Some((Layer::L4, 1)), vec![(Layer::L4, 1)]),
        control("zoom", None, vec![(Layer::L3, 0)]),
    ]
}

fn row(ord: Option<usize>, from: usize, node: Option<(Layer, u32)>) -> PaneRow {
    PaneRow { ord, from, node }
}

#[test]
fn published_rows_come_numbered_and_the_rest_follow() {
    let (rows, unplaced) = pane_rows(&published(), &declared());
    assert_eq!(
        rows,
        vec![
            row(Some(1), 0, Some((Layer::L2, 0))),
            row(Some(2), 1, Some((Layer::L4, 1))),
            row(Some(3), 2, None),
            row(None, 1, Some((Layer::L4, 0))),
            row(None, 3, Some((Layer::L3, 0))),
        ]
    );
    assert_eq!(unplaced, 2);
}

#[test]
fn a_pane_groups_its_rows_by_node_and_folds_the_renderers() {
    let (rows, _) = pane_rows(&published(), &declared());
    let groups = pane_groups(&set(), &rows, &None, &[true, false], true);
    assert_eq!(groups.len(), 5);
    let names: Vec<&str> = groups.iter().map(|g| g.name.as_str()).collect();
    assert_eq!(names, vec!["geo", "cam", "orbit", "post", "renderers"]);
    assert_eq!(groups[0].addr, "L2:0");
    assert_eq!(groups[0].authority, Some((NodeAddress { layer: OpLayer::L2, index: 0 }, 2)));
    assert_eq!(groups[0].params, vec![row(Some(1), 0, Some((Layer::L2, 0)))]);
    // The built-in camera is the last L3 node, and it has nothing to keep.
    assert_eq!(groups[1].keep, Some(NodeAddress { layer: OpLayer::L3, index: 0 }));
    assert_eq!(groups[2].keep, None);
    assert_eq!(groups[1].params, vec![row(None, 3, Some((Layer::L3, 0)))]);
    let fold = &groups[4];
    assert_eq!(fold.addr, "L4");
    assert_eq!(fold.authority, None);
    assert_eq!(fold.keep, None);
    let chips: Vec<(&str, bool)> = fold.renderers.iter().map(|r| (r.name.as_str(), r.live)).collect();
    assert_eq!(chips, vec![("r0", true), ("r1", false)]);
    assert_eq!(
        fold.params,
        vec![row(Some(2), 1, Some((Layer::L4, 1))), row(None, 1, Some((Layer::L4, 0)))]
    );
}

#[test]
fn one_renderer_keeps_its_chip_and_its_capsule() {
    let nodes = vec![node("geo", Layer::L2, 0, None), node("r0", Layer::L4, 0, Some(3))];
    let groups = pane_groups(&nodes, &[], &None, &[true], false);
    assert_eq!(groups.len(), 2);
    assert_eq!(groups[1].authority, Some((NodeAddress { layer: OpLayer::L4, index: 0 }, 3)));
    assert_eq!(groups[1].keep, Some(NodeAddress { layer: OpLayer::L4, index: 0 }));
    assert!(!groups[1].renderers[0].live);
}

#[test]
fn a_uses_line_offers_the_other_nodes_on_the_same_layer() {
    let nodes = vec![
        node("a", Layer::L2, 0, None),
        node("b", Layer::L2, 1, None),
        node("c", Layer::L2, 2, None),
        node("f", Layer::Field, 0, None),
        node("r", Layer::L4, 0, None),
    ];
    let edges = vec![
        Edge { node: "r".to_string(), slot: "geometry".to_string(), to: "a".to_string() },
        Edge { node: "r".to_string(), slot: "field".to_string(), to: "f".to_string() },
        Edge { node: "b".to_string(), slot: "source".to_string(), to: "c".to_string() },
        Edge { node: "r".to_string(), slot: "gone".to_string(), to: "nobody".to_string() },
    ];
    let uses = uses_of(&nodes, &edges, "r");
    assert_eq!(uses.len(), 2);
    assert_eq!(uses[0].slot, "geometry");
    assert_eq!(uses[0].to, "a");
    assert_eq!(uses[0].candidates, vec!["b", "c"]);
    assert_eq!(uses[1].to, "f");
    assert!(uses[1].candidates.is_empty());
    // The declaring node is never its own candidate.
    assert_eq!(uses_of(&nodes, &edges, "b")[0].candidates, vec!["a"]);
    let groups = pane_groups(&nodes, &[], &Some(edges), &[], true);
    assert_eq!(groups[1].uses[0].candidates, vec!["a"]);
    assert!(groups[4].uses.is_empty());
}

#[test]
fn a_pane_short_of_rows_says_so() {
    assert_eq!(
        unseated(1, 3, 2, 2).unwrap(),
        "inspector: deck B publishes 3 controls and 3 of them name no one node, so they have no group to sit in and are not drawn"
    );
    // Declared-only rows that are placed can take the count of rows placed past
    // the count published.
    assert!(unseated(0, 2, 3, 2).unwrap().contains("controls and 1 of them"));
    assert_eq!(unseated(0, 3, 5, 2), None);
    assert!(unseated(7, 2, 1, 0).unwrap().starts_with("inspector: deck ? publishes 2"));
}

#[test]
fn a_pane_pointed_past_the_deck_ends_the_row_of_panes() {
    assert_eq!(panes_shown(&[0, 1], 4), vec![0, 1]);
    assert_eq!(panes_shown(&[2, 0], 4), vec![2, 0]);
    // One slot: the second pane, pointed at deck B, draws nothing.
    assert_eq!(panes_shown(&[0, 1], 1), vec![0]);
    assert_eq!(panes_shown(&[3, 0], 2), Vec::<u8>::new());
}

#[test]
fn a_pane_head_names_the_material_on_its_deck() {
    let names = vec!["drift".to_string(), "fog".to_string()];
    let heads = pane_heads(&[1, 0], 3, &names);
    let got: Vec<(usize, &str)> = heads.iter().map(|h| (h.deck, h.material.as_str())).collect();
    assert_eq!(got, vec![(1, "fog"), (0, "drift")]);
    // A slot the strips give no name to is headed with nothing.
    let heads = pane_heads(&[2, 5], 3, &names);
    assert_eq!(heads.len(), 1);
    assert_eq!((heads[0].deck, heads[0].material.as_str()), (2, ""));
}
