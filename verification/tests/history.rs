use karakuri_bridge::history::{chosen_version, put_back_said, walk_refused, walked, History, Landing, Version};
use karakuri_bridge::layer::{NodeAddress, OpLayer};
use karakuri_bridge::material::Revision;

fn version(set: Option<&str>, layer: &str, index: usize, filed_as: &str) -> Version {
    Version {
        set: set.map(str::to_string),
        layer: layer.to_string(),
        index,
        filed_as: filed_as.to_string(),
    }
}

fn history() -> Vec<Version> {
    vec![
        version(Some("drift"), "L2", 0, "v4"),
        version(Some("fog"), "L2", 0, "f1"),
        version(Some("drift"), "L4", 0, "v3"),
        version(None, "L2", 0, "orphan"),
        version(Some("drift"), "L2", 0, "v2"),
        version(Some("drift"), "L2", 0, "v1"),
    ]
}

#[test]
fn the_history_scope_lists_the_sets_own_versions() {
    let found = History { versions: history(), stopped_short: false, unclaimed: 0 };
    let w = walked(&found, "drift");
    assert_eq!(w.rows, vec!["v4", "v3", "v2", "v1"]);
    assert_eq!(w.said, "");
}

#[test]
fn a_walk_says_what_it_passed_over() {
    let found = History { versions: Vec::new(), stopped_short: true, unclaimed: 1 };
    assert_eq!(
        walked(&found, "drift").said,
        "\n  history: the walk stopped with days unread, so this is part of what is there rather than all of it\n  history: 1 entry under `history/` that this layout does not claim was passed over"
    );
    let found = History { versions: Vec::new(), stopped_short: false, unclaimed: 3 };
    assert_eq!(
        walked(&found, "drift").said,
        "\n  history: 3 entries under `history/` that this layout does not claim were passed over"
    );
}

#[test]
fn a_picked_version_is_found_by_its_filed_name() {
    let versions = history();
    assert_eq!(chosen_version(&versions, "drift", &Revision::Picked("v2".to_string()), "L2", "A"), Ok(4));
    assert_eq!(
        chosen_version(&versions, "drift", &Revision::Picked("f1".to_string()), "L2", "A"),
        Err("  put back: `f1` is not one of `drift`'s versions in the last 200 this store wrote — a day directory an operator deleted by hand is the ordinary way that happens, since `rm -rf history/YYYY/MM` is the whole of the retention policy; nothing moved, and deck A is still playing `drift`".to_string())
    );
}

#[test]
fn a_step_back_is_the_version_before_the_running_one() {
    let versions = history();
    let node = NodeAddress { layer: OpLayer::L2, index: 0 };
    assert_eq!(chosen_version(&versions, "drift", &Revision::Previous(node), "L2", "A"), Ok(4));
}

#[test]
fn a_node_with_one_version_has_nothing_to_step_back_to() {
    let versions = history();
    let node = NodeAddress { layer: OpLayer::L4, index: 0 };
    assert_eq!(
        chosen_version(&versions, "drift", &Revision::Previous(node), "L4", "B"),
        Err("  put back: deck B L4:0 has one version in `drift`'s history, so there is nothing before what it is playing to step back to — the history keeps every version that compiled, and this node has only ever had the one. Nothing moved.".to_string())
    );
    let node = NodeAddress { layer: OpLayer::L5, index: 0 };
    assert!(chosen_version(&versions, "drift", &Revision::Previous(node), "L5", "B")
        .unwrap_err()
        .contains("has no version in"));
}

#[test]
fn a_version_put_back_says_where_it_was_written() {
    let v = version(Some("drift"), "L2", 0, "v2");
    assert_eq!(
        put_back_said(&Landing::Written { target: "/run/a/geo.kir".to_string() }, "A", "drift", "`v2`", &v),
        "  put back: deck A L2:0 <- `v2` -> written into /run/a/geo.kir; the worker builds it and the budget judges it, and the version it replaces is kept because the rebuild compiles it"
    );
    assert_eq!(
        put_back_said(&Landing::Unwritten { target: "/run/a/geo.kir".to_string(), why: "read-only".to_string() }, "A", "drift", "`v2`", &v),
        "  put back: /run/a/geo.kir: read-only — nothing moved, and what is on deck A is still running"
    );
}

#[test]
fn a_put_back_that_cannot_land_moves_nothing() {
    let v = version(Some("drift"), "L2", 0, "v2");
    assert_eq!(
        put_back_said(&Landing::HistoryUnread("permission denied".to_string()), "B", "drift", "`v2`", &v),
        "  put back: the edit history could not be read: permission denied — nothing moved, and what is on deck B is still running"
    );
    assert_eq!(
        put_back_said(&Landing::SourceGone { file: "/h/v2.kir".to_string(), why: "not found".to_string() }, "B", "drift", "`v2`", &v),
        "  put back: /h/v2.kir: not found — the row is a name and the file behind it is gone, so nothing moved and deck B is still playing `drift`"
    );
    assert_eq!(
        put_back_said(&Landing::NoNode("no L2:0 in this slot".to_string()), "B", "drift", "`v2`", &v),
        "  put back: deck B does not hold the node `v2` was a version of — no L2:0 in this slot; `drift` has been edited since, or this version came off another slot. Nothing moved."
    );
}

#[test]
fn a_history_that_cannot_be_walked_lists_nothing_and_says_why() {
    let w = walk_refused("history/ could not be read: permission denied");
    assert!(w.rows.is_empty());
    assert_eq!(w.said, "\n  history: history/ could not be read: permission denied — so this scope lists nothing");
}
