use karakuri_bridge::library::{unread_said, Unread};
use karakuri_bridge::layer::{OpLayer, StoreLayer};
use karakuri_bridge::library::{
    checked_name, folder_listing, holds_choices, kept_row, library, narrowing, narrows,
    procedures, set_row, spelled, why_nothing, FileRow, ListedProcedure, NodeSummary, Scope,
    SetSummary,
};

fn node(layer: StoreLayer, name: &str) -> NodeSummary {
    NodeSummary { layer, name: name.to_string() }
}

fn set(id: &str, written: u64, nodes: Vec<NodeSummary>) -> SetSummary {
    SetSummary { id: id.to_string(), written, nodes }
}

#[test]
fn a_range_is_spelled_min_max_default() {
    assert_eq!(spelled("0", "1", Some("0.5".to_string())), "0 – 1 · 0.5");
    assert_eq!(spelled("0", "1", None), "0 – 1 · expr");
}

#[test]
fn a_narrowing_is_described() {
    assert_eq!(narrowing(None, None), None);
    assert_eq!(narrowing(Some("drift"), None).as_deref(), Some("holding a node called `drift`"));
    assert_eq!(narrowing(None, Some("L2")).as_deref(), Some("holding a L2 node"));
    assert_eq!(
        narrowing(Some("drift"), Some("L2")).as_deref(),
        Some("holding both a node called `drift` and a L2 node")
    );
}

#[test]
fn each_scope_says_why_it_is_empty() {
    assert!(why_nothing(Scope::AllSets, false, false).starts_with("this store holds no Sets yet"));
    assert!(why_nothing(Scope::MySets, false, false).starts_with("nothing in this store is starred"));
    assert!(why_nothing(Scope::Presets, true, true).starts_with("this run found no preset library"));
    assert!(why_nothing(Scope::Folder, false, false).starts_with("no folder has been dropped"));
    assert!(why_nothing(Scope::Folder, true, false).starts_with("the folder this bay is pointed at"));
    assert!(why_nothing(Scope::History, false, false).starts_with("the deck the `load` pulldown names"));
    assert!(why_nothing(Scope::History, false, true).starts_with("this Set has no versions yet"));
}

#[test]
fn an_empty_arrangement_name_is_refused() {
    assert_eq!(
        checked_name(""),
        Err("arrangement: nothing was typed, and an arrangement is filed under a name — the default arrangement is the one that has none".to_string())
    );
}

#[test]
fn an_arrangement_name_is_one_path_component() {
    assert_eq!(checked_name("live-set_2"), Ok(()));
    assert_eq!(
        checked_name("a/b c"),
        Err("arrangement: `a/b c` holds `/`, and an arrangement name is letters, digits, `-` and `_`: it is one path component and it names a file under `<store>/arrangements/`".to_string())
    );
    assert_eq!(
        checked_name("née"),
        Err("arrangement: `née` holds `é`, and an arrangement name is letters, digits, `-` and `_`: it is one path component and it names a file under `<store>/arrangements/`".to_string())
    );
}

#[test]
fn a_folder_lists_ids_in_order() {
    let rows = vec![
        FileRow { id: "a".to_string(), path: "/x/a.kset".to_string() },
        FileRow { id: "b".to_string(), path: "/x/b.kbset".to_string() },
    ];
    assert_eq!(folder_listing(&rows), vec!["a".to_string(), "b".to_string()]);
}

#[test]
fn badges_name_each_layer_once_in_first_order() {
    let row = set_row(&[
        node(StoreLayer::L4, "r"),
        node(StoreLayer::L1, "g"),
        node(StoreLayer::L4, "r2"),
        node(StoreLayer::Field, "f"),
    ]);
    assert_eq!(row.badges, vec![OpLayer::L4, OpLayer::L1, OpLayer::Field]);
    assert!(!row.procedure);
}

#[test]
fn a_kept_procedure_is_badged_by_its_kind() {
    let row = kept_row(Some(OpLayer::L2));
    assert_eq!(row.badges, vec![OpLayer::L2]);
    assert!(row.procedure);
    assert!(kept_row(None).badges.is_empty());
}

#[test]
fn the_holds_field_offers_each_name_once_in_order() {
    let sets = vec![
        set("one", 1, vec![node(StoreLayer::L1, "drift"), node(StoreLayer::L4, "bloom")]),
        set("two", 2, vec![node(StoreLayer::L1, "drift"), node(StoreLayer::L2, "Alpha")]),
    ];
    assert_eq!(
        holds_choices(&sets),
        vec!["Alpha".to_string(), "bloom".to_string(), "drift".to_string()]
    );
    assert!(holds_choices(&[]).is_empty());
}

#[test]
fn narrowing_ignores_ascii_case_and_asks_for_the_layer() {
    let s = set("one", 1, vec![node(StoreLayer::L1, "Drift"), node(StoreLayer::L4, "bloom")]);
    assert!(narrows(&s, None, None));
    assert!(narrows(&s, Some("drift"), None));
    assert!(narrows(&s, Some("RIF"), None));
    assert!(narrows(&s, Some(""), None));
    assert!(!narrows(&s, Some("fog"), None));
    assert!(narrows(&s, None, Some(OpLayer::L4)));
    assert!(!narrows(&s, None, Some(OpLayer::L2)));
    assert!(narrows(&s, Some("bloom"), Some(OpLayer::L1)));
    assert!(!narrows(&s, Some("bloom"), Some(OpLayer::L5)));
}

#[test]
fn the_library_is_most_recent_first_then_by_id() {
    let sorted = library(vec![
        set("b", 5, vec![]),
        set("a", 5, vec![]),
        set("c", 9, vec![]),
        set("d", 1, vec![]),
    ]);
    let ids: Vec<&str> = sorted.iter().map(|s| s.id.as_str()).collect();
    assert_eq!(ids, vec!["c", "a", "b", "d"]);
}

#[test]
fn procedures_are_most_recent_first_then_by_name() {
    let listed = procedures(vec![
        ListedProcedure { name: "z".to_string(), written: 2, kind: None },
        ListedProcedure { name: "y".to_string(), written: 2, kind: Some(OpLayer::L2) },
        ListedProcedure { name: "x".to_string(), written: 1, kind: None },
    ]);
    let names: Vec<&str> = listed.iter().map(|p| p.name.as_str()).collect();
    assert_eq!(names, vec!["y", "z", "x"]);
}

#[test]
fn a_library_that_cannot_be_read_says_so() {
    assert_eq!(unread_said("/s", &Unread::NoStore), "library: no store at /s, so the bay lists nothing");
    assert_eq!(unread_said("/s", &Unread::SetsUnlisted("bad".to_string())), "library: /s could not be listed: bad");
    assert_eq!(unread_said("/s", &Unread::StoreUnopened("locked".to_string())), "library: /s could not be opened: locked");
    assert_eq!(
        unread_said("/s", &Unread::ProceduresUnlisted { dir: "procedures".to_string(), why: "gone".to_string() }),
        "library: /s/procedures could not be listed: gone"
    );
    assert_eq!(unread_said("/s", &Unread::Favourites("torn".to_string())), "library: /s keeps no readable favourites: torn");
    assert_eq!(unread_said("/s", &Unread::ArrangementsUnlisted("x".to_string())), "arrangements: /s could not be listed: x");
    assert_eq!(unread_said("/s", &Unread::PresetsUnlisted("no presets root".to_string())), "presets: no presets root");
    assert_eq!(unread_said("/s", &Unread::ShippedUnlisted("no presets root".to_string())), "library: no presets root");
    assert_eq!(unread_said("/d", &Unread::FolderUnlisted("gone".to_string())), "  folder: `/d` could not be listed: gone");
}
