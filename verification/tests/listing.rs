use karakuri_bridge::layer::{OpLayer, StoreLayer};
use karakuri_bridge::library::{FileRow, ListedProcedure, NodeSummary, Scope, SetSummary};
use karakuri_bridge::listing::{listing, shipped_row, shows_kept, KindFilter, ShippedProcedure, Walked};

fn node(layer: StoreLayer, name: &str) -> NodeSummary {
    NodeSummary { layer, name: name.to_string() }
}

fn set(id: &str, written: u64, nodes: Vec<NodeSummary>) -> SetSummary {
    SetSummary { id: id.to_string(), written, nodes }
}

fn everything() -> KindFilter {
    KindFilter {
        sets: true,
        narrowing: false,
        layers: vec![OpLayer::L1, OpLayer::L2, OpLayer::L3, OpLayer::L4, OpLayer::Field, OpLayer::L5],
    }
}

fn held() -> Vec<SetSummary> {
    vec![
        set("drift", 30, vec![node(StoreLayer::L1, "drift"), node(StoreLayer::L4, "glow")]),
        set("fog", 20, vec![node(StoreLayer::L1, "fog")]),
    ]
}

fn kept() -> Vec<ListedProcedure> {
    vec![ListedProcedure { name: "bloom".to_string(), written: 25, kind: Some(OpLayer::L4) }]
}

#[allow(clippy::too_many_arguments)]
fn list(
    scope: Option<Scope>,
    held: &[SetSummary],
    starred: &[String],
    holds: Option<&str>,
    kinds: &KindFilter,
    kept: &[ListedProcedure],
    walked: Option<&Walked>,
) -> (String, Option<Vec<String>>, Option<Vec<String>>) {
    let (line, shown) = listing(scope, held, starred, holds, kinds, kept, &[], &[], &[], walked, false, false);
    (line, shown.as_ref().map(|s| s.library.clone()), shown.map(|s| s.holds))
}

#[test]
fn no_scopes_lists_nothing() {
    let (line, rows, _) = list(None, &held(), &[], None, &everything(), &kept(), None);
    assert_eq!(line, "  library: this console was handed no scopes, so there is no library to list");
    assert_eq!(rows, None);
}

#[test]
fn all_is_sets_and_procedures_newest_first() {
    let (line, rows, holds) = list(Some(Scope::AllSets), &held(), &[], None, &everything(), &kept(), None);
    assert_eq!(rows.unwrap(), vec!["drift", "bloom", "fog"]);
    assert_eq!(line, "  library: `all` lists 3 Sets");
    assert_eq!(holds.unwrap(), vec!["drift", "fog", "glow"]);
}

#[test]
fn a_narrowed_listing_counts_against_the_store() {
    let (line, rows, _) = list(Some(Scope::AllSets), &held(), &[], Some("FOG"), &everything(), &[], None);
    assert_eq!(rows.unwrap(), vec!["fog"]);
    assert_eq!(line, "  library: `all` lists 1 of 2 Sets, holding a node called `FOG`");
}

#[test]
fn a_narrowing_that_matches_nothing_points_at_the_filter_row() {
    let (line, rows, _) = list(Some(Scope::AllSets), &held(), &[], Some("zzz"), &everything(), &[], None);
    assert!(rows.unwrap().is_empty());
    assert_eq!(
        line,
        "  library: `all` lists nothing — none of the 2 Sets here holding a node called `zzz`, so the filter row is what to press rather than `k`"
    );
}

#[test]
fn my_sets_is_the_starred_subset() {
    let starred = vec!["fog".to_string()];
    let (line, rows, _) = list(Some(Scope::MySets), &held(), &starred, None, &everything(), &kept(), None);
    assert_eq!(rows.unwrap(), vec!["fog"]);
    assert_eq!(line, "  library: `my sets` lists 1 Set");
}

#[test]
fn nothing_starred_says_why() {
    let (line, _, _) = list(Some(Scope::MySets), &held(), &[], None, &everything(), &kept(), None);
    assert!(line.starts_with("  library: `my sets` lists nothing — nothing in this store is starred"));
}

#[test]
fn chips_that_hide_sets_leave_the_procedures() {
    let kinds = KindFilter { sets: false, narrowing: true, layers: vec![OpLayer::L4] };
    let (_, rows, _) = list(Some(Scope::AllSets), &held(), &[], None, &kinds, &kept(), None);
    assert_eq!(rows.unwrap(), vec!["bloom"]);
    assert!(shows_kept(&kinds, Some(OpLayer::L4)));
    assert!(!shows_kept(&kinds, Some(OpLayer::L1)));
    assert!(!shows_kept(&kinds, None));
    assert!(shows_kept(&everything(), None));
}

#[test]
fn history_lists_versions_with_what_the_walk_said() {
    let walked = Walked {
        rows: vec!["v2".to_string(), "v1".to_string()],
        said: "\n  history: the walk stopped".to_string(),
    };
    let (line, rows, holds) = list(Some(Scope::History), &[], &[], None, &everything(), &[], Some(&walked));
    assert_eq!(rows.unwrap(), vec!["v2", "v1"]);
    assert_eq!(line, "  library: `history` lists 2 versions\n  history: the walk stopped");
    assert!(holds.unwrap().is_empty());
}

#[test]
fn presets_are_listed_by_name() {
    let presets = vec![
        FileRow { id: "zeta".to_string(), path: "/p/zeta.kset".to_string() },
        FileRow { id: "alpha".to_string(), path: "/p/alpha.kset".to_string() },
    ];
    let shipped = vec![
        ShippedProcedure { name: "mid".to_string(), kind: Some("L2".to_string()) },
        ShippedProcedure { name: "odd".to_string(), kind: Some("nonsense".to_string()) },
    ];
    let (line, shown) = listing(
        Some(Scope::Presets), &[], &[], None, &everything(), &[], &presets, &shipped, &[], None, true, true,
    );
    let shown = shown.unwrap();
    assert_eq!(shown.library, vec!["alpha", "mid", "odd", "zeta"]);
    assert_eq!(shown.kinds[1].badges, vec![OpLayer::L2]);
    assert!(shown.kinds[1].procedure);
    assert!(shown.kinds[2].badges.is_empty());
    assert_eq!(line, "  library: `presets` lists 4 Sets");
}

#[test]
fn an_empty_folder_says_why() {
    let (line, shown) = listing(
        Some(Scope::Folder), &[], &[], None, &everything(), &[], &[], &[], &[], None, true, false,
    );
    assert!(shown.unwrap().library.is_empty());
    assert!(line.starts_with("  library: `folder` lists nothing — the folder this bay is pointed at holds no Set file"));
    let folder = vec!["one".to_string()];
    let (line, _) = listing(
        Some(Scope::Folder), &[], &[], None, &everything(), &[], &[], &[], &folder, None, true, false,
    );
    assert_eq!(line, "  library: `folder` lists 1 Set");
}

#[test]
fn a_shipped_procedure_is_badged_with_the_layer_its_kind_names() {
    let row = shipped_row(&ShippedProcedure { name: "spiral".to_string(), kind: Some("L4".to_string()) });
    assert!(row.procedure);
    assert_eq!(row.badges, vec![OpLayer::L4]);
    let row = shipped_row(&ShippedProcedure { name: "odd".to_string(), kind: Some("L9".to_string()) });
    assert!(row.badges.is_empty());
    let row = shipped_row(&ShippedProcedure { name: "bare".to_string(), kind: None });
    assert!(row.badges.is_empty() && row.procedure);
}
