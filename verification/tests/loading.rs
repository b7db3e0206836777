use karakuri_bridge::loading::{
    loaded, loaded_aim, loaded_capacity, loaded_salts, loaded_seed, name_taken, no_kind, no_procedure, overlaid,
    overlay_at, overlay_files, kept_source, worker_gone, Named, SlotFile,
};

#[test]
fn a_set_that_recorded_its_salts_comes_back_with_them() {
    let recorded = vec![Some(11), None, Some(13)];
    assert_eq!(loaded_seed(&recorded, 2), 11);
    assert_eq!(loaded_salts(&recorded, &[100, 101, 102, 103]), vec![11, 101, 13, 103]);
}

#[test]
fn a_set_that_recorded_none_is_salted_like_its_slot() {
    assert_eq!(loaded_seed(&[], 2), 2);
    assert_eq!(loaded_seed(&[None, Some(5)], 3), 3);
    assert_eq!(loaded_salts(&[], &[7, 8]), vec![7, 8]);
}

#[test]
fn the_first_recorded_capacity_aims_the_slot() {
    assert_eq!(loaded_capacity(&[Some(4096), Some(1024)]), Some(4096));
    assert_eq!(loaded_capacity(&[None, Some(1024)]), None);
    assert_eq!(loaded_capacity(&[]), None);
}

#[test]
fn a_load_says_where_it_wrote() {
    assert_eq!(
        loaded("B", "drift", 3, "/store", "scratch"),
        "  load: deck B <- `drift` (3 nodes) -> written into /store/scratch and its watcher re-pointed; the worker builds it and the budget judges it"
    );
    assert!(loaded("A", "one", 1, "/s", "scratch").contains("(1 node)"));
    assert_eq!(worker_gone("A", "drift"), "deck A's build worker is gone, so `drift` cannot be built; what is on that deck keeps running");
    assert_eq!(no_procedure("empty"), "`empty` names no procedure at all");
}

fn file(name: Option<&str>, kind: Option<Option<&str>>) -> SlotFile {
    SlotFile { name: name.map(str::to_string), kind: kind.map(|k| k.map(str::to_string)) }
}

#[test]
fn an_overlay_is_written_over_the_first_node_of_its_layer() {
    let files = vec![
        file(Some("geo"), Some(None)),
        file(Some("cam"), Some(Some("L3"))),
        file(Some("lost"), None),
        file(Some("look"), Some(None)),
        file(Some("look2"), Some(Some("L4"))),
    ];
    // The first file with no `kind` is an L1; any later one an L4.
    assert_eq!(overlay_at(&files, "L1", "spiral"), Some((0, false)));
    assert_eq!(overlay_at(&files, "L4", "spiral"), Some((3, false)));
    assert_eq!(overlay_at(&files, "L3", "orbit"), Some((1, false)));
}

#[test]
fn an_overlay_of_a_layer_the_slot_has_not_got_is_added() {
    let files = vec![file(Some("geo"), Some(None)), file(Some("look"), Some(None))];
    assert_eq!(overlay_at(&files, "F", "flow"), Some((2, true)));
    assert_eq!(overlay_at(&files, "F", "look"), None);
    assert_eq!(
        name_taken("A", "look"),
        "deck A already holds a node called `look`, and this row would add a second — rename one of them and load again"
    );
}

#[test]
fn an_overlay_says_where_it_went() {
    assert_eq!(
        overlaid("spiral", "kept", "L1", false, "B"),
        "  load: `spiral` (kept) written over L1:0 on deck B — the slot is recompiling on the worker with every other layer where it was, and the staging lane says whether the build landed, was overloaded or did not compile"
    );
    assert!(overlaid("flow", "shipped", "F", true, "A").starts_with("  load: `flow` (shipped) added as F:0, which this deck had no node for on deck A — "));
    assert!(no_kind("bare").starts_with("`bare` declares no `kind`, so there is no layer to write it over"));
}

#[test]
fn a_kept_source_comes_before_a_shipped_one() {
    assert_eq!(kept_source(true, true, "spiral", "procedures"), Ok("kept"));
    assert_eq!(kept_source(false, true, "spiral", "procedures"), Ok("shipped"));
    assert_eq!(
        kept_source(false, false, "spiral", "procedures"),
        Err("no procedure named `spiral` — this store's `procedures/` does not hold one and the presets root does not ship one, so the row it was listed under has gone since the listing was built".to_string())
    );
}

#[test]
fn a_load_files_the_slot_under_its_set_and_clears_what_a_set_file_carries_not() {
    let edges = vec![karakuri_bridge::pane::Edge { node: "look".to_string(), slot: "geometry".to_string(), to: "geo".to_string() }];
    let aim = loaded_aim::<u8>("drift", 2, &[None, Some(9)], &[40, 41], &[Some(4096)], edges);
    assert_eq!(aim.set.as_deref(), Some("drift"));
    assert_eq!(aim.capacity, Some(4096));
    assert_eq!(aim.seed_salt, 2);
    assert_eq!(aim.salts, vec![40, 9]);
    assert_eq!(aim.edges.len(), 1);
    assert_eq!(aim.edges[0].to, "geo");
    assert!(aim.published.is_empty() && aim.authorities.is_empty());
}

fn named(name: Option<&str>, path: &str) -> Named {
    Named { name: name.map(str::to_string), path: path.to_string() }
}

#[test]
fn an_overlay_rewrites_one_file_or_adds_one() {
    let files = vec![named(Some("geo"), "/s/A0-geo.kir"), named(None, "/s/A1.kir")];
    let over = overlay_files(files, 1, false, "spiral", "/s/A1-spiral.kir".to_string());
    assert_eq!(over.len(), 2);
    assert_eq!(over[0].path, "/s/A0-geo.kir");
    assert_eq!(over[1].name, None);
    assert_eq!(over[1].path, "/s/A1-spiral.kir");
    let files = vec![named(Some("geo"), "/s/A0-geo.kir")];
    let added = overlay_files(files, 1, true, "flow", "/s/A1-flow.kir".to_string());
    assert_eq!(added.len(), 2);
    assert_eq!(added[1].name.as_deref(), Some("flow"));
    assert_eq!(added[1].path, "/s/A1-flow.kir");
}
