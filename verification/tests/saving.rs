use karakuri_bridge::saving::{built_names, Asked, Kept, Playing, Sent};

#[test]
fn a_dismissed_send_is_not_a_refusal() {
    let sent = Sent { id: "drift".to_string(), to: None, outcome: Ok(()) };
    assert_eq!(
        sent.said(),
        "  send: `drift` was not written — the save dialog was dismissed, and nothing was asked of the disk"
    );
}

#[test]
fn a_send_says_where_it_went() {
    let sent = Sent { id: "drift".to_string(), to: Some("/tmp/drift.kbset".to_string()), outcome: Ok(()) };
    assert_eq!(sent.said(), "  send: `drift` written to `/tmp/drift.kbset`");
}

#[test]
fn a_failed_send_says_what_the_disk_said() {
    let sent = Sent {
        id: "drift".to_string(),
        to: Some("/ro/drift.kbset".to_string()),
        outcome: Err("read-only file system".to_string()),
    };
    assert_eq!(sent.said(), "  send: `drift` was not written to `/ro/drift.kbset`: read-only file system");
}

#[test]
fn an_operators_keep_is_in_the_library() {
    let kept = Kept {
        asked: Asked::Operator,
        name: "glow".to_string(),
        addr: "L4:0".to_string(),
        outcome: Ok("/s/procedures/glow.kir".to_string()),
    };
    assert_eq!(
        kept.said(),
        Ok("  keep: L4:0 kept as procedure `glow` — `/s/procedures/glow.kir`. The Library bay lists it, and a press on that row writes it over that layer of what a deck is playing".to_string())
    );
}

#[test]
fn a_models_keep_is_in_the_sandbox() {
    let kept = Kept {
        asked: Asked::Model,
        name: "glow".to_string(),
        addr: "L4:0".to_string(),
        outcome: Ok("/s/sandbox/glow.kir".to_string()),
    };
    assert_eq!(
        kept.said(),
        Ok("  keep: L4:0 kept as `glow` in the sandbox — `/s/sandbox/glow.kir`. A keep asked for over MCP is written there rather than in the operator's library, so the Library bay does not list it and no load off a row reaches it".to_string())
    );
}

#[test]
fn a_failed_keep_is_refused() {
    let kept = Kept {
        asked: Asked::Operator,
        name: "glow".to_string(),
        addr: "L4:0".to_string(),
        outcome: Err("disk full".to_string()),
    };
    assert_eq!(kept.said(), Err("  keep: L4:0: procedure `glow` was not kept: disk full".to_string()));
}

#[test]
fn every_slot_is_seeded_from_what_the_run_compiled() {
    let p = Playing::at_launch(vec![vec![1u32, 2], vec![1, 2], vec![]]);
    assert_eq!(p.at(0), Some(&vec![1, 2]));
    assert_eq!(p.at(2), None);
    assert_eq!(p.at(9), None);
}

#[test]
fn a_build_landing_moves_its_slot_and_no_other() {
    let mut p = Playing::at_launch(vec![vec![1u32], vec![1]]);
    p.landed(1, Some(vec![7, 8]));
    assert_eq!(p.at(1), Some(&vec![7, 8]));
    assert_eq!(p.at(0), Some(&vec![1]));
    // Sources that never reached the store are still a swap.
    p.landed(0, None);
    assert_eq!(p.at(0), None);
    // A slot the deck has not got is left alone.
    p.landed(5, Some(vec![9]));
    assert_eq!(p.playing.len(), 2);
}

#[test]
fn a_built_node_is_saved_under_the_name_its_file_was_given() {
    let names = vec![Some("geo".to_string()), None, Some("look".to_string())];
    assert_eq!(
        built_names(&names, 4),
        vec![Some("geo".to_string()), None, Some("look".to_string()), None]
    );
    assert_eq!(built_names(&names, 1), vec![Some("geo".to_string())]);
    assert!(built_names(&[], 0).is_empty());
}
