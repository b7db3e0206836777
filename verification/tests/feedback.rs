use karakuri_bridge::feedback::{refusal, unperformed, unwritten, Go, NotPerformed, Written};

#[test]
fn records_are_said_by_the_deck_not_here() {
    assert_eq!(unwritten("SetGain", &Written::Records), None);
}

#[test]
fn silence_is_settled() {
    let said = unwritten(
        "SelectDeck { deck: 1 }",
        &Written::Silent { why: "it is a surface's own pointer".to_string() },
    );
    assert_eq!(
        said.as_deref(),
        Some("  emitted: SelectDeck { deck: 1 } -> no record, and that is settled: it is a surface's own pointer")
    );
}

#[test]
fn an_owed_record_is_a_gap() {
    let said = unwritten("SetMaskShape", &Written::Owed { why: "the mask was not read".to_string() });
    assert_eq!(
        said.as_deref(),
        Some("  emitted: SetMaskShape -> no record, and that is a gap rather than a decision: the mask was not read. nothing moved, and nothing here decides it")
    );
}

#[test]
fn a_refusal_schedules_nothing() {
    let said = unwritten("FadeDeck", &Written::Refused { why: "mute lane 0".to_string() });
    assert_eq!(
        said.as_deref(),
        Some("  emitted: FadeDeck -> refused, and nothing was scheduled: mute lane 0")
    );
}

#[test]
fn a_model_is_told_only_what_was_not_performed() {
    assert_eq!(unperformed("Load", &Written::Records), None);
    assert_eq!(unperformed("Load", &Written::Silent { why: "settled".to_string() }), None);
    assert_eq!(
        unperformed("Fade", &Written::Owed { why: "owed".to_string() }),
        Some(NotPerformed { title: "Fade".to_string(), why: "owed".to_string() })
    );
    assert_eq!(
        unperformed("Mute", &Written::Refused { why: "refused".to_string() }),
        Some(NotPerformed { title: "Mute".to_string(), why: "refused".to_string() })
    );
}

#[test]
fn one_deck_is_one_strip() {
    assert_eq!(
        refusal(&Go::NoOtherDeck, 1),
        "  wipe: refused — this mixer draws 1 strip, and a wipe needs a deck to come from as well as one to arrive. Two decks side by side in the bay is what makes the press mean something"
    );
}

#[test]
fn no_decks_are_strips() {
    assert_eq!(
        refusal(&Go::NoOtherDeck, 0),
        "  wipe: refused — this mixer draws 0 strips, and a wipe needs a deck to come from as well as one to arrive. Two decks side by side in the bay is what makes the press mean something"
    );
}

#[test]
fn no_shape_is_refused() {
    assert!(refusal(&Go::NoShape, 4).starts_with("  wipe: refused — no shape chosen, and a wipe is a shape moving."));
    assert!(refusal(&Go::NoShape, 4).ends_with("because the shape is this console's own setting"));
}

#[test]
fn a_wipe_is_not_a_refusal() {
    assert_eq!(
        refusal(&Go::Wipe { title: "wipe to B".to_string() }, 2),
        "  wipe: wipe to B is not a refusal and this line should not have been reached"
    );
}
