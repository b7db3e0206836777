use karakuri_bridge::pointer::{pane_named, pointed_pane, scheduled, pointed, Transition};

#[test]
fn a_deck_with_a_strip_is_selected() {
    assert_eq!(
        pointed(1, 4),
        Ok("  select: deck B -> SelectDeck { deck: 1 } -> no record, and that is settled: it is a surface's own pointer. The keys are addressed here, and the library's foot reads `load -> B`".to_string())
    );
}

#[test]
fn a_deck_with_no_strip_is_refused() {
    assert_eq!(
        pointed(2, 1),
        Err("  select: deck C refused — this deck has 1 slot, and a selection with no strip under it is a ring drawn nowhere and a `load` pill naming a deck the press could not reach".to_string())
    );
    assert!(pointed(3, 2).unwrap_err().contains("this deck has 2 slots,"));
}

fn panes() -> Vec<String> {
    vec!["left".to_string(), "right".to_string()]
}

#[test]
fn a_pane_is_found_by_name() {
    assert_eq!(pane_named("right", &panes()), Ok(1));
    assert_eq!(
        pane_named("middle", &panes()),
        Err("  pane: `middle` refused — this console's panes are left and right".to_string())
    );
}

#[test]
fn a_pane_pointed_at_a_deck_it_has_not_got_is_refused() {
    assert_eq!(
        pointed_pane("left", 3, 2, false),
        "  pane: `left` -> deck D refused — this deck has 2 slots, and a pane pointed at one it has not got is a head naming a deck with nothing under it"
    );
    let ok = "  pane: `left` -> deck A -> no record, and that is settled: a pane's target is a surface's own pointer. The keys stay where they are and the pane next door does not move";
    assert_eq!(pointed_pane("left", 0, 2, true), ok);
    // Already pointed there: nothing moved, and nothing is refused.
    assert_eq!(pointed_pane("left", 0, 2, false), ok);
}

fn row(length: &str, one_beat: bool) -> Transition {
    Transition {
        shape: "iris".to_string(),
        quantum: "bar".to_string(),
        length_word: "1 bar".to_string(),
        length: length.to_string(),
        one_beat,
    }
}

#[test]
fn a_transition_press_says_what_the_next_move_will_be() {
    assert_eq!(
        scheduled("Shape(Iris)", true, &row("4", false)),
        "  transition: Shape(Iris) -> no record, and that is settled: it is a surface's own setting. The next fade, crossfade or wipe is `iris` on the `bar`, over 4 beats"
    );
    assert!(scheduled("Length(1.0)", true, &row("1", true)).ends_with("over 1 beat"));
    assert_eq!(
        scheduled("Shape(Iris)", false, &row("4", false)),
        "  transition: Shape(Iris) refused or already there — the row is on `iris`, `bar`, `1 bar`, and a pill draws only what its own cycle names"
    );
}
