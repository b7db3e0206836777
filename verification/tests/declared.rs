use karakuri_bridge::declared::{nothing_to_read, declared, read_said, unread, Card};
use karakuri_bridge::library::Scope;

fn param(key: &str) -> Card {
    Card::Param { key: key.to_string() }
}

fn emit(attrs: &[&str]) -> Card {
    Card::Emit { attrs: attrs.iter().map(|a| a.to_string()).collect() }
}

#[test]
fn a_reading_folds_what_the_cards_declare() {
    let cards = vec![
        Some(vec![param("radius"), Card::Capacity { min: 64, max: 65536, default: 4096 }, emit(&["position", "normal"])]),
        None,
        Some(vec![param("speed"), param("radius"), Card::Other, Card::Capacity { min: 256, max: 16384, default: 1024 }, emit(&["normal", "colour"])]),
    ];
    let r = declared("drift", &cards);
    assert_eq!(r.id, "drift");
    assert_eq!(r.nodes, 3);
    assert_eq!(r.described, 2);
    assert_eq!(r.knobs, vec!["radius", "speed"]);
    // The range every geometry accepts, and the first declarer's default.
    assert_eq!(r.capacity.as_deref(), Some("256 – 16384 · 4096"));
    assert_eq!(r.emits.as_deref(), Some("position, normal, colour"));
}

#[test]
fn a_set_with_no_cards_declares_nothing() {
    let r = declared("bare", &[None, None]);
    assert_eq!(r.nodes, 2);
    assert_eq!(r.described, 0);
    assert!(r.knobs.is_empty());
    assert_eq!(r.capacity, None);
    assert_eq!(r.emits, None);
}

#[test]
fn a_read_says_what_it_found() {
    let r = declared("drift", &[Some(vec![param("radius")]), None]);
    assert_eq!(
        read_said(&r, "1 knob", "2 nodes", "1 without a card"),
        "  read: `drift` declares 1 knob over 2 nodes, 1 without a card"
    );
    let r = declared("drift", &[Some(vec![param("radius")])]);
    assert_eq!(read_said(&r, "1 knob", "1 node", "unused"), "  read: `drift` declares 1 knob over 1 node");
    assert_eq!(unread("fog", "no Set `fog`"), "  read: `fog` could not be read — no Set `fog`");
}

#[test]
fn nothing_under_the_cursor_is_said_by_scope() {
    assert_eq!(
        nothing_to_read(Some(Scope::History)),
        "  read: `history` lists the versions of a Set rather than Sets, so there is nothing under the cursor for a reading to be about"
    );
    assert_eq!(nothing_to_read(Some(Scope::AllSets)), "  read: this bay lists nothing, so there is no Set to read");
    assert_eq!(nothing_to_read(None), "  read: this bay lists nothing, so there is no Set to read");
}
