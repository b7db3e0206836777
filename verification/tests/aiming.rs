use karakuri_bridge::aiming::{no_slot, reaimed, Aimed, AimedAt, Reaim};

fn at(composite: bool, capacity: Option<u32>) -> AimedAt {
    AimedAt { composite, capacity }
}

#[test]
fn a_slot_already_compositing_is_not_sent_again() {
    match reaimed(&Reaim::Composite { compositing: true }, 1, 2, &at(true, None)) {
        Aimed::Unchanged(t) => assert_eq!(
            t,
            "  composite: deck B is already set to composite its renderers — nothing was sent, because a re-aim rebuilds the whole slot and this one would land on the same picture"
        ),
        other => panic!("{other:?}"),
    }
}

#[test]
fn a_change_of_layering_is_sent() {
    match reaimed(&Reaim::Composite { compositing: false }, 0, 2, &at(true, None)) {
        Aimed::Send { sent, stranded } => {
            assert_eq!(
                sent,
                "  composite: deck A re-aimed to overdraw its renderers — the slot is recompiling on the worker, and the staging lane says whether the build landed, was overloaded or did not compile"
            );
            assert_eq!(
                stranded,
                "  composite: deck A will overdraw its renderers from the next build on, but this slot's build worker has ended, so nothing will rebuild and what is on that deck is still running"
            );
        }
        other => panic!("{other:?}"),
    }
}

#[test]
fn a_capacity_already_asked_for_is_not_sent_again() {
    assert!(matches!(
        reaimed(&Reaim::Capacity { elements: 4096 }, 0, 1, &at(false, Some(4096))),
        Aimed::Unchanged(t) if t == "  capacity: deck A is already aimed at 4096 elements a geometry — nothing was sent, because a re-aim rebuilds the whole slot and this one would land on the same picture"
    ));
    match reaimed(&Reaim::Capacity { elements: 2048 }, 0, 1, &at(false, Some(4096))) {
        Aimed::Send { sent, stranded } => {
            assert!(sent.starts_with("  capacity: deck A re-aimed to 2048 elements a geometry — "));
            assert!(sent.ends_with("by name and with the range"));
            assert!(stranded.starts_with("  capacity: deck A will run at 2048 elements a geometry from the next build on"));
        }
        other => panic!("{other:?}"),
    }
}

#[test]
fn a_publish_counts_its_controls() {
    match reaimed(&Reaim::Publish { shown: 1 }, 2, 4, &at(true, None)) {
        Aimed::Send { sent, .. } => assert!(sent.starts_with("  publish: deck C re-aimed to publish 1 control — the slot is              recompiling")),
        other => panic!("{other:?}"),
    }
    match reaimed(&Reaim::Publish { shown: 3 }, 2, 4, &at(true, None)) {
        Aimed::Send { stranded, .. } => assert_eq!(
            stranded,
            "  publish: deck C will publish 3 controls from the next build on, but              this slot's build worker has ended, so nothing will rebuild and what is on that              deck is still running"
        ),
        other => panic!("{other:?}"),
    }
}

#[test]
fn a_seed_is_always_sent() {
    match reaimed(&Reaim::Salt { salt: 7 }, 0, 1, &at(true, None)) {
        Aimed::Send { sent, stranded } => {
            assert_eq!(
                sent,
                "  re-salt: deck A re-aimed to seed 7 — the slot is recompiling on the worker, and its randomness moves while its structure does not. The staging lane says whether the build landed, was overloaded or did not compile"
            );
            assert!(stranded.starts_with("  re-salt: deck A will be seeded from 7 from the next build on"));
        }
        other => panic!("{other:?}"),
    }
}

#[test]
fn a_slot_the_deck_has_not_got_is_refused() {
    assert!(matches!(reaimed(&Reaim::Salt { salt: 7 }, 3, 2, &at(true, None)), Aimed::NoSlot));
    assert_eq!(
        no_slot(&Reaim::Capacity { elements: 1 }, "no slot 3 (this deck has 2)"),
        "  capacity: no slot 3 (this deck has 2), and nothing was re-aimed"
    );
}
