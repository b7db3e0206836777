use karakuri_bridge::mixer::EngineSlot;
use karakuri_bridge::readings::{reading, Asking};

#[test]
fn a_look_press_reads_the_running_look() {
    let w = reading(Asking::SetExposure, 2);
    assert!(w.look && !w.chain && !w.tempo && !w.transition);
    assert_eq!(w.mask, None);
    let w = reading(Asking::SetBloom, 2);
    assert!(w.chain && !w.look);
}

#[test]
fn a_scrub_reads_its_slots_clock_where_the_deck_has_the_slot() {
    assert_eq!(reading(Asking::ScrubDeck { deck: 1 }, 2).transport, Some(EngineSlot(1)));
    assert_eq!(reading(Asking::ScrubDeck { deck: 2 }, 2).transport, None);
}

#[test]
fn a_wipe_reads_the_deck_arriving() {
    let w = reading(Asking::Wipe { to: 1 }, 4);
    assert_eq!(w.mask, Some(EngineSlot(1)));
    assert_eq!(w.mix, Some(EngineSlot(1)));
    assert!(w.transition);
    let w = reading(Asking::Wipe { to: 5 }, 4);
    assert_eq!(w.mask, None);
    assert_eq!(w.mix, None);
    assert!(w.transition);
}

#[test]
fn a_front_move_reads_the_mask_as_a_shape_press_does() {
    assert_eq!(reading(Asking::SetMaskPosition { deck: 0 }, 1).mask, Some(EngineSlot(0)));
    assert_eq!(reading(Asking::SetMaskShape { deck: 0 }, 1).mask, Some(EngineSlot(0)));
}

#[test]
fn the_tempo_is_read_for_any_slot() {
    assert!(reading(Asking::SetSync, 0).tempo);
    let w = reading(Asking::Other, 4);
    assert!(!w.look && !w.chain && !w.tempo && !w.transition);
    assert_eq!(w.transport, None);
    assert!(reading(Asking::FadeDeck, 1).transition);
}

#[test]
fn every_operation_reads_the_armed_patterns_lanes() {
    assert!(reading(Asking::Other, 0).lanes);
    assert!(reading(Asking::SetExposure, 2).lanes);
    assert!(reading(Asking::AddChainEffect, 2).chain);
    assert!(reading(Asking::SetChainParam, 2).chain && !reading(Asking::SetChainParam, 2).look);
}
