use karakuri_bridge::mixer::{
    blend_mode, costs, held, holding, mask_kind, masked, slot_in_range, stopped_slots, tally, wipe_kind,
    Basis, Blend, BlendMode, Decision, EngineSlot, Mask, MaskKind, Report, Residency, Spent, Tally,
    WipeKind,
};

#[test]
fn a_tally_reads_the_residency() {
    assert_eq!(tally(Residency::Live), Tally::Live);
    assert_eq!(tally(Residency::Priming), Tally::Priming);
    assert_eq!(tally(Residency::Allocated), Tally::Allocated);
}

#[test]
fn a_blend_is_named_as_an_operation_names_it() {
    assert_eq!(blend_mode(Blend::Add), BlendMode::Add);
    assert_eq!(blend_mode(Blend::Over), BlendMode::Over);
    assert_eq!(blend_mode(Blend::Max), BlendMode::Max);
}

#[test]
fn masks_round_trip_through_a_wipe() {
    for kind in [MaskKind::Unmasked, MaskKind::Linear, MaskKind::Radial] {
        assert_eq!(mask_kind(wipe_kind(kind)), kind);
    }
    for kind in [WipeKind::Unmasked, WipeKind::Linear, WipeKind::Radial] {
        assert_eq!(wipe_kind(mask_kind(kind)), kind);
    }
    assert_eq!(masked(MaskKind::Linear), Mask::Linear);
    assert_eq!(masked(MaskKind::Unmasked), Mask::Unmasked);
    assert_eq!(masked(MaskKind::Radial), Mask::Radial);
}

#[test]
fn a_slot_the_deck_has_not_got_is_not_held() {
    assert_eq!(held(4, 0), Some(EngineSlot(0)));
    assert_eq!(held(4, 3), Some(EngineSlot(3)));
    assert_eq!(held(4, 4), None);
    assert_eq!(held(0, 0), None);
}

#[test]
fn a_number_past_a_byte_is_no_slot() {
    assert!(slot_in_range(0, 4));
    assert!(slot_in_range(3, 4));
    assert!(!slot_in_range(4, 4));
    assert!(!slot_in_range(256, 1000));
    assert!(slot_in_range(255, 1000));
}

#[test]
fn a_cell_with_no_slot_is_never_stopped() {
    assert_eq!(stopped_slots(2, [true, false, true, true]), [true, false, false, false]);
    assert_eq!(stopped_slots(4, [true, false, true, true]), [true, false, true, true]);
}

#[test]
fn the_last_decision_about_a_slot_is_its_cost() {
    let report = Report {
        decisions: vec![
            Decision { slot: 0, budgeted_ms: Some(1.5f32), basis: Spent::Estimated },
            Decision { slot: 1, budgeted_ms: Some(2.0), basis: Spent::Measured },
            Decision { slot: 2, budgeted_ms: None, basis: Spent::Measured },
            Decision { slot: 3, budgeted_ms: Some(4.0), basis: Spent::Unbudgetable },
            Decision { slot: 7, budgeted_ms: Some(9.0), basis: Spent::Measured },
            Decision { slot: 0, budgeted_ms: Some(3.5), basis: Spent::Measured },
        ],
    };
    let cells = costs(&report);
    let first = cells[0].expect("deck A was budgeted");
    assert_eq!(first.ms, 3.5);
    assert_eq!(first.basis, Basis::Measured);
    let second = cells[1].expect("deck B was budgeted");
    assert_eq!(second.ms, 2.0);
    assert_eq!(second.basis, Basis::Measured);
    assert!(cells[2].is_none());
    assert!(cells[3].is_none());
}

#[test]
fn an_empty_pass_budgets_nothing() {
    let report: Report<f32> = Report { decisions: Vec::new() };
    assert!(costs(&report).iter().all(Option::is_none));
}

#[test]
fn a_held_key_reads_what_its_slot_was_asked_for() {
    let h = holding(2, 1, Residency::Allocated, Blend::Add, MaskKind::Unmasked).unwrap();
    assert_eq!(h.requested, tally(Residency::Allocated));
    assert_eq!(h.blend, blend_mode(Blend::Add));
    assert_eq!(h.mask, masked(MaskKind::Unmasked));
    assert_eq!(holding(2, 2, Residency::Allocated, Blend::Add, MaskKind::Unmasked), None);
}
