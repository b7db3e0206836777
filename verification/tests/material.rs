use karakuri_bridge::layer::{NodeAddress, OpLayer};
use karakuri_bridge::material::{
    asked_for, base_material, derived_material, slot_salt, Revision, SEED_SALT,
};

#[test]
fn every_slot_is_its_own_simulation() {
    let salts: Vec<u32> = (0..4).map(slot_salt).collect();
    assert_eq!(salts[0], SEED_SALT);
    for a in 0..4 {
        for b in 0..4 {
            assert_eq!(salts[a] == salts[b], a == b);
        }
    }
    assert_eq!(slot_salt(3), SEED_SALT + 3);
}

#[test]
fn a_loaded_set_names_the_material() {
    assert_eq!(base_material(Some("drift"), "a.kir + b.kir"), "drift");
    assert_eq!(base_material(None, "a.kir + b.kir"), "a.kir + b.kir");
}

#[test]
fn an_overlaid_procedure_is_added_to_the_name() {
    assert_eq!(derived_material("drift", "bloom"), "drift + bloom");
}

#[test]
fn a_revision_is_named_as_a_refusal_names_it() {
    assert_eq!(asked_for(&Revision::Picked("2026-09-09 drift".to_string())), "`2026-09-09 drift`");
    assert_eq!(
        asked_for(&Revision::Previous(NodeAddress { layer: OpLayer::L2, index: 3 })),
        "the version before L2:3's"
    );
    assert_eq!(
        asked_for(&Revision::Previous(NodeAddress { layer: OpLayer::Field, index: 0 })),
        "the version before F:0's"
    );
}
