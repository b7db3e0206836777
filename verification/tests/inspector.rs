use karakuri_bridge::inspector::{capacity_chip, capacity_ladder, node_of, Published};
use karakuri_bridge::layer::Layer;

#[test]
fn the_ladder_is_the_powers_every_declaration_admits() {
    assert_eq!(capacity_ladder(&[[100, 5000, 1024]]), vec![128, 256, 512, 1024, 2048, 4096]);
    assert_eq!(capacity_ladder(&[[1, 64, 8], [16, 1 << 20, 32]]), vec![16, 32, 64]);
}

#[test]
fn nothing_declared_offers_nothing() {
    assert_eq!(capacity_ladder(&[]), Vec::<u32>::new());
}

#[test]
fn disjoint_declarations_offer_nothing() {
    assert_eq!(capacity_ladder(&[[1, 8, 4], [64, 128, 64]]), Vec::<u32>::new());
}

#[test]
fn the_whole_range_is_every_power() {
    let all = capacity_ladder(&[[0, u32::MAX, 1]]);
    assert_eq!(all.len(), 32);
    assert_eq!(all[0], 1);
    assert_eq!(all[31], 1 << 31);
}

fn control(at: Option<(Layer, u32)>) -> Published {
    Published { name: "speed".to_string(), at, key: "speed".to_string() }
}

#[test]
fn a_control_that_names_its_node_is_that_nodes() {
    assert_eq!(node_of(&[(Layer::L2, 0), (Layer::L2, 1)], &control(Some((Layer::L1, 0)))), Some((Layer::L1, 0)));
}

#[test]
fn a_key_one_node_declares_is_that_nodes() {
    assert_eq!(node_of(&[(Layer::L2, 1)], &control(None)), Some((Layer::L2, 1)));
}

#[test]
fn a_key_two_nodes_declare_belongs_to_neither() {
    assert_eq!(node_of(&[(Layer::L2, 0), (Layer::L2, 1)], &control(None)), None);
    assert_eq!(node_of(&[], &control(None)), None);
}

#[test]
fn the_capacity_chip_is_lit_off_its_declared_default() {
    let chip = capacity_chip(&[2048], &[[1024, 8192, 4096]], &[7], 11).unwrap();
    assert_eq!(chip.capacity, 2048);
    assert!(chip.stated);
    assert_eq!(chip.salt, 11);
    assert_eq!(chip.capacities, vec![1024, 2048, 4096, 8192]);
    assert!(!capacity_chip(&[4096], &[[1024, 8192, 4096]], &[7], 11).unwrap().stated);
    assert!(capacity_chip(&[], &[[1024, 8192, 4096]], &[7], 11).is_none());
    assert!(capacity_chip(&[4096], &[[1024, 8192, 4096]], &[], 11).is_none());
}
