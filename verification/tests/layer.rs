use karakuri_bridge::layer::{
    asked, asked_layer, ir_layer, kind_of, layer_word, node_addr, recorded, Layer, OpLayer,
    StoreLayer,
};

#[test]
fn layers_are_spelled_as_addresses_print_them() {
    assert_eq!(layer_word(Layer::L1), "L1");
    assert_eq!(layer_word(Layer::L2), "L2");
    assert_eq!(layer_word(Layer::L3), "L3");
    assert_eq!(layer_word(Layer::L4), "L4");
    assert_eq!(layer_word(Layer::Field), "F");
    assert_eq!(layer_word(Layer::L5), "L5");
}

#[test]
fn an_address_is_word_colon_index() {
    assert_eq!(node_addr(Layer::L2, 0), "L2:0");
    assert_eq!(node_addr(Layer::Field, 12), "F:12");
    assert_eq!(node_addr(Layer::L5, 4294967295), "L5:4294967295");
}

#[test]
fn addresses_name_one_node() {
    let all = [Layer::L1, Layer::L2, Layer::L3, Layer::L4, Layer::Field, Layer::L5];
    let mut seen = std::collections::HashSet::new();
    for layer in all {
        for index in [0u32, 1, 10, 11, 101] {
            assert!(seen.insert(node_addr(layer, index)));
        }
    }
}

#[test]
fn asking_and_coming_back_is_the_identity() {
    for layer in [Layer::L1, Layer::L2, Layer::L3, Layer::L4, Layer::Field, Layer::L5] {
        assert_eq!(ir_layer(asked_layer(layer)), layer);
    }
    for layer in [OpLayer::L1, OpLayer::L2, OpLayer::L3, OpLayer::L4, OpLayer::Field, OpLayer::L5] {
        assert_eq!(asked_layer(ir_layer(layer)), layer);
        assert_eq!(asked(recorded(layer)), layer);
    }
    for layer in [
        StoreLayer::L1,
        StoreLayer::L2,
        StoreLayer::L3,
        StoreLayer::L4,
        StoreLayer::Field,
        StoreLayer::L5,
    ] {
        assert_eq!(recorded(asked(layer)), layer);
    }
}

#[test]
fn a_kind_line_names_six_layers() {
    assert_eq!(kind_of("L1"), Some(OpLayer::L1));
    assert_eq!(kind_of("L2"), Some(OpLayer::L2));
    assert_eq!(kind_of("L3"), Some(OpLayer::L3));
    assert_eq!(kind_of("L4"), Some(OpLayer::L4));
    assert_eq!(kind_of("Field"), Some(OpLayer::Field));
    assert_eq!(kind_of("L5"), Some(OpLayer::L5));
    assert_eq!(kind_of("F"), None);
    assert_eq!(kind_of("l1"), None);
    assert_eq!(kind_of(""), None);
    assert_eq!(kind_of("L1 "), None);
}
