//! The layers a node can implement, in the three vocabularies that name them:
//! the compiler's, the one an operation asks in, and the one a record is
//! written in — and the words and addresses a sentence spells them with.
use vstd::prelude::*;

use crate::text::{decimal, numeral};

verus! {

/// A layer as the compiler names it: which stage of a Set a node implements.
#[derive(Clone, Copy, Debug, PartialEq, Eq, Structural)]
pub enum Layer {
    L1,
    L2,
    L3,
    L4,
    Field,
    L5,
}

/// A layer as an operation asks for it.
#[derive(Clone, Copy, Debug, PartialEq, Eq, Structural)]
pub enum OpLayer {
    L1,
    L2,
    L3,
    L4,
    Field,
    L5,
}

/// A layer as a record on disk spells it.
#[derive(Clone, Copy, Debug, PartialEq, Eq, Structural)]
pub enum StoreLayer {
    L1,
    L2,
    L3,
    L4,
    Field,
    L5,
}

/// A node as an operation addresses it: a layer and the node's place in it.
#[derive(Clone, Copy, Debug, PartialEq, Eq, Structural)]
pub struct NodeAddress {
    pub layer: OpLayer,
    pub index: u32,
}

/// The word a layer is written with in an address: `L1` … `L5`, and `F` for
/// the field layer, which is what the inspector prints beside a node.
pub open spec fn word_of(layer: Layer) -> Seq<char> {
    match layer {
        Layer::L1 => seq!['L', '1'],
        Layer::L2 => seq!['L', '2'],
        Layer::L3 => seq!['L', '3'],
        Layer::L4 => seq!['L', '4'],
        Layer::Field => seq!['F'],
        Layer::L5 => seq!['L', '5'],
    }
}

/// [`word_of`], as text.
pub fn layer_word(layer: Layer) -> (r: &'static str)
    ensures
        r@ == word_of(layer),
{
    proof {
        reveal_strlit("L1");
        reveal_strlit("L2");
        reveal_strlit("L3");
        reveal_strlit("L4");
        reveal_strlit("F");
        reveal_strlit("L5");
    }
    match layer {
        Layer::L1 => "L1",
        Layer::L2 => "L2",
        Layer::L3 => "L3",
        Layer::L4 => "L4",
        Layer::Field => "F",
        Layer::L5 => "L5",
    }
}

/// The address a node is printed under: its layer's word, a colon, and its
/// index in decimal — `L2:0`.
pub open spec fn address_of(layer: Layer, index: nat) -> Seq<char> {
    word_of(layer) + seq![':'] + decimal(index)
}

/// [`address_of`], as text.
pub fn node_addr(layer: Layer, index: u32) -> (r: String)
    ensures
        r@ == address_of(layer, index as nat),
{
    proof {
        reveal_strlit(":");
    }
    let mut s = String::from_str(layer_word(layer));
    s.append(":");
    let n = numeral(index as u64);
    s.append(n.as_str());
    s
}

/// The compiler's layer, in the vocabulary an operation asks in.
pub open spec fn op_of(layer: Layer) -> OpLayer {
    match layer {
        Layer::L1 => OpLayer::L1,
        Layer::L2 => OpLayer::L2,
        Layer::L3 => OpLayer::L3,
        Layer::L4 => OpLayer::L4,
        Layer::Field => OpLayer::Field,
        Layer::L5 => OpLayer::L5,
    }
}

/// The layer an operation asks for, in the compiler's vocabulary.
pub open spec fn ir_of(layer: OpLayer) -> Layer {
    match layer {
        OpLayer::L1 => Layer::L1,
        OpLayer::L2 => Layer::L2,
        OpLayer::L3 => Layer::L3,
        OpLayer::L4 => Layer::L4,
        OpLayer::Field => Layer::Field,
        OpLayer::L5 => Layer::L5,
    }
}

/// A layer a record was written with, as an operation would ask for it.
pub open spec fn asked_of(layer: StoreLayer) -> OpLayer {
    match layer {
        StoreLayer::L1 => OpLayer::L1,
        StoreLayer::L2 => OpLayer::L2,
        StoreLayer::L3 => OpLayer::L3,
        StoreLayer::L4 => OpLayer::L4,
        StoreLayer::Field => OpLayer::Field,
        StoreLayer::L5 => OpLayer::L5,
    }
}

/// A layer an operation asks for, as a record writes it.
pub open spec fn recorded_of(layer: OpLayer) -> StoreLayer {
    match layer {
        OpLayer::L1 => StoreLayer::L1,
        OpLayer::L2 => StoreLayer::L2,
        OpLayer::L3 => StoreLayer::L3,
        OpLayer::L4 => StoreLayer::L4,
        OpLayer::Field => StoreLayer::Field,
        OpLayer::L5 => StoreLayer::L5,
    }
}

/// [`op_of`].
pub fn asked_layer(layer: Layer) -> (r: OpLayer)
    ensures
        r == op_of(layer),
{
    match layer {
        Layer::L1 => OpLayer::L1,
        Layer::L2 => OpLayer::L2,
        Layer::L3 => OpLayer::L3,
        Layer::L4 => OpLayer::L4,
        Layer::Field => OpLayer::Field,
        Layer::L5 => OpLayer::L5,
    }
}

/// [`ir_of`].
pub fn ir_layer(layer: OpLayer) -> (r: Layer)
    ensures
        r == ir_of(layer),
{
    match layer {
        OpLayer::L1 => Layer::L1,
        OpLayer::L2 => Layer::L2,
        OpLayer::L3 => Layer::L3,
        OpLayer::L4 => Layer::L4,
        OpLayer::Field => Layer::Field,
        OpLayer::L5 => Layer::L5,
    }
}

/// [`asked_of`].
pub fn asked(layer: StoreLayer) -> (r: OpLayer)
    ensures
        r == asked_of(layer),
{
    match layer {
        StoreLayer::L1 => OpLayer::L1,
        StoreLayer::L2 => OpLayer::L2,
        StoreLayer::L3 => OpLayer::L3,
        StoreLayer::L4 => OpLayer::L4,
        StoreLayer::Field => OpLayer::Field,
        StoreLayer::L5 => OpLayer::L5,
    }
}

/// [`recorded_of`].
pub fn recorded(layer: OpLayer) -> (r: StoreLayer)
    ensures
        r == recorded_of(layer),
{
    match layer {
        OpLayer::L1 => StoreLayer::L1,
        OpLayer::L2 => StoreLayer::L2,
        OpLayer::L3 => StoreLayer::L3,
        OpLayer::L4 => StoreLayer::L4,
        OpLayer::Field => StoreLayer::Field,
        OpLayer::L5 => StoreLayer::L5,
    }
}

/// The word a procedure's `kind` line names its layer with — `L1` … `L5`
/// and `Field` — or `None` for a word that is no layer.
pub open spec fn kind_named(word: Seq<char>) -> Option<OpLayer> {
    if word == "L1"@ {
        Some(OpLayer::L1)
    } else if word == "L2"@ {
        Some(OpLayer::L2)
    } else if word == "L3"@ {
        Some(OpLayer::L3)
    } else if word == "L4"@ {
        Some(OpLayer::L4)
    } else if word == "Field"@ {
        Some(OpLayer::Field)
    } else if word == "L5"@ {
        Some(OpLayer::L5)
    } else {
        None
    }
}

/// [`kind_named`], read off a procedure's `kind` word.
pub fn kind_of(word: &str) -> (r: Option<OpLayer>)
    ensures
        r == kind_named(word@),
{
    if crate::text::same_text(word, "L1") {
        Some(OpLayer::L1)
    } else if crate::text::same_text(word, "L2") {
        Some(OpLayer::L2)
    } else if crate::text::same_text(word, "L3") {
        Some(OpLayer::L3)
    } else if crate::text::same_text(word, "L4") {
        Some(OpLayer::L4)
    } else if crate::text::same_text(word, "Field") {
        Some(OpLayer::Field)
    } else if crate::text::same_text(word, "L5") {
        Some(OpLayer::L5)
    } else {
        None
    }
}

/// Asking in the operation's vocabulary and coming back is the identity, in
/// both directions: the compiler's layers and an operation's are the same six.
pub proof fn law_op_layer_round_trip(layer: Layer, asked: OpLayer)
    ensures
        ir_of(op_of(layer)) == layer,
        op_of(ir_of(asked)) == asked,
{
}

/// Writing a layer into a record and reading it back as an operation's is the
/// identity, in both directions.
pub proof fn law_store_layer_round_trip(written: StoreLayer, asked: OpLayer)
    ensures
        recorded_of(asked_of(written)) == written,
        asked_of(recorded_of(asked)) == asked,
{
}

/// A node's address names one node: two addresses that read the same are the
/// same layer and the same index.
pub proof fn law_address_names_one_node(a: Layer, i: nat, b: Layer, j: nat)
    requires
        address_of(a, i) == address_of(b, j),
    ensures
        a == b,
        i == j,
{
    let x = address_of(a, i);
    let wa = word_of(a);
    let wb = word_of(b);
    crate::text::lemma_decimal_digits(i);
    crate::text::lemma_decimal_digits(j);
    // The colon is the first one in the address, and it sits right after the word.
    assert(x[wa.len() as int] == ':');
    assert(x[wb.len() as int] == ':');
    if wa.len() < wb.len() {
        assert(wb[wa.len() as int] != ':');
        assert(false);
    }
    if wb.len() < wa.len() {
        assert(wa[wb.len() as int] != ':');
        assert(false);
    }
    assert(wa =~= x.subrange(0, wa.len() as int));
    assert(wb =~= x.subrange(0, wb.len() as int));
    assert(decimal(i) =~= x.subrange(wa.len() as int + 1, x.len() as int));
    assert(decimal(j) =~= x.subrange(wb.len() as int + 1, x.len() as int));
    crate::text::lemma_decimal_injective(i, j);
}

/// Each vocabulary names a layer by the same name: the compiler's `L2` is
/// the operation's `L2` and the record's `L2`, and so for every layer, the
/// field layer included; and a procedure's `kind` word names the layer it
/// spells.
pub proof fn law_each_layer_keeps_its_name()
    ensures
        op_of(Layer::L1) == OpLayer::L1,
        op_of(Layer::L2) == OpLayer::L2,
        op_of(Layer::L3) == OpLayer::L3,
        op_of(Layer::L4) == OpLayer::L4,
        op_of(Layer::Field) == OpLayer::Field,
        op_of(Layer::L5) == OpLayer::L5,
        recorded_of(OpLayer::L1) == StoreLayer::L1,
        recorded_of(OpLayer::L2) == StoreLayer::L2,
        recorded_of(OpLayer::L3) == StoreLayer::L3,
        recorded_of(OpLayer::L4) == StoreLayer::L4,
        recorded_of(OpLayer::Field) == StoreLayer::Field,
        recorded_of(OpLayer::L5) == StoreLayer::L5,
        kind_named("L1"@) == Some(OpLayer::L1),
        kind_named("L2"@) == Some(OpLayer::L2),
        kind_named("L3"@) == Some(OpLayer::L3),
        kind_named("L4"@) == Some(OpLayer::L4),
        kind_named("Field"@) == Some(OpLayer::Field),
        kind_named("L5"@) == Some(OpLayer::L5),
        kind_named(""@) is None,
        word_of(Layer::L1) == "L1"@,
        word_of(Layer::L2) == "L2"@,
        word_of(Layer::L3) == "L3"@,
        word_of(Layer::L4) == "L4"@,
        word_of(Layer::Field) == "F"@,
        word_of(Layer::L5) == "L5"@,
{
    reveal_strlit("L1");
    reveal_strlit("L2");
    reveal_strlit("L3");
    reveal_strlit("L4");
    reveal_strlit("Field");
    reveal_strlit("L5");
    reveal_strlit("F");
    reveal_strlit("");
    assert("L1"@[1] != "L2"@[1]);
    assert("L1"@[1] != "L3"@[1]);
    assert("L2"@[1] != "L3"@[1]);
    assert("L1"@[1] != "L4"@[1]);
    assert("L2"@[1] != "L4"@[1]);
    assert("L3"@[1] != "L4"@[1]);
    assert("L1"@ != "Field"@);
    assert("L2"@ != "Field"@);
    assert("L3"@ != "Field"@);
    assert("L4"@ != "Field"@);
    assert(""@.len() != "L1"@.len());
    assert(""@.len() != "L2"@.len());
    assert(""@.len() != "L3"@.len());
    assert(""@.len() != "L4"@.len());
    assert(""@.len() != "L5"@.len());
    assert(""@.len() != "Field"@.len());
}

} // verus!
