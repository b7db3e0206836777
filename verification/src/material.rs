//! What a slot is seeded from, what its strip names it, and what a version
//! request asks for.
use vstd::prelude::*;

use crate::layer::{address_of, ir_layer, ir_of, node_addr, NodeAddress};

verus! {

/// Deck A's salt. Every slot after it is one further along.
pub const SEED_SALT: u32 = 0;

/// The salt a slot's material is seeded from.
pub open spec fn salt_of(slot: nat) -> int {
    SEED_SALT + slot
}

/// [`salt_of`]: deck A's is [`SEED_SALT`] and every slot after it is one
/// further along.
pub fn slot_salt(slot: usize) -> (r: u32)
    requires
        salt_of(slot as nat) <= u32::MAX,
    ensures
        r == salt_of(slot as nat),
{
    SEED_SALT + slot as u32
}

/// Every slot is its own simulation: two slots never share a salt.
pub proof fn law_slots_are_distinct_simulations(a: nat, b: nat)
    requires
        a != b,
    ensures
        salt_of(a) != salt_of(b),
{
}

/// What a slot's strip calls its material: the Set loaded into it, or the
/// pair the run launched with where none was.
pub open spec fn base_of(set: Option<Seq<char>>, launch: Seq<char>) -> Seq<char> {
    match set {
        Some(id) => id,
        None => launch,
    }
}

/// [`base_of`].
pub fn base_material(set: Option<&str>, launch: &str) -> (r: String)
    ensures
        r@ == base_of(
            match set {
                Some(id) => Some(id@),
                None => None,
            },
            launch@,
        ),
{
    match set {
        Some(id) => String::from_str(id),
        None => String::from_str(launch),
    }
}

/// A slot's material with a procedure written over one of its layers.
pub open spec fn derived_of(base: Seq<char>, procedure: Seq<char>) -> Seq<char> {
    base + " + "@ + procedure
}

/// [`derived_of`].
pub fn derived_material(base: &str, procedure: &str) -> (r: String)
    ensures
        r@ == derived_of(base@, procedure@),
{
    let mut s = String::from_str(base);
    s.append(" + ");
    s.append(procedure);
    s
}

/// Which version a put-back asks for: one picked by the name it was filed
/// under, or the one before what a node is running.
#[derive(Clone, Debug)]
pub enum Revision {
    Picked(String),
    Previous(NodeAddress),
}

/// What a revision asked for, as a refusal names it.
pub open spec fn asked_for_text(revision: Revision) -> Seq<char> {
    match revision {
        Revision::Picked(name) => "`"@ + name@ + "`"@,
        Revision::Previous(node) => "the version before "@ + address_of(
            ir_of(node.layer),
            node.index as nat,
        ) + "'s"@,
    }
}

/// [`asked_for_text`].
pub fn asked_for(revision: &Revision) -> (r: String)
    ensures
        r@ == asked_for_text(*revision),
{
    match revision {
        Revision::Picked(name) => {
            let mut s = String::from_str("`");
            s.append(name.as_str());
            s.append("`");
            s
        },
        Revision::Previous(node) => {
            let mut s = String::from_str("the version before ");
            let addr = node_addr(ir_layer(node.layer), node.index);
            s.append(addr.as_str());
            s.append("'s");
            s
        },
    }
}

} // verus!
