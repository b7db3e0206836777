//! What is said when a record is applied to a deck — a strip's switch, blend
//! or residency set, a knob ridden, a source bound or taken back, a node's
//! authority set — once the deck has answered.
use vstd::prelude::*;

use crate::taking::joined_text;
use crate::text::{decimal, deck_letter, letter_of, numeral};

verus! {

/// The letter a slot number is printed with, the number taken as a byte.
pub open spec fn slot_letter(slot: nat) -> Seq<char> {
    letter_of(slot % 256)
}

/// [`slot_letter`].
fn letter(slot: usize) -> (r: &'static str)
    ensures
        r@ == slot_letter(slot as nat),
{
    deck_letter((slot % 256) as u8)
}

/// The writes of a ride, as the line lists them: `key = value` each, the
/// value as printed.
pub open spec fn writes_text(writes: Seq<(String, String)>) -> Seq<char> {
    joined_text(writes.map_values(|w: (String, String)| w.0@ + " = "@ + w.1@), ", "@)
}

/// The line a ride comes to: the deck, each write, and how many nodes the
/// writes reached — and none where they reached no node, which is said
/// in the decoder's own refusal of a parameter no node declares.
pub open spec fn ridden_text(slot: nat, writes: Seq<(String, String)>, reached: nat) -> Option<Seq<char>> {
    if reached == 0 {
        None
    } else {
        Some(
            "  knob: deck "@ + slot_letter(slot) + " -> WriteParam -> Record::Ride -> "@ + writes_text(
                writes,
            ) + " on "@ + decimal(reached) + " node(s)"@,
        )
    }
}

/// [`ridden_text`].
pub fn ridden(slot: usize, writes: &[(String, String)], reached: usize) -> (r: Option<String>)
    ensures
        (match r {
            Some(t) => Some(t@),
            None => None,
        }) == ridden_text(slot as nat, writes@, reached as nat),
        r is None <==> reached == 0,
{
    proof {
        reveal_strlit(", ");
        reveal_strlit(" = ");
    }
    if reached == 0 {
        return None;
    }
    let mut t = String::from_str("  knob: deck ");
    t.append(letter(slot));
    t.append(" -> WriteParam -> Record::Ride -> ");
    let ghost all = writes@.map_values(|w: (String, String)| w.0@ + " = "@ + w.1@);
    let ghost head = t@;
    let mut k: usize = 0;
    while k < writes.len()
        invariant
            k <= writes@.len(),
            all == writes@.map_values(|w: (String, String)| w.0@ + " = "@ + w.1@),
            t@ == head + joined_text(all.take(k as int), ", "@),
        decreases writes.len() - k,
    {
        assert(all.take(k + 1).drop_last() =~= all.take(k as int));
        assert(all.take(k + 1).last() == writes@[k as int].0@ + " = "@ + writes@[k as int].1@);
        if k > 0 {
            t.append(", ");
        }
        t.append(writes[k].0.as_str());
        t.append(" = ");
        t.append(writes[k].1.as_str());
        k += 1;
    }
    assert(all.take(k as int) =~= all);
    t.append(" on ");
    let n = numeral(reached as u64);
    t.append(n.as_str());
    t.append(" node(s)");
    Some(t)
}

/// What a source record did to a knob, once the deck answered.
#[derive(Debug)]
pub enum Sourced {
    /// A binding was attached: what drives the knob now, as said.
    Bound(String),
    /// A binding was taken back.
    TakenBack,
    /// The knob's source names a control this Set does not publish.
    NoSuchControl(String),
    /// Nothing was driving the knob a take-back named.
    NothingDriving,
}

/// The line a source record comes to, for the knob `key` on slot `slot`.
pub open spec fn sourced_text(slot: nat, key: Seq<char>, sourced: Sourced) -> Seq<char> {
    match sourced {
        Sourced::Bound(bound) => "  source: deck "@ + slot_letter(slot) + " -> Record::Source -> `"@
            + key + "` is driven by "@ + bound@,
        Sourced::TakenBack => "  source: deck "@ + slot_letter(slot) + " -> Record::Source -> `"@
            + key + "` is driven by "@ + "nothing — taken back"@,
        Sourced::NoSuchControl(signal) => "  slot "@ + decimal(slot) + ": `"@ + signal@
            + "` is not a control this Set publishes"@,
        Sourced::NothingDriving => "  slot "@ + decimal(slot) + ": nothing was driving `"@ + key
            + "`"@,
    }
}

/// [`sourced_text`].
pub fn source_said(slot: usize, key: &str, outcome: &Sourced) -> (r: String)
    ensures
        r@ == sourced_text(slot as nat, key@, *outcome),
{
    match outcome {
        Sourced::Bound(bound) => {
            let mut t = String::from_str("  source: deck ");
            t.append(letter(slot));
            t.append(" -> Record::Source -> `");
            t.append(key);
            t.append("` is driven by ");
            t.append(bound.as_str());
            t
        },
        Sourced::TakenBack => {
            let mut t = String::from_str("  source: deck ");
            t.append(letter(slot));
            t.append(" -> Record::Source -> `");
            t.append(key);
            t.append("` is driven by ");
            t.append("nothing — taken back");
            t
        },
        Sourced::NoSuchControl(signal) => {
            let mut t = String::from_str("  slot ");
            let n = numeral(slot as u64);
            t.append(n.as_str());
            t.append(": `");
            t.append(signal.as_str());
            t.append("` is not a control this Set publishes");
            t
        },
        Sourced::NothingDriving => {
            let mut t = String::from_str("  slot ");
            let n = numeral(slot as u64);
            t.append(n.as_str());
            t.append(": nothing was driving `");
            t.append(key);
            t.append("`");
            t
        },
    }
}

/// The line an authority record comes to: the level the node now speaks
/// at, or — where the slot has no such node — that there is none to speak
/// for (`layer` is the layer's name, `index` the node's place in it).
pub open spec fn authority_text(slot: nat, level: Option<Seq<char>>, layer: Seq<char>, index: nat) -> Seq<char> {
    match level {
        Some(name) => "  authority: deck "@ + slot_letter(slot)
            + " -> SetAuthority -> Record::Authority -> "@ + name,
        None => "  slot "@ + decimal(slot) + ": no node "@ + layer + ":"@ + decimal(index)
            + " to speak for"@,
    }
}

/// [`authority_text`]: `level` is the level's name where the deck set it,
/// and `None` where it had no such node.
pub fn authority_said(slot: usize, level: Option<&str>, layer: &str, index: u32) -> (r: String)
    ensures
        r@ == authority_text(
            slot as nat,
            match level {
                Some(l) => Some(l@),
                None => None,
            },
            layer@,
            index as nat,
        ),
{
    match level {
        Some(name) => {
            let mut t = String::from_str("  authority: deck ");
            t.append(letter(slot));
            t.append(" -> SetAuthority -> Record::Authority -> ");
            t.append(name);
            t
        },
        None => {
            let mut t = String::from_str("  slot ");
            let n = numeral(slot as u64);
            t.append(n.as_str());
            t.append(": no node ");
            t.append(layer);
            t.append(":");
            let i = numeral(index as u64);
            t.append(i.as_str());
            t.append(" to speak for");
            t
        },
    }
}


/// A record on one strip, with what the deck reads back once it is set.
#[derive(Clone, Debug)]
pub enum StripRecord {
    Mute { muted: bool, now: bool },
    Solo { soloed: bool, now: bool },
    Online { online: bool, now: bool },
    /// The blend mode's wire name, and the deck's name for the mode it now
    /// blends with.
    Blend { mode: String, now: String },
    /// The residency's wire name, and the residency the deck was asked for
    /// and the one it granted, as the deck prints them.
    Residency { level: String, requested: String, now: String },
    /// The cost policy's wire name.
    Policy { policy: String },
}

/// `true` or `false`.
pub open spec fn bool_text(b: bool) -> Seq<char> {
    if b {
        "true"@
    } else {
        "false"@
    }
}

/// The line a strip record comes to on slot `slot`, which the deck prints
/// as `shown`: the operation, the record, and what the deck reads back.
pub open spec fn strip_text(slot: nat, shown: Seq<char>, record: StripRecord) -> Seq<char> {
    match record {
        StripRecord::Mute { muted, now } => "  mute: deck "@ + letter_of(slot) + " -> SetMute { deck: "@
            + shown + ", mute: "@ + bool_text(muted) + " } -> Record::Mute -> deck.is_muted("@ + shown
            + ") = "@ + bool_text(now),
        StripRecord::Solo { soloed, now } => "  solo: deck "@ + letter_of(slot) + " -> SetSolo { deck: "@
            + shown + ", solo: "@ + bool_text(soloed) + " } -> Record::Solo -> deck.is_soloed("@ + shown
            + ") = "@ + bool_text(now),
        StripRecord::Online { online, now } => "  online: deck "@ + letter_of(slot)
            + " -> SetOnline { deck: "@ + shown + ", online: "@ + bool_text(online)
            + " } -> Record::Online -> deck.is_online("@ + shown + ") = "@ + bool_text(now),
        StripRecord::Blend { mode, now } => "  blend: deck "@ + letter_of(slot)
            + " -> SetBlendMode { deck: "@ + shown + ", blend: "@ + mode@
            + " } -> Record::Blend -> deck.blend("@ + shown + ") = "@ + now@,
        StripRecord::Residency { level, requested, now } => "  tally: deck "@ + letter_of(slot)
            + " -> SetResidency { deck: "@ + shown + ", residency: "@ + level@
            + " } -> Record::Residency -> deck.requested_residency("@ + shown + ") = "@ + requested@
            + ", deck.residency("@ + shown + ") = "@ + now@,
        StripRecord::Policy { policy } => "  policy: deck "@ + letter_of(slot)
            + " -> Record::Policy { policy: "@ + policy@ + " }"@,
    }
}

/// `true` or `false`, as text.
fn bool_word(b: bool) -> (r: &'static str)
    ensures
        r@ == bool_text(b),
{
    proof {
        reveal_strlit("true");
        reveal_strlit("false");
    }
    if b {
        "true"
    } else {
        "false"
    }
}

/// [`strip_text`].
pub fn strip_said(slot: u8, shown: &str, record: &StripRecord) -> (r: String)
    ensures
        r@ == strip_text(slot as nat, shown@, *record),
{
    let letter = deck_letter(slot);
    match record {
        StripRecord::Mute { muted, now } => {
            let mut t = String::from_str("  mute: deck ");
            t.append(letter);
            t.append(" -> SetMute { deck: ");
            t.append(shown);
            t.append(", mute: ");
            t.append(bool_word(*muted));
            t.append(" } -> Record::Mute -> deck.is_muted(");
            t.append(shown);
            t.append(") = ");
            t.append(bool_word(*now));
            t
        },
        StripRecord::Solo { soloed, now } => {
            let mut t = String::from_str("  solo: deck ");
            t.append(letter);
            t.append(" -> SetSolo { deck: ");
            t.append(shown);
            t.append(", solo: ");
            t.append(bool_word(*soloed));
            t.append(" } -> Record::Solo -> deck.is_soloed(");
            t.append(shown);
            t.append(") = ");
            t.append(bool_word(*now));
            t
        },
        StripRecord::Online { online, now } => {
            let mut t = String::from_str("  online: deck ");
            t.append(letter);
            t.append(" -> SetOnline { deck: ");
            t.append(shown);
            t.append(", online: ");
            t.append(bool_word(*online));
            t.append(" } -> Record::Online -> deck.is_online(");
            t.append(shown);
            t.append(") = ");
            t.append(bool_word(*now));
            t
        },
        StripRecord::Blend { mode, now } => {
            let mut t = String::from_str("  blend: deck ");
            t.append(letter);
            t.append(" -> SetBlendMode { deck: ");
            t.append(shown);
            t.append(", blend: ");
            t.append(mode.as_str());
            t.append(" } -> Record::Blend -> deck.blend(");
            t.append(shown);
            t.append(") = ");
            t.append(now.as_str());
            t
        },
        StripRecord::Residency { level, requested, now } => {
            let mut t = String::from_str("  tally: deck ");
            t.append(letter);
            t.append(" -> SetResidency { deck: ");
            t.append(shown);
            t.append(", residency: ");
            t.append(level.as_str());
            t.append(" } -> Record::Residency -> deck.requested_residency(");
            t.append(shown);
            t.append(") = ");
            t.append(requested.as_str());
            t.append(", deck.residency(");
            t.append(shown);
            t.append(") = ");
            t.append(now.as_str());
            t
        },
        StripRecord::Policy { policy } => {
            let mut t = String::from_str("  policy: deck ");
            t.append(letter);
            t.append(" -> Record::Policy { policy: ");
            t.append(policy.as_str());
            t.append(" }");
            t
        },
    }
}

} // verus!
