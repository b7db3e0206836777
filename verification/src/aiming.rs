//! A press that re-aims a slot — its compositing, its element count, its
//! published controls, its seed — and what is said about it: refused where
//! the deck has no such slot, answered without sending where the slot is
//! already so, and otherwise sent to the slot's build worker, with one line
//! for a worker that took it and another for one that had ended.
use vstd::prelude::*;

use crate::text::{decimal, deck_letter, letter_of, numeral, plural, plural_ending};

verus! {

/// What a re-aim asks of a slot.
#[derive(Clone, Copy, Debug)]
pub enum Reaim {
    /// Composite the slot's renderers, or draw them over one another.
    Composite { compositing: bool },
    /// Build each geometry at this many elements.
    Capacity { elements: u32 },
    /// Publish this many controls.
    Publish { shown: usize },
    /// Seed the slot's randomness from this salt.
    Salt { salt: u32 },
}

/// Where the slot is aimed now, as far as a re-aim reads it: whether it
/// composites, and the element count it was last asked for.
#[derive(Clone, Copy, Debug)]
pub struct AimedAt {
    pub composite: bool,
    pub capacity: Option<u32>,
}

/// What a re-aim press comes to before anything is sent.
#[derive(Debug)]
pub enum Aimed {
    /// The deck has no such slot; nothing is re-aimed.
    NoSlot,
    /// The slot is already aimed so; nothing is sent, and this is said.
    Unchanged(String),
    /// The aim changes and is sent: `sent` is said if the worker took it,
    /// `stranded` if the worker had ended.
    Send { sent: String, stranded: String },
}

/// The word a re-aim's lines start with.
pub open spec fn reaim_word(press: Reaim) -> Seq<char> {
    match press {
        Reaim::Composite { .. } => "composite"@,
        Reaim::Capacity { .. } => "capacity"@,
        Reaim::Publish { .. } => "publish"@,
        Reaim::Salt { .. } => "re-salt"@,
    }
}

/// `composite` or `overdraw`.
pub open spec fn layering_word(compositing: bool) -> Seq<char> {
    if compositing {
        "composite"@
    } else {
        "overdraw"@
    }
}

/// Whether the slot is already aimed as the press asks: the compositing and
/// the element count are compared; a publish and a seed are always sent.
pub open spec fn already(press: Reaim, at: AimedAt) -> bool {
    match press {
        Reaim::Composite { compositing } => at.composite == compositing,
        Reaim::Capacity { elements } => at.capacity == Some(elements),
        _ => false,
    }
}

/// The line said for a press on a slot already aimed so.
pub open spec fn unchanged_text(press: Reaim, deck: nat) -> Seq<char> {
    match press {
        Reaim::Composite { compositing } => "  composite: deck "@ + letter_of(deck)
            + " is already set to "@ + layering_word(compositing)
            + " its renderers — nothing was sent, because a re-aim rebuilds the whole slot and this one would land on the same picture"@,
        Reaim::Capacity { elements } => "  capacity: deck "@ + letter_of(deck)
            + " is already aimed at "@ + decimal(elements as nat)
            + " elements a geometry — nothing was sent, because a re-aim rebuilds the whole slot and this one would land on the same picture"@,
        _ => Seq::empty(),
    }
}

/// The line said when the worker took the new aim.
pub open spec fn sent_text(press: Reaim, deck: nat) -> Seq<char> {
    match press {
        Reaim::Composite { compositing } => "  composite: deck "@ + letter_of(deck)
            + " re-aimed to "@ + layering_word(compositing)
            + " its renderers — the slot is recompiling on the worker, and the staging lane says whether the build landed, was overloaded or did not compile"@,
        Reaim::Capacity { elements } => "  capacity: deck "@ + letter_of(deck) + " re-aimed to "@
            + decimal(elements as nat)
            + " elements a geometry — the slot is recompiling on the worker, and the staging lane says whether the build landed, was overloaded or did not compile. A number outside what a geometry declares is refused there, by name and with the range"@,
        Reaim::Publish { shown } => "  publish: deck "@ + letter_of(deck)
            + " re-aimed to publish "@ + decimal(shown as nat) + " control"@ + plural(
            shown as nat,
        )
            + " — the slot is              recompiling on the worker, and the staging lane says whether the build landed, was              overloaded or did not compile. What is off the interface is still written by              `--param`, by a `param` record and by a model naming its address"@,
        Reaim::Salt { salt } => "  re-salt: deck "@ + letter_of(deck) + " re-aimed to seed "@
            + decimal(salt as nat)
            + " — the slot is recompiling on the worker, and its randomness moves while its structure does not. The staging lane says whether the build landed, was overloaded or did not compile"@,
    }
}

/// The line said when the slot's worker had ended: the aim is kept, and
/// nothing rebuilds.
pub open spec fn stranded_text(press: Reaim, deck: nat) -> Seq<char> {
    match press {
        Reaim::Composite { compositing } => "  composite: deck "@ + letter_of(deck) + " will "@
            + layering_word(compositing)
            + " its renderers from the next build on, but this slot's build worker has ended, so nothing will rebuild and what is on that deck is still running"@,
        Reaim::Capacity { elements } => "  capacity: deck "@ + letter_of(deck) + " will run at "@
            + decimal(elements as nat)
            + " elements a geometry from the next build on, but this slot's build worker has ended, so nothing will rebuild and what is on that deck is still running"@,
        Reaim::Publish { shown } => "  publish: deck "@ + letter_of(deck) + " will publish "@
            + decimal(shown as nat) + " control"@ + plural(shown as nat)
            + " from the next build on, but              this slot's build worker has ended, so nothing will rebuild and what is on that              deck is still running"@,
        Reaim::Salt { salt } => "  re-salt: deck "@ + letter_of(deck) + " will be seeded from "@
            + decimal(salt as nat)
            + " from the next build on, but this slot's build worker has ended, so nothing will rebuild and what is on that deck is still running"@,
    }
}

/// A re-aim press on deck `deck` of a console with `slots` aimed slots, the
/// slot being aimed at `at`.
pub fn reaimed(press: &Reaim, deck: u8, slots: usize, at: &AimedAt) -> (r: Aimed)
    ensures
        deck >= slots ==> r is NoSlot,
        deck < slots && already(*press, *at) ==> (r matches Aimed::Unchanged(t) && t@
            == unchanged_text(*press, deck as nat)),
        deck < slots && !already(*press, *at) ==> (r matches Aimed::Send { sent, stranded } && sent@
            == sent_text(*press, deck as nat) && stranded@ == stranded_text(*press, deck as nat)),
        deck < slots && press is Capacity && at.capacity is None ==> r is Send,
        deck < slots && (press is Publish || press is Salt) ==> r is Send,
        r is Unchanged ==> match *press {
            Reaim::Capacity { elements } => at.capacity == Some(elements),
            Reaim::Composite { compositing } => at.composite == compositing,
            _ => false,
        },
{
    proof {
        reveal_strlit("composite");
        reveal_strlit("overdraw");
        reveal_strlit(" control");
    }
    if deck as usize >= slots {
        return Aimed::NoSlot;
    }
    let letter = deck_letter(deck);
    match press {
        Reaim::Composite { compositing } => {
            let word = if *compositing {
                "composite"
            } else {
                "overdraw"
            };
            if at.composite == *compositing {
                let mut t = String::from_str("  composite: deck ");
                t.append(letter);
                t.append(" is already set to ");
                t.append(word);
                t.append(
                    " its renderers — nothing was sent, because a re-aim rebuilds the whole slot and this one would land on the same picture",
                );
                return Aimed::Unchanged(t);
            }
            let mut sent = String::from_str("  composite: deck ");
            sent.append(letter);
            sent.append(" re-aimed to ");
            sent.append(word);
            sent.append(
                " its renderers — the slot is recompiling on the worker, and the staging lane says whether the build landed, was overloaded or did not compile",
            );
            let mut stranded = String::from_str("  composite: deck ");
            stranded.append(letter);
            stranded.append(" will ");
            stranded.append(word);
            stranded.append(
                " its renderers from the next build on, but this slot's build worker has ended, so nothing will rebuild and what is on that deck is still running",
            );
            Aimed::Send { sent, stranded }
        },
        Reaim::Capacity { elements } => {
            let n = numeral(*elements as u64);
            let same = match at.capacity {
                Some(c) => c == *elements,
                None => false,
            };
            if same {
                let mut t = String::from_str("  capacity: deck ");
                t.append(letter);
                t.append(" is already aimed at ");
                t.append(n.as_str());
                t.append(
                    " elements a geometry — nothing was sent, because a re-aim rebuilds the whole slot and this one would land on the same picture",
                );
                return Aimed::Unchanged(t);
            }
            let mut sent = String::from_str("  capacity: deck ");
            sent.append(letter);
            sent.append(" re-aimed to ");
            sent.append(n.as_str());
            sent.append(
                " elements a geometry — the slot is recompiling on the worker, and the staging lane says whether the build landed, was overloaded or did not compile. A number outside what a geometry declares is refused there, by name and with the range",
            );
            let mut stranded = String::from_str("  capacity: deck ");
            stranded.append(letter);
            stranded.append(" will run at ");
            stranded.append(n.as_str());
            stranded.append(
                " elements a geometry from the next build on, but this slot's build worker has ended, so nothing will rebuild and what is on that deck is still running",
            );
            Aimed::Send { sent, stranded }
        },
        Reaim::Publish { shown } => {
            let n = numeral(*shown as u64);
            let ending = plural_ending(*shown as u64);
            let mut sent = String::from_str("  publish: deck ");
            sent.append(letter);
            sent.append(" re-aimed to publish ");
            sent.append(n.as_str());
            sent.append(" control");
            sent.append(ending);
            sent.append(
                " — the slot is              recompiling on the worker, and the staging lane says whether the build landed, was              overloaded or did not compile. What is off the interface is still written by              `--param`, by a `param` record and by a model naming its address",
            );
            let mut stranded = String::from_str("  publish: deck ");
            stranded.append(letter);
            stranded.append(" will publish ");
            stranded.append(n.as_str());
            stranded.append(" control");
            stranded.append(ending);
            stranded.append(
                " from the next build on, but              this slot's build worker has ended, so nothing will rebuild and what is on that              deck is still running",
            );
            Aimed::Send { sent, stranded }
        },
        Reaim::Salt { salt } => {
            let n = numeral(*salt as u64);
            let mut sent = String::from_str("  re-salt: deck ");
            sent.append(letter);
            sent.append(" re-aimed to seed ");
            sent.append(n.as_str());
            sent.append(
                " — the slot is recompiling on the worker, and its randomness moves while its structure does not. The staging lane says whether the build landed, was overloaded or did not compile",
            );
            let mut stranded = String::from_str("  re-salt: deck ");
            stranded.append(letter);
            stranded.append(" will be seeded from ");
            stranded.append(n.as_str());
            stranded.append(
                " from the next build on, but this slot's build worker has ended, so nothing will rebuild and what is on that deck is still running",
            );
            Aimed::Send { sent, stranded }
        },
    }
}

/// The line said for a re-aim on a slot the deck has not got: the
/// decoder's own refusal of the slot, and that nothing was re-aimed.
pub open spec fn no_slot_text(press: Reaim, refusal: Seq<char>) -> Seq<char> {
    "  "@ + reaim_word(press) + ": "@ + refusal + ", and nothing was re-aimed"@
}

/// [`no_slot_text`].
pub fn no_slot(press: &Reaim, refusal: &str) -> (r: String)
    ensures
        r@ == no_slot_text(*press, refusal@),
{
    proof {
        reveal_strlit("composite");
        reveal_strlit("capacity");
        reveal_strlit("publish");
        reveal_strlit("re-salt");
        reveal_strlit("  ");
        reveal_strlit(": ");
    }
    let mut t = String::from_str("  ");
    t.append(
        match press {
            Reaim::Composite { .. } => "composite",
            Reaim::Capacity { .. } => "capacity",
            Reaim::Publish { .. } => "publish",
            Reaim::Salt { .. } => "re-salt",
        },
    );
    t.append(": ");
    t.append(refusal);
    t.append(", and nothing was re-aimed");
    t
}

/// Only a press that asks for what the slot already is goes unsent: a
/// capacity press is already so exactly where the slot's last asked-for
/// element count is the number pressed — a slot never given one always has
/// the press sent — and a compositing press exactly where the slot already
/// composites (or overdraws) as asked; a publish and a re-salt are always
/// sent.
pub proof fn law_only_the_same_aim_goes_unsent(press: Reaim, at: AimedAt)
    ensures
        press matches Reaim::Capacity { elements } ==> (already(press, at) <==> at.capacity
            == Some(elements)),
        press is Capacity && at.capacity is None ==> !already(press, at),
        press matches Reaim::Composite { compositing } ==> (already(press, at) <==> at.composite
            == compositing),
        press is Publish || press is Salt ==> !already(press, at),
{
}

} // verus!
