//! A surface's own pointers and settings — the deck the keys are addressed
//! to, the deck each Inspector pane shows, and what the next move means —
//! and what a press that moves one is told. None writes a record: each
//! belongs to the surface.
use vstd::prelude::*;

use crate::taking::joined_text;
use crate::text::{decimal, deck_letter, letter_of, numeral, plural, plural_ending, same_text};

verus! {

/// The refusal of a selection of a deck the mixer draws no strip for.
pub open spec fn select_refused_text(deck: nat, strips: nat) -> Seq<char> {
    "  select: deck "@ + letter_of(deck) + " refused — this deck has "@ + decimal(strips) + " slot"@
        + plural(strips)
        + ", and a selection with no strip under it is a ring drawn nowhere and a `load` pill naming a deck the press could not reach"@
}

/// The line said when a deck is selected.
pub open spec fn selected_text(deck: nat) -> Seq<char> {
    "  select: deck "@ + letter_of(deck) + " -> SelectDeck { deck: "@ + decimal(deck)
        + " } -> no record, and that is settled: it is a surface's own pointer. The keys are addressed here, and the library's foot reads `load -> "@
        + letter_of(deck) + "`"@
}

/// A press selecting `deck` on a mixer of `strips` strips: `Ok` with the
/// line to say once the selection is made, or `Err` with the refusal where
/// the deck has no strip — and then nothing moves.
pub fn pointed(deck: u8, strips: usize) -> (r: Result<String, String>)
    ensures
        deck >= strips ==> (r matches Err(e) && e@ == select_refused_text(deck as nat, strips as nat)),
        deck < strips ==> (r matches Ok(t) && t@ == selected_text(deck as nat)),
{
    proof {
        reveal_strlit(" slot");
    }
    let letter = deck_letter(deck);
    if deck as usize >= strips {
        let mut e = String::from_str("  select: deck ");
        e.append(letter);
        e.append(" refused — this deck has ");
        let n = numeral(strips as u64);
        e.append(n.as_str());
        e.append(" slot");
        e.append(plural_ending(strips as u64));
        e.append(
            ", and a selection with no strip under it is a ring drawn nowhere and a `load` pill naming a deck the press could not reach",
        );
        return Err(e);
    }
    let mut t = String::from_str("  select: deck ");
    t.append(letter);
    t.append(" -> SelectDeck { deck: ");
    let d = numeral(deck as u64);
    t.append(d.as_str());
    t.append(
        " } -> no record, and that is settled: it is a surface's own pointer. The keys are addressed here, and the library's foot reads `load -> ",
    );
    t.append(letter);
    t.append("`");
    Ok(t)
}

/// The refusal of a pane this console has not got, naming the ones it has.
pub open spec fn no_pane_text(pane: Seq<char>, names: Seq<Seq<char>>) -> Seq<char> {
    "  pane: `"@ + pane + "` refused — this console's panes are "@ + joined_text(names, " and "@)
}

/// Which of the console's panes (`names`) a press names: its position, the
/// first pane of that name — or the refusal naming every pane there is.
pub fn pane_named(pane: &str, names: &[String]) -> (r: Result<usize, String>)
    ensures
        match r {
            Ok(at) => at < names@.len() && names@[at as int]@ == pane@ && forall|j: int|
                0 <= j < at ==> names@[j]@ != pane@,
            Err(e) => (forall|j: int| 0 <= j < names@.len() ==> names@[j]@ != pane@) && e@
                == no_pane_text(pane@, names@.map_values(|n: String| n@)),
        },
{
    proof {
        reveal_strlit(" and ");
    }
    let mut i: usize = 0;
    while i < names.len()
        invariant
            i <= names@.len(),
            forall|j: int| 0 <= j < i ==> names@[j]@ != pane@,
        decreases names.len() - i,
    {
        if same_text(names[i].as_str(), pane) {
            return Ok(i);
        }
        i += 1;
    }
    let ghost all = names@.map_values(|n: String| n@);
    let mut listed = String::new();
    let mut k: usize = 0;
    while k < names.len()
        invariant
            k <= names@.len(),
            all == names@.map_values(|n: String| n@),
            listed@ == joined_text(all.take(k as int), " and "@),
        decreases names.len() - k,
    {
        assert(all.take(k + 1).drop_last() =~= all.take(k as int));
        assert(all.take(k + 1).last() == names@[k as int]@);
        if k > 0 {
            listed.append(" and ");
        }
        listed.append(names[k].as_str());
        k += 1;
    }
    assert(all.take(k as int) =~= all);
    let mut e = String::from_str("  pane: `");
    e.append(pane);
    e.append("` refused — this console's panes are ");
    e.append(listed.as_str());
    Err(e)
}

/// What pointing a pane comes to: `moved` is whether the console moved the
/// pane's pointer. A pane that did not move is refused only where the deck
/// has no strip; one already on the deck asked for is answered as pointed.
pub open spec fn pane_pointed_text(pane: Seq<char>, deck: nat, strips: nat, moved: bool) -> Seq<char> {
    if !moved && deck >= strips {
        "  pane: `"@ + pane + "` -> deck "@ + letter_of(deck) + " refused — this deck has "@
            + decimal(strips) + " slot"@ + plural(strips)
            + ", and a pane pointed at one it has not got is a head naming a deck with nothing under it"@
    } else {
        "  pane: `"@ + pane + "` -> deck "@ + letter_of(deck)
            + " -> no record, and that is settled: a pane's target is a surface's own pointer. The keys stay where they are and the pane next door does not move"@
    }
}

/// [`pane_pointed_text`].
pub fn pointed_pane(pane: &str, deck: u8, strips: usize, moved: bool) -> (r: String)
    ensures
        r@ == pane_pointed_text(pane@, deck as nat, strips as nat, moved),
{
    proof {
        reveal_strlit(" slot");
    }
    let letter = deck_letter(deck);
    let mut t = String::from_str("  pane: `");
    t.append(pane);
    t.append("` -> deck ");
    t.append(letter);
    if !moved && deck as usize >= strips {
        t.append(" refused — this deck has ");
        let n = numeral(strips as u64);
        t.append(n.as_str());
        t.append(" slot");
        t.append(plural_ending(strips as u64));
        t.append(
            ", and a pane pointed at one it has not got is a head naming a deck with nothing under it",
        );
    } else {
        t.append(
            " -> no record, and that is settled: a pane's target is a surface's own pointer. The keys stay where they are and the pane next door does not move",
        );
    }
    t
}


/// The transition row as it stands: the wipe's shape, the grid a move
/// starts on, and how long it lasts, each in the row's own words; that
/// length as a count of beats, and whether it is one.
#[derive(Clone, Debug)]
pub struct Transition {
    pub shape: String,
    pub quantum: String,
    pub length_word: String,
    pub length: String,
    pub one_beat: bool,
}

/// What a press on the transition row is told: `moved` is whether the row
/// took the setting (as its debug rendering, `setting`); where it did not —
/// refused, or already there — the row's three words say where it is, and
/// where it did they say what the next fade, crossfade or wipe will be.
pub open spec fn scheduled_text(setting: Seq<char>, moved: bool, at: Transition) -> Seq<char> {
    if moved {
        "  transition: "@ + setting
            + " -> no record, and that is settled: it is a surface's own setting. The next fade, crossfade or wipe is `"@
            + at.shape@ + "` on the `"@ + at.quantum@ + "`, over "@ + at.length@ + " beat"@ + if at.one_beat {
            Seq::empty()
        } else {
            "s"@
        }
    } else {
        "  transition: "@ + setting + " refused or already there — the row is on `"@ + at.shape@
            + "`, `"@ + at.quantum@ + "`, `"@ + at.length_word@
            + "`, and a pill draws only what its own cycle names"@
    }
}

/// [`scheduled_text`].
pub fn scheduled(setting: &str, moved: bool, at: &Transition) -> (r: String)
    ensures
        r@ == scheduled_text(setting@, moved, *at),
{
    proof {
        reveal_strlit(" beat");
        reveal_strlit("s");
    }
    let mut t = String::from_str("  transition: ");
    t.append(setting);
    if moved {
        t.append(
            " -> no record, and that is settled: it is a surface's own setting. The next fade, crossfade or wipe is `",
        );
        t.append(at.shape.as_str());
        t.append("` on the `");
        t.append(at.quantum.as_str());
        t.append("`, over ");
        t.append(at.length.as_str());
        t.append(" beat");
        if !at.one_beat {
            t.append("s");
        }
    } else {
        t.append(" refused or already there — the row is on `");
        t.append(at.shape.as_str());
        t.append("`, `");
        t.append(at.quantum.as_str());
        t.append("`, `");
        t.append(at.length_word.as_str());
        t.append("`, and a pill draws only what its own cycle names");
    }
    t
}

} // verus!
