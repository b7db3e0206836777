//! What this window says when an operation it emitted wrote no record, and
//! what it says when a wipe is refused.
use vstd::prelude::*;

use crate::text::{decimal, numeral, plural, plural_ending};

verus! {

/// What deciding an operation's record came to: records written, or one of
/// the three kinds of nothing, each carrying the sentence that says why.
#[derive(Clone, Debug)]
pub enum Written {
    /// Records were written, and the line about them is the deck's own.
    Records,
    /// Nothing to write, and that is settled.
    Silent { why: String },
    /// A record is owed and nothing can make it yet.
    Owed { why: String },
    /// A decision was taken not to schedule anything.
    Refused { why: String },
}

/// The terminal's line about an operation that wrote no record, or `None`
/// where records were written.
pub open spec fn unwritten_text(operation: Seq<char>, written: Written) -> Option<Seq<char>> {
    match written {
        Written::Records => None,
        Written::Silent { why } => Some(
            "  emitted: "@ + operation + " -> no record, and that is settled: "@ + why@,
        ),
        Written::Owed { why } => Some(
            "  emitted: "@ + operation + " -> no record, and that is a gap rather than a decision: "@
                + why@ + ". nothing moved, and nothing here decides it"@,
        ),
        Written::Refused { why } => Some(
            "  emitted: "@ + operation + " -> refused, and nothing was scheduled: "@ + why@,
        ),
    }
}

/// [`unwritten_text`], for the operation as it is printed (`operation` is its
/// debug rendering).
pub fn unwritten(operation: &str, written: &Written) -> (r: Option<String>)
    ensures
        r matches Some(s) ==> unwritten_text(operation@, *written) == Some(s@),
        r is None <==> unwritten_text(operation@, *written) is None,
{
    match written {
        Written::Records => None,
        Written::Silent { why } => {
            let mut s = String::from_str("  emitted: ");
            s.append(operation);
            s.append(" -> no record, and that is settled: ");
            s.append(why.as_str());
            Some(s)
        },
        Written::Owed { why } => {
            let mut s = String::from_str("  emitted: ");
            s.append(operation);
            s.append(" -> no record, and that is a gap rather than a decision: ");
            s.append(why.as_str());
            s.append(". nothing moved, and nothing here decides it");
            Some(s)
        },
        Written::Refused { why } => {
            let mut s = String::from_str("  emitted: ");
            s.append(operation);
            s.append(" -> refused, and nothing was scheduled: ");
            s.append(why.as_str());
            Some(s)
        },
    }
}

/// What the operation vocabulary's `not_performed` sentence is made of, for
/// an operation that was not performed: the operation's title, and the
/// reason it carries. The sentence itself belongs to that vocabulary, so
/// that every front door onto it explains one mistake one way; this window
/// hands it these two and says nothing of its own.
#[derive(Clone, Debug, PartialEq, Eq)]
pub struct NotPerformed {
    pub title: String,
    pub why: String,
}

/// What a model is told of an operation titled `title` that drained off its
/// channel: `None` where it was performed (records written and settled
/// silence are both performances), and the title with the reason where it
/// was not (an owed record, or a refusal).
pub open spec fn unperformed_reason(title: Seq<char>, written: Written) -> Option<(Seq<char>, Seq<char>)> {
    match written {
        Written::Records => None,
        Written::Silent { .. } => None,
        Written::Owed { why } => Some((title, why@)),
        Written::Refused { why } => Some((title, why@)),
    }
}

/// [`unperformed_reason`]: what the model's reply about the operation
/// `title` is made of.
pub fn unperformed(title: &str, written: &Written) -> (r: Option<NotPerformed>)
    ensures
        r matches Some(n) ==> unperformed_reason(title@, *written) == Some((n.title@, n.why@)),
        r is None <==> unperformed_reason(title@, *written) is None,
{
    match written {
        Written::Records => None,
        Written::Silent { .. } => None,
        Written::Owed { why } => Some(NotPerformed { title: title.to_string(), why: why.clone() }),
        Written::Refused { why } => Some(NotPerformed { title: title.to_string(), why: why.clone() }),
    }
}

/// What a press on `go` came to: a wipe, or one of the two reasons there is
/// none.
#[derive(Clone, Debug)]
pub enum Go {
    /// The mixer draws fewer than two decks.
    NoOtherDeck,
    /// No wipe shape has been chosen.
    NoShape,
    /// A wipe, named by its operation's title.
    Wipe { title: String },
}

/// The sentence a refused `go` is printed as.
pub open spec fn refusal_text(refused: Go, decks: nat) -> Seq<char> {
    match refused {
        Go::NoOtherDeck => "  wipe: refused — this mixer draws "@ + decimal(decks) + " strip"@
            + plural(decks)
            + ", and a wipe needs a deck to come from as well as one to arrive. Two decks side by side in the bay is what makes the press mean something"@,
        Go::NoShape => "  wipe: refused — no shape chosen, and a wipe is a shape moving. The first pill on this row is where one is picked: it reads `no shape` now, and a press on it takes it to `left`. The vocabulary refuses this one too — `Operation::Wipe` is *refused with no shape chosen* at its own definition — and the refusal is here because the shape is this console's own setting"@,
        Go::Wipe { title } => "  wipe: "@ + title@
            + " is not a refusal and this line should not have been reached"@,
    }
}

/// [`refusal_text`].
pub fn refusal(refused: &Go, decks: usize) -> (r: String)
    ensures
        r@ == refusal_text(*refused, decks as nat),
{
    match refused {
        Go::NoOtherDeck => {
            let mut s = String::from_str("  wipe: refused — this mixer draws ");
            let n = numeral(decks as u64);
            s.append(n.as_str());
            s.append(" strip");
            s.append(plural_ending(decks as u64));
            s.append(
                ", and a wipe needs a deck to come from as well as one to arrive. Two decks side by side in the bay is what makes the press mean something",
            );
            s
        },
        Go::NoShape => String::from_str(
            "  wipe: refused — no shape chosen, and a wipe is a shape moving. The first pill on this row is where one is picked: it reads `no shape` now, and a press on it takes it to `left`. The vocabulary refuses this one too — `Operation::Wipe` is *refused with no shape chosen* at its own definition — and the refusal is here because the shape is this console's own setting",
        ),
        Go::Wipe { title } => {
            let mut s = String::from_str("  wipe: ");
            s.append(title.as_str());
            s.append(" is not a refusal and this line should not have been reached");
            s
        },
    }
}

} // verus!
