//! A press in the Sequencer bay: what it asks of the pattern it names, what
//! is said about it, and whether the playhead starts the bar again.
//!
//! The patterns themselves are the pattern library's; what it answered — did
//! the press find its bank and lane, how many lanes the bank holds — comes in
//! as plain values.
use vstd::prelude::*;

use crate::text::{decimal, numeral, plural, plural_ending};

verus! {

/// A press on the Sequencer bay.
#[derive(Clone, Debug)]
pub enum Press {
    /// One slot of one lane turned on or off.
    Step { pattern: u8, lane: u8, step: u8, on: bool },
    /// A lane muted, or set driving its target again.
    Mute { pattern: u8, lane: u8, muted: bool },
    /// The grid a bank's bar is read at: its name, and how many steps it
    /// counts over the bar.
    Grid { pattern: u8, name: String, count: usize },
    /// A bank armed.
    Select { pattern: u8 },
    /// A lane taken out of a bank; the lanes after it move up.
    RemoveLane { pattern: u8, lane: u8 },
}

/// What a press comes to: the line said about it, and whether the playhead
/// starts the bar again.
#[derive(Debug)]
pub struct Sequenced {
    pub line: String,
    pub reset: bool,
}

/// `on` or `off`.
pub open spec fn switch_word(on: bool) -> Seq<char> {
    if on {
        "on"@
    } else {
        "off"@
    }
}

/// The line a press comes to. `found` is whether the press found what it
/// names — its bank and lane, its bank, or (for a select) whether the bank
/// was armed; `banks` how many banks the session holds; `lanes` how many
/// lanes the bank holds — the armed one after a select, and for a removal
/// the named one after it (or before, where no lane was taken); `taken`
/// whether a removal took a lane out, and whether that lane was muted.
pub open spec fn sequenced_text(press: Press, found: bool, banks: nat, lanes: nat, taken: Option<bool>) -> Seq<char> {
    match press {
        Press::Step { pattern, lane, step, on } => if found {
            "  step: pattern "@ + decimal(pattern as nat) + " lane "@ + decimal(lane as nat)
                + " slot "@ + decimal(step as nat) + " -> "@ + switch_word(on)
                + " -> no record, and that is settled: a pattern is library data and what a lane does is its own writes. Heard the next time the playhead reaches it"@
        } else {
            "  step: pattern "@ + decimal(pattern as nat) + " lane "@ + decimal(lane as nat)
                + " is not a lane this session holds — a press names a bank, a lane and a slot, and this one names no row"@
        },
        Press::Mute { pattern, lane, muted } => if found {
            "  lane: pattern "@ + decimal(pattern as nat) + " lane "@ + decimal(lane as nat)
                + " -> "@ + (if muted {
                "muted"@
            } else {
                "driving"@
            }) + " -> no record. "@ + if muted {
                "The pattern is kept and drives nothing, and the fader is a hand's again — which is where this lane's take-back sits"@
            } else {
                "It writes its target at the next step boundary"@
            }
        } else {
            "  lane: pattern "@ + decimal(pattern as nat) + " lane "@ + decimal(lane as nat)
                + " is not a lane this session holds"@
        },
        Press::Grid { pattern, name, count } => if found {
            "  grid: pattern "@ + decimal(pattern as nat) + " -> "@ + name@
                + " -> no record. The bar is one bar, so the count follows: "@ + decimal(
                count as nat,
            )
                + " steps over the same row, and the sixteen slots underneath are untouched"@
        } else {
            "  grid: pattern "@ + decimal(pattern as nat) + " is not a bank this session holds"@
        },
        Press::Select { pattern } => if found {
            "  pattern: bank "@ + decimal(pattern as nat) + " armed -> no record. "@ + decimal(
                lanes,
            ) + " lane"@ + plural(lanes) + " under the rows"@
        } else {
            "  pattern: there is no bank "@ + decimal(pattern as nat) + " — this session holds "@
                + decimal(banks)
        },
        Press::RemoveLane { pattern, lane } => if !found {
            "  lane: pattern "@ + decimal(pattern as nat) + " is not a bank this session holds"@
        } else {
            match taken {
                None => "  lane: no lane "@ + decimal(lane as nat) + " in pattern "@ + decimal(
                    pattern as nat,
                ) + if lanes == 0 {
                    ": this pattern holds none"@
                } else {
                    ": this pattern holds lanes 0-"@ + decimal((lanes - 1) as nat)
                },
                Some(muted) => "  lane: pattern "@ + decimal(pattern as nat) + " lane "@ + decimal(
                    lane as nat,
                )
                    + " taken out -> no record. Its steps went with it and the lanes after it moved up, so "@
                    + decimal(lanes) + " lane"@ + plural(lanes) + " "@ + (if lanes == 1 {
                    "is"@
                } else {
                    "are"@
                }) + " under the rows. "@ + if muted {
                    "It was muted and drove nothing"@
                } else {
                    "It was driving, and what it drove keeps the value its last step wrote it: a lane's writes are its whole record"@
                },
            }
        },
    }
}

/// Whether a press starts the bar again: a grid press and a bank press
/// change what a step index means, so they do where they land; a step, a
/// removal or a
/// mute changes what a step is worth and not which step it is.
pub open spec fn resets(press: Press, found: bool) -> bool {
    found && (press is Grid || press is Select)
}

/// A press in the Sequencer bay, after the pattern library has been asked:
/// the line it comes to and whether the playhead is reset.
pub fn sequenced(press: &Press, found: bool, banks: usize, lanes: usize, taken: Option<bool>) -> (r: Sequenced)
    ensures
        r.line@ == sequenced_text(*press, found, banks as nat, lanes as nat, taken),
        r.reset == resets(*press, found),
        r.reset ==> found,
        r.reset ==> (press is Grid || press is Select),
        found && (press is Grid || press is Select) ==> r.reset,
{
    proof {
        reveal_strlit("on");
        reveal_strlit("off");
        reveal_strlit("muted");
        reveal_strlit("driving");
        reveal_strlit(" lane");
        reveal_strlit("is");
        reveal_strlit("are");
        reveal_strlit(": this pattern holds none");
    }
    match press {
        Press::Step { pattern, lane, step, on } => {
            let mut t = String::from_str("  step: pattern ");
            let p = numeral(*pattern as u64);
            t.append(p.as_str());
            t.append(" lane ");
            let l = numeral(*lane as u64);
            t.append(l.as_str());
            if found {
                t.append(" slot ");
                let s = numeral(*step as u64);
                t.append(s.as_str());
                t.append(" -> ");
                t.append(
                    if *on {
                        "on"
                    } else {
                        "off"
                    },
                );
                t.append(
                    " -> no record, and that is settled: a pattern is library data and what a lane does is its own writes. Heard the next time the playhead reaches it",
                );
            } else {
                t.append(
                    " is not a lane this session holds — a press names a bank, a lane and a slot, and this one names no row",
                );
            }
            Sequenced { line: t, reset: false }
        },
        Press::Mute { pattern, lane, muted } => {
            let mut t = String::from_str("  lane: pattern ");
            let p = numeral(*pattern as u64);
            t.append(p.as_str());
            t.append(" lane ");
            let l = numeral(*lane as u64);
            t.append(l.as_str());
            if found {
                t.append(" -> ");
                t.append(
                    if *muted {
                        "muted"
                    } else {
                        "driving"
                    },
                );
                t.append(" -> no record. ");
                if *muted {
                    t.append(
                        "The pattern is kept and drives nothing, and the fader is a hand's again — which is where this lane's take-back sits",
                    );
                } else {
                    t.append("It writes its target at the next step boundary");
                }
            } else {
                t.append(" is not a lane this session holds");
            }
            Sequenced { line: t, reset: false }
        },
        Press::Grid { pattern, name, count } => {
            let mut t = String::from_str("  grid: pattern ");
            let p = numeral(*pattern as u64);
            t.append(p.as_str());
            if found {
                t.append(" -> ");
                t.append(name.as_str());
                t.append(" -> no record. The bar is one bar, so the count follows: ");
                let c = numeral(*count as u64);
                t.append(c.as_str());
                t.append(
                    " steps over the same row, and the sixteen slots underneath are untouched",
                );
            } else {
                t.append(" is not a bank this session holds");
            }
            Sequenced { line: t, reset: found }
        },
        Press::Select { pattern } => {
            let p = numeral(*pattern as u64);
            if found {
                let mut t = String::from_str("  pattern: bank ");
                t.append(p.as_str());
                t.append(" armed -> no record. ");
                let n = numeral(lanes as u64);
                t.append(n.as_str());
                t.append(" lane");
                t.append(plural_ending(lanes as u64));
                t.append(" under the rows");
                Sequenced { line: t, reset: true }
            } else {
                let mut t = String::from_str("  pattern: there is no bank ");
                t.append(p.as_str());
                t.append(" — this session holds ");
                let b = numeral(banks as u64);
                t.append(b.as_str());
                Sequenced { line: t, reset: false }
            }
        },
        Press::RemoveLane { pattern, lane } => {
            let p = numeral(*pattern as u64);
            let l = numeral(*lane as u64);
            if !found {
                let mut t = String::from_str("  lane: pattern ");
                t.append(p.as_str());
                t.append(" is not a bank this session holds");
                return Sequenced { line: t, reset: false };
            }
            match taken {
                None => {
                    let mut t = String::from_str("  lane: no lane ");
                    t.append(l.as_str());
                    t.append(" in pattern ");
                    t.append(p.as_str());
                    if lanes == 0 {
                        t.append(": this pattern holds none");
                    } else {
                        t.append(": this pattern holds lanes 0-");
                        let last = numeral((lanes - 1) as u64);
                        t.append(last.as_str());
                    }
                    Sequenced { line: t, reset: false }
                },
                Some(muted) => {
                    let mut t = String::from_str("  lane: pattern ");
                    t.append(p.as_str());
                    t.append(" lane ");
                    t.append(l.as_str());
                    t.append(
                        " taken out -> no record. Its steps went with it and the lanes after it moved up, so ",
                    );
                    let n = numeral(lanes as u64);
                    t.append(n.as_str());
                    t.append(" lane");
                    t.append(plural_ending(lanes as u64));
                    t.append(" ");
                    t.append(
                        if lanes == 1 {
                            "is"
                        } else {
                            "are"
                        },
                    );
                    t.append(" under the rows. ");
                    if muted {
                        t.append("It was muted and drove nothing");
                    } else {
                        t.append(
                            "It was driving, and what it drove keeps the value its last step wrote it: a lane's writes are its whole record",
                        );
                    }
                    Sequenced { line: t, reset: false }
                },
            }
        },
    }
}

/// What pointing a lane comes to. `levels` are the two levels the lane
/// takes, as text — on and off — where the console has them (a fader's are
/// fixed; a parameter's are the range published to it at the press);
/// `lanes` is how many lanes the bank holds once the lane is appended, and
/// none where the session has no such bank.
pub open spec fn pointed_lane_text(
    pattern: nat,
    fader: bool,
    levels: Option<(Seq<char>, Seq<char>)>,
    lanes: Option<nat>,
) -> Seq<char> {
    match levels {
        None => "  lane: pattern "@ + decimal(pattern)
            + " is not pointed — this console holds no published range for that control, and a lane's two levels are the range published to it at the press. Point the Library bay's load pulldown at the deck whose control it is and ask again"@,
        Some((on, off)) => match lanes {
            None => "  lane: pattern "@ + decimal(pattern) + " is not a bank this session holds"@,
            Some(n) => "  lane: pattern "@ + decimal(pattern) + " -> a "@ + (if fader {
                "fader"@
            } else {
                "parameter"@
            }) + " lane, on "@ + on + " off "@ + off + " -> no record. "@ + decimal(n) + " lane"@
                + plural(n)
                + " under the rows, muted: every slot is off and an off step writes "@ + off
                + ", so the label is the press that starts it"@,
        },
    }
}

/// [`pointed_lane_text`].
pub fn pointed_lane(pattern: u8, fader: bool, levels: &Option<(String, String)>, lanes: Option<
    usize,
>) -> (r: String)
    ensures
        r@ == pointed_lane_text(
            pattern as nat,
            fader,
            match levels {
                Some(l) => Some((l.0@, l.1@)),
                None => None,
            },
            match lanes {
                Some(n) => Some(n as nat),
                None => None,
            },
        ),
{
    proof {
        reveal_strlit("fader");
        reveal_strlit("parameter");
        reveal_strlit(" lane");
    }
    let mut t = String::from_str("  lane: pattern ");
    let p = numeral(pattern as u64);
    t.append(p.as_str());
    match levels {
        None => {
            t.append(
                " is not pointed — this console holds no published range for that control, and a lane's two levels are the range published to it at the press. Point the Library bay's load pulldown at the deck whose control it is and ask again",
            );
        },
        Some((on, off)) => match lanes {
            None => {
                t.append(" is not a bank this session holds");
            },
            Some(n) => {
                t.append(" -> a ");
                t.append(
                    if fader {
                        "fader"
                    } else {
                        "parameter"
                    },
                );
                t.append(" lane, on ");
                t.append(on.as_str());
                t.append(" off ");
                t.append(off.as_str());
                t.append(" -> no record. ");
                let c = numeral(n as u64);
                t.append(c.as_str());
                t.append(" lane");
                t.append(plural_ending(n as u64));
                t.append(" under the rows, muted: every slot is off and an off step writes ");
                t.append(off.as_str());
                t.append(", so the label is the press that starts it");
            },
        },
    }
    t
}

/// The playhead starts the bar again only where a press changes which step
/// is which: a grid or a bank select that found what it names. A step, a
/// mute and a lane's removal change what a step is worth, not which step it
/// is, so the playhead keeps its place; and a press that found nothing
/// changes nothing.
pub proof fn law_only_a_found_grid_or_select_restarts_the_bar(press: Press, found: bool)
    ensures
        resets(press, found) ==> found,
        resets(press, found) ==> (press is Grid || press is Select),
        found && (press is Grid || press is Select) ==> resets(press, found),
        press is Mute || press is Step || press is RemoveLane ==> !resets(press, found),
{
}

} // verus!
