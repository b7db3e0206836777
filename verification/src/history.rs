//! The edit history of a Set: which versions the `history` scope lists, and
//! which version a put-back lands.
use vstd::prelude::*;

use crate::layer::{address_of, ir_layer, ir_of, node_addr};
use crate::listing::Walked;
use crate::material::Revision;
use crate::order::texts;
use crate::text::{decimal, numeral, same_text};

verus! {

/// How many versions a walk of the history reads at most.
pub const HISTORY_MOST: usize = 200;

/// One version the history holds: the Set it was filed under (if any), the
/// layer name and index of the node it is a version of, and the name it is
/// filed as.
#[derive(Debug)]
pub struct Version {
    pub set: Option<String>,
    pub layer: String,
    pub index: usize,
    pub filed_as: String,
}

/// What a walk of the history found, most recent first: the versions, whether
/// it stopped with days unread, and how many entries it passed over as not
/// this layout's.
#[derive(Debug)]
pub struct History {
    pub versions: Vec<Version>,
    pub stopped_short: bool,
    pub unclaimed: usize,
}

/// Whether a version was filed under the Set `id` — a version filed under no
/// Set is a version of nothing, and never one of `id`'s.
pub open spec fn of_set(v: Version, id: Seq<char>) -> bool {
    match v.set {
        Some(s) => s@ == id,
        None => false,
    }
}

/// The rows the `history` scope lists for the Set `id`: the name each of its
/// versions is filed as, most recent first.
pub open spec fn history_of(versions: Seq<Version>, id: Seq<char>) -> Seq<Seq<char>>
    decreases versions.len(),
{
    if versions.len() == 0 {
        Seq::empty()
    } else {
        let rest = history_of(versions.drop_last(), id);
        if of_set(versions.last(), id) {
            rest.push(versions.last().filed_as@)
        } else {
            rest
        }
    }
}

/// The `history` scope lists a name exactly where some version filed under
/// the Set `id` — never one filed under no Set, nor under another — is
/// filed as it, and lists no more rows than the walk found versions.
pub proof fn law_history_lists_only_the_sets_own_versions(versions: Seq<Version>, id: Seq<char>)
    ensures
        history_of(versions, id).len() <= versions.len(),
        forall|name: Seq<char>| history_of(versions, id).contains(name) <==> exists|i: int|
            0 <= i < versions.len() && (#[trigger] versions[i]).set is Some && versions[i].set->0@ == id
                && versions[i].filed_as@ == name,
        forall|i: int| 0 <= i < versions.len() && (#[trigger] versions[i]).set is None ==> !of_set(versions[i], id),
    decreases versions.len(),
{
    if versions.len() > 0 {
        let rest = versions.drop_last();
        law_history_lists_only_the_sets_own_versions(rest, id);
        let n = versions.len() - 1;
        assert(versions[n] == versions.last());
        let e = history_of(rest, id);
        let b = history_of(versions, id);
        assert forall|name: Seq<char>| b.contains(name) <==> exists|i: int|
            0 <= i < versions.len() && (#[trigger] versions[i]).set is Some && versions[i].set->0@ == id
                && versions[i].filed_as@ == name by {
            if e.contains(name) {
                let i = choose|i: int|
                    0 <= i < rest.len() && (#[trigger] rest[i]).set is Some && rest[i].set->0@ == id
                        && rest[i].filed_as@ == name;
                assert(versions[i] == rest[i]);
                let m = choose|m: int| 0 <= m < e.len() && e[m] == name;
                assert(b[m] == name);
            }
            if exists|i: int|
                0 <= i < versions.len() && (#[trigger] versions[i]).set is Some && versions[i].set->0@ == id
                    && versions[i].filed_as@ == name {
                let i = choose|i: int|
                    0 <= i < versions.len() && (#[trigger] versions[i]).set is Some && versions[i].set->0@ == id
                        && versions[i].filed_as@ == name;
                if i < n {
                    assert(rest[i] == versions[i]);
                } else {
                    assert(b[b.len() - 1] == name);
                }
            }
            if b.contains(name) {
                let m = choose|m: int| 0 <= m < b.len() && b[m] == name;
                if m < e.len() {
                    assert(e[m] == name);
                }
            }
        }
    }
}

/// What a walk says about itself: that it stopped short, and how many
/// entries it passed over.
pub open spec fn walk_aside(stopped_short: bool, unclaimed: nat) -> Seq<char> {
    (if stopped_short {
        "\n  history: the walk stopped with days unread, so this is part of what is there rather than all of it"@
    } else {
        Seq::empty()
    }) + (if unclaimed > 0 {
        "\n  history: "@ + decimal(unclaimed) + " entr"@ + (if unclaimed == 1 {
            "y"@
        } else {
            "ies"@
        }) + " under `history/` that this layout does not claim "@ + (if unclaimed == 1 {
            "was"@
        } else {
            "were"@
        }) + " passed over"@
    } else {
        Seq::empty()
    })
}

/// The `history` scope where the history could not be walked: no rows, and
/// why, so that it does not look like a Set with no versions.
pub open spec fn walk_refused_text(why: Seq<char>) -> Seq<char> {
    "\n  history: "@ + why + " — so this scope lists nothing"@
}

/// The `history` scope where the walk failed, for this reason.
pub fn walk_refused(why: &str) -> (r: Walked)
    ensures
        r.rows@.len() == 0,
        r.said@ == walk_refused_text(why@),
{
    let mut said = String::from_str("\n  history: ");
    said.append(why);
    said.append(" — so this scope lists nothing");
    Walked { rows: Vec::new(), said }
}

/// Whether a Set is filed under `set`, for an optional set.
fn filed_under(set: &Option<String>, id: &str) -> (r: bool)
    ensures
        r == match set {
            Some(s) => s@ == id@,
            None => false,
        },
{
    match set {
        Some(s) => same_text(s.as_str(), id),
        None => false,
    }
}

/// The `history` scope for the Set `id`, off what a walk found.
pub fn walked(found: &History, id: &str) -> (r: Walked)
    ensures
        texts(r.rows@) == history_of(found.versions@, id@),
        r.said@ == walk_aside(found.stopped_short, found.unclaimed as nat),
{
    let mut rows: Vec<String> = Vec::new();
    let mut i: usize = 0;
    while i < found.versions.len()
        invariant
            i <= found.versions@.len(),
            texts(rows@) == history_of(found.versions@.take(i as int), id@),
        decreases found.versions.len() - i,
    {
        let v = &found.versions[i];
        proof {
            let next = found.versions@.take(i + 1);
            assert(next.drop_last() =~= found.versions@.take(i as int));
            assert(next.last() == found.versions@[i as int]);
        }
        if filed_under(&v.set, id) {
            let ghost was = texts(rows@);
            rows.push(v.filed_as.clone());
            assert(texts(rows@) =~= was.push(v.filed_as@));
        }
        i += 1;
    }
    assert(found.versions@.take(i as int) =~= found.versions@);
    let mut said = String::new();
    if found.stopped_short {
        said.append(
            "\n  history: the walk stopped with days unread, so this is part of what is there rather than all of it",
        );
    }
    if found.unclaimed > 0 {
        said.append("\n  history: ");
        let n = numeral(found.unclaimed as u64);
        said.append(n.as_str());
        said.append(" entr");
        if found.unclaimed == 1 {
            said.append("y");
        } else {
            said.append("ies");
        }
        said.append(" under `history/` that this layout does not claim ");
        if found.unclaimed == 1 {
            said.append("was");
        } else {
            said.append("were");
        }
        said.append(" passed over");
    }
    Walked { rows, said }
}

/// Whether version `i` is one of `id`'s filed as `picked`.
pub open spec fn picked_at(versions: Seq<Version>, id: Seq<char>, picked: Seq<char>, i: int) -> bool {
    0 <= i < versions.len() && of_set(versions[i], id) && versions[i].filed_as@ == picked
}

/// Whether version `i` is one of `id`'s versions of the node at `index` of
/// the layer filed as `layer`.
pub open spec fn of_node(versions: Seq<Version>, id: Seq<char>, layer: Seq<char>, index: int, i: int) -> bool {
    0 <= i < versions.len() && of_set(versions[i], id) && versions[i].layer@ == layer
        && versions[i].index == index
}

/// How many of the first `n` versions are versions of that node.
pub open spec fn node_versions(versions: Seq<Version>, id: Seq<char>, layer: Seq<char>, index: int, n: int) -> nat
    decreases n,
{
    if n <= 0 {
        0
    } else {
        node_versions(versions, id, layer, index, n - 1) + (if of_node(versions, id, layer, index, n - 1) {
            1nat
        } else {
            0nat
        })
    }
}

/// The refusal of a picked name that is none of `id`'s versions.
pub open spec fn not_picked_text(picked: Seq<char>, id: Seq<char>, letter: Seq<char>) -> Seq<char> {
    "  put back: `"@ + picked + "` is not one of `"@ + id + "`'s versions in the last "@ + decimal(
        HISTORY_MOST as nat,
    )
        + " this store wrote — a day directory an operator deleted by hand is the ordinary way that happens, since `rm -rf history/YYYY/MM` is the whole of the retention policy; nothing moved, and deck "@
        + letter + " is still playing `"@ + id + "`"@
}

/// The refusal of a step back from a node with no earlier version.
pub open spec fn no_step_back_text(letter: Seq<char>, addr: Seq<char>, found: nat, id: Seq<char>) -> Seq<char> {
    "  put back: deck "@ + letter + " "@ + addr + " has "@ + (if found == 0 {
        "no version"@
    } else {
        "one version"@
    }) + " in `"@ + id
        + "`'s history, so there is nothing before what it is playing to step back to — the history keeps every version that compiled, and this node has only ever had the one. Nothing moved."@
}

/// Which version a put-back on deck `letter`, playing the Set `id`, lands:
/// for a picked name, the most recent of `id`'s versions filed as it; for a
/// step back from a node, the version before the one it is running — the
/// second of that node's versions, most recent first. `layer` is the name
/// the history files that node's layer under. Where there is no such version
/// the answer is the refusal that says why.
#[verifier::loop_isolation(false)]
pub fn chosen_version(
    versions: &[Version],
    id: &str,
    revision: &Revision,
    layer: &str,
    letter: &str,
) -> (r: Result<usize, String>)
    ensures
        match *revision {
            Revision::Picked(picked) => {
                &&& r matches Ok(i) ==> picked_at(versions@, id@, picked@, i as int) && forall|j: int|
                    0 <= j < i ==> !picked_at(versions@, id@, picked@, j)
                &&& r matches Err(e) ==> e@ == not_picked_text(picked@, id@, letter@) && forall|j: int|
                    !picked_at(versions@, id@, picked@, j)
            },
            Revision::Previous(node) => {
                &&& r matches Ok(i) ==> of_node(versions@, id@, layer@, node.index as int, i as int)
                    && node_versions(versions@, id@, layer@, node.index as int, i as int) == 1
                &&& r matches Err(e) ==> node_versions(
                    versions@,
                    id@,
                    layer@,
                    node.index as int,
                    versions@.len() as int,
                ) <= 1 && e@ == no_step_back_text(
                    letter@,
                    address_of(ir_of(node.layer), node.index as nat),
                    node_versions(versions@, id@, layer@, node.index as int, versions@.len() as int),
                    id@,
                )
            },
        },
{
    match revision {
        Revision::Picked(picked) => {
            let mut i: usize = 0;
            while i < versions.len()
                invariant
                    i <= versions@.len(),
                    forall|j: int| 0 <= j < i ==> !picked_at(versions@, id@, picked@, j),
                decreases versions.len() - i,
            {
                if filed_under(&versions[i].set, id) && same_text(versions[i].filed_as.as_str(), picked.as_str()) {
                    return Ok(i);
                }
                i += 1;
            }
            let mut e = String::from_str("  put back: `");
            e.append(picked.as_str());
            e.append("` is not one of `");
            e.append(id);
            e.append("`'s versions in the last ");
            let most = numeral(HISTORY_MOST as u64);
            e.append(most.as_str());
            e.append(
                " this store wrote — a day directory an operator deleted by hand is the ordinary way that happens, since `rm -rf history/YYYY/MM` is the whole of the retention policy; nothing moved, and deck ",
            );
            e.append(letter);
            e.append(" is still playing `");
            e.append(id);
            e.append("`");
            Err(e)
        },
        Revision::Previous(node) => {
            let want = node.index as usize;
            let mut seen: usize = 0;
            let mut i: usize = 0;
            while i < versions.len()
                invariant
                    i <= versions@.len(),
                    want == node.index as usize,
                    seen == node_versions(versions@, id@, layer@, node.index as int, i as int),
                    seen <= 1,
                decreases versions.len() - i,
            {
                let v = &versions[i];
                if filed_under(&v.set, id) && same_text(v.layer.as_str(), layer) && v.index == want {
                    if seen == 1 {
                        return Ok(i);
                    }
                    seen += 1;
                }
                i += 1;
            }
            let addr = node_addr(ir_layer(node.layer), node.index);
            let mut e = String::from_str("  put back: deck ");
            e.append(letter);
            e.append(" ");
            e.append(addr.as_str());
            e.append(" has ");
            if seen == 0 {
                e.append("no version");
            } else {
                e.append("one version");
            }
            e.append(" in `");
            e.append(id);
            e.append(
                "`'s history, so there is nothing before what it is playing to step back to — the history keeps every version that compiled, and this node has only ever had the one. Nothing moved.",
            );
            Err(e)
        },
    }
}


/// What came of putting a version back onto a deck.
#[derive(Debug)]
pub enum Landing {
    /// The history could not be read, for this reason; no version was
    /// chosen.
    HistoryUnread(String),
    /// The chosen version's file is gone: its path, and why it did not read.
    SourceGone { file: String, why: String },
    /// The deck does not hold the node the version was of, for this reason.
    NoNode(String),
    /// The version was written over the node's file, at this path.
    Written { target: String },
    /// The node's file at this path would not take the write, for this
    /// reason.
    Unwritten { target: String, why: String },
}

/// The line putting `version` back comes to, for deck `letter` playing the
/// Set `id`; `asked` is how the press named what it asked for. Nothing moves
/// but where the version was written.
pub open spec fn landing_text(landing: Landing, letter: Seq<char>, id: Seq<char>, asked: Seq<char>, version: Version) -> Seq<char> {
    "  put back: "@ + match landing {
        Landing::HistoryUnread(why) => "the edit history could not be read: "@ + why@
            + " — nothing moved, and what is on deck "@ + letter + " is still running"@,
        Landing::SourceGone { file, why } => file@ + ": "@ + why@
            + " — the row is a name and the file behind it is gone, so nothing moved and deck "@
            + letter + " is still playing `"@ + id + "`"@,
        Landing::NoNode(why) => "deck "@ + letter + " does not hold the node "@ + asked
            + " was a version of — "@ + why@ + "; `"@ + id
            + "` has been edited since, or this version came off another slot. Nothing moved."@,
        Landing::Written { target } => "deck "@ + letter + " "@ + version.layer@ + ":"@
            + decimal(version.index as nat) + " <- `"@ + version.filed_as@ + "` -> written into "@
            + target@
            + "; the worker builds it and the budget judges it, and the version it replaces is kept because the rebuild compiles it"@,
        Landing::Unwritten { target, why } => target@ + ": "@ + why@
            + " — nothing moved, and what is on deck "@ + letter + " is still running"@,
    }
}

/// [`landing_text`].
pub fn put_back_said(landing: &Landing, letter: &str, id: &str, asked: &str, version: &Version) -> (r: String)
    ensures
        r@ == landing_text(*landing, letter@, id@, asked@, *version),
{
    let mut t = String::from_str("  put back: ");
    match landing {
        Landing::HistoryUnread(why) => {
            t.append("the edit history could not be read: ");
            t.append(why.as_str());
            t.append(" — nothing moved, and what is on deck ");
            t.append(letter);
            t.append(" is still running");
        },
        Landing::SourceGone { file, why } => {
            t.append(file.as_str());
            t.append(": ");
            t.append(why.as_str());
            t.append(" — the row is a name and the file behind it is gone, so nothing moved and deck ");
            t.append(letter);
            t.append(" is still playing `");
            t.append(id);
            t.append("`");
        },
        Landing::NoNode(why) => {
            t.append("deck ");
            t.append(letter);
            t.append(" does not hold the node ");
            t.append(asked);
            t.append(" was a version of — ");
            t.append(why.as_str());
            t.append("; `");
            t.append(id);
            t.append("` has been edited since, or this version came off another slot. Nothing moved.");
        },
        Landing::Written { target } => {
            t.append("deck ");
            t.append(letter);
            t.append(" ");
            t.append(version.layer.as_str());
            t.append(":");
            let n = numeral(version.index as u64);
            t.append(n.as_str());
            t.append(" <- `");
            t.append(version.filed_as.as_str());
            t.append("` -> written into ");
            t.append(target.as_str());
            t.append(
                "; the worker builds it and the budget judges it, and the version it replaces is kept because the rebuild compiles it",
            );
        },
        Landing::Unwritten { target, why } => {
            t.append(target.as_str());
            t.append(": ");
            t.append(why.as_str());
            t.append(" — nothing moved, and what is on deck ");
            t.append(letter);
            t.append(" is still running");
        },
    }
    t
}

} // verus!
