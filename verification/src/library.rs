//! The Library bay: what its scopes say when they list nothing, how a
//! reading spells a range, how a narrowing is described, and what a typed
//! arrangement name may hold.
use vstd::prelude::*;

use crate::layer::{asked, asked_of, recorded, recorded_of, OpLayer, StoreLayer};
use crate::order::{arranged, insert_name, listed_before, newest_first, permutes, strictly_sorted, text_before, texts};
use crate::text::{chars_of, lower, lowered, occurs, occurs_in};

verus! {

/// How a declared range is spelled in a reading: `min – max · default`, with
/// `expr` where the default is an expression rather than a number.
pub open spec fn spelled_text(min: Seq<char>, max: Seq<char>, default: Option<Seq<char>>) -> Seq<
    char,
> {
    min + " – "@ + max + " · "@ + match default {
        Some(d) => d,
        None => "expr"@,
    }
}

/// [`spelled_text`].
pub fn spelled(min: &str, max: &str, default: Option<String>) -> (r: String)
    ensures
        r@ == spelled_text(
            min@,
            max@,
            match default {
                Some(d) => Some(d@),
                None => None,
            },
        ),
{
    let mut s = String::from_str(min);
    s.append(" – ");
    s.append(max);
    s.append(" · ");
    match default {
        Some(d) => s.append(d.as_str()),
        None => s.append("expr"),
    }
    s
}

/// What a listing is narrowed by, as the line under it says: a node name it
/// must hold, a layer it must hold a node of, both, or neither (`None`).
pub open spec fn narrowing_text(holds: Option<Seq<char>>, layer: Option<Seq<char>>) -> Option<
    Seq<char>,
> {
    match (holds, layer) {
        (None, None) => None,
        (Some(h), None) => Some("holding a node called `"@ + h + "`"@),
        (None, Some(l)) => Some("holding a "@ + l + " node"@),
        (Some(h), Some(l)) => Some(
            "holding both a node called `"@ + h + "` and a "@ + l + " node"@,
        ),
    }
}

/// The view of an optional text.
pub open spec fn opt_view(t: Option<&str>) -> Option<Seq<char>> {
    match t {
        Some(s) => Some(s@),
        None => None,
    }
}

/// [`narrowing_text`].
pub fn narrowing(holds: Option<&str>, layer: Option<&str>) -> (r: Option<String>)
    ensures
        r matches Some(s) ==> narrowing_text(opt_view(holds), opt_view(layer)) == Some(s@),
        r is None <==> narrowing_text(opt_view(holds), opt_view(layer)) is None,
{
    match (holds, layer) {
        (None, None) => None,
        (Some(h), None) => {
            let mut s = String::from_str("holding a node called `");
            s.append(h);
            s.append("`");
            Some(s)
        },
        (None, Some(l)) => {
            let mut s = String::from_str("holding a ");
            s.append(l);
            s.append(" node");
            Some(s)
        },
        (Some(h), Some(l)) => {
            let mut s = String::from_str("holding both a node called `");
            s.append(h);
            s.append("` and a ");
            s.append(l);
            s.append(" node");
            Some(s)
        },
    }
}

/// What the Library bay is listing.
#[derive(Clone, Copy, Debug, PartialEq, Eq, Structural)]
pub enum Scope {
    AllSets,
    MySets,
    Presets,
    Folder,
    History,
}

/// Why a scope lists nothing, in the words of what would make it list
/// something. `pointed` is whether the bay has a folder to list, and
/// `running` whether the deck the `load` pulldown names is playing a Set.
pub open spec fn why_nothing_text(scope: Scope, pointed: bool, running: bool) -> Seq<char> {
    match scope {
        Scope::AllSets => "this store holds no Sets yet, which is a library nobody has filled: `k` keeps what a deck is playing, and loading a preset leaves one here too"@,
        Scope::MySets => "nothing in this store is starred — `my sets` is the starred subset of `all` and never the listing of it, so press the star at the left of a row under `all` and that Set appears here"@,
        Scope::Presets => "this run found no preset library, or the one it found holds no `.kset` file — `--presets DIR` is what names one, and a directory of `.kir` parts is not a library"@,
        Scope::Folder => if !pointed {
            "no folder has been dropped on this window yet — drag one off the desktop and let go of it anywhere over this window, and this scope lists the Sets in it"@
        } else {
            "the folder this bay is pointed at holds no Set file, which is a directory nobody has put one in: a folder scope lists `.kbset` and `.kset` files, and a directory of `.kir` parts is not a library"@
        },
        Scope::History => if !running {
            "the deck the `load` pulldown names is playing a typed pair rather than a Set, so its versions are filed under no Set at all and a listing narrowed to one matches none of them — aim that pulldown at a deck you have loaded a Set onto, or load one"@
        } else {
            "this Set has no versions yet — every write that compiles is kept, so edit one of its nodes, or let a model write one, and the version it replaced is the first row here"@
        },
    }
}

/// [`why_nothing_text`].
pub fn why_nothing(scope: Scope, pointed: bool, running: bool) -> (r: &'static str)
    ensures
        r@ == why_nothing_text(scope, pointed, running),
{
    match scope {
        Scope::AllSets => "this store holds no Sets yet, which is a library nobody has filled: `k` keeps what a deck is playing, and loading a preset leaves one here too",
        Scope::MySets => "nothing in this store is starred — `my sets` is the starred subset of `all` and never the listing of it, so press the star at the left of a row under `all` and that Set appears here",
        Scope::Presets => "this run found no preset library, or the one it found holds no `.kset` file — `--presets DIR` is what names one, and a directory of `.kir` parts is not a library",
        Scope::Folder => if !pointed {
            "no folder has been dropped on this window yet — drag one off the desktop and let go of it anywhere over this window, and this scope lists the Sets in it"
        } else {
            "the folder this bay is pointed at holds no Set file, which is a directory nobody has put one in: a folder scope lists `.kbset` and `.kset` files, and a directory of `.kir` parts is not a library"
        },
        Scope::History => if !running {
            "the deck the `load` pulldown names is playing a typed pair rather than a Set, so its versions are filed under no Set at all and a listing narrowed to one matches none of them — aim that pulldown at a deck you have loaded a Set onto, or load one"
        } else {
            "this Set has no versions yet — every write that compiles is kept, so edit one of its nodes, or let a model write one, and the version it replaced is the first row here"
        },
    }
}

/// Whether a character may stand in an arrangement's name: an ASCII letter
/// or digit, `-` or `_`.
pub open spec fn name_char(c: char) -> bool {
    ('a' <= c <= 'z') || ('A' <= c <= 'Z') || ('0' <= c <= '9') || c == '-' || c == '_'
}

/// Whether `at` is the first character of `name` that may not stand in an
/// arrangement's name.
pub open spec fn first_bad(name: Seq<char>, at: int) -> bool {
    &&& 0 <= at < name.len()
    &&& !name_char(name[at])
    &&& forall|j: int| 0 <= j < at ==> name_char(name[j])
}

/// The refusal of an empty arrangement name.
pub open spec fn nothing_typed_text() -> Seq<char> {
    "arrangement: nothing was typed, and an arrangement is filed under a name — the default arrangement is the one that has none"@
}

/// The refusal of an arrangement name holding `bad`.
pub open spec fn bad_name_text(name: Seq<char>, bad: char) -> Seq<char> {
    "arrangement: `"@ + name + "` holds `"@ + seq![bad]
        + "`, and an arrangement name is letters, digits, `-` and `_`: it is one path component and it names a file under `<store>/arrangements/`"@
}

/// Whether `name` may be filed as an arrangement, and the refusal where it
/// may not: an empty name, or the first character that is not a letter, a
/// digit, `-` or `_`.
pub fn checked_name(name: &str) -> (r: Result<(), String>)
    ensures
        r is Ok <==> name@.len() > 0 && (forall|i: int| 0 <= i < name@.len() ==> name_char(name@[i])),
        name@.len() == 0 ==> (r matches Err(e) && e@ == nothing_typed_text()),
        forall|at: int| first_bad(name@, at) ==> (r matches Err(e) && e@ == bad_name_text(name@, name@[at])),
        r is Ok ==> forall|i: int|
            #![trigger name@[i]]
            0 <= i < name@.len() ==> {
                let c = name@[i];
                ('a' <= c && c <= 'z') || ('A' <= c && c <= 'Z') || ('0' <= c && c <= '9') || c == '-'
                    || c == '_'
            },
        name@.contains(' ') ==> r is Err,
{
    let chars = chars_of(name);
    if chars.len() == 0 {
        return Err(String::from_str(
            "arrangement: nothing was typed, and an arrangement is filed under a name — the default arrangement is the one that has none",
        ));
    }
    let mut i: usize = 0;
    while i < chars.len()
        invariant
            chars@ == name@,
            i <= chars@.len(),
            forall|j: int| 0 <= j < i ==> name_char(name@[j]),
        decreases chars.len() - i,
    {
        let c = chars[i];
        let ok = ('a' <= c && c <= 'z') || ('A' <= c && c <= 'Z') || ('0' <= c && c <= '9') || c
            == '-' || c == '_';
        if !ok {
            assert(first_bad(name@, i as int));
            assert forall|at: int| first_bad(name@, at) implies at == i by {
                if at < i {
                    assert(name_char(name@[at]));
                }
                if at > i {
                    assert(name_char(name@[i as int]));
                }
            }
            let bad = name.substring_char(i, i + 1);
            assert(bad@ =~= seq![c]);
            let mut e = String::from_str("arrangement: `");
            e.append(name);
            e.append("` holds `");
            e.append(bad);
            e.append(
                "`, and an arrangement name is letters, digits, `-` and `_`: it is one path component and it names a file under `<store>/arrangements/`",
            );
            return Err(e);
        }
        i += 1;
    }
    Ok(())
}

/// A name an arrangement may be filed under is one path component and no
/// more: it holds no separator and no dot, so `..`, `a/b` and `/etc` never
/// reach the store — whatever [`checked_name`] accepts names a file inside
/// `<store>/arrangements/`.
pub proof fn law_an_accepted_name_is_one_path_component(name: Seq<char>)
    requires
        name.len() > 0,
        forall|i: int| 0 <= i < name.len() ==> name_char(name[i]),
    ensures
        !name.contains('/'),
        !name.contains('\\'),
        !name.contains('.'),
{
    assert forall|c: char| name.contains(c) implies name_char(c) by {
        let i = choose|i: int| 0 <= i < name.len() && name[i] == c;
    }
}

/// An accepted arrangement name is plain ASCII: each of its characters is
/// an ASCII letter, an ASCII digit, `-` or `_`, so it holds no space, no
/// other whitespace and nothing outside ASCII.
pub proof fn law_an_accepted_name_is_ascii_letters_digits_dash_and_underscore(name: Seq<char>)
    requires
        name.len() > 0,
        forall|i: int| 0 <= i < name.len() ==> name_char(name[i]),
    ensures
        forall|i: int|
            #![trigger name[i]]
            0 <= i < name.len() ==> {
                let c = name[i];
                ('a' <= c && c <= 'z') || ('A' <= c && c <= 'Z') || ('0' <= c && c <= '9') || c
                    == '-' || c == '_'
            },
        forall|i: int|
            0 <= i < name.len() ==> name[i] != ' ' && name[i] != '\t' && name[i] != '\n'
                && (name[i] as u32) < 128,
{
}

/// A Set file a listing found: the id it files under and where it is (the
/// path as it is displayed).
#[derive(Debug)]
pub struct FileRow {
    pub id: String,
    pub path: String,
}

/// The ids a folder scope lists, in the order its files were found.
pub fn folder_listing(rows: &[FileRow]) -> (r: Vec<String>)
    ensures
        r@.len() == rows@.len(),
        forall|i: int| 0 <= i < rows@.len() ==> r@[i]@ == rows@[i].id@,
{
    let mut out: Vec<String> = Vec::new();
    let mut i: usize = 0;
    while i < rows.len()
        invariant
            i <= rows@.len(),
            out@.len() == i,
            forall|j: int| 0 <= j < i ==> out@[j]@ == rows@[j].id@,
        decreases rows.len() - i,
    {
        out.push(rows[i].id.clone());
        i += 1;
    }
    out
}

/// What a library row is badged with: the layers it holds a node of, and
/// whether it is a procedure rather than a Set.
#[derive(Debug)]
pub struct RowKind {
    pub badges: Vec<OpLayer>,
    pub procedure: bool,
}

/// A Set's badges: the layer of each of its nodes, each once, in the order
/// the nodes first show it.
pub open spec fn badges_of(layers: Seq<StoreLayer>) -> Seq<OpLayer>
    decreases layers.len(),
{
    if layers.len() == 0 {
        Seq::empty()
    } else {
        let earlier = badges_of(layers.drop_last());
        let layer = asked_of(layers.last());
        if earlier.contains(layer) {
            earlier
        } else {
            earlier.push(layer)
        }
    }
}

/// A node of a Set, as a summary names it: its layer and its name.
#[derive(Debug)]
pub struct NodeSummary {
    pub layer: StoreLayer,
    pub name: String,
}

/// The layers of some nodes, in order.
pub open spec fn layers_of(nodes: Seq<NodeSummary>) -> Seq<StoreLayer> {
    nodes.map_values(|n: NodeSummary| n.layer)
}

/// A Set's row in the Library bay.
pub fn set_row(nodes: &[NodeSummary]) -> (r: RowKind)
    ensures
        r.badges@ == badges_of(layers_of(nodes@)),
        !r.procedure,
{
    let mut badges: Vec<OpLayer> = Vec::new();
    let mut i: usize = 0;
    while i < nodes.len()
        invariant
            i <= nodes@.len(),
            badges@ == badges_of(layers_of(nodes@).take(i as int)),
        decreases nodes.len() - i,
    {
        let layer = asked(nodes[i].layer);
        let mut seen = false;
        let mut j: usize = 0;
        while j < badges.len()
            invariant
                j <= badges@.len(),
                seen == (exists|k: int| 0 <= k < j && badges@[k] == layer),
            decreases badges.len() - j,
        {
            if badges[j] == layer {
                seen = true;
            }
            j += 1;
        }
        proof {
            let next = layers_of(nodes@).take(i + 1);
            assert(next.drop_last() =~= layers_of(nodes@).take(i as int));
            assert(next.last() == nodes@[i as int].layer);
            if seen {
                let k = choose|k: int| 0 <= k < j && badges@[k] == layer;
                assert(badges@.contains(layer));
            } else {
                assert(!badges@.contains(layer));
            }
        }
        if !seen {
            badges.push(layer);
        }
        i += 1;
    }
    assert(layers_of(nodes@).take(i as int) =~= layers_of(nodes@));
    RowKind { badges, procedure: false }
}

/// A Set's badges name each layer once, and name every layer it holds a node
/// of and no other.
pub proof fn law_badges_once_each(layers: Seq<StoreLayer>)
    ensures
        badges_of(layers).no_duplicates(),
        forall|l: OpLayer| badges_of(layers).contains(l) <==> exists|i: int|
            0 <= i < layers.len() && asked_of(layers[i]) == l,
    decreases layers.len(),
{
    if layers.len() > 0 {
        let rest = layers.drop_last();
        let e = badges_of(rest);
        let x = asked_of(layers.last());
        law_badges_once_each(rest);
        assert forall|l: OpLayer| badges_of(layers).contains(l) implies exists|i: int|
            0 <= i < layers.len() && asked_of(layers[i]) == l by {
            let b = badges_of(layers);
            let k = choose|k: int| 0 <= k < b.len() && b[k] == l;
            if k < e.len() {
                assert(e[k] == l);
                assert(e.contains(l));
                let i = choose|i: int| 0 <= i < rest.len() && asked_of(rest[i]) == l;
                assert(layers[i] == rest[i]);
            } else {
                assert(l == x);
                assert(asked_of(layers[layers.len() - 1]) == l);
            }
        }
        assert forall|l: OpLayer| (exists|i: int| 0 <= i < layers.len() && asked_of(layers[i]) == l)
            implies badges_of(layers).contains(l) by {
            let i = choose|i: int| 0 <= i < layers.len() && asked_of(layers[i]) == l;
            let b = badges_of(layers);
            if i < layers.len() - 1 {
                assert(rest[i] == layers[i]);
                assert(e.contains(l));
                let k = choose|k: int| 0 <= k < e.len() && e[k] == l;
                assert(b[k] == l);
            } else if e.contains(x) {
                assert(l == x);
            } else {
                assert(b[e.len() as int] == x);
            }
        }
    }
}

/// A kept procedure's row: badged with the layer its `kind` line declares,
/// if it declares one.
pub fn kept_row(kind: Option<OpLayer>) -> (r: RowKind)
    ensures
        r.procedure,
        match kind {
            Some(l) => r.badges@ == seq![l],
            None => r.badges@.len() == 0,
        },
{
    let mut badges: Vec<OpLayer> = Vec::new();
    if let Some(l) = kind {
        badges.push(l);
    }
    RowKind { badges, procedure: true }
}

/// A Set the store holds, as a listing reads it: its id, when it was written
/// (as a count the clock orders, such as nanoseconds since the epoch), and
/// its nodes.
#[derive(Debug)]
pub struct SetSummary {
    pub id: String,
    pub written: u64,
    pub nodes: Vec<NodeSummary>,
}

/// Whether some node of some Set is called `name`.
pub open spec fn names_a_node(sets: Seq<SetSummary>, name: Seq<char>) -> bool {
    exists|s: int, n: int|
        0 <= s < sets.len() && 0 <= n < sets[s].nodes@.len() && #[trigger] sets[s].nodes@[n].name@
            == name
}

/// What the `holds` field offers: every node name any Set holds, once each,
/// in order.
pub fn holds_choices(sets: &[SetSummary]) -> (r: Vec<String>)
    ensures
        strictly_sorted(texts(r@)),
        forall|t: Seq<char>| #[trigger] texts(r@).contains(t) <==> names_a_node(sets@, t),
{
    let mut out: Vec<String> = Vec::new();
    let mut s: usize = 0;
    while s < sets.len()
        invariant
            s <= sets@.len(),
            strictly_sorted(texts(out@)),
            forall|t: Seq<char>| #[trigger] texts(out@).contains(t) <==> names_a_node(sets@.take(s as int), t),
        decreases sets.len() - s,
    {
        let nodes = &sets[s].nodes;
        let mut n: usize = 0;
        while n < nodes.len()
            invariant
                s < sets@.len(),
                nodes == sets@[s as int].nodes,
                n <= nodes@.len(),
                strictly_sorted(texts(out@)),
                forall|t: Seq<char>| #[trigger] texts(out@).contains(t) <==> (names_a_node(sets@.take(s as int), t)
                    || exists|m: int| 0 <= m < n && nodes@[m].name@ == t),
            decreases nodes.len() - n,
        {
            insert_name(&mut out, nodes[n].name.as_str());
            n += 1;
        }
        proof {
            let next = sets@.take(s + 1);
            assert forall|t: Seq<char>| #[trigger] texts(out@).contains(t) <==> names_a_node(next, t) by {
                if names_a_node(sets@.take(s as int), t) {
                    let (a, b) = choose|a: int, b: int|
                        0 <= a < s && 0 <= b < sets@.take(s as int)[a].nodes@.len()
                            && #[trigger] sets@.take(s as int)[a].nodes@[b].name@ == t;
                    assert(next[a] == sets@[a]);
                    assert(next[a].nodes@[b].name@ == t);
                }
                if exists|m: int| 0 <= m < n && nodes@[m].name@ == t {
                    let m = choose|m: int| 0 <= m < n && nodes@[m].name@ == t;
                    assert(next[s as int].nodes@[m].name@ == t);
                }
                if names_a_node(next, t) {
                    let (a, b) = choose|a: int, b: int|
                        0 <= a < next.len() && 0 <= b < next[a].nodes@.len()
                            && #[trigger] next[a].nodes@[b].name@ == t;
                    if a < s {
                        assert(sets@.take(s as int)[a].nodes@[b].name@ == t);
                    } else {
                        assert(nodes@[b].name@ == t);
                    }
                }
            }
        }
        s += 1;
    }
    assert(sets@.take(s as int) =~= sets@);
    out
}

/// Whether some node's name holds `holds`, ignoring ASCII case.
pub open spec fn holds_node(nodes: Seq<NodeSummary>, holds: Seq<char>) -> bool {
    exists|n: int| 0 <= n < nodes.len() && occurs_in(lower(holds), lower(#[trigger] nodes[n].name@))
}

/// Whether some node is of layer `layer`.
pub open spec fn has_layer(nodes: Seq<NodeSummary>, layer: OpLayer) -> bool {
    exists|n: int| 0 <= n < nodes.len() && #[trigger] nodes[n].layer == recorded_of(layer)
}

/// Whether a Set survives the listing's narrowing: it holds a node whose
/// name holds `holds` (ignoring ASCII case) where that is asked, and a node
/// of `layer` where that is asked.
pub open spec fn narrows_to(nodes: Seq<NodeSummary>, holds: Option<Seq<char>>, layer: Option<OpLayer>) -> bool {
    &&& match holds {
        Some(h) => holds_node(nodes, h),
        None => true,
    }
    &&& match layer {
        Some(l) => has_layer(nodes, l),
        None => true,
    }
}

/// [`narrows_to`], for a Set.
pub fn narrows(set: &SetSummary, holds: Option<&str>, layer: Option<OpLayer>) -> (r: bool)
    ensures
        r == narrows_to(set.nodes@, opt_view(holds), layer),
{
    let nodes = &set.nodes;
    let held = match holds {
        Some(h) => {
            let want = lowered(&chars_of(h));
            let mut found = false;
            let mut n: usize = 0;
            while n < nodes.len() && !found
                invariant
                    n <= nodes@.len(),
                    want@ == lower(h@),
                    found ==> holds_node(nodes@, h@),
                    !found ==> forall|m: int| 0 <= m < n ==> !occurs_in(lower(h@), lower(#[trigger] nodes@[m].name@)),
                decreases nodes.len() - n + (if found { 0int } else { 1int }),
            {
                let name = lowered(&chars_of(nodes[n].name.as_str()));
                if occurs(&want, &name) {
                    found = true;
                } else {
                    n += 1;
                }
            }
            found
        },
        None => true,
    };
    if !held {
        return false;
    }
    match layer {
        Some(l) => {
            let want = recorded(l);
            let mut seen = false;
            let mut n: usize = 0;
            while n < nodes.len() && !seen
                invariant
                    n <= nodes@.len(),
                    want == recorded_of(l),
                    seen ==> has_layer(nodes@, l),
                    !seen ==> forall|m: int| 0 <= m < n ==> #[trigger] nodes@[m].layer != want,
                decreases nodes.len() - n + (if seen { 0int } else { 1int }),
            {
                if nodes[n].layer == want {
                    assert(nodes@[n as int].layer == recorded_of(l));
                    seen = true;
                } else {
                    n += 1;
                }
            }
            seen
        },
        None => true,
    }
}

/// When each Set was written, in order.
pub open spec fn set_times(sets: Seq<SetSummary>) -> Seq<u64> {
    sets.map_values(|s: SetSummary| s.written)
}

/// Each Set's id, in order.
pub open spec fn set_ids(sets: Seq<SetSummary>) -> Seq<Seq<char>> {
    sets.map_values(|s: SetSummary| s.id@)
}

/// Whether `order` is the newest-first order of entries written at
/// `written` and named `names`.
pub open spec fn newest_order(written: Seq<u64>, names: Seq<Seq<char>>, order: Seq<usize>) -> bool {
    &&& permutes(order, written.len() as int)
    &&& forall|a: int, b: int|
        0 <= a < b < order.len() ==> listed_before(written, names, order[a] as int, order[b] as int)
}

/// The Sets a store holds, most recent first and by id where two were
/// written at the same moment — the order the Library bay and the model's
/// `list_sets` both answer in.
pub fn library(sets: Vec<SetSummary>) -> (r: Vec<SetSummary>)
    ensures
        exists|order: Seq<usize>|
            newest_order(set_times(sets@), set_ids(sets@), order) && r@.len() == sets@.len() && (
            forall|i: int| 0 <= i < r@.len() ==> #[trigger] r@[i] == sets@[order[i] as int]),
        forall|i: int, j: int| 0 <= i < j < r@.len() ==> r@[i].written >= r@[j].written,
        forall|i: int, j: int|
            0 <= i < j < r@.len() && r@[i].written == r@[j].written ==> !text_before(
                r@[j].id@,
                r@[i].id@,
            ),
{
    let mut written: Vec<u64> = Vec::new();
    let mut ids: Vec<String> = Vec::new();
    let mut i: usize = 0;
    while i < sets.len()
        invariant
            i <= sets@.len(),
            written@ == set_times(sets@).take(i as int),
            texts(ids@) == set_ids(sets@).take(i as int),
        decreases sets.len() - i,
    {
        let ghost was = texts(ids@);
        written.push(sets[i].written);
        ids.push(sets[i].id.clone());
        assert(texts(ids@) =~= was.push(sets@[i as int].id@));
        i += 1;
        assert(written@ =~= set_times(sets@).take(i as int));
        assert(texts(ids@) =~= set_ids(sets@).take(i as int));
    }
    assert(written@ =~= set_times(sets@));
    assert(texts(ids@) =~= set_ids(sets@));
    let order = newest_first(written.as_slice(), ids.as_slice());
    let ghost o = order@;
    let r = arranged(sets, order.as_slice());
    assert(newest_order(set_times(sets@), set_ids(sets@), o));
    proof {
        assert forall|i: int, j: int|
            0 <= i < j < r@.len() && r@[i].written == r@[j].written implies !text_before(
                r@[j].id@,
                r@[i].id@,
            ) by {
            let (a, b) = (o[i] as int, o[j] as int);
            assert(r@[i] == sets@[a] && r@[j] == sets@[b]);
            assert(listed_before(set_times(sets@), set_ids(sets@), a, b));
            crate::order::lemma_before_total(sets@[a].id@, sets@[b].id@);
            crate::order::lemma_before_irreflexive(sets@[a].id@);
        }
        assert forall|i: int, j: int| 0 <= i < j < r@.len() implies r@[i].written >= r@[j].written by {
            let (a, b) = (o[i] as int, o[j] as int);
            assert(r@[i] == sets@[a] && r@[j] == sets@[b]);
            assert(listed_before(set_times(sets@), set_ids(sets@), a, b));
        }
    }
    r
}

/// A procedure the store keeps: its name, when it was written (as a count
/// the clock orders), and the layer its `kind` line declares, if it declares
/// one.
#[derive(Debug)]
pub struct ListedProcedure {
    pub name: String,
    pub written: u64,
    pub kind: Option<OpLayer>,
}

/// When each procedure was written, in order.
pub open spec fn kept_times(kept: Seq<ListedProcedure>) -> Seq<u64> {
    kept.map_values(|k: ListedProcedure| k.written)
}

/// Each procedure's name, in order.
pub open spec fn kept_names(kept: Seq<ListedProcedure>) -> Seq<Seq<char>> {
    kept.map_values(|k: ListedProcedure| k.name@)
}

/// The procedures a store keeps, most recent first and by name where two
/// were written at the same moment.
pub fn procedures(kept: Vec<ListedProcedure>) -> (r: Vec<ListedProcedure>)
    ensures
        exists|order: Seq<usize>|
            newest_order(kept_times(kept@), kept_names(kept@), order) && r@.len() == kept@.len() && (
            forall|i: int| 0 <= i < r@.len() ==> #[trigger] r@[i] == kept@[order[i] as int]),
        forall|i: int, j: int| 0 <= i < j < r@.len() ==> r@[i].written >= r@[j].written,
        forall|i: int, j: int|
            0 <= i < j < r@.len() && r@[i].written == r@[j].written ==> !text_before(
                r@[j].name@,
                r@[i].name@,
            ),
{
    let mut written: Vec<u64> = Vec::new();
    let mut names: Vec<String> = Vec::new();
    let mut i: usize = 0;
    while i < kept.len()
        invariant
            i <= kept@.len(),
            written@ == kept_times(kept@).take(i as int),
            texts(names@) == kept_names(kept@).take(i as int),
        decreases kept.len() - i,
    {
        let ghost was = texts(names@);
        written.push(kept[i].written);
        names.push(kept[i].name.clone());
        assert(texts(names@) =~= was.push(kept@[i as int].name@));
        i += 1;
        assert(written@ =~= kept_times(kept@).take(i as int));
        assert(texts(names@) =~= kept_names(kept@).take(i as int));
    }
    assert(written@ =~= kept_times(kept@));
    assert(texts(names@) =~= kept_names(kept@));
    let order = newest_first(written.as_slice(), names.as_slice());
    let ghost o = order@;
    let r = arranged(kept, order.as_slice());
    assert(newest_order(kept_times(kept@), kept_names(kept@), o));
    proof {
        assert forall|i: int, j: int|
            0 <= i < j < r@.len() && r@[i].written == r@[j].written implies !text_before(
                r@[j].name@,
                r@[i].name@,
            ) by {
            let (a, b) = (o[i] as int, o[j] as int);
            assert(r@[i] == kept@[a] && r@[j] == kept@[b]);
            assert(listed_before(kept_times(kept@), kept_names(kept@), a, b));
            crate::order::lemma_before_total(kept@[a].name@, kept@[b].name@);
            crate::order::lemma_before_irreflexive(kept@[a].name@);
        }
        assert forall|i: int, j: int| 0 <= i < j < r@.len() implies r@[i].written >= r@[j].written by {
            let (a, b) = (o[i] as int, o[j] as int);
            assert(r@[i] == kept@[a] && r@[j] == kept@[b]);
            assert(listed_before(kept_times(kept@), kept_names(kept@), a, b));
        }
    }
    r
}


/// What went wrong reading a library the bay lists.
#[derive(Clone, Debug)]
pub enum Unread {
    /// There is no store at the root; the bay lists nothing.
    NoStore,
    /// The store's Sets could not be listed, for this reason.
    SetsUnlisted(String),
    /// The store could not be opened, for this reason.
    StoreUnopened(String),
    /// The store's directory of procedures (`dir`) could not be listed.
    ProceduresUnlisted { dir: String, why: String },
    /// The store's favourites could not be read, for this reason.
    Favourites(String),
    /// The store's arrangements could not be listed, for this reason.
    ArrangementsUnlisted(String),
    /// The preset library could not be listed: its own sentence, which names
    /// the path and how it was arrived at.
    PresetsUnlisted(String),
    /// The preset library's procedures could not be listed: its own sentence.
    ShippedUnlisted(String),
    /// The folder the bay is pointed at could not be listed.
    FolderUnlisted(String),
}

/// The line said when a library could not be read, so that an empty list
/// that could not be read does not look like a library nobody has filled;
/// `root` is where it was read from, as displayed.
pub open spec fn unread_text(root: Seq<char>, unread: Unread) -> Seq<char> {
    match unread {
        Unread::NoStore => "library: no store at "@ + root + ", so the bay lists nothing"@,
        Unread::SetsUnlisted(e) => "library: "@ + root + " could not be listed: "@ + e@,
        Unread::StoreUnopened(e) => "library: "@ + root + " could not be opened: "@ + e@,
        Unread::ProceduresUnlisted { dir, why } => "library: "@ + root + "/"@ + dir@
            + " could not be listed: "@ + why@,
        Unread::Favourites(e) => "library: "@ + root + " keeps no readable favourites: "@ + e@,
        Unread::ArrangementsUnlisted(e) => "arrangements: "@ + root + " could not be listed: "@ + e@,
        Unread::PresetsUnlisted(why) => "presets: "@ + why@,
        Unread::ShippedUnlisted(why) => "library: "@ + why@,
        Unread::FolderUnlisted(why) => "  folder: `"@ + root + "` could not be listed: "@ + why@,
    }
}

/// [`unread_text`].
pub fn unread_said(root: &str, unread: &Unread) -> (r: String)
    ensures
        r@ == unread_text(root@, *unread),
{
    match unread {
        Unread::NoStore => {
            let mut t = String::from_str("library: no store at ");
            t.append(root);
            t.append(", so the bay lists nothing");
            t
        },
        Unread::SetsUnlisted(e) => {
            let mut t = String::from_str("library: ");
            t.append(root);
            t.append(" could not be listed: ");
            t.append(e.as_str());
            t
        },
        Unread::StoreUnopened(e) => {
            let mut t = String::from_str("library: ");
            t.append(root);
            t.append(" could not be opened: ");
            t.append(e.as_str());
            t
        },
        Unread::ProceduresUnlisted { dir, why } => {
            let mut t = String::from_str("library: ");
            t.append(root);
            t.append("/");
            t.append(dir.as_str());
            t.append(" could not be listed: ");
            t.append(why.as_str());
            t
        },
        Unread::Favourites(e) => {
            let mut t = String::from_str("library: ");
            t.append(root);
            t.append(" keeps no readable favourites: ");
            t.append(e.as_str());
            t
        },
        Unread::ArrangementsUnlisted(e) => {
            let mut t = String::from_str("arrangements: ");
            t.append(root);
            t.append(" could not be listed: ");
            t.append(e.as_str());
            t
        },
        Unread::PresetsUnlisted(why) => {
            let mut t = String::from_str("presets: ");
            t.append(why.as_str());
            t
        },
        Unread::ShippedUnlisted(why) => {
            let mut t = String::from_str("library: ");
            t.append(why.as_str());
            t
        },
        Unread::FolderUnlisted(why) => {
            let mut t = String::from_str("  folder: `");
            t.append(root);
            t.append("` could not be listed: ");
            t.append(why.as_str());
            t
        },
    }
}

} // verus!
