//! How an Inspector pane is laid out from what a Set holds: the node each
//! control row sits under, the order the rows come in, the renderers folded
//! under one head, and the inputs a node's `uses` lines offer to rewire.
use vstd::prelude::*;

use crate::inspector::{node_of, node_of_spec, Published};
use crate::layer::{address_of, asked_layer, node_addr, op_of, word_of, Layer, NodeAddress};
use crate::order::texts;
use crate::text::{decimal, deck_letter, letter_of, numeral, same_text};

verus! {

/// A node of a Set as a pane reads it: its name, the address that name
/// resolves to, and the authority level it carries, if one is set.
#[derive(Clone, Debug)]
pub struct SetNode<A> {
    pub name: String,
    pub layer: Layer,
    pub index: u32,
    pub authority: Option<A>,
}

/// One input a node's procedure declares and the node filling it.
#[derive(Clone, Debug)]
pub struct Edge {
    pub node: String,
    pub slot: String,
    pub to: String,
}

/// A `uses` line: the input, the node wired to it, and the other nodes it
/// could be wired to instead.
#[derive(Clone, Debug)]
pub struct Uses {
    pub slot: String,
    pub to: String,
    pub candidates: Vec<String>,
}

impl View for Uses {
    type V = (Seq<char>, Seq<char>, Seq<Seq<char>>);

    open spec fn view(&self) -> (Seq<char>, Seq<char>, Seq<Seq<char>>) {
        (self.slot@, self.to@, texts(self.candidates@))
    }
}

/// The address the name `name` resolves to among `nodes`: the last node
/// carrying that name, and none where no node does.
pub open spec fn named_at<A>(nodes: Seq<SetNode<A>>, name: Seq<char>) -> Option<(Layer, u32)>
    decreases nodes.len(),
{
    if nodes.len() == 0 {
        None
    } else if nodes.last().name@ == name {
        Some((nodes.last().layer, nodes.last().index))
    } else {
        named_at(nodes.drop_last(), name)
    }
}

/// Whether a node could fill an input whose current node is `to`, for the
/// node `node`: it is neither of the two, and its name resolves to the same
/// layer as the input's current node.
pub open spec fn offered<A>(nodes: Seq<SetNode<A>>, name: Seq<char>, node: Seq<char>, to: Seq<char>, kind: Layer) -> bool {
    &&& name != node
    &&& name != to
    &&& named_at(nodes, name) matches Some(at) && at.0 == kind
}

/// The names among `names`, in order, that [`offered`] admits.
pub open spec fn candidates_of<A>(
    nodes: Seq<SetNode<A>>,
    names: Seq<SetNode<A>>,
    node: Seq<char>,
    to: Seq<char>,
    kind: Layer,
) -> Seq<Seq<char>>
    decreases names.len(),
{
    if names.len() == 0 {
        Seq::empty()
    } else {
        candidates_of(nodes, names.drop_last(), node, to, kind) + if offered(
            nodes,
            names.last().name@,
            node,
            to,
            kind,
        ) {
            seq![names.last().name@]
        } else {
            Seq::empty()
        }
    }
}

/// The `uses` lines of the node `node`: one per edge out of it whose target
/// is a node of this Set, in edge order, each offering every other node on
/// the target's layer.
pub open spec fn uses_spec<A>(nodes: Seq<SetNode<A>>, edges: Seq<Edge>, node: Seq<char>) -> Seq<
    (Seq<char>, Seq<char>, Seq<Seq<char>>),
>
    decreases edges.len(),
{
    if edges.len() == 0 {
        Seq::empty()
    } else {
        let e = edges.last();
        uses_spec(nodes, edges.drop_last(), node) + if e.node@ == node {
            match named_at(nodes, e.to@) {
                Some(at) => seq![(e.slot@, e.to@, candidates_of(nodes, nodes, node, e.to@, at.0))],
                None => Seq::empty(),
            }
        } else {
            Seq::empty()
        }
    }
}

/// No candidate is the declaring node or the node already wired.
proof fn lemma_candidates_exclude<A>(
    nodes: Seq<SetNode<A>>,
    names: Seq<SetNode<A>>,
    node: Seq<char>,
    to: Seq<char>,
    kind: Layer,
)
    ensures
        !candidates_of(nodes, names, node, to, kind).contains(node),
        !candidates_of(nodes, names, node, to, kind).contains(to),
    decreases names.len(),
{
    if names.len() > 0 {
        lemma_candidates_exclude(nodes, names.drop_last(), node, to, kind);
        let before = candidates_of(nodes, names.drop_last(), node, to, kind);
        let all = candidates_of(nodes, names, node, to, kind);
        assert forall|t: Seq<char>| all.contains(t) implies before.contains(t) || (t != node && t != to) by {
            let k = choose|k: int| 0 <= k < all.len() && all[k] == t;
            if k < before.len() {
                assert(before[k] == t);
            }
        }
    }
}

/// A `uses` line never offers the node that declares the input, nor the
/// node already wired to it: the first would be a cycle the build refuses,
/// the second a rewiring that changes nothing.
pub proof fn law_a_uses_line_never_offers_its_own_ends<A>(nodes: Seq<SetNode<A>>, edges: Seq<Edge>, node: Seq<char>)
    ensures
        forall|k: int|
            0 <= k < uses_spec(nodes, edges, node).len() ==> {
                let u = #[trigger] uses_spec(nodes, edges, node)[k];
                !u.2.contains(node) && !u.2.contains(u.1)
            },
    decreases edges.len(),
{
    if edges.len() > 0 {
        law_a_uses_line_never_offers_its_own_ends(nodes, edges.drop_last(), node);
        let before = uses_spec(nodes, edges.drop_last(), node);
        let e = edges.last();
        if e.node@ == node {
            if let Some(at) = named_at(nodes, e.to@) {
                lemma_candidates_exclude(nodes, nodes, node, e.to@, at.0);
            }
        }
        let all = uses_spec(nodes, edges, node);
        assert forall|k: int| 0 <= k < all.len() implies !all[k].2.contains(node) && !all[k].2.contains(all[k].1) by {
            if k < before.len() {
                assert(all[k] == before[k]);
            }
        }
    }
}

/// [`named_at`].
fn find_named<A>(nodes: &[SetNode<A>], name: &str) -> (r: Option<(Layer, u32)>)
    ensures
        r == named_at(nodes@, name@),
{
    let mut i: usize = nodes.len();
    assert(nodes@.take(i as int) =~= nodes@);
    while i > 0
        invariant
            i <= nodes@.len(),
            named_at(nodes@, name@) == named_at(nodes@.take(i as int), name@),
        decreases i,
    {
        let n = &nodes[i - 1];
        assert(nodes@.take(i as int).drop_last() =~= nodes@.take(i - 1));
        if same_text(n.name.as_str(), name) {
            return Some((n.layer, n.index));
        }
        i -= 1;
    }
    None
}

/// The `uses` lines the node `node` draws — see [`uses_spec`].
pub fn uses_of<A>(nodes: &[SetNode<A>], edges: &[Edge], node: &str) -> (r: Vec<Uses>)
    ensures
        r@.map_values(|u: Uses| u@) == uses_spec(nodes@, edges@, node@),
{
    let mut out: Vec<Uses> = Vec::new();
    let mut i: usize = 0;
    while i < edges.len()
        invariant
            i <= edges@.len(),
            out@.map_values(|u: Uses| u@) == uses_spec(nodes@, edges@.take(i as int), node@),
        decreases edges.len() - i,
    {
        let e = &edges[i];
        assert(edges@.take(i + 1).drop_last() =~= edges@.take(i as int));
        assert(edges@.take(i + 1).last() == edges@[i as int]);
        if same_text(e.node.as_str(), node) {
            if let Some(at) = find_named(nodes, e.to.as_str()) {
                let mut candidates: Vec<String> = Vec::new();
                let mut j: usize = 0;
                while j < nodes.len()
                    invariant
                        j <= nodes@.len(),
                        texts(candidates@) == candidates_of(
                            nodes@,
                            nodes@.take(j as int),
                            node@,
                            e.to@,
                            at.0,
                        ),
                    decreases nodes.len() - j,
                {
                    let name = &nodes[j].name;
                    assert(nodes@.take(j + 1).drop_last() =~= nodes@.take(j as int));
                    assert(nodes@.take(j + 1).last() == nodes@[j as int]);
                    if !same_text(name.as_str(), node) && !same_text(name.as_str(), e.to.as_str()) {
                        if let Some(other) = find_named(nodes, name.as_str()) {
                            if other.0 == at.0 {
                                let ghost was = texts(candidates@);
                                candidates.push(name.clone());
                                assert(texts(candidates@) =~= was.push(name@));
                            }
                        }
                    }
                    j += 1;
                }
                assert(nodes@.take(j as int) =~= nodes@);
                let ghost was = out@.map_values(|u: Uses| u@);
                out.push(Uses { slot: e.slot.clone(), to: e.to.clone(), candidates });
                assert(out@.map_values(|u: Uses| u@) =~= was.push(out@.last()@));
            }
        }
        i += 1;
    }
    assert(edges@.take(i as int) =~= edges@);
    out
}

/// The slots the panes show, one per pane in pane order, given the deck
/// each pane is pointed at: a pane pointed at a deck this run has no slot
/// for draws nothing, and the panes after it go with it, since a pane is
/// addressed by its place in the list.
pub open spec fn pane_slots(targets: Seq<u8>, slot_count: nat) -> Seq<u8>
    decreases targets.len(),
{
    if targets.len() == 0 || targets[0] >= slot_count {
        Seq::empty()
    } else {
        seq![targets[0]] + pane_slots(targets.drop_first(), slot_count)
    }
}

/// The panes drawn are the leading panes that point at a slot the run has:
/// each shows the deck it is pointed at, in pane order, and the first pane
/// pointed past the slots, if any, is where the drawing stops.
pub proof fn law_the_panes_drawn_are_the_leading_held_ones(targets: Seq<u8>, slot_count: nat)
    ensures
        pane_slots(targets, slot_count).len() <= targets.len(),
        forall|i: int|
            0 <= i < pane_slots(targets, slot_count).len() ==> #[trigger] pane_slots(targets, slot_count)[i]
                == targets[i] && targets[i] < slot_count,
        pane_slots(targets, slot_count).len() < targets.len() ==> targets[pane_slots(
            targets,
            slot_count,
        ).len() as int] >= slot_count,
    decreases targets.len(),
{
    if targets.len() > 0 && targets[0] < slot_count {
        let rest = targets.drop_first();
        law_the_panes_drawn_are_the_leading_held_ones(rest, slot_count);
        let p = pane_slots(targets, slot_count);
        assert forall|i: int| 0 <= i < p.len() implies #[trigger] p[i] == targets[i] && targets[i] < slot_count by {
            if i > 0 {
                assert(p[i] == pane_slots(rest, slot_count)[i - 1]);
                assert(rest[i - 1] == targets[i]);
            }
        }
        if p.len() < targets.len() {
            assert(rest[pane_slots(rest, slot_count).len() as int] == targets[p.len() as int]);
        }
    }
}

/// [`pane_slots`].
pub fn panes_shown(targets: &[u8], slot_count: usize) -> (r: Vec<u8>)
    ensures
        r@ == pane_slots(targets@, slot_count as nat),
{
    let mut out: Vec<u8> = Vec::new();
    let mut i: usize = 0;
    assert(targets@.skip(0) =~= targets@);
    assert(out@ + pane_slots(targets@, slot_count as nat) =~= pane_slots(targets@, slot_count as nat));
    while i < targets.len() && (targets[i] as usize) < slot_count
        invariant
            i <= targets@.len(),
            pane_slots(targets@, slot_count as nat) == out@ + pane_slots(targets@.skip(i as int), slot_count as nat),
        decreases targets.len() - i,
    {
        assert(targets@.skip(i as int)[0] == targets@[i as int]);
        assert(targets@.skip(i as int).drop_first() =~= targets@.skip(i + 1));
        out.push(targets[i]);
        assert(pane_slots(targets@, slot_count as nat) =~= out@ + pane_slots(targets@.skip(i + 1), slot_count as nat));
        i += 1;
    }
    if i < targets.len() {
        assert(targets@.skip(i as int)[0] == targets@[i as int]);
    }
    assert(pane_slots(targets@.skip(i as int), slot_count as nat) =~= Seq::<u8>::empty());
    assert(out@ + Seq::<u8>::empty() =~= out@);
    out
}

/// The head of a pane: the deck it shows, and the material on that deck as
/// its strip names it.
#[derive(Clone, Debug)]
pub struct PaneHead {
    pub deck: usize,
    pub material: String,
}

/// What a pane's head calls the material on slot `slot`: the strip's name
/// for it (`names`, one per slot), and nothing where there is none.
pub open spec fn material_of(names: Seq<String>, slot: int) -> Seq<char> {
    if 0 <= slot < names.len() {
        names[slot]@
    } else {
        Seq::empty()
    }
}

/// The heads of the panes drawn: one per pane, in pane order, for the panes
/// [`pane_slots`] leaves — each the deck it shows and that deck's material.
pub fn pane_heads(targets: &[u8], slot_count: usize, names: &[String]) -> (r: Vec<PaneHead>)
    ensures
        r@.len() == pane_slots(targets@, slot_count as nat).len(),
        forall|i: int|
            0 <= i < r@.len() ==> (#[trigger] r@[i]).deck == pane_slots(targets@, slot_count as nat)[i]
                && r@[i].material@ == material_of(names@, pane_slots(targets@, slot_count as nat)[i] as int),
{
    let shown = panes_shown(targets, slot_count);
    let mut out: Vec<PaneHead> = Vec::new();
    let mut i: usize = 0;
    while i < shown.len()
        invariant
            i <= shown@.len(),
            shown@ == pane_slots(targets@, slot_count as nat),
            out@.len() == i,
            forall|j: int|
                0 <= j < i ==> (#[trigger] out@[j]).deck == shown@[j] && out@[j].material@ == material_of(
                    names@,
                    shown@[j] as int,
                ),
        decreases shown.len() - i,
    {
        let slot = shown[i] as usize;
        let material = if slot < names.len() {
            names[slot].clone()
        } else {
            String::new()
        };
        out.push(PaneHead { deck: slot, material });
        i += 1;
    }
    out
}

/// A control row of a pane: its number on the interface if it is published
/// (the number a MIDI control is learned against), the control it draws —
/// its place in the published list when numbered and in the declared list
/// when not — and the node it sits under, if it names one.
#[derive(Clone, Copy, Debug, PartialEq, Eq)]
pub struct PaneRow {
    pub ord: Option<usize>,
    pub from: usize,
    pub node: Option<(Layer, u32)>,
}

/// Whether the control `c` is one of `published`: the same address and the
/// same key, which is a control's identity.
pub open spec fn shown_in(published: Seq<(Published, Vec<(Layer, u32)>)>, c: Published) -> bool {
    exists|i: int|
        0 <= i < published.len() && (#[trigger] published[i]).0.at == c.at && published[i].0.key@
            == c.key@
}

/// A row for every published control, numbered from one in interface order.
pub open spec fn numbered_rows(published: Seq<(Published, Vec<(Layer, u32)>)>) -> Seq<PaneRow> {
    Seq::new(
        published.len(),
        |i: int|
            PaneRow {
                ord: Some((i + 1) as usize),
                from: i as usize,
                node: node_of_spec(published[i].1@, published[i].0.at),
            },
    )
}

/// Then a row with no number for every declared control the interface leaves
/// out, in declaration order.
pub open spec fn unplaced_rows(
    published: Seq<(Published, Vec<(Layer, u32)>)>,
    declared: Seq<(Published, Vec<(Layer, u32)>)>,
) -> Seq<PaneRow>
    decreases declared.len(),
{
    if declared.len() == 0 {
        Seq::empty()
    } else {
        unplaced_rows(published, declared.drop_last()) + if shown_in(published, declared.last().0) {
            Seq::empty()
        } else {
            seq![
                PaneRow {
                    ord: None,
                    from: (declared.len() - 1) as usize,
                    node: node_of_spec(declared.last().1@, declared.last().0.at),
                },
            ]
        }
    }
}

/// Whether two optional addresses are the same.
fn same_at(a: Option<(Layer, u32)>, b: Option<(Layer, u32)>) -> (r: bool)
    ensures
        r == (a == b),
{
    match (a, b) {
        (None, None) => true,
        (Some(x), Some(y)) => x.0 == y.0 && x.1 == y.1,
        _ => false,
    }
}

/// The rows of a pane: every published control, numbered, then every
/// declared control that is not published — each with the landing of its key
/// (the nodes declaring it), from which its node is resolved. Also answers
/// how many rows are unnumbered.
pub fn pane_rows(
    published: &[(Published, Vec<(Layer, u32)>)],
    declared: &[(Published, Vec<(Layer, u32)>)],
) -> (r: (Vec<PaneRow>, usize))
    ensures
        r.0@ == numbered_rows(published@) + unplaced_rows(published@, declared@),
        r.1 == unplaced_rows(published@, declared@).len(),
{
    let mut rows: Vec<PaneRow> = Vec::new();
    let mut i: usize = 0;
    while i < published.len()
        invariant
            i <= published@.len(),
            rows@ == numbered_rows(published@).take(i as int),
        decreases published.len() - i,
    {
        let node = node_of(published[i].1.as_slice(), &published[i].0);
        rows.push(PaneRow { ord: Some(i + 1), from: i, node });
        assert(rows@ =~= numbered_rows(published@).take(i + 1));
        i += 1;
    }
    assert(numbered_rows(published@).take(i as int) =~= numbered_rows(published@));
    let ghost numbered = rows@;
    let mut unplaced: usize = 0;
    let mut j: usize = 0;
    while j < declared.len()
        invariant
            j <= declared@.len(),
            rows@ == numbered + unplaced_rows(published@, declared@.take(j as int)),
            unplaced == unplaced_rows(published@, declared@.take(j as int)).len(),
            unplaced <= j,
            numbered == numbered_rows(published@),
        decreases declared.len() - j,
    {
        let c = &declared[j].0;
        assert(declared@.take(j + 1).drop_last() =~= declared@.take(j as int));
        assert(declared@.take(j + 1).last() == declared@[j as int]);
        let mut shown = false;
        let mut k: usize = 0;
        while k < published.len()
            invariant
                k <= published@.len(),
                shown == exists|m: int|
                    0 <= m < k && (#[trigger] published@[m]).0.at == c.at && published@[m].0.key@
                        == c.key@,
            decreases published.len() - k,
        {
            let p = &published[k].0;
            if same_at(p.at, c.at) && same_text(p.key.as_str(), c.key.as_str()) {
                shown = true;
            }
            k += 1;
        }
        if !shown {
            let node = node_of(declared[j].1.as_slice(), c);
            let ghost was = rows@;
            rows.push(PaneRow { ord: None, from: j, node });
            assert(rows@ =~= was.push(rows@.last()));
            unplaced += 1;
        }
        proof {
            if shown {
                assert(shown_in(published@, declared@[j as int].0));
            }
        }
        assert(rows@ =~= numbered + unplaced_rows(published@, declared@.take(j + 1)));
        j += 1;
    }
    assert(declared@.take(j as int) =~= declared@);
    (rows, unplaced)
}

/// The rows that sit under the node `node`, in row order.
pub open spec fn rows_at(rows: Seq<PaneRow>, node: (Layer, u32)) -> Seq<PaneRow>
    decreases rows.len(),
{
    if rows.len() == 0 {
        Seq::empty()
    } else {
        rows_at(rows.drop_last(), node) + if rows.last().node == Some(node) {
            seq![rows.last()]
        } else {
            Seq::empty()
        }
    }
}

/// [`rows_at`].
fn rows_under(rows: &[PaneRow], node: (Layer, u32)) -> (r: Vec<PaneRow>)
    ensures
        r@ == rows_at(rows@, node),
{
    let mut out: Vec<PaneRow> = Vec::new();
    let mut i: usize = 0;
    while i < rows.len()
        invariant
            i <= rows@.len(),
            out@ == rows_at(rows@.take(i as int), node),
        decreases rows.len() - i,
    {
        assert(rows@.take(i + 1).drop_last() =~= rows@.take(i as int));
        assert(rows@.take(i + 1).last() == rows@[i as int]);
        if same_at(rows[i].node, Some(node)) {
            let ghost was = out@;
            out.push(rows[i]);
            assert(out@ =~= was.push(rows@[i as int]));
        }
        i += 1;
    }
    assert(rows@.take(i as int) =~= rows@);
    out
}

/// The built-in camera: the highest-numbered node on L3, which is where a Set
/// always holds it, and none where the Set has no L3 node.
pub open spec fn camera_of<A>(nodes: Seq<SetNode<A>>) -> Option<u32>
    decreases nodes.len(),
{
    if nodes.len() == 0 {
        None
    } else {
        let rest = camera_of(nodes.drop_last());
        let n = nodes.last();
        if n.layer == Layer::L3 {
            match rest {
                Some(m) => Some(
                    if n.index > m {
                        n.index
                    } else {
                        m
                    },
                ),
                None => Some(n.index),
            }
        } else {
            rest
        }
    }
}

/// The renderers: the nodes on L4, in node order.
pub open spec fn fold_nodes<A>(nodes: Seq<SetNode<A>>) -> Seq<SetNode<A>>
    decreases nodes.len(),
{
    if nodes.len() == 0 {
        Seq::empty()
    } else {
        fold_nodes(nodes.drop_last()) + if nodes.last().layer == Layer::L4 {
            seq![nodes.last()]
        } else {
            Seq::empty()
        }
    }
}

/// Every other node, in node order: each is a group of its own.
pub open spec fn head_nodes<A>(nodes: Seq<SetNode<A>>) -> Seq<SetNode<A>>
    decreases nodes.len(),
{
    if nodes.len() == 0 {
        Seq::empty()
    } else {
        head_nodes(nodes.drop_last()) + if nodes.last().layer != Layer::L4 {
            seq![nodes.last()]
        } else {
            Seq::empty()
        }
    }
}

/// A node as an operation addresses it.
pub open spec fn address_spec<A>(n: SetNode<A>) -> NodeAddress {
    NodeAddress { layer: op_of(n.layer), index: n.index }
}

/// The authority chip a node's head draws: its level, with its address.
pub open spec fn authority_of<A>(n: SetNode<A>) -> Option<(NodeAddress, A)> {
    match n.authority {
        Some(a) => Some((address_spec(n), a)),
        None => None,
    }
}

/// The node a head's `keep` capsule keeps: every node but the built-in
/// camera, which has no procedure behind it.
pub open spec fn keep_of<A>(n: SetNode<A>, camera: Option<u32>) -> Option<NodeAddress> {
    if n.layer != Layer::L3 || camera != Some(n.index) {
        Some(address_spec(n))
    } else {
        None
    }
}

/// The published rows under the renderers `L4:0` … `L4:count-1`, in
/// interface order.
pub open spec fn numbered_fold(rows: Seq<PaneRow>, count: nat) -> Seq<PaneRow>
    decreases rows.len(),
{
    if rows.len() == 0 {
        Seq::empty()
    } else {
        numbered_fold(rows.drop_last(), count) + if rows.last().ord is Some && (
        rows.last().node matches Some(at) && at.0 == Layer::L4 && at.1 < count) {
            seq![rows.last()]
        } else {
            Seq::empty()
        }
    }
}

/// The unnumbered rows under one node, in row order.
pub open spec fn unnumbered_at(rows: Seq<PaneRow>, node: (Layer, u32)) -> Seq<PaneRow>
    decreases rows.len(),
{
    if rows.len() == 0 {
        Seq::empty()
    } else {
        unnumbered_at(rows.drop_last(), node) + if rows.last().ord is None && rows.last().node
            == Some(node) {
            seq![rows.last()]
        } else {
            Seq::empty()
        }
    }
}

/// The unnumbered rows under `L4:0`, then `L4:1`, … up to `L4:count-1`.
pub open spec fn unnumbered_fold(rows: Seq<PaneRow>, count: nat) -> Seq<PaneRow>
    decreases count,
{
    if count == 0 {
        Seq::empty()
    } else {
        unnumbered_fold(rows, (count - 1) as nat) + unnumbered_at(rows, (Layer::L4, (count - 1) as u32))
    }
}

/// The rows under the folded renderer head: those of `L4:0` … `L4:count-1`,
/// the published ones first in interface order and then the ones off the
/// interface, node by node.
pub open spec fn fold_rows(rows: Seq<PaneRow>, count: nat) -> Seq<PaneRow> {
    numbered_fold(rows, count) + unnumbered_fold(rows, count)
}

/// Every row the numbered part of a fold takes is numbered.
proof fn lemma_numbered_fold_numbered(rows: Seq<PaneRow>, count: nat)
    ensures
        forall|k: int| 0 <= k < numbered_fold(rows, count).len() ==> (#[trigger] numbered_fold(rows, count)[k]).ord is Some,
    decreases rows.len(),
{
    if rows.len() > 0 {
        lemma_numbered_fold_numbered(rows.drop_last(), count);
        let before = numbered_fold(rows.drop_last(), count);
        let all = numbered_fold(rows, count);
        assert forall|k: int| 0 <= k < all.len() implies (#[trigger] all[k]).ord is Some by {
            if k < before.len() {
                assert(all[k] == before[k]);
            }
        }
    }
}

/// Every row under one node that the unnumbered part takes is unnumbered.
proof fn lemma_unnumbered_at_unnumbered(rows: Seq<PaneRow>, node: (Layer, u32))
    ensures
        forall|k: int| 0 <= k < unnumbered_at(rows, node).len() ==> (#[trigger] unnumbered_at(rows, node)[k]).ord is None,
    decreases rows.len(),
{
    if rows.len() > 0 {
        lemma_unnumbered_at_unnumbered(rows.drop_last(), node);
        let before = unnumbered_at(rows.drop_last(), node);
        let all = unnumbered_at(rows, node);
        assert forall|k: int| 0 <= k < all.len() implies (#[trigger] all[k]).ord is None by {
            if k < before.len() {
                assert(all[k] == before[k]);
            }
        }
    }
}

/// Every row the unnumbered part of a fold takes is unnumbered.
proof fn lemma_unnumbered_fold_unnumbered(rows: Seq<PaneRow>, count: nat)
    ensures
        forall|k: int| 0 <= k < unnumbered_fold(rows, count).len() ==> (#[trigger] unnumbered_fold(rows, count)[k]).ord is None,
    decreases count,
{
    if count > 0 {
        lemma_unnumbered_fold_unnumbered(rows, (count - 1) as nat);
        lemma_unnumbered_at_unnumbered(rows, (Layer::L4, (count - 1) as u32));
        let before = unnumbered_fold(rows, (count - 1) as nat);
        let last = unnumbered_at(rows, (Layer::L4, (count - 1) as u32));
        let all = unnumbered_fold(rows, count);
        assert forall|k: int| 0 <= k < all.len() implies (#[trigger] all[k]).ord is None by {
            if k < before.len() {
                assert(all[k] == before[k]);
            } else {
                assert(all[k] == last[k - before.len()]);
            }
        }
    }
}

/// Unnumbered rows add nothing to the numbered part of a fold.
proof fn lemma_numbered_fold_skips_unplaced(
    numbered: Seq<PaneRow>,
    published: Seq<(Published, Vec<(Layer, u32)>)>,
    declared: Seq<(Published, Vec<(Layer, u32)>)>,
    count: nat,
)
    ensures
        numbered_fold(numbered + unplaced_rows(published, declared), count) == numbered_fold(numbered, count),
    decreases declared.len(),
{
    if declared.len() == 0 {
        assert(numbered + unplaced_rows(published, declared) =~= numbered);
    } else {
        lemma_numbered_fold_skips_unplaced(numbered, published, declared.drop_last(), count);
        let before = numbered + unplaced_rows(published, declared.drop_last());
        let all = numbered + unplaced_rows(published, declared);
        if shown_in(published, declared.last().0) {
            assert(all =~= before);
        } else {
            assert(all.drop_last() =~= before);
        }
    }
}

/// The numbered part of a fold over the first `n` published rows.
pub open spec fn numbered_prefix(published: Seq<(Published, Vec<(Layer, u32)>)>, count: nat, n: int) -> Seq<PaneRow> {
    numbered_fold(numbered_rows(published).take(n), count)
}

/// The numbered part of a fold over the first `n` published rows comes in
/// interface order, each numbered at most `n`.
proof fn lemma_numbered_fold_in_order(published: Seq<(Published, Vec<(Layer, u32)>)>, count: nat, n: int)
    requires
        0 <= n <= published.len(),
        published.len() <= usize::MAX,
    ensures
        forall|k: int| 0 <= k < numbered_prefix(published, count, n).len() ==> (#[trigger] numbered_prefix(published, count, n)[k]).ord is Some
            && numbered_prefix(published, count, n)[k].ord->0 <= n,
        forall|a: int, b: int| 0 <= a < b < numbered_prefix(published, count, n).len() ==> (#[trigger] numbered_prefix(published, count, n)[a]).ord->0
            < (#[trigger] numbered_prefix(published, count, n)[b]).ord->0,
    decreases n,
{
    lemma_numbered_fold_numbered(numbered_rows(published).take(n), count);
    if n > 0 {
        lemma_numbered_fold_in_order(published, count, n - 1);
        let rows = numbered_rows(published);
        assert(rows.take(n).drop_last() =~= rows.take(n - 1));
        assert(rows.take(n).last() == rows[n - 1]);
        let before = numbered_prefix(published, count, n - 1);
        let all = numbered_prefix(published, count, n);
        assert forall|k: int| 0 <= k < all.len() implies (#[trigger] all[k]).ord is Some && all[k].ord->0 <= n by {
            if k < before.len() {
                assert(all[k] == before[k]);
            }
        }
        assert forall|a: int, b: int| 0 <= a < b < all.len() implies (#[trigger] all[a]).ord->0 < (#[trigger] all[b]).ord->0 by {
            if b < before.len() {
                assert(all[a] == before[a]);
                assert(all[b] == before[b]);
            } else {
                assert(all[a] == before[a]);
                assert(all[b] == rows[n - 1]);
                assert(rows[n - 1].ord == Some(n as usize));
            }
        }
    }
}

/// The rows under the folded renderer head of a pane whose rows are
/// [`pane_rows`]'.
pub open spec fn pane_fold(
    published: Seq<(Published, Vec<(Layer, u32)>)>,
    declared: Seq<(Published, Vec<(Layer, u32)>)>,
    count: nat,
) -> Seq<PaneRow> {
    fold_rows(numbered_rows(published) + unplaced_rows(published, declared), count)
}

/// How many of them are published.
pub open spec fn pane_fold_numbered(
    published: Seq<(Published, Vec<(Layer, u32)>)>,
    declared: Seq<(Published, Vec<(Layer, u32)>)>,
    count: nat,
) -> int {
    numbered_fold(numbered_rows(published) + unplaced_rows(published, declared), count).len() as int
}

/// Under the folded renderer head the published rows come first, in
/// interface order, and the rows off the interface after them.
pub proof fn law_the_fold_lists_published_rows_first(
    published: Seq<(Published, Vec<(Layer, u32)>)>,
    declared: Seq<(Published, Vec<(Layer, u32)>)>,
    count: nat,
)
    requires
        published.len() <= usize::MAX,
    ensures
        forall|k: int| 0 <= k < pane_fold_numbered(published, declared, count) ==> (#[trigger] pane_fold(published, declared, count)[k]).ord is Some,
        forall|k: int| pane_fold_numbered(published, declared, count) <= k < pane_fold(published, declared, count).len()
            ==> (#[trigger] pane_fold(published, declared, count)[k]).ord is None,
        forall|a: int, b: int| 0 <= a < b < pane_fold_numbered(published, declared, count)
            ==> (#[trigger] pane_fold(published, declared, count)[a]).ord->0 < (#[trigger] pane_fold(published, declared, count)[b]).ord->0,
{
    let rows = numbered_rows(published) + unplaced_rows(published, declared);
    lemma_numbered_fold_skips_unplaced(numbered_rows(published), published, declared, count);
    assert(numbered_rows(published).take(published.len() as int) =~= numbered_rows(published));
    lemma_numbered_fold_in_order(published, count, published.len() as int);
    lemma_unnumbered_fold_unnumbered(rows, count);
    let head = numbered_fold(rows, count);
    let tail = unnumbered_fold(rows, count);
    let f = fold_rows(rows, count);
    assert(head == numbered_prefix(published, count, published.len() as int));
    assert forall|k: int| 0 <= k < head.len() implies (#[trigger] f[k]).ord is Some by {
        assert(f[k] == head[k]);
    }
    assert forall|k: int| head.len() <= k < f.len() implies (#[trigger] f[k]).ord is None by {
        assert(f[k] == tail[k - head.len()]);
    }
    assert forall|a: int, b: int| 0 <= a < b < head.len() implies (#[trigger] f[a]).ord->0 < (#[trigger] f[b]).ord->0 by {
        assert(f[a] == head[a]);
        assert(f[b] == head[b]);
    }
}

/// [`fold_rows`].
fn rows_of_fold(rows: &[PaneRow], count: u32) -> (r: Vec<PaneRow>)
    ensures
        r@ == fold_rows(rows@, count as nat),
{
    let mut out: Vec<PaneRow> = Vec::new();
    let mut i: usize = 0;
    while i < rows.len()
        invariant
            i <= rows@.len(),
            out@ == numbered_fold(rows@.take(i as int), count as nat),
        decreases rows.len() - i,
    {
        assert(rows@.take(i + 1).drop_last() =~= rows@.take(i as int));
        assert(rows@.take(i + 1).last() == rows@[i as int]);
        let row = rows[i];
        let takes = match (row.ord, row.node) {
            (Some(_), Some(at)) => at.0 == Layer::L4 && at.1 < count,
            _ => false,
        };
        if takes {
            let ghost was = out@;
            out.push(row);
            assert(out@ =~= was.push(row));
        }
        i += 1;
    }
    assert(rows@.take(i as int) =~= rows@);
    let mut index: u32 = 0;
    while index < count
        invariant
            index <= count,
            out@ == numbered_fold(rows@, count as nat) + unnumbered_fold(rows@, index as nat),
        decreases count - index,
    {
        let mut k: usize = 0;
        let ghost before = out@;
        while k < rows.len()
            invariant
                k <= rows@.len(),
                out@ == before + unnumbered_at(rows@.take(k as int), (Layer::L4, index)),
            decreases rows.len() - k,
        {
            assert(rows@.take(k + 1).drop_last() =~= rows@.take(k as int));
            assert(rows@.take(k + 1).last() == rows@[k as int]);
            let row = rows[k];
            if row.ord.is_none() && same_at(row.node, Some((Layer::L4, index))) {
                let ghost was = out@;
                out.push(row);
                assert(out@ =~= was.push(row));
            }
            k += 1;
        }
        assert(rows@.take(k as int) =~= rows@);
        assert(unnumbered_fold(rows@, (index + 1) as nat) == unnumbered_fold(rows@, index as nat)
            + unnumbered_at(rows@, (Layer::L4, index)));
        assert(out@ =~= numbered_fold(rows@, count as nat) + unnumbered_fold(
            rows@,
            (index + 1) as nat,
        ));
        index += 1;
    }
    out
}

/// One renderer chip under the folded head: the node's name, and whether it
/// is live — drawn into the picture, which only a composite fold can say.
#[derive(Clone, Debug)]
pub struct Renderer {
    pub name: String,
    pub live: bool,
}

impl View for Renderer {
    type V = (Seq<char>, bool);

    open spec fn view(&self) -> (Seq<char>, bool) {
        (self.name@, self.live)
    }
}

/// One group of a pane: a node's head — or the renderers folded under one —
/// with the chips it draws, the `uses` lines under it, and its rows.
#[derive(Debug)]
pub struct Group<A> {
    pub addr: String,
    pub name: String,
    pub authority: Option<(NodeAddress, A)>,
    pub keep: Option<NodeAddress>,
    pub renderers: Vec<Renderer>,
    pub uses: Vec<Uses>,
    pub params: Vec<PaneRow>,
}

/// The `uses` lines a head draws: its node's, off the wiring the slot was
/// last sent, and none where nothing is aimed at the slot.
pub open spec fn uses_under<A>(nodes: Seq<SetNode<A>>, edges: Option<Vec<Edge>>, n: SetNode<A>) -> Seq<
    (Seq<char>, Seq<char>, Seq<Seq<char>>),
> {
    match edges {
        Some(e) => uses_spec(nodes, e@, n.name@),
        None => Seq::empty(),
    }
}

/// Whether `g` is the group of the node `n`.
pub open spec fn is_head_group<A>(
    g: Group<A>,
    n: SetNode<A>,
    nodes: Seq<SetNode<A>>,
    rows: Seq<PaneRow>,
    edges: Option<Vec<Edge>>,
) -> bool {
    &&& g.addr@ == address_of(n.layer, n.index as nat)
    &&& g.name@ == n.name@
    &&& g.authority == authority_of(n)
    &&& g.keep == keep_of(n, camera_of(nodes))
    &&& g.renderers@.len() == 0
    &&& g.uses@.map_values(|u: Uses| u@) == uses_under(nodes, edges, n)
    &&& g.params@ == rows_at(rows, (n.layer, n.index))
}

/// Whether a renderer is live: the fold composites, and the Set's input
/// edge at the renderer's index is live.
pub open spec fn live_at(inputs: Seq<bool>, composite: bool, index: u32) -> bool {
    composite && index < inputs.len() && inputs[index as int]
}

/// Whether `g` is the folded head over the renderers `fold`: addressed by
/// the bare layer, with a chip per renderer, no `uses` lines, and an
/// authority chip and a `keep` only where it stands over one node.
pub open spec fn is_fold_group<A>(
    g: Group<A>,
    fold: Seq<SetNode<A>>,
    rows: Seq<PaneRow>,
    inputs: Seq<bool>,
    composite: bool,
) -> bool {
    &&& g.addr@ == word_of(Layer::L4)
    &&& g.name@ == "renderers"@
    &&& g.authority == if fold.len() == 1 {
        authority_of(fold[0])
    } else {
        None
    }
    &&& g.keep == if fold.len() == 1 {
        Some(address_spec(fold[0]))
    } else {
        None
    }
    &&& g.renderers@.map_values(|x: Renderer| x@) == fold.map_values(
        |n: SetNode<A>| (n.name@, live_at(inputs, composite, n.index)),
    )
    &&& g.uses@.len() == 0
    &&& g.params@ == fold_rows(rows, fold.len())
}

/// [`camera_of`].
fn builtin_camera<A>(nodes: &[SetNode<A>]) -> (r: Option<u32>)
    ensures
        r == camera_of(nodes@),
{
    let mut best: Option<u32> = None;
    let mut i: usize = 0;
    while i < nodes.len()
        invariant
            i <= nodes@.len(),
            best == camera_of(nodes@.take(i as int)),
        decreases nodes.len() - i,
    {
        assert(nodes@.take(i + 1).drop_last() =~= nodes@.take(i as int));
        assert(nodes@.take(i + 1).last() == nodes@[i as int]);
        let n = &nodes[i];
        if n.layer == Layer::L3 {
            best = match best {
                Some(m) => Some(
                    if n.index > m {
                        n.index
                    } else {
                        m
                    },
                ),
                None => Some(n.index),
            };
        }
        i += 1;
    }
    assert(nodes@.take(i as int) =~= nodes@);
    best
}

/// The groups of one pane, in node order: a group per node, with the
/// renderers folded under one head at the end where the Set has any. `rows`
/// are the pane's rows ([`pane_rows`]); `edges` the wiring the slot was last
/// sent, where something is aimed at it; `inputs` whether each of the Set's
/// input edges is live; `composite` whether its renderers composite.
pub fn pane_groups<A: Copy>(
    nodes: &[SetNode<A>],
    rows: &[PaneRow],
    edges: &Option<Vec<Edge>>,
    inputs: &[bool],
    composite: bool,
) -> (r: Vec<Group<A>>)
    requires
        nodes@.len() <= u32::MAX,
    ensures
        r@.len() == head_nodes(nodes@).len() + if fold_nodes(nodes@).len() > 0 {
            1int
        } else {
            0int
        },
        forall|j: int|
            0 <= j < head_nodes(nodes@).len() ==> is_head_group(
                #[trigger] r@[j],
                head_nodes(nodes@)[j],
                nodes@,
                rows@,
                *edges,
            ),
        fold_nodes(nodes@).len() > 0 ==> is_fold_group(
            r@[r@.len() - 1],
            fold_nodes(nodes@),
            rows@,
            inputs@,
            composite,
        ),
{
    proof {
        reveal_strlit("renderers");
    }
    let camera = builtin_camera(nodes);
    let mut out: Vec<Group<A>> = Vec::new();
    let mut renderers: Vec<Renderer> = Vec::new();
    let mut count: u32 = 0;
    let mut fold_authority: Option<(NodeAddress, A)> = None;
    let mut fold_keep: Option<NodeAddress> = None;
    let mut i: usize = 0;
    while i < nodes.len()
        invariant
            i <= nodes@.len(),
            nodes@.len() <= u32::MAX,
            camera == camera_of(nodes@),
            out@.len() == head_nodes(nodes@.take(i as int)).len(),
            forall|j: int|
                0 <= j < out@.len() ==> is_head_group(
                    #[trigger] out@[j],
                    head_nodes(nodes@.take(i as int))[j],
                    nodes@,
                    rows@,
                    *edges,
                ),
            count == fold_nodes(nodes@.take(i as int)).len(),
            count <= i,
            renderers@.map_values(|x: Renderer| x@) == fold_nodes(nodes@.take(i as int)).map_values(
                |n: SetNode<A>| (n.name@, live_at(inputs@, composite, n.index)),
            ),
            fold_authority == if count == 1 {
                authority_of(fold_nodes(nodes@.take(i as int))[0])
            } else {
                None
            },
            fold_keep == if count == 1 {
                Some(address_spec(fold_nodes(nodes@.take(i as int))[0]))
            } else {
                None
            },
        decreases nodes.len() - i,
    {
        let ghost pre = nodes@.take(i as int);
        let ghost post = nodes@.take(i + 1);
        assert(post.drop_last() =~= pre);
        assert(post.last() == nodes@[i as int]);
        let n = &nodes[i];
        let at = NodeAddress { layer: asked_layer(n.layer), index: n.index };
        let authority = match n.authority {
            Some(level) => Some((at, level)),
            None => None,
        };
        if n.layer == Layer::L4 {
            let live = composite && (n.index as usize) < inputs.len() && inputs[n.index as usize];
            let ghost was = renderers@.map_values(|x: Renderer| x@);
            renderers.push(Renderer { name: n.name.clone(), live });
            assert(renderers@.map_values(|x: Renderer| x@) =~= was.push(
                (n.name@, live_at(inputs@, composite, n.index)),
            ));
            assert(fold_nodes(post) =~= fold_nodes(pre).push(nodes@[i as int]));
            assert(head_nodes(post) =~= head_nodes(pre));
            count += 1;
            if count == 1 {
                fold_authority = authority;
                fold_keep = Some(at);
            } else {
                fold_authority = None;
                fold_keep = None;
            }
        } else {
            let keep = if n.layer != Layer::L3 || !same_at(
                match camera {
                    Some(c) => Some((Layer::L3, c)),
                    None => None,
                },
                Some((Layer::L3, n.index)),
            ) {
                Some(at)
            } else {
                None
            };
            let uses = match edges {
                Some(e) => uses_of(nodes, e.as_slice(), n.name.as_str()),
                None => Vec::new(),
            };
            let group = Group {
                addr: node_addr(n.layer, n.index),
                name: n.name.clone(),
                authority,
                keep,
                renderers: Vec::new(),
                uses,
                params: rows_under(rows, (n.layer, n.index)),
            };
            assert(group.addr@ == address_of(n.layer, n.index as nat));
            assert(group.authority == authority_of(nodes@[i as int]));
            assert(group.keep == keep_of(nodes@[i as int], camera_of(nodes@)));
            assert(group.uses@.map_values(|u: Uses| u@) == uses_under(nodes@, *edges, nodes@[i as int]));
            assert(group.params@ == rows_at(rows@, (n.layer, n.index)));
            assert(is_head_group(group, nodes@[i as int], nodes@, rows@, *edges));
            assert(head_nodes(post) =~= head_nodes(pre).push(nodes@[i as int]));
            assert(fold_nodes(post) =~= fold_nodes(pre));
            out.push(group);
        }
        i += 1;
    }
    assert(nodes@.take(i as int) =~= nodes@);
    if count > 0 {
        let mut addr = String::new();
        addr.append(crate::layer::layer_word(Layer::L4));
        let group = Group {
            addr,
            name: String::from_str("renderers"),
            authority: fold_authority,
            keep: fold_keep,
            renderers,
            uses: Vec::new(),
            params: rows_of_fold(rows, count),
        };
        out.push(group);
    }
    out
}

/// What is said of a pane short of rows: how many controls its deck
/// publishes, and how many of its rows (`published` + `unplaced` of them)
/// have no group to sit in and are not drawn — those left over once the
/// groups hold `placed`.
pub open spec fn unseated_text(slot: nat, published: nat, unplaced: nat, placed: nat) -> Seq<char> {
    "inspector: deck "@ + letter_of(slot) + " publishes "@ + decimal(published)
        + " controls and "@ + decimal((published + unplaced - placed) as nat)
        + " of them name no one node, so they have no group to sit in and are not drawn"@
}

/// The line said when a pane's groups hold fewer rows (`placed`) than its
/// deck has controls (`published` of them on the interface and `unplaced`
/// off it) — a wildcard over two or more nodes has no one group to sit in —
/// and none when every row found a group.
pub fn unseated(slot: usize, published: usize, placed: usize, unplaced: usize) -> (r: Option<
    String,
>)
    requires
        published + unplaced <= usize::MAX,
    ensures
        placed < published + unplaced ==> (r matches Some(t) && t@ == unseated_text(
            slot as nat,
            published as nat,
            unplaced as nat,
            placed as nat,
        )),
        placed >= published + unplaced ==> r is None,
{
    proof {
        reveal_strlit("inspector: deck ");
        reveal_strlit(" publishes ");
        reveal_strlit(" controls and ");
        reveal_strlit("?");
    }
    if placed < published + unplaced {
        let letter = if slot < 4 {
            deck_letter(slot as u8)
        } else {
            "?"
        };
        let mut t = String::from_str("inspector: deck ");
        t.append(letter);
        t.append(" publishes ");
        let n = numeral(published as u64);
        t.append(n.as_str());
        t.append(" controls and ");
        let m = numeral((published + unplaced - placed) as u64);
        t.append(m.as_str());
        t.append(" of them name no one node, so they have no group to sit in and are not drawn");
        Some(t)
    } else {
        None
    }
}

} // verus!
