//! The Staging lane: one row per build waiting on a verdict, grouped by deck
//! in deck order, and what a verdict or a keep does to it.
use vstd::prelude::*;

use crate::layer::{address_of, asked_layer, ir_layer, ir_of, node_addr, op_of, Layer, NodeAddress};
use crate::text::{copied_lines, deck_letter, decimal, letter_of, numeral, plural, plural_ending};

verus! {

/// Where a build stands, as its row in the lane says.
#[derive(Clone, Copy, Debug, PartialEq, Eq, Structural)]
pub enum Stage {
    Landed,
    Refused,
    Overloaded,
    NotCompiled,
}

/// One row of the lane: the deck it is on, the node it is about (or `None`
/// for a build about no one node), that node's address and name (the build's
/// label where it is about no node), its stage, and what the compiler said.
#[derive(Debug)]
pub struct Candidate {
    pub deck: usize,
    pub at: Option<NodeAddress>,
    pub addr: String,
    pub name: String,
    pub stage: Stage,
    pub said: Vec<String>,
}

/// A row as plain values: deck, node, address, name, stage, said.
pub type RowView = (int, Option<NodeAddress>, Seq<char>, Seq<char>, Stage, Seq<Seq<char>>);

/// The views of some lines of text.
pub open spec fn lines_view(lines: Seq<String>) -> Seq<Seq<char>> {
    lines.map_values(|l: String| l@)
}

impl View for Candidate {
    type V = RowView;

    open spec fn view(&self) -> RowView {
        (self.deck as int, self.at, self.addr@, self.name@, self.stage, lines_view(self.said@))
    }
}

/// A node a build changed: its address for an operation, its address as
/// printed, and its name in the Set.
#[derive(Debug)]
pub struct Changed {
    pub at: NodeAddress,
    pub addr: String,
    pub name: String,
}

impl View for Changed {
    type V = (NodeAddress, Seq<char>, Seq<char>);

    open spec fn view(&self) -> (NodeAddress, Seq<char>, Seq<char>) {
        (self.at, self.addr@, self.name@)
    }
}

/// The lane as plain values.
pub open spec fn lane(rows: Seq<Candidate>) -> Seq<RowView> {
    rows.map_values(|c: Candidate| c@)
}

/// The changed nodes as plain values.
pub open spec fn changes(changed: Seq<Changed>) -> Seq<(NodeAddress, Seq<char>, Seq<char>)> {
    changed.map_values(|c: Changed| c@)
}

/// Whether the lane is in deck order.
pub open spec fn in_deck_order(rows: Seq<Candidate>) -> bool {
    forall|i: int, j: int| 0 <= i <= j < rows.len() ==> rows[i].deck <= rows[j].deck
}

/// Whether `at` and `end` bound deck `deck`'s rows: every row before `at` is
/// an earlier deck's, every row from `at` to `end` is this deck's, and every
/// row from `end` on is a later deck's.
pub open spec fn deck_span(rows: Seq<Candidate>, deck: int, at: int, end: int) -> bool {
    &&& 0 <= at <= end <= rows.len()
    &&& forall|i: int| 0 <= i < at ==> rows[i].deck < deck
    &&& forall|i: int| at <= i < end ==> rows[i].deck == deck
    &&& forall|i: int| end <= i < rows.len() ==> rows[i].deck > deck
}

/// The rows a verdict leaves for a deck: one per node the build changed, or
/// one under the build's label where it changed no node anyone can name.
pub open spec fn settled_rows(
    deck: int,
    label: Seq<char>,
    stage: Stage,
    said: Seq<Seq<char>>,
    changed: Seq<(NodeAddress, Seq<char>, Seq<char>)>,
) -> Seq<RowView> {
    if changed.len() == 0 {
        seq![(deck, None, Seq::<char>::empty(), label, stage, said)]
    } else {
        changed.map_values(
            |c: (NodeAddress, Seq<char>, Seq<char>)| (deck, Some(c.0), c.1, c.2, stage, said),
        )
    }
}

/// A verdict always leaves its deck at least one row: one per node the build
/// changed, each about that node, or a single row about no node under the
/// build's label where it changed none; and every row it leaves is on that
/// deck, at the verdict's stage, with what the compiler said.
pub proof fn law_a_verdict_leaves_its_deck_a_row_per_change(
    deck: int,
    label: Seq<char>,
    stage: Stage,
    said: Seq<Seq<char>>,
    changed: Seq<(NodeAddress, Seq<char>, Seq<char>)>,
)
    ensures
        settled_rows(deck, label, stage, said, changed).len() == if changed.len() == 0 {
            1
        } else {
            changed.len()
        },
        forall|i: int|
            0 <= i < settled_rows(deck, label, stage, said, changed).len() ==> {
                let row = #[trigger] settled_rows(deck, label, stage, said, changed)[i];
                row.0 == deck && row.4 == stage && row.5 == said
            },
        changed.len() == 0 ==> settled_rows(deck, label, stage, said, changed)[0].1 is None
            && settled_rows(deck, label, stage, said, changed)[0].3 == label,
        forall|i: int|
            0 <= i < changed.len() ==> #[trigger] settled_rows(deck, label, stage, said, changed)[i].1
                == Some(changed[i].0) && settled_rows(deck, label, stage, said, changed)[i].2
                == changed[i].1 && settled_rows(deck, label, stage, said, changed)[i].3
                == changed[i].2,
{
}

/// A verdict for deck `deck`: its rows in the lane are replaced by the rows
/// the verdict leaves, and every other deck's rows stay where they were, in
/// deck order.
pub fn settle(
    out: &mut Vec<Candidate>,
    deck: usize,
    label: &str,
    stage: Stage,
    said: &[String],
    changed: &[Changed],
)
    requires
        in_deck_order(old(out)@),
    ensures
        in_deck_order(final(out)@),
        exists|at: int, end: int|
            #[trigger] deck_span(old(out)@, deck as int, at, end) && lane(final(out)@) == lane(
                old(out)@.subrange(0, at),
            ) + settled_rows(deck as int, label@, stage, lines_view(said@), changes(changed@))
                + lane(old(out)@.subrange(end, old(out)@.len() as int)),
{
    let ghost before = out@;
    let mut at: usize = 0;
    while at < out.len() && out[at].deck < deck
        invariant
            out@ == before,
            in_deck_order(before),
            at <= out@.len(),
            forall|i: int| 0 <= i < at ==> before[i].deck < deck,
        decreases out.len() - at,
    {
        at += 1;
    }
    let mut end: usize = at;
    while end < out.len() && out[end].deck == deck
        invariant
            out@ == before,
            in_deck_order(before),
            at <= end <= out@.len(),
            at < out@.len() ==> before[at as int].deck >= deck,
            forall|i: int| 0 <= i < at ==> before[i].deck < deck,
            forall|i: int| at <= i < end ==> before[i].deck == deck,
        decreases out.len() - end,
    {
        end += 1;
    }
    assert(deck_span(before, deck as int, at as int, end as int)) by {
        assert forall|i: int| end <= i < before.len() implies before[i].deck > deck by {
            assert(before[end as int].deck >= deck);
            assert(before[end as int].deck != deck);
            assert(before[end as int].deck <= before[i].deck);
        }
    }
    let ghost wanted = settled_rows(deck as int, label@, stage, lines_view(said@), changes(changed@));
    let mut rows: Vec<Candidate> = Vec::new();
    if changed.len() == 0 {
        rows.push(
            Candidate {
                deck,
                at: None,
                addr: String::new(),
                name: String::from_str(label),
                stage,
                said: copied_lines(said),
            },
        );
        assert(lane(rows@) =~= wanted);
    } else {
        let mut k: usize = 0;
        while k < changed.len()
            invariant
                k <= changed@.len(),
                changed@.len() > 0,
                wanted == changed@.map_values(
                    |c: Changed| (deck as int, Some(c@.0), c@.1, c@.2, stage, lines_view(said@)),
                ),
                rows@.len() == k,
                forall|i: int| 0 <= i < k ==> rows@[i].deck == deck,
                forall|i: int| 0 <= i < k ==> (#[trigger] rows@[i])@ == wanted[i],
            decreases changed.len() - k,
        {
            let node = &changed[k];
            rows.push(
                Candidate {
                    deck,
                    at: Some(node.at),
                    addr: node.addr.clone(),
                    name: node.name.clone(),
                    stage,
                    said: copied_lines(said),
                },
            );
            k += 1;
        }
        assert(lane(rows@) =~= wanted);
    }
    let ghost new_rows = rows@;
    let mut tail = out.split_off(end);
    out.truncate(at);
    out.append(&mut rows);
    out.append(&mut tail);
    assert(out@ =~= before.subrange(0, at as int) + new_rows + before.subrange(
        end as int,
        before.len() as int,
    ));
    assert(lane(out@) =~= lane(before.subrange(0, at as int)) + wanted + lane(
        before.subrange(end as int, before.len() as int),
    ));
}

/// The lane once a keep on `node` of deck `deck` has taken that node's rows
/// out of it; every other row stays, in order.
pub open spec fn kept_lane(rows: Seq<Candidate>, deck: int, node: NodeAddress) -> Seq<Candidate>
    decreases rows.len(),
{
    if rows.len() == 0 {
        rows
    } else {
        let rest = kept_lane(rows.drop_last(), deck, node);
        if rows.last().deck == deck && rows.last().at == Some(node) {
            rest
        } else {
            rest.push(rows.last())
        }
    }
}

/// How many rows a lane still has waiting, as a keep's line says it.
pub open spec fn waiting_text(left: nat) -> Seq<char> {
    if left == 0 {
        "nothing"@
    } else {
        decimal(left) + " row"@ + plural(left)
    }
}

/// The line a keep on `node` of deck `deck` is said in: that there was no
/// row for it, or that its row left and how many are still waiting.
pub open spec fn kept_text(deck: nat, node: NodeAddress, removed: bool, left: nat) -> Seq<char> {
    let head = "  keep: deck "@ + letter_of(deck) + " "@ + address_of(ir_of(node.layer), node.index as nat);
    if !removed {
        head + " has no candidate row — nothing was outstanding on that node, and the lane is as it was"@
    } else {
        head
            + " -> KeepCandidate -> no record, and that is settled: the material already changed and its `procedure` record was written at the swap. The row leaves the lane and nothing else moves; "@
            + waiting_text(left) + " still waiting"@
    }
}

/// A candidate kept: the kept node's rows leave the lane, nothing else
/// moves, and the line says which of the two happened.
pub fn kept(staging: &mut Vec<Candidate>, deck: u8, node: NodeAddress) -> (r: String)
    ensures
        final(staging)@ == kept_lane(old(staging)@, deck as int, node),
        r@ == kept_text(
            deck as nat,
            node,
            final(staging)@.len() != old(staging)@.len(),
            final(staging)@.len() as nat,
        ),
{
    let slot = deck as usize;
    let addr = node_addr(ir_layer(node.layer), node.index);
    let before = staging.len();
    let mut rows: Vec<Candidate> = Vec::new();
    std::mem::swap(staging, &mut rows);
    let ghost all = rows@;
    for row in it: rows
        invariant
            staging@ == kept_lane(it.seq().take(it.index() as int), slot as int, node),
            it.seq() == all,
    {
        proof {
            let next = it.seq().take(it.index() + 1);
            assert(next.drop_last() =~= it.seq().take(it.index() as int));
        }
        if !(row.deck == slot && row.at == Some(node)) {
            staging.push(row);
        }
    }
    assert(all.take(all.len() as int) =~= all);
    assert(staging@ == kept_lane(all, slot as int, node));
    let letter = deck_letter(deck);
    let mut s = String::from_str("  keep: deck ");
    s.append(letter);
    s.append(" ");
    s.append(addr.as_str());
    if staging.len() == before {
        s.append(
            " has no candidate row — nothing was outstanding on that node, and the lane is as it was",
        );
        return s;
    }
    s.append(
        " -> KeepCandidate -> no record, and that is settled: the material already changed and its `procedure` record was written at the swap. The row leaves the lane and nothing else moves; ",
    );
    let left = staging.len();
    if left == 0 {
        s.append("nothing");
    } else {
        let n = numeral(left as u64);
        s.append(n.as_str());
        s.append(" row");
        s.append(plural_ending(left as u64));
    }
    s.append(" still waiting");
    s
}

/// What a deck's build worker reported: a build landed, was refused, was
/// stopped for cost, did not compile (with what the compiler said), was
/// accepted, or the worker is gone.
#[derive(Debug)]
pub enum Event {
    Swapped { label: String, id: u64 },
    Rejected { label: String },
    Overloaded { label: String, id: u64 },
    SourceRefused { label: String, said: Vec<String> },
    Accepted,
    WorkerLost,
}

/// What an event does to a deck's rows: leave one waiting at a stage, under
/// the build's label; settle the deck, clearing its rows; or nothing.
#[derive(Clone, Copy, Debug)]
pub enum Verdict<'a> {
    Waiting(&'a str, Stage),
    Settled,
    Nothing,
}

/// The stage an event leaves a deck's rows at, where it leaves them waiting.
pub open spec fn waiting_stage(event: Event) -> Option<Stage> {
    match event {
        Event::Swapped { .. } => Some(Stage::Landed),
        Event::Rejected { .. } => Some(Stage::Refused),
        Event::Overloaded { .. } => Some(Stage::Overloaded),
        Event::SourceRefused { .. } => Some(Stage::NotCompiled),
        Event::Accepted => None,
        Event::WorkerLost => None,
    }
}

/// The label of the build an event is about, where it is about one.
pub open spec fn event_label(event: Event) -> Seq<char> {
    match event {
        Event::Swapped { label, .. } => label@,
        Event::Rejected { label } => label@,
        Event::Overloaded { label, .. } => label@,
        Event::SourceRefused { label, .. } => label@,
        _ => Seq::empty(),
    }
}

/// What the compiler said about the build, which only a refused source
/// carries.
pub open spec fn event_said(event: Event) -> Seq<Seq<char>> {
    match event {
        Event::SourceRefused { said, .. } => lines_view(said@),
        _ => Seq::empty(),
    }
}

/// The verdict an event is.
pub fn verdict(event: &Event) -> (r: Verdict<'_>)
    ensures
        match r {
            Verdict::Waiting(label, stage) => waiting_stage(*event) == Some(stage) && label@
                == event_label(*event),
            Verdict::Settled => *event is Accepted,
            Verdict::Nothing => *event is WorkerLost,
        },
{
    match event {
        Event::Swapped { label, .. } => Verdict::Waiting(label.as_str(), Stage::Landed),
        Event::Rejected { label } => Verdict::Waiting(label.as_str(), Stage::Refused),
        Event::Overloaded { label, .. } => Verdict::Waiting(label.as_str(), Stage::Overloaded),
        Event::SourceRefused { label, .. } => Verdict::Waiting(label.as_str(), Stage::NotCompiled),
        Event::Accepted => Verdict::Settled,
        Event::WorkerLost => Verdict::Nothing,
    }
}

/// Each report leaves its rows at the stage it names — a swap landed, a
/// rejection refused, an overload overloaded, a refused source not compiled,
/// under the build's own label — while an acceptance settles the deck and a
/// lost worker leaves nothing waiting; and only a swap and an overload name
/// a build, their own.
pub proof fn law_each_report_waits_at_its_own_stage(event: Event)
    ensures
        event is Swapped ==> waiting_stage(event) == Some(Stage::Landed),
        event is Rejected ==> waiting_stage(event) == Some(Stage::Refused),
        event is Overloaded ==> waiting_stage(event) == Some(Stage::Overloaded),
        event is SourceRefused ==> waiting_stage(event) == Some(Stage::NotCompiled),
        event is Accepted || event is WorkerLost <==> waiting_stage(event) is None,
        event matches Event::Swapped { label, id } ==> event_label(event) == label@ && build_of(event) == Some(id),
        event matches Event::Overloaded { label, id } ==> event_label(event) == label@ && build_of(event) == Some(id),
        event matches Event::Rejected { label } ==> event_label(event) == label@,
        event matches Event::SourceRefused { label, said } ==> event_label(event) == label@ && event_said(event) == lines_view(said@),
        !(event is Swapped || event is Overloaded) ==> build_of(event) is None,
        !(event is SourceRefused) ==> event_said(event).len() == 0,
{
}

/// The lane with every row of deck `deck` gone and every other row where it
/// was.
pub open spec fn without_deck(rows: Seq<Candidate>, deck: int) -> Seq<Candidate>
    decreases rows.len(),
{
    if rows.len() == 0 {
        rows
    } else {
        let rest = without_deck(rows.drop_last(), deck);
        if rows.last().deck == deck {
            rest
        } else {
            rest.push(rows.last())
        }
    }
}

/// The build an event is about, where it names one: a swap or an overload.
pub open spec fn build_of(event: Event) -> Option<u64> {
    match event {
        Event::Swapped { id, .. } => Some(id),
        Event::Overloaded { id, .. } => Some(id),
        _ => None,
    }
}

/// Which of the builds a deck has swapped in so far (`built`, by id, in the
/// order they swapped) an event's rows are those of: a swap's own, and an
/// overload's — the build it stopped — the first swapped under the same id;
/// none for any other event, or where no swap had that id, and then the
/// event changed no rows.
pub fn build_rows(built: &[u64], event: &Event) -> (r: Option<usize>)
    ensures
        match build_of(*event) {
            None => r is None,
            Some(id) => match r {
                Some(i) => i < built@.len() && built@[i as int] == id && forall|j: int|
                    0 <= j < i ==> built@[j] != id,
                None => forall|j: int| 0 <= j < built@.len() ==> built@[j] != id,
            },
        },
{
    let id = match event {
        Event::Swapped { id, .. } => *id,
        Event::Overloaded { id, .. } => *id,
        _ => {
            return None;
        },
    };
    let mut i: usize = 0;
    while i < built.len()
        invariant
            i <= built@.len(),
            build_of(*event) == Some(id),
            forall|j: int| 0 <= j < i ==> built@[j] != id,
        decreases built.len() - i,
    {
        if built[i] == id {
            return Some(i);
        }
        i += 1;
    }
    None
}

/// One event from deck `slot`'s worker, applied to the lane: a waiting
/// verdict replaces the deck's rows (one per node in `changed`, the nodes
/// the build changed) and becomes the row's health; an acceptance clears the
/// deck's rows; a lost worker changes nothing. Answers whether a build
/// landed.
pub fn staged(
    out: &mut Vec<Candidate>,
    slot: usize,
    event: &Event,
    changed: &[Changed],
    health: &mut Option<Stage>,
) -> (landed: bool)
    requires
        in_deck_order(old(out)@),
    ensures
        landed == (*event is Swapped),
        in_deck_order(final(out)@),
        waiting_stage(*event) matches Some(stage) ==> {
            &&& *final(health) == Some(stage)
            &&& exists|at: int, end: int|
                #[trigger] deck_span(old(out)@, slot as int, at, end) && lane(final(out)@) == lane(
                    old(out)@.subrange(0, at),
                ) + settled_rows(
                    slot as int,
                    event_label(*event),
                    stage,
                    event_said(*event),
                    changes(changed@),
                ) + lane(old(out)@.subrange(end, old(out)@.len() as int))
        },
        *event is Accepted ==> final(out)@ == without_deck(old(out)@, slot as int)
            && *final(health) == *old(health),
        *event is WorkerLost ==> final(out)@ == old(out)@ && *final(health) == *old(health),
{
    let landed = match event {
        Event::Swapped { .. } => true,
        _ => false,
    };
    match event {
        Event::SourceRefused { label, said } => {
            *health = Some(Stage::NotCompiled);
            settle(out, slot, label.as_str(), Stage::NotCompiled, said.as_slice(), changed);
        },
        _ => match verdict(event) {
            Verdict::Waiting(label, stage) => {
                *health = Some(stage);
                let none: Vec<String> = Vec::new();
                assert(lines_view(none@) =~= event_said(*event));
                settle(out, slot, label, stage, none.as_slice(), changed);
            },
            Verdict::Settled => {
                let mut rows: Vec<Candidate> = Vec::new();
                std::mem::swap(out, &mut rows);
                let ghost all = rows@;
                for row in it: rows
                    invariant
                        out@ == without_deck(it.seq().take(it.index() as int), slot as int),
                        it.seq() == all,
                        in_deck_order(all),
                        forall|i: int, j: int|
                            0 <= i < out@.len() && it.index() <= j < all.len() ==> out@[i].deck
                                <= all[j].deck,
                        in_deck_order(out@),
                {
                    proof {
                        let next = it.seq().take(it.index() + 1);
                        assert(next.drop_last() =~= it.seq().take(it.index() as int));
                    }
                    if row.deck != slot {
                        out.push(row);
                    }
                }
                assert(all.take(all.len() as int) =~= all);
            },
            Verdict::Nothing => {},
        },
    }
    landed
}


/// A node of a Set as the lane reads it: its name, its address, and the
/// name the Set file gives its layer.
#[derive(Clone, Debug)]
pub struct NodeOfSet {
    pub name: String,
    pub layer: Layer,
    pub index: u32,
    pub kind: String,
}

/// Whether the node is one a build changed — one of `changed`, each a
/// layer's name and an index.
pub open spec fn was_changed(n: NodeOfSet, changed: Seq<(String, u32)>) -> bool {
    exists|i: int| 0 <= i < changed.len() && (#[trigger] changed[i]).0@ == n.kind@ && changed[i].1 == n.index
}

/// The rows of the nodes a build changed, in the Set's own node order.
pub open spec fn changed_of(nodes: Seq<NodeOfSet>, changed: Seq<(String, u32)>) -> Seq<(NodeAddress, Seq<char>, Seq<char>)>
    decreases nodes.len(),
{
    if nodes.len() == 0 {
        Seq::empty()
    } else {
        let n = nodes.last();
        changed_of(nodes.drop_last(), changed) + if was_changed(n, changed) {
            seq![(NodeAddress { layer: op_of(n.layer), index: n.index }, address_of(n.layer, n.index as nat), n.name@)]
        } else {
            Seq::empty()
        }
    }
}

/// [`changed_of`]: the lane's rows for what a swap changed.
pub fn changed_rows(nodes: &[NodeOfSet], changed: &[(String, u32)]) -> (r: Vec<Changed>)
    ensures
        r@.map_values(|c: Changed| c@) == changed_of(nodes@, changed@),
{
    let mut out: Vec<Changed> = Vec::new();
    if changed.len() == 0 {
        proof {
            lemma_nothing_changed(nodes@, changed@);
        }
        return out;
    }
    let mut i: usize = 0;
    while i < nodes.len()
        invariant
            i <= nodes@.len(),
            out@.map_values(|c: Changed| c@) == changed_of(nodes@.take(i as int), changed@),
        decreases nodes.len() - i,
    {
        assert(nodes@.take(i + 1).drop_last() =~= nodes@.take(i as int));
        assert(nodes@.take(i + 1).last() == nodes@[i as int]);
        let n = &nodes[i];
        let mut hit = false;
        let mut k: usize = 0;
        while k < changed.len() && !hit
            invariant
                k <= changed@.len(),
                hit ==> was_changed(*n, changed@),
                !hit ==> forall|j: int| 0 <= j < k ==> !((#[trigger] changed@[j]).0@ == n.kind@ && changed@[j].1 == n.index),
            decreases changed.len() - k,
        {
            if changed[k].1 == n.index && crate::text::same_text(changed[k].0.as_str(), n.kind.as_str()) {
                hit = true;
            }
            k += 1;
        }
        if hit {
            let row = Changed {
                at: NodeAddress { layer: asked_layer(n.layer), index: n.index },
                addr: node_addr(n.layer, n.index),
                name: n.name.clone(),
            };
            let ghost was = out@.map_values(|c: Changed| c@);
            out.push(row);
            assert(out@.map_values(|c: Changed| c@) =~= was.push(out@.last()@));
        }
        i += 1;
    }
    assert(nodes@.take(i as int) =~= nodes@);
    out
}

/// A build that changed nothing has no rows.
proof fn lemma_nothing_changed(nodes: Seq<NodeOfSet>, changed: Seq<(String, u32)>)
    requires
        changed.len() == 0,
    ensures
        changed_of(nodes, changed) == Seq::<(NodeAddress, Seq<char>, Seq<char>)>::empty(),
    decreases nodes.len(),
{
    if nodes.len() > 0 {
        lemma_nothing_changed(nodes.drop_last(), changed);
    }
}

} // verus!
