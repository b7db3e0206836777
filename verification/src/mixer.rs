//! What a mixer strip and a held strip key read off the deck: the deck's own
//! words for a slot's residency, blend and mask, turned into the console's.
use vstd::prelude::*;

verus! {

/// How many decks the console draws.
pub const DECKS: usize = 4;

/// A slot on the deck, by its index.
#[derive(Clone, Copy, Debug, PartialEq, Eq, Structural)]
pub struct EngineSlot(pub u8);

/// Whether a slot is on air, warming up, or allocated and asked for nothing.
#[derive(Clone, Copy, Debug, PartialEq, Eq, Structural)]
pub enum Residency {
    Live,
    Priming,
    Allocated,
}

/// A strip's tally, as the console draws it.
#[derive(Clone, Copy, Debug, PartialEq, Eq, Structural)]
pub enum Tally {
    Live,
    Priming,
    Allocated,
}

/// How the deck blends a slot into the mix.
#[derive(Clone, Copy, Debug, PartialEq, Eq, Structural)]
pub enum Blend {
    Add,
    Over,
    Max,
}

/// A blend mode as an operation names it.
#[derive(Clone, Copy, Debug, PartialEq, Eq, Structural)]
pub enum BlendMode {
    Add,
    Over,
    Max,
}

/// The shape of a slot's mask on the deck.
#[derive(Clone, Copy, Debug, PartialEq, Eq, Structural)]
pub enum MaskKind {
    Unmasked,
    Linear,
    Radial,
}

/// A mask's shape as the console draws it.
#[derive(Clone, Copy, Debug, PartialEq, Eq, Structural)]
pub enum Mask {
    Unmasked,
    Linear,
    Radial,
}

/// A mask's shape as a wipe operation names it.
#[derive(Clone, Copy, Debug, PartialEq, Eq, Structural)]
pub enum WipeKind {
    Unmasked,
    Linear,
    Radial,
}

/// The console's tally for a residency.
pub open spec fn tally_of(residency: Residency) -> Tally {
    match residency {
        Residency::Live => Tally::Live,
        Residency::Priming => Tally::Priming,
        Residency::Allocated => Tally::Allocated,
    }
}

/// [`tally_of`].
pub fn tally(residency: Residency) -> (r: Tally)
    ensures
        r == tally_of(residency),
{
    match residency {
        Residency::Live => Tally::Live,
        Residency::Priming => Tally::Priming,
        Residency::Allocated => Tally::Allocated,
    }
}

/// The operation's name for the deck's blend.
pub open spec fn blend_mode_of(blend: Blend) -> BlendMode {
    match blend {
        Blend::Add => BlendMode::Add,
        Blend::Over => BlendMode::Over,
        Blend::Max => BlendMode::Max,
    }
}

/// [`blend_mode_of`].
pub fn blend_mode(blend: Blend) -> (r: BlendMode)
    ensures
        r == blend_mode_of(blend),
{
    match blend {
        Blend::Add => BlendMode::Add,
        Blend::Over => BlendMode::Over,
        Blend::Max => BlendMode::Max,
    }
}

/// The console's mask for the deck's.
pub open spec fn masked_of(kind: MaskKind) -> Mask {
    match kind {
        MaskKind::Unmasked => Mask::Unmasked,
        MaskKind::Linear => Mask::Linear,
        MaskKind::Radial => Mask::Radial,
    }
}

/// [`masked_of`].
pub fn masked(kind: MaskKind) -> (r: Mask)
    ensures
        r == masked_of(kind),
{
    match kind {
        MaskKind::Unmasked => Mask::Unmasked,
        MaskKind::Linear => Mask::Linear,
        MaskKind::Radial => Mask::Radial,
    }
}

/// The wipe operation's name for the deck's mask shape.
pub open spec fn wipe_kind_of(kind: MaskKind) -> WipeKind {
    match kind {
        MaskKind::Unmasked => WipeKind::Unmasked,
        MaskKind::Linear => WipeKind::Linear,
        MaskKind::Radial => WipeKind::Radial,
    }
}

/// The deck's mask shape for the wipe operation's name.
pub open spec fn mask_kind_of(kind: WipeKind) -> MaskKind {
    match kind {
        WipeKind::Unmasked => MaskKind::Unmasked,
        WipeKind::Linear => MaskKind::Linear,
        WipeKind::Radial => MaskKind::Radial,
    }
}

/// [`wipe_kind_of`].
pub fn wipe_kind(kind: MaskKind) -> (r: WipeKind)
    ensures
        r == wipe_kind_of(kind),
{
    match kind {
        MaskKind::Unmasked => WipeKind::Unmasked,
        MaskKind::Linear => WipeKind::Linear,
        MaskKind::Radial => WipeKind::Radial,
    }
}

/// [`mask_kind_of`].
pub fn mask_kind(kind: WipeKind) -> (r: MaskKind)
    ensures
        r == mask_kind_of(kind),
{
    match kind {
        WipeKind::Unmasked => MaskKind::Unmasked,
        WipeKind::Linear => MaskKind::Linear,
        WipeKind::Radial => MaskKind::Radial,
    }
}

/// A mask read into a wipe's record and written back onto the deck is the
/// mask it was, and a wipe's shape read back from the deck is the one asked
/// for.
pub proof fn law_wipe_shape_round_trip(kind: MaskKind, asked: WipeKind)
    ensures
        mask_kind_of(wipe_kind_of(kind)) == kind,
        wipe_kind_of(mask_kind_of(asked)) == asked,
{
}

/// Whether a deck of `slot_count` slots holds a slot with index `slot`.
pub open spec fn holds_slot(slot: int, slot_count: int) -> bool {
    0 <= slot < slot_count
}

/// The deck's address for slot `slot`, or `None` for a slot the deck of
/// `slot_count` slots has not got.
pub fn held(slot_count: usize, slot: u8) -> (r: Option<EngineSlot>)
    ensures
        holds_slot(slot as int, slot_count as int) ==> r == Some(EngineSlot(slot)),
        !holds_slot(slot as int, slot_count as int) ==> r is None,
{
    if (slot as usize) < slot_count {
        Some(EngineSlot(slot))
    } else {
        None
    }
}

/// What a held strip key reads off its slot: the residency the slot was
/// last asked for, its blend mode and its mask shape.
#[derive(Clone, Copy, Debug, PartialEq, Eq, Structural)]
pub struct Held {
    pub requested: Tally,
    pub blend: BlendMode,
    pub mask: Mask,
}

/// The slot `at` as a held key reads it, off the deck's answers for it —
/// and nothing where the deck of `slot_count` slots has not got the slot.
pub fn holding(slot_count: usize, at: u8, requested: Residency, blend: Blend, mask: MaskKind) -> (r: Option<Held>)
    ensures
        holds_slot(at as int, slot_count as int) ==> r == Some(
            Held { requested: tally_of(requested), blend: blend_mode_of(blend), mask: masked_of(mask) },
        ),
        !holds_slot(at as int, slot_count as int) ==> r is None,
{
    match held(slot_count, at) {
        Some(_) => Some(Held { requested: tally(requested), blend: blend_mode(blend), mask: masked(mask) }),
        None => None,
    }
}

/// Whether a deck of `slot_count` slots holds `slot`, for a number that has
/// no address yet: a slot is addressed by a byte, so a number past one is
/// held by no deck.
pub fn slot_in_range(slot: usize, slot_count: usize) -> (r: bool)
    ensures
        r == (slot <= u8::MAX && holds_slot(slot as int, slot_count as int)),
{
    if slot > 255 {
        return false;
    }
    match held(slot_count, slot as u8) {
        Some(_) => true,
        None => false,
    }
}

/// Which decks' slots are stopped for cost: a deck with no slot behind it is
/// never stopped.
pub fn stopped_slots(slot_count: usize, overloaded: [bool; 4]) -> (r: [bool; 4])
    ensures
        forall|i: int| 0 <= i < 4 ==> r@[i] == (i < slot_count && overloaded@[i]),
{
    let mut out = [false, false, false, false];
    let mut i: usize = 0;
    while i < 4
        invariant
            0 <= i <= 4,
            forall|j: int| 0 <= j < i ==> out@[j] == (j < slot_count && overloaded@[j]),
        decreases 4 - i,
    {
        out[i] = i < slot_count && overloaded[i];
        i += 1;
    }
    out
}

/// What the governor spent a slot's budget on: an estimate, a measurement,
/// or nothing it could budget.
#[derive(Clone, Copy, Debug, PartialEq, Eq, Structural)]
pub enum Spent {
    Estimated,
    Measured,
    Unbudgetable,
}

/// Which of the two a budgeted cost is, as a preview cell prints it.
#[derive(Clone, Copy, Debug, PartialEq, Eq, Structural)]
pub enum Basis {
    Estimated,
    Measured,
}

/// One slot's line in a governor pass: which slot, what was budgeted for it
/// (in milliseconds, of whatever type the governor counts them in), and on
/// what basis.
#[derive(Clone, Copy, Debug)]
pub struct Decision<M> {
    pub slot: usize,
    pub budgeted_ms: Option<M>,
    pub basis: Spent,
}

/// What a governor pass decided, slot by slot, in the order it decided it.
#[derive(Clone, Debug)]
pub struct Report<M> {
    pub decisions: Vec<Decision<M>>,
}

/// A budgeted cost a preview cell prints: the figure and what it is a
/// figure of.
#[derive(Clone, Copy, Debug)]
pub struct Budgeted<M> {
    pub ms: M,
    pub basis: Basis,
}

/// The cell one decision writes: a figure with its basis, or nothing where
/// the slot was unbudgetable or a figure arrived with no basis.
pub open spec fn budgeted_of<M>(decision: Decision<M>) -> Option<Budgeted<M>> {
    match (decision.budgeted_ms, decision.basis) {
        (Some(ms), Spent::Estimated) => Some(Budgeted { ms, basis: Basis::Estimated }),
        (Some(ms), Spent::Measured) => Some(Budgeted { ms, basis: Basis::Measured }),
        _ => None,
    }
}

/// What deck `cell`'s preview prints after `decisions`: the last decision
/// about that slot decides it, and a cell no decision was about prints
/// nothing.
pub open spec fn cell_after<M>(decisions: Seq<Decision<M>>, cell: int) -> Option<Budgeted<M>>
    decreases decisions.len(),
{
    if decisions.len() == 0 {
        None
    } else if decisions.last().slot == cell {
        budgeted_of(decisions.last())
    } else {
        cell_after(decisions.drop_last(), cell)
    }
}

/// The cost each deck's preview cell prints, off one governor pass. A
/// decision about a slot past the cells is passed over.
pub fn costs<M: Copy>(governed: &Report<M>) -> (r: [Option<Budgeted<M>>; 4])
    ensures
        forall|i: int| 0 <= i < 4 ==> r@[i] == cell_after(governed.decisions@, i),
{
    let mut out: [Option<Budgeted<M>>; 4] = [None, None, None, None];
    let mut k: usize = 0;
    while k < governed.decisions.len()
        invariant
            k <= governed.decisions@.len(),
            forall|i: int|
                0 <= i < 4 ==> out@[i] == cell_after(governed.decisions@.take(k as int), i),
        decreases governed.decisions.len() - k,
    {
        let decision = governed.decisions[k];
        let cell = match (decision.budgeted_ms, decision.basis) {
            (Some(ms), Spent::Estimated) => Some(Budgeted { ms, basis: Basis::Estimated }),
            (Some(ms), Spent::Measured) => Some(Budgeted { ms, basis: Basis::Measured }),
            _ => None,
        };
        if decision.slot < 4 {
            out[decision.slot] = cell;
        }
        proof {
            let next = governed.decisions@.take(k + 1);
            assert(next.drop_last() =~= governed.decisions@.take(k as int));
            assert(next.last() == decision);
        }
        k += 1;
    }
    assert(governed.decisions@.take(k as int) =~= governed.decisions@);
    out
}

/// The console reads each of the deck's words as the word of the same name:
/// a residency as the tally of that name, a blend as the blend mode of that
/// name, a mask shape as the console's mask and as the wipe's shape of that
/// name, and a wipe's shape back as the deck's.
pub proof fn law_each_word_reads_as_its_namesake()
    ensures
        tally_of(Residency::Live) == Tally::Live,
        tally_of(Residency::Priming) == Tally::Priming,
        tally_of(Residency::Allocated) == Tally::Allocated,
        blend_mode_of(Blend::Add) == BlendMode::Add,
        blend_mode_of(Blend::Over) == BlendMode::Over,
        blend_mode_of(Blend::Max) == BlendMode::Max,
        masked_of(MaskKind::Unmasked) == Mask::Unmasked,
        masked_of(MaskKind::Linear) == Mask::Linear,
        masked_of(MaskKind::Radial) == Mask::Radial,
        wipe_kind_of(MaskKind::Unmasked) == WipeKind::Unmasked,
        wipe_kind_of(MaskKind::Linear) == WipeKind::Linear,
        wipe_kind_of(MaskKind::Radial) == WipeKind::Radial,
        mask_kind_of(WipeKind::Unmasked) == MaskKind::Unmasked,
        mask_kind_of(WipeKind::Linear) == MaskKind::Linear,
        mask_kind_of(WipeKind::Radial) == MaskKind::Radial,
{
}

/// A preview cell prints a figure exactly where the decision carried one
/// and spent it on an estimate or a measurement, and then prints that
/// figure with that basis; an unbudgetable slot prints nothing.
pub proof fn law_a_cell_prints_the_figure_it_was_given<M>(decision: Decision<M>)
    ensures
        budgeted_of(decision) is Some <==> (decision.budgeted_ms is Some && !(decision.basis is Unbudgetable)),
        budgeted_of(decision) matches Some(b) ==> (decision.budgeted_ms == Some(b.ms) && (b.basis
            is Estimated <==> decision.basis is Estimated) && (b.basis is Measured
            <==> decision.basis is Measured)),
{
}

/// Each deck's cell is decided by the last decision about that slot in the
/// pass, whatever came before it, and a cell that no decision was about
/// prints nothing.
pub proof fn law_the_last_decision_about_a_cell_decides_it<M>(decisions: Seq<Decision<M>>, cell: int, at: int)
    ensures
        (forall|k: int| 0 <= k < decisions.len() ==> decisions[k].slot != cell) ==> cell_after(
            decisions,
            cell,
        ) is None,
        0 <= at < decisions.len() && decisions[at].slot == cell && (forall|k: int|
            at < k < decisions.len() ==> decisions[k].slot != cell) ==> cell_after(decisions, cell)
            == budgeted_of(decisions[at]),
    decreases decisions.len(),
{
    if decisions.len() > 0 {
        let rest = decisions.drop_last();
        law_the_last_decision_about_a_cell_decides_it(rest, cell, at);
        if forall|k: int| 0 <= k < decisions.len() ==> decisions[k].slot != cell {
            assert(decisions.last().slot != cell);
            assert forall|k: int| 0 <= k < rest.len() implies rest[k].slot != cell by {
                assert(rest[k] == decisions[k]);
            }
        }
        if 0 <= at < decisions.len() && decisions[at].slot == cell && (forall|k: int|
            at < k < decisions.len() ==> decisions[k].slot != cell) {
            if at < decisions.len() - 1 {
                assert(decisions[decisions.len() - 1].slot != cell);
                assert(rest[at] == decisions[at]);
                assert forall|k: int| at < k < rest.len() implies rest[k].slot != cell by {
                    assert(rest[k] == decisions[k]);
                }
            }
        }
    }
}

} // verus!
