//! The size a frame is composited at, which renderer a Set is folded to, and
//! whether anything is showing frames at all.
use vstd::prelude::*;

verus! {

/// An output's size in pixels, by count.
pub open spec fn area(size: (u32, u32)) -> int {
    size.0 as int * size.1 as int
}

/// Whether `at` is the first enabled output of largest area among `outputs`.
pub open spec fn first_largest(outputs: Seq<Option<(u32, u32)>>, at: int) -> bool {
    &&& 0 <= at < outputs.len()
    &&& outputs[at] is Some
    &&& forall|j: int|
        0 <= j < outputs.len() && outputs[j] is Some ==> area(outputs[j]->0) <= area(
            outputs[at]->0,
        )
    &&& forall|j: int|
        0 <= j < at && outputs[j] is Some ==> area(outputs[j]->0) < area(outputs[at]->0)
}

/// The one size the frame is composited at: the size of the enabled output
/// with the most pixels, the earlier one where two tie, and `None` where no
/// output is enabled at all.
pub fn render_size(outputs: &[Option<(u32, u32)>]) -> (r: Option<(u32, u32)>)
    ensures
        r is None <==> (forall|i: int| 0 <= i < outputs@.len() ==> outputs@[i] is None),
        r matches Some(size) ==> exists|at: int|
            first_largest(outputs@, at) && outputs@[at] == Some(size),
{
    let mut best: Option<(u32, u32)> = None;
    let ghost mut best_at: int = 0;
    let mut i: usize = 0;
    while i < outputs.len()
        invariant
            i <= outputs@.len(),
            best is None <==> (forall|j: int| 0 <= j < i ==> outputs@[j] is None),
            best is Some ==> {
                &&& 0 <= best_at < i
                &&& outputs@[best_at] == best
                &&& forall|j: int|
                    0 <= j < i && outputs@[j] is Some ==> area(outputs@[j]->0) <= area(
                        best->0,
                    )
                &&& forall|j: int|
                    0 <= j < best_at && outputs@[j] is Some ==> area(outputs@[j]->0) < area(
                        best->0,
                    )
            },
        decreases outputs.len() - i,
    {
        if let Some(at) = outputs[i] {
            let keep = match best {
                Some(b) => {
                    proof {
                        assert(0 <= b.0 * b.1 <= u32::MAX * u32::MAX) by (nonlinear_arith);
                        assert(0 <= at.0 * at.1 <= u32::MAX * u32::MAX) by (nonlinear_arith);
                    }
                    (b.0 as u64) * (b.1 as u64) >= (at.0 as u64) * (at.1 as u64)
                },
                None => false,
            };
            if !keep {
                best = Some(at);
                proof {
                    best_at = i as int;
                }
            }
        }
        i += 1;
    }
    proof {
        if best is Some {
            assert(first_largest(outputs@, best_at));
        }
    }
    best
}

/// Whether every input of a Set's fold is live.
pub open spec fn all_live(live: Seq<bool>) -> bool {
    forall|i: int| 0 <= i < live.len() ==> live[i]
}

/// Whether input `at` is the one live input.
pub open spec fn only_live(live: Seq<bool>, at: int) -> bool {
    &&& 0 <= at < live.len()
    &&& live[at]
    &&& forall|j: int| 0 <= j < live.len() && j != at ==> !live[j]
}

/// Which renderer a Set is folded to, as a `merge` record spells it, given
/// whether each of its inputs is live: the index of the one live input, and
/// `None` where every input is live (a choice nobody made) or where no single
/// input is.
pub fn selected_renderer(live: &[bool]) -> (r: Option<u32>)
    ensures
        all_live(live@) ==> r is None,
        forall|at: int| !all_live(live@) && only_live(live@, at) ==> r == Some(at as u32),
        (forall|at: int| !only_live(live@, at)) ==> r is None,
{
    let mut every = true;
    let mut count: usize = 0;
    let mut first: usize = 0;
    let mut i: usize = 0;
    while i < live.len()
        invariant
            i <= live@.len(),
            every == (forall|j: int| 0 <= j < i ==> live@[j]),
            count <= i,
            count == 0 <==> (forall|j: int| 0 <= j < i ==> !live@[j]),
            count >= 1 ==> first < i && live@[first as int] && (forall|j: int|
                0 <= j < first ==> !live@[j]),
            count == 1 ==> (forall|j: int| 0 <= j < i && j != first ==> !live@[j]),
            count >= 2 ==> exists|j: int| 0 <= j < i && j != first && live@[j],
        decreases live.len() - i,
    {
        if live[i] {
            if count == 0 {
                first = i;
            }
            if count < 2 {
                count += 1;
            }
        } else {
            every = false;
        }
        i += 1;
    }
    if every {
        return None;
    }
    if count == 1 {
        proof {
            assert(only_live(live@, first as int));
            assert forall|at: int| only_live(live@, at) implies at == first by {
                if at != first {
                    assert(!live@[at]);
                }
            }
        }
        Some(first as u32)
    } else {
        proof {
            assert forall|at: int| !only_live(live@, at) by {
                if only_live(live@, at) {
                    if count == 0 {
                        assert(!live@[at]);
                    } else {
                        let j = choose|j: int| 0 <= j < i && j != first && live@[j];
                        if at == first {
                            assert(!live@[j]);
                        } else {
                            assert(!live@[first as int]);
                        }
                    }
                }
            }
        }
        None
    }
}


/// Whether the frame loop must go on asking for frames: something shows
/// them — the picture, any deck's preview, or the projector.
pub open spec fn live_spec(picture: bool, previews: Seq<bool>, projector: bool) -> bool {
    picture || previews.contains(true) || projector
}

/// [`live_spec`]: `picture` is whether the program view is drawn,
/// `previews` whether each deck's preview is, `projector` whether a
/// projector is on.
pub fn live(picture: bool, previews: &[bool], projector: bool) -> (r: bool)
    ensures
        r == live_spec(picture, previews@, projector),
        picture ==> r,
        projector ==> r,
        forall|i: int| 0 <= i < previews@.len() && previews@[i] ==> r,
        r ==> picture || projector || exists|i: int| 0 <= i < previews@.len() && previews@[i],
{
    if picture || projector {
        return true;
    }
    let mut i: usize = 0;
    while i < previews.len()
        invariant
            i <= previews@.len(),
            forall|j: int| 0 <= j < i ==> !previews@[j],
        decreases previews.len() - i,
    {
        if previews[i] {
            assert(previews@.contains(true)) by {
                assert(previews@[i as int]);
            }
            return true;
        }
        i += 1;
    }
    assert(!previews@.contains(true));
    false
}

/// The size the frame is composited at has at least as many pixels as every
/// enabled output's, counted as width times height, and where two enabled
/// outputs tie the earlier one gives it; and a Set is folded to one input
/// only where that input alone is live, never where every input is.
pub proof fn law_the_largest_output_wins_and_the_earlier_of_a_tie(
    outputs: Seq<Option<(u32, u32)>>,
    at: int,
    j: int,
    live: Seq<bool>,
    k: int,
)
    ensures
        first_largest(outputs, at) && 0 <= j < outputs.len() && outputs[j] is Some ==> (outputs[j]->0).0
            * (outputs[j]->0).1 <= (outputs[at]->0).0 * (outputs[at]->0).1,
        first_largest(outputs, at) && 0 <= j < at && outputs[j] is Some ==> (outputs[j]->0).0 * (
        outputs[j]->0).1 < (outputs[at]->0).0 * (outputs[at]->0).1,
        first_largest(outputs, at) ==> 0 <= at < outputs.len() && outputs[at] is Some,
        only_live(live, k) ==> 0 <= k < live.len() && live[k] && forall|i: int| 0 <= i < live.len() && i != k ==> !live[i],
        all_live(live) <==> forall|i: int| 0 <= i < live.len() ==> live[i],
{
}

} // verus!
