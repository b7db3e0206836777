//! What the Inspector pane reads off a Set: which node a published control
//! belongs to, which capacities a deck head offers, and whether its chip is
//! lit.
use vstd::prelude::*;

use crate::layer::Layer;
use vstd::arithmetic::power2::{lemma2_to64, lemma_pow2_pos, lemma_pow2_strictly_increases, lemma_pow2_unfold, pow2};

verus! {

/// Whether every declaration of a capacity admits `x` elements: at least its
/// minimum and at most its maximum.
pub open spec fn admits(declared: Seq<[u32; 3]>, x: int) -> bool {
    forall|i: int| 0 <= i < declared.len() ==> (#[trigger] declared[i])[0] <= x <= declared[i][1]
}

/// Whether `x` is one of the 32 powers of two a `u32` holds.
pub open spec fn is_rung(x: int) -> bool {
    exists|k: nat| k < 32 && x == pow2(k)
}

/// The capacities a deck head's chip offers: every power of two that every
/// geometry's declaration admits, smallest first, and none where nothing is
/// declared.
pub fn capacity_ladder(declared: &[[u32; 3]]) -> (r: Vec<u32>)
    ensures
        declared@.len() == 0 ==> r@.len() == 0,
        forall|i: int, j: int| 0 <= i < j < r@.len() ==> r@[i] < r@[j],
        forall|i: int|
            0 <= i < r@.len() ==> is_rung(r@[i] as int) && admits(declared@, r@[i] as int),
        declared@.len() > 0 ==> forall|k: nat|
            k < 32 && admits(declared@, pow2(k) as int) ==> r@.contains(pow2(k) as u32),
{
    if declared.len() == 0 {
        return Vec::new();
    }
    let mut lo: u32 = declared[0][0];
    let mut hi: u32 = declared[0][1];
    let ghost mut lo_at: int = 0;
    let ghost mut hi_at: int = 0;
    let mut i: usize = 1;
    while i < declared.len()
        invariant
            1 <= i <= declared@.len(),
            0 <= lo_at < i,
            0 <= hi_at < i,
            declared@[lo_at][0] == lo,
            declared@[hi_at][1] == hi,
            forall|j: int| 0 <= j < i ==> declared@[j][0] <= lo,
            forall|j: int| 0 <= j < i ==> declared@[j][1] >= hi,
        decreases declared.len() - i,
    {
        if declared[i][0] > lo {
            lo = declared[i][0];
            proof {
                lo_at = i as int;
            }
        }
        if declared[i][1] < hi {
            hi = declared[i][1];
            proof {
                hi_at = i as int;
            }
        }
        i += 1;
    }
    assert forall|x: int| admits(declared@, x) <==> lo <= x <= hi by {
        if admits(declared@, x) {
            assert(declared@[lo_at][0] <= x <= declared@[lo_at][1]);
            assert(declared@[hi_at][0] <= x <= declared@[hi_at][1]);
        }
    }
    proof {
        lemma2_to64();
    }
    let mut out: Vec<u32> = Vec::new();
    let mut rung: u64 = 1;
    let mut k: usize = 0;
    while k < 32
        invariant
            k <= 32,
            rung == pow2(k as nat),
            pow2(32) == 0x1_0000_0000,
            forall|x: int| admits(declared@, x) <==> lo <= x <= hi,
            forall|a: int, b: int| 0 <= a < b < out@.len() ==> out@[a] < out@[b],
            forall|a: int| 0 <= a < out@.len() ==> out@[a] < rung,
            forall|a: int|
                0 <= a < out@.len() ==> is_rung(out@[a] as int) && admits(declared@, out@[a] as int),
            forall|m: nat|
                m < k && admits(declared@, pow2(m) as int) ==> out@.contains(pow2(m) as u32),
        decreases 32 - k,
    {
        proof {
            if k < 32 {
                lemma_pow2_strictly_increases(k as nat, 32);
            }
            lemma_pow2_unfold((k + 1) as nat);
            lemma_pow2_pos(k as nat);
        }
        if lo as u64 <= rung && rung <= hi as u64 {
            let ghost before = out@;
            out.push(rung as u32);
            proof {
                assert((rung as u32) as u64 == rung);
                assert(is_rung(rung as int));
                assert(out@[out@.len() - 1] == pow2(k as nat) as u32);
                assert forall|m: nat|
                    m < k + 1 && admits(declared@, pow2(m) as int) implies out@.contains(
                    pow2(m) as u32,
                ) by {
                    if m < k {
                        assert(before.contains(pow2(m) as u32));
                        let w = choose|w: int| 0 <= w < before.len() && before[w] == pow2(m) as u32;
                        assert(out@[w] == before[w]);
                    } else {
                        assert(out@[out@.len() - 1] == pow2(m) as u32);
                    }
                }
            }
        }
        let ghost was = rung;
        rung = rung * 2;
        k += 1;
        assert forall|a: int| 0 <= a < out@.len() implies out@[a] < rung by {
            assert(out@[a] <= was);
        }
    }
    out
}

/// The deck head's two build chips: the element count the slot runs at,
/// the rungs it offers, and whether it is lit — lit where the slot is not on
/// what its material declares as the default — and the salt the seed chip
/// offers for the next build.
#[derive(Debug)]
pub struct CapacityChip {
    pub capacity: u32,
    pub stated: bool,
    pub capacities: Vec<u32>,
    pub salt: u32,
}

/// The capacity chip a deck head draws, off what landed: the count the first
/// geometry runs at, against the first declaration's default — and none for
/// a deck with no geometry, which has no element count to size and no
/// randomness to seed (`salts` is the seeds the geometries run with). `next`
/// is the salt the engine derives from the first of them for the next build,
/// which the seed chip offers.
pub fn capacity_chip(running: &[u32], declared: &[[u32; 3]], salts: &[u32], next: u32) -> (r: Option<CapacityChip>)
    ensures
        (running@.len() > 0 && declared@.len() > 0 && salts@.len() > 0) ==> (r matches Some(chip)
            && chip.capacity == running@[0] && chip.stated == (running@[0] != declared@[0][2])
            && chip.salt == next),
        !(running@.len() > 0 && declared@.len() > 0 && salts@.len() > 0) ==> r is None,
        r matches Some(chip) ==> (forall|i: int|
            0 <= i < chip.capacities@.len() ==> is_rung(chip.capacities@[i] as int) && admits(declared@, chip.capacities@[i] as int))
            && (forall|k: nat| k < 32 && admits(declared@, pow2(k) as int) ==> chip.capacities@.contains(pow2(k) as u32))
            && (forall|i: int, j: int| 0 <= i < j < chip.capacities@.len() ==> chip.capacities@[i] < chip.capacities@[j]),
{
    if running.len() == 0 || declared.len() == 0 || salts.len() == 0 {
        return None;
    }
    let capacity = running[0];
    Some(CapacityChip { capacity, stated: capacity != declared[0][2], capacities: capacity_ladder(declared), salt: next })
}

/// A control a Set publishes: its name, the node it names if it names one,
/// and the parameter key it writes.
#[derive(Clone, Debug)]
pub struct Published {
    pub name: String,
    pub at: Option<(Layer, u32)>,
    pub key: String,
}

/// The node a published control belongs to, given `landing` — every node of
/// the Set that declares the control's key, in the Set's order. A control
/// that names its node is that node's; one that does not is the node's that
/// alone declares its key; and one whose key two nodes declare belongs to
/// neither, because nothing says which.
pub open spec fn node_of_spec(landing: Seq<(Layer, u32)>, at: Option<(Layer, u32)>) -> Option<
    (Layer, u32),
> {
    match at {
        Some(node) => Some(node),
        None => if landing.len() == 1 {
            Some(landing[0])
        } else {
            None
        },
    }
}

/// [`node_of_spec`].
pub fn node_of(landing: &[(Layer, u32)], control: &Published) -> (r: Option<(Layer, u32)>)
    ensures
        r == node_of_spec(landing@, control.at),
        control.at is Some ==> r == control.at,
        control.at is None && landing@.len() == 1 ==> r == Some(landing@[0]),
        control.at is None && landing@.len() != 1 ==> r is None,
{
    if let Some(at) = control.at {
        return Some(at);
    }
    if landing.len() == 1 {
        Some(landing[0])
    } else {
        None
    }
}

} // verus!
