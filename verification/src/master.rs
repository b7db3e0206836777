//! The master chain as a record sets it — the passes the whole frame goes
//! through after the mix — and the line that says what it now is.
use vstd::prelude::*;

use crate::taking::joined_text;
use crate::text::{chars_of, decimal, numeral, plural, plural_ending, same_text};

verus! {

/// How many bytes UTF-8 takes for a character.
pub open spec fn char_bytes(c: char) -> nat {
    if (c as u32) < 0x80 {
        1
    } else if (c as u32) < 0x800 {
        2
    } else if (c as u32) < 0x10000 {
        3
    } else {
        4
    }
}

/// How many bytes UTF-8 takes for a text.
pub open spec fn text_bytes(s: Seq<char>) -> nat
    decreases s.len(),
{
    if s.len() == 0 {
        0
    } else {
        text_bytes(s.drop_last()) + char_bytes(s.last())
    }
}

/// The longest start of `s` that fits in `limit` bytes.
pub open spec fn fitting(s: Seq<char>, limit: nat) -> Seq<char>
    decreases s.len(),
{
    if text_bytes(s) <= limit || s.len() == 0 {
        s
    } else {
        fitting(s.drop_last(), limit)
    }
}

/// Whether cutting `s` after `limit` bytes cuts between two characters —
/// where it would not, the cut cannot be made.
pub open spec fn cuts_cleanly(s: Seq<char>, limit: nat) -> bool {
    text_bytes(s) <= limit || text_bytes(fitting(s, limit)) == limit
}

/// A longer start of a text takes at least as many bytes.
proof fn lemma_bytes_grow(s: Seq<char>, j: int, k: int)
    requires
        0 <= j <= k <= s.len(),
    ensures
        text_bytes(s.take(j)) <= text_bytes(s.take(k)),
    decreases k - j,
{
    if j < k {
        lemma_bytes_grow(s, j, k - 1);
        assert(s.take(k).drop_last() =~= s.take(k - 1));
    }
}

/// The start of `s` that the first `k` characters make is [`fitting`]'s,
/// where it fits and one more character would not.
proof fn lemma_fitting_is_longest(s: Seq<char>, limit: nat, k: int)
    requires
        0 <= k <= s.len(),
        text_bytes(s.take(k)) <= limit,
        k == s.len() || text_bytes(s.take(k + 1)) > limit,
    ensures
        fitting(s, limit) == s.take(k),
    decreases s.len(),
{
    if text_bytes(s) <= limit {
        if k < s.len() {
            lemma_bytes_grow(s, k + 1, s.len() as int);
            assert(s.take(s.len() as int) =~= s);
        }
        assert(s.take(k) =~= s);
    } else {
        assert(s.take(s.len() as int) =~= s);
        let rest = s.drop_last();
        assert(rest.take(k) =~= s.take(k));
        if k + 1 < s.len() {
            assert(rest.take(k + 1) =~= s.take(k + 1));
        }
        lemma_fitting_is_longest(rest, limit, k);
    }
}

/// [`fitting`], for a text that [`cuts_cleanly`].
fn start_of(s: &str, limit: usize) -> (r: String)
    ensures
        r@ == fitting(s@, limit as nat),
{
    let cs = chars_of(s);
    let mut k: usize = 0;
    let mut used: usize = 0;
    let mut full = false;
    while k < cs.len() && !full
        invariant
            cs@ == s@,
            k <= cs@.len(),
            used == text_bytes(s@.take(k as int)),
            used <= limit,
            full ==> k < s@.len() && text_bytes(s@.take(k + 1)) > limit,
        decreases cs.len() - k + (if full { 0int } else { 1int }),
    {
        let c = cs[k] as u32;
        let w: usize = if c < 0x80 {
            1
        } else if c < 0x800 {
            2
        } else if c < 0x10000 {
            3
        } else {
            4
        };
        assert(s@.take(k + 1).drop_last() =~= s@.take(k as int));
        assert(s@.take(k + 1).last() == s@[k as int]);
        assert(w == char_bytes(s@[k as int]));
        if w > limit - used {
            full = true;
        } else {
            used = used + w;
            k += 1;
        }
    }
    proof {
        lemma_fitting_is_longest(s@, limit as nat, k as int);
    }
    s.substring_char(0, k).to_string()
}

/// A pass of the chain as a record names it: the procedure it runs, and
/// the name of its cut, where it has one.
#[derive(Clone, Debug)]
pub struct ChainSlot {
    pub procedure: String,
    pub cut: Option<String>,
}

/// How a pass is named in the line: the first fourteen bytes of its
/// procedure, and its cut in brackets.
pub open spec fn slot_text(slot: ChainSlot) -> Seq<char> {
    fitting(slot.procedure@, 14) + match slot.cut {
        Some(c) => " ("@ + c@ + ")"@,
        None => Seq::empty(),
    }
}

/// The line a master chain record comes to: how many passes, and each of
/// them — or, where there are none, that the frame is the mix.
pub open spec fn chain_text(slots: Seq<ChainSlot>) -> Seq<char> {
    "  master: chain -> Record::MasterChain -> "@ + decimal(slots.len()) + " slot"@ + plural(
        slots.len(),
    ) + " — "@ + if slots.len() == 0 {
        "the frame is the mix"@
    } else {
        joined_text(slots.map_values(|s: ChainSlot| slot_text(s)), ", "@)
    }
}

/// [`chain_text`]. Each procedure must be cut at fourteen bytes between two
/// characters.
pub fn chain_said(slots: &[ChainSlot]) -> (r: String)
    requires
        forall|i: int| 0 <= i < slots@.len() ==> cuts_cleanly(#[trigger] slots@[i].procedure@, 14),
    ensures
        r@ == chain_text(slots@),
{
    proof {
        reveal_strlit(" slot");
        reveal_strlit(", ");
        reveal_strlit("the frame is the mix");
    }
    let mut t = String::from_str("  master: chain -> Record::MasterChain -> ");
    let n = numeral(slots.len() as u64);
    t.append(n.as_str());
    t.append(" slot");
    t.append(plural_ending(slots.len() as u64));
    t.append(" — ");
    if slots.len() == 0 {
        t.append("the frame is the mix");
        return t;
    }
    let ghost all = slots@.map_values(|s: ChainSlot| slot_text(s));
    let ghost head = t@;
    let mut k: usize = 0;
    while k < slots.len()
        invariant
            k <= slots@.len(),
            all == slots@.map_values(|s: ChainSlot| slot_text(s)),
            t@ == head + joined_text(all.take(k as int), ", "@),
        decreases slots.len() - k,
    {
        assert(all.take(k + 1).drop_last() =~= all.take(k as int));
        assert(all.take(k + 1).last() == slot_text(slots@[k as int]));
        if k > 0 {
            t.append(", ");
        }
        let start = start_of(slots[k].procedure.as_str(), 14);
        t.append(start.as_str());
        match &slots[k].cut {
            Some(c) => {
                t.append(" (");
                t.append(c.as_str());
                t.append(")");
            },
            None => {},
        }
        k += 1;
    }
    assert(all.take(k as int) =~= all);
    t
}


/// A pass the console offers to add to the chain: the procedure's address,
/// and the words its chip is drawn with.
#[derive(Clone, Debug)]
pub struct Offer {
    pub procedure: String,
    pub words: String,
}

/// What a pass of the running chain is called on its row: the name the
/// shipped passes give its address (`shipped`), else the words of the first
/// offer of that address, else the start of the address itself — the
/// `sha256:` prefix and enough of the digest to tell two apart.
pub open spec fn slot_name_of(shipped: Option<Seq<char>>, address: Seq<char>, offers: Seq<Offer>) -> Seq<char> {
    match shipped {
        Some(name) => name,
        None => if exists|i: int| 0 <= i < offers.len() && offers[i].procedure@ == address {
            offers[choose|i: int|
                0 <= i < offers.len() && offers[i].procedure@ == address && forall|j: int|
                    0 <= j < i ==> offers[j].procedure@ != address].words@
        } else if address.len() <= 15 {
            address
        } else {
            address.take(15)
        },
    }
}

/// [`slot_name_of`].
pub fn chain_slot_name(shipped: Option<&str>, address: &str, offers: &[Offer]) -> (r: String)
    ensures
        r@ == slot_name_of(
            match shipped {
                Some(s) => Some(s@),
                None => None,
            },
            address@,
            offers@,
        ),
{
    if let Some(name) = shipped {
        return String::from_str(name);
    }
    let mut i: usize = 0;
    while i < offers.len()
        invariant
            shipped is None,
            i <= offers@.len(),
            forall|j: int| 0 <= j < i ==> offers@[j].procedure@ != address@,
        decreases offers.len() - i,
    {
        if same_text(offers[i].procedure.as_str(), address) {
            assert(offers@[i as int].procedure@ == address@);
            assert(exists|c: int| 0 <= c < offers@.len() && offers@[c].procedure@ == address@);
            let ghost c = choose|c: int|
                0 <= c < offers@.len() && offers@[c].procedure@ == address@ && forall|j: int|
                    0 <= j < c ==> offers@[j].procedure@ != address@;
            proof {
                assert(0 <= i < offers@.len() && offers@[i as int].procedure@ == address@ && forall|j: int|
                    0 <= j < i ==> offers@[j].procedure@ != address@);
                if c < i {
                    assert(offers@[c].procedure@ != address@);
                } else if c > i {
                    assert(offers@[i as int].procedure@ != address@);
                }
                assert(c == i);
            }
            return offers[i].words.clone();
        }
        i += 1;
    }
    let cs = chars_of(address);
    if cs.len() <= 15 {
        String::from_str(address)
    } else {
        let start = address.substring_char(0, 15);
        assert(start@ =~= address@.take(15));
        start.to_string()
    }
}

} // verus!
