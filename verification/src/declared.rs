//! What one Set declares, read off the cards the store keeps beside its
//! artifacts: how many nodes it has and how many of them have a card, the
//! keys of its knobs, the element count every geometry accepts, and the
//! attributes its nodes emit.
use vstd::prelude::*;

use crate::library::{spelled, spelled_text, Scope};
use crate::order::texts;
use crate::taking::joined_text;
use crate::text::{decimal, numeral, same_text};

verus! {

/// A record on an artifact's card, as far as a reading reads it.
#[derive(Clone, Debug)]
pub enum Card {
    /// A knob the node declares, under this key.
    Param { key: String },
    /// The element count the node accepts, and the one it runs at unless
    /// asked.
    Capacity { min: u32, max: u32, default: u32 },
    /// The attributes the node emits.
    Emit { attrs: Vec<String> },
    /// Anything else on the card.
    Other,
}

/// The records of every card there is, node after node; a node with no
/// card adds none.
pub open spec fn card_lines(cards: Seq<Option<Vec<Card>>>) -> Seq<Card>
    decreases cards.len(),
{
    if cards.len() == 0 {
        Seq::empty()
    } else {
        card_lines(cards.drop_last()) + match cards.last() {
            Some(c) => c@,
            None => Seq::empty(),
        }
    }
}

/// How many nodes have a card.
pub open spec fn described(cards: Seq<Option<Vec<Card>>>) -> nat
    decreases cards.len(),
{
    if cards.len() == 0 {
        0
    } else {
        described(cards.drop_last()) + if cards.last() is Some {
            1nat
        } else {
            0nat
        }
    }
}

/// The knobs' keys, one per key, in the order the keys are first declared.
pub open spec fn knob_keys(lines: Seq<Card>) -> Seq<Seq<char>>
    decreases lines.len(),
{
    if lines.len() == 0 {
        Seq::empty()
    } else {
        let before = knob_keys(lines.drop_last());
        match lines.last() {
            Card::Param { key } => if before.contains(key@) {
                before
            } else {
                before.push(key@)
            },
            _ => before,
        }
    }
}

/// The element count every declaring node accepts — the greatest minimum
/// and the least maximum — with the first declarer's default.
pub open spec fn capacity_of(lines: Seq<Card>) -> Option<(u32, u32, u32)>
    decreases lines.len(),
{
    if lines.len() == 0 {
        None
    } else {
        let before = capacity_of(lines.drop_last());
        match lines.last() {
            Card::Capacity { min, max, default } => match before {
                None => Some((min, max, default)),
                Some((lo, hi, was)) => Some(
                    (
                        if lo > min {
                            lo
                        } else {
                            min
                        },
                        if hi < max {
                            hi
                        } else {
                            max
                        },
                        was,
                    ),
                ),
            },
            _ => before,
        }
    }
}

/// `attrs` added to `seen`, each that is not there already, in order.
pub open spec fn with_attrs(seen: Seq<Seq<char>>, attrs: Seq<Seq<char>>) -> Seq<Seq<char>>
    decreases attrs.len(),
{
    if attrs.len() == 0 {
        seen
    } else {
        let before = with_attrs(seen, attrs.drop_last());
        if before.contains(attrs.last()) {
            before
        } else {
            before.push(attrs.last())
        }
    }
}

/// Every attribute some node emits, once each, in the order the nodes
/// declare them.
pub open spec fn emits_of(lines: Seq<Card>) -> Seq<Seq<char>>
    decreases lines.len(),
{
    if lines.len() == 0 {
        Seq::empty()
    } else {
        let before = emits_of(lines.drop_last());
        match lines.last() {
            Card::Emit { attrs } => with_attrs(before, texts(attrs@)),
            _ => before,
        }
    }
}

/// What a Set declares, in the shape the Library bay draws it in.
#[derive(Debug)]
pub struct Reading {
    pub id: String,
    pub nodes: usize,
    pub described: usize,
    pub knobs: Vec<String>,
    pub capacity: Option<String>,
    pub emits: Option<String>,
}

/// Whether `text` is one of `seen`.
fn holds(seen: &Vec<String>, text: &str) -> (r: bool)
    ensures
        r == texts(seen@).contains(text@),
{
    let mut i: usize = 0;
    while i < seen.len()
        invariant
            i <= seen@.len(),
            forall|j: int| 0 <= j < i ==> seen@[j]@ != text@,
        decreases seen.len() - i,
    {
        if same_text(seen[i].as_str(), text) {
            assert(texts(seen@)[i as int] == text@);
            return true;
        }
        i += 1;
    }
    assert(!texts(seen@).contains(text@)) by {
        if texts(seen@).contains(text@) {
            let j = choose|j: int| 0 <= j < texts(seen@).len() && texts(seen@)[j] == text@;
            assert(seen@[j]@ == text@);
        }
    }
    false
}

/// The reading of the Set `id`, off the cards of its nodes in the Set
/// file's order — `None` for a node whose artifact has no card, which is
/// counted rather than skipped in silence.
pub fn declared(id: &str, cards: &[Option<Vec<Card>>]) -> (r: Reading)
    ensures
        r.id@ == id@,
        r.nodes == cards@.len(),
        r.described == described(cards@),
        texts(r.knobs@) == knob_keys(card_lines(cards@)),
        match capacity_of(card_lines(cards@)) {
            Some((min, max, default)) => r.capacity matches Some(c) && c@ == spelled_text(
                decimal(min as nat),
                decimal(max as nat),
                Some(decimal(default as nat)),
            ),
            None => r.capacity is None,
        },
        emits_of(card_lines(cards@)).len() == 0 ==> r.emits is None,
        emits_of(card_lines(cards@)).len() > 0 ==> (r.emits matches Some(e) && e@ == joined_text(
            emits_of(card_lines(cards@)),
            ", "@,
        )),
{
    let mut knobs: Vec<String> = Vec::new();
    let mut capacity: Option<(u32, u32, u32)> = None;
    let mut emits: Vec<String> = Vec::new();
    let mut count: usize = 0;
    let mut i: usize = 0;
    while i < cards.len()
        invariant
            i <= cards@.len(),
            count == described(cards@.take(i as int)),
            count <= i,
            texts(knobs@) == knob_keys(card_lines(cards@.take(i as int))),
            capacity == capacity_of(card_lines(cards@.take(i as int))),
            texts(emits@) == emits_of(card_lines(cards@.take(i as int))),
        decreases cards.len() - i,
    {
        let ghost pre = cards@.take(i as int);
        assert(cards@.take(i + 1).drop_last() =~= pre);
        assert(cards@.take(i + 1).last() == cards@[i as int]);
        if let Some(card) = &cards[i] {
            count += 1;
            let ghost base = card_lines(pre);
            let mut j: usize = 0;
            while j < card.len()
                invariant
                    j <= card@.len(),
                    texts(knobs@) == knob_keys(base + card@.take(j as int)),
                    capacity == capacity_of(base + card@.take(j as int)),
                    texts(emits@) == emits_of(base + card@.take(j as int)),
                decreases card.len() - j,
            {
                let ghost before = base + card@.take(j as int);
                assert((base + card@.take(j + 1)).drop_last() =~= before);
                assert((base + card@.take(j + 1)).last() == card@[j as int]);
                match &card[j] {
                    Card::Param { key } => {
                        if !holds(&knobs, key.as_str()) {
                            let ghost was = texts(knobs@);
                            knobs.push(key.clone());
                            assert(texts(knobs@) =~= was.push(key@));
                        }
                    },
                    Card::Capacity { min, max, default } => {
                        capacity = match capacity {
                            None => Some((*min, *max, *default)),
                            Some((lo, hi, was)) => Some(
                                (
                                    if lo > *min {
                                        lo
                                    } else {
                                        *min
                                    },
                                    if hi < *max {
                                        hi
                                    } else {
                                        *max
                                    },
                                    was,
                                ),
                            ),
                        };
                    },
                    Card::Emit { attrs } => {
                        let ghost seen = texts(emits@);
                        let mut k: usize = 0;
                        while k < attrs.len()
                            invariant
                                k <= attrs@.len(),
                                texts(emits@) == with_attrs(seen, texts(attrs@).take(k as int)),
                            decreases attrs.len() - k,
                        {
                            assert(texts(attrs@).take(k + 1).drop_last() =~= texts(attrs@).take(
                                k as int,
                            ));
                            assert(texts(attrs@).take(k + 1).last() == attrs@[k as int]@);
                            if !holds(&emits, attrs[k].as_str()) {
                                let ghost was = texts(emits@);
                                emits.push(attrs[k].clone());
                                assert(texts(emits@) =~= was.push(attrs@[k as int]@));
                            }
                            k += 1;
                        }
                        assert(texts(attrs@).take(k as int) =~= texts(attrs@));
                    },
                    Card::Other => {},
                }
                j += 1;
            }
            assert(card@.take(j as int) =~= card@);
            assert(card_lines(cards@.take(i + 1)) =~= base + card@);
        } else {
            assert(card_lines(cards@.take(i + 1)) =~= card_lines(pre));
        }
        i += 1;
    }
    assert(cards@.take(i as int) =~= cards@);
    let capacity_text = match capacity {
        Some((min, max, default)) => {
            let lo = numeral(min as u64);
            let hi = numeral(max as u64);
            let d = numeral(default as u64);
            Some(spelled(lo.as_str(), hi.as_str(), Some(d)))
        },
        None => None,
    };
    let emits_text = if emits.len() == 0 {
        None
    } else {
        proof {
            reveal_strlit(", ");
        }
        let ghost all = texts(emits@);
        let mut t = String::new();
        let mut k: usize = 0;
        while k < emits.len()
            invariant
                k <= emits@.len(),
                all == texts(emits@),
                t@ == joined_text(all.take(k as int), ", "@),
            decreases emits.len() - k,
        {
            assert(all.take(k + 1).drop_last() =~= all.take(k as int));
            assert(all.take(k + 1).last() == emits@[k as int]@);
            if k > 0 {
                t.append(", ");
            }
            t.append(emits[k].as_str());
            k += 1;
        }
        assert(all.take(k as int) =~= all);
        Some(t)
    };
    Reading {
        id: String::from_str(id),
        nodes: cards.len(),
        described: count,
        knobs,
        capacity: capacity_text,
        emits: emits_text,
    }
}

/// What a read with no Set under the cursor says: under `history` a row is
/// a version and not a Set; anywhere else the bay lists nothing.
pub open spec fn nothing_to_read_text(scope: Option<Scope>) -> Seq<char> {
    if scope == Some(Scope::History) {
        "  read: `history` lists the versions of a Set rather than Sets, so there is nothing under the cursor for a reading to be about"@
    } else {
        "  read: this bay lists nothing, so there is no Set to read"@
    }
}

/// [`nothing_to_read_text`], for the scope the bay is marked with.
pub fn nothing_to_read(scope: Option<Scope>) -> (r: &'static str)
    ensures
        r@ == nothing_to_read_text(scope),
{
    proof {
        reveal_strlit(
            "  read: `history` lists the versions of a Set rather than Sets, so there is nothing under the cursor for a reading to be about",
        );
        reveal_strlit("  read: this bay lists nothing, so there is no Set to read");
    }
    match scope {
        Some(Scope::History) => "  read: `history` lists the versions of a Set rather than Sets, so there is nothing under the cursor for a reading to be about",
        _ => "  read: this bay lists nothing, so there is no Set to read",
    }
}

/// What a reading that was taken says: what the Set declares, over how many
/// nodes — and, where some node had no card, how many did. The three words
/// are the panel's own counts of knobs, nodes and cards.
pub open spec fn read_text(id: Seq<char>, knobs: Seq<char>, nodes: Seq<char>, cards: Seq<char>, all_described: bool) -> Seq<char> {
    "  read: `"@ + id + "` declares "@ + knobs + " over "@ + nodes + if all_described {
        Seq::empty()
    } else {
        ", "@ + cards
    }
}

/// [`read_text`], for `reading`.
pub fn read_said(reading: &Reading, knobs: &str, nodes: &str, cards: &str) -> (r: String)
    ensures
        r@ == read_text(reading.id@, knobs@, nodes@, cards@, reading.nodes == reading.described),
{
    let mut t = String::from_str("  read: `");
    t.append(reading.id.as_str());
    t.append("` declares ");
    t.append(knobs);
    t.append(" over ");
    t.append(nodes);
    if reading.nodes != reading.described {
        t.append(", ");
        t.append(cards);
    }
    t
}

/// What a read that failed says: the Set, and why.
pub open spec fn unread_text(id: Seq<char>, why: Seq<char>) -> Seq<char> {
    "  read: `"@ + id + "` could not be read — "@ + why
}

/// [`unread_text`].
pub fn unread(id: &str, why: &str) -> (r: String)
    ensures
        r@ == unread_text(id@, why@),
{
    let mut t = String::from_str("  read: `");
    t.append(id);
    t.append("` could not be read — ");
    t.append(why);
    t
}

/// A reading names each knob key once, and names exactly the keys some
/// card declares a knob under.
pub proof fn law_each_knob_key_once(lines: Seq<Card>)
    ensures
        knob_keys(lines).no_duplicates(),
        forall|k: Seq<char>| knob_keys(lines).contains(k) <==> exists|i: int|
            0 <= i < lines.len() && lines[i] is Param && (#[trigger] lines[i])->key@ == k,
    decreases lines.len(),
{
    if lines.len() > 0 {
        let rest = lines.drop_last();
        law_each_knob_key_once(rest);
        let e = knob_keys(rest);
        let b = knob_keys(lines);
        assert forall|k: Seq<char>| b.contains(k) implies exists|i: int|
            0 <= i < lines.len() && lines[i] is Param && (#[trigger] lines[i])->key@ == k by {
            if e.contains(k) {
                let i = choose|i: int| 0 <= i < rest.len() && rest[i] is Param && (#[trigger] rest[i])->key@ == k;
                assert(lines[i] == rest[i]);
            } else {
                let m = choose|m: int| 0 <= m < b.len() && b[m] == k;
                assert(m == e.len());
                assert(lines[lines.len() - 1] == lines.last());
            }
        }
        assert forall|k: Seq<char>| (exists|i: int|
            0 <= i < lines.len() && lines[i] is Param && (#[trigger] lines[i])->key@ == k) implies b.contains(k) by {
            let i = choose|i: int| 0 <= i < lines.len() && lines[i] is Param && (#[trigger] lines[i])->key@ == k;
            if i < lines.len() - 1 {
                assert(rest[i] == lines[i]);
                assert(e.contains(k));
                let m = choose|m: int| 0 <= m < e.len() && e[m] == k;
                if b != e {
                    assert(b[m] == k);
                }
            } else if !e.contains(k) {
                assert(b[e.len() as int] == k);
            }
        }
    }
}

/// The element count a reading gives is the one every declaring node
/// accepts: there is one exactly where some card declares a capacity; its
/// minimum is the greatest declared minimum and its maximum the least
/// declared maximum, each one that some card declares; and its default is
/// the first declarer's.
pub proof fn law_the_capacity_is_what_every_declarer_accepts(lines: Seq<Card>)
    ensures
        capacity_of(lines) is None <==> forall|i: int| 0 <= i < lines.len() ==> !(#[trigger] lines[i] is Capacity),
        capacity_of(lines) matches Some((lo, hi, d)) ==> {
            &&& forall|i: int| 0 <= i < lines.len() && #[trigger] lines[i] is Capacity ==> lines[i]->min <= lo && hi <= lines[i]->max
            &&& exists|i: int| 0 <= i < lines.len() && #[trigger] lines[i] is Capacity && lines[i]->min == lo
            &&& exists|i: int| 0 <= i < lines.len() && #[trigger] lines[i] is Capacity && lines[i]->max == hi
            &&& exists|i: int| 0 <= i < lines.len() && #[trigger] lines[i] is Capacity && lines[i]->default == d
                && forall|j: int| 0 <= j < i ==> !(#[trigger] lines[j] is Capacity)
        },
    decreases lines.len(),
{
    if lines.len() > 0 {
        let rest = lines.drop_last();
        law_the_capacity_is_what_every_declarer_accepts(rest);
        let n = lines.len() - 1;
        assert(lines[n] == lines.last());
        assert forall|i: int| 0 <= i < rest.len() implies rest[i] == lines[i] by {}
        match capacity_of(rest) {
            None => {
                if lines.last() is Capacity {
                    assert(lines[n] is Capacity && lines[n]->min == (capacity_of(lines)->0).0);
                    assert(lines[n] is Capacity && lines[n]->max == (capacity_of(lines)->0).1);
                    assert forall|j: int| 0 <= j < n implies !(#[trigger] lines[j] is Capacity) by {
                        assert(rest[j] == lines[j]);
                    }
                }
            },
            Some((lo, hi, d)) => {
                let i = choose|i: int| 0 <= i < rest.len() && #[trigger] rest[i] is Capacity && rest[i]->default == d
                    && forall|j: int| 0 <= j < i ==> !(#[trigger] rest[j] is Capacity);
                assert(lines[i] == rest[i]);
                assert forall|j: int| 0 <= j < i implies !(#[trigger] lines[j] is Capacity) by {
                    assert(rest[j] == lines[j]);
                }
                let a = choose|a: int| 0 <= a < rest.len() && #[trigger] rest[a] is Capacity && rest[a]->min == lo;
                let b = choose|b: int| 0 <= b < rest.len() && #[trigger] rest[b] is Capacity && rest[b]->max == hi;
                assert(lines[a] == rest[a]);
                assert(lines[b] == rest[b]);
                assert(exists|k: int| 0 <= k < rest.len() && #[trigger] rest[k] is Capacity);
            },
        }
    }
}

/// Adding attributes keeps a list free of repeats, and the list then holds
/// exactly what it held and what was added.
proof fn lemma_with_attrs(seen: Seq<Seq<char>>, attrs: Seq<Seq<char>>)
    requires
        seen.no_duplicates(),
    ensures
        with_attrs(seen, attrs).no_duplicates(),
        forall|k: Seq<char>| #[trigger] with_attrs(seen, attrs).contains(k) <==> (seen.contains(k) || attrs.contains(k)),
    decreases attrs.len(),
{
    if attrs.len() > 0 {
        let rest = attrs.drop_last();
        lemma_with_attrs(seen, rest);
        let e = with_attrs(seen, rest);
        let b = with_attrs(seen, attrs);
        let x = attrs.last();
        assert(attrs[attrs.len() - 1] == x);
        assert forall|k: Seq<char>| #[trigger] b.contains(k) <==> (seen.contains(k) || attrs.contains(k)) by {
            if rest.contains(k) {
                let i = choose|i: int| 0 <= i < rest.len() && rest[i] == k;
                assert(attrs[i] == k);
            }
            if attrs.contains(k) && k != x {
                let i = choose|i: int| 0 <= i < attrs.len() && attrs[i] == k;
                assert(rest[i] == k);
            }
            if !e.contains(x) {
                if b.contains(k) {
                    let m = choose|m: int| 0 <= m < b.len() && b[m] == k;
                    if m < e.len() {
                        assert(e[m] == k);
                    }
                }
                if e.contains(k) {
                    let m = choose|m: int| 0 <= m < e.len() && e[m] == k;
                    assert(b[m] == k);
                }
                assert(b[e.len() as int] == x);
            }
        }
    }
}

/// A reading names each emitted attribute once, and names exactly the
/// attributes some card says its node emits.
pub proof fn law_each_emitted_attribute_once(lines: Seq<Card>)
    ensures
        emits_of(lines).no_duplicates(),
        forall|k: Seq<char>| emits_of(lines).contains(k) <==> exists|i: int|
            0 <= i < lines.len() && lines[i] is Emit && texts((#[trigger] lines[i])->attrs@).contains(k),
    decreases lines.len(),
{
    if lines.len() > 0 {
        let rest = lines.drop_last();
        law_each_emitted_attribute_once(rest);
        let n = lines.len() - 1;
        assert(lines[n] == lines.last());
        if let Card::Emit { attrs } = lines.last() {
            lemma_with_attrs(emits_of(rest), texts(attrs@));
        }
        assert forall|k: Seq<char>| emits_of(lines).contains(k) <==> exists|i: int|
            0 <= i < lines.len() && lines[i] is Emit && texts((#[trigger] lines[i])->attrs@).contains(k) by {
            if exists|i: int| 0 <= i < rest.len() && rest[i] is Emit && texts((#[trigger] rest[i])->attrs@).contains(k) {
                let i = choose|i: int| 0 <= i < rest.len() && rest[i] is Emit && texts((#[trigger] rest[i])->attrs@).contains(k);
                assert(lines[i] == rest[i]);
            }
            if exists|i: int| 0 <= i < lines.len() && lines[i] is Emit && texts((#[trigger] lines[i])->attrs@).contains(k) {
                let i = choose|i: int| 0 <= i < lines.len() && lines[i] is Emit && texts((#[trigger] lines[i])->attrs@).contains(k);
                if i < n {
                    assert(rest[i] == lines[i]);
                }
            }
        }
    }
}

/// A reading counts the nodes that have a card: never more than there are
/// nodes, all of them exactly where every node has one, and none exactly
/// where no node has.
pub proof fn law_described_counts_the_carded_nodes(cards: Seq<Option<Vec<Card>>>)
    ensures
        described(cards) <= cards.len(),
        described(cards) == cards.len() <==> forall|i: int| 0 <= i < cards.len() ==> #[trigger] cards[i] is Some,
        described(cards) == 0 <==> forall|i: int| 0 <= i < cards.len() ==> #[trigger] cards[i] is None,
    decreases cards.len(),
{
    if cards.len() > 0 {
        let rest = cards.drop_last();
        law_described_counts_the_carded_nodes(rest);
        let n = cards.len() - 1;
        assert(cards[n] == cards.last());
        assert forall|i: int| 0 <= i < n implies rest[i] == cards[i] by {}
        if forall|i: int| 0 <= i < cards.len() ==> #[trigger] cards[i] is Some {
            assert forall|i: int| 0 <= i < rest.len() implies #[trigger] rest[i] is Some by {
                assert(cards[i] is Some);
            }
        }
        if forall|i: int| 0 <= i < cards.len() ==> #[trigger] cards[i] is None {
            assert forall|i: int| 0 <= i < rest.len() implies #[trigger] rest[i] is None by {
                assert(cards[i] is None);
            }
        }
    }
}

} // verus!
