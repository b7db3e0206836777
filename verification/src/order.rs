//! The order names are listed in: character by character, a prefix before
//! anything it is a prefix of — which is the order `String`'s own comparison
//! gives, since UTF-8 keeps the order of the characters it encodes.
use vstd::prelude::*;

use crate::text::{chars_of, same_text};

verus! {

/// Whether text `a` comes strictly before text `b`.
pub open spec fn text_before(a: Seq<char>, b: Seq<char>) -> bool
    decreases a.len(),
{
    if a.len() == 0 {
        b.len() > 0
    } else if b.len() == 0 {
        false
    } else if a[0] != b[0] {
        a[0] < b[0]
    } else {
        text_before(a.drop_first(), b.drop_first())
    }
}

/// No text comes before itself.
pub proof fn lemma_before_irreflexive(a: Seq<char>)
    ensures
        !text_before(a, a),
    decreases a.len(),
{
    if a.len() > 0 {
        lemma_before_irreflexive(a.drop_first());
    }
}

/// Of two different texts, one comes before the other, and never both.
pub proof fn lemma_before_total(a: Seq<char>, b: Seq<char>)
    ensures
        a != b ==> (text_before(a, b) || text_before(b, a)),
        !(text_before(a, b) && text_before(b, a)),
    decreases a.len(),
{
    if a.len() > 0 && b.len() > 0 && a[0] == b[0] {
        lemma_before_total(a.drop_first(), b.drop_first());
        if a != b {
            assert(a =~= seq![a[0]] + a.drop_first());
            assert(b =~= seq![b[0]] + b.drop_first());
        }
    } else if a.len() == 0 && b.len() == 0 {
        assert(a =~= b);
    }
}

/// Coming before is transitive.
pub proof fn lemma_before_transitive(a: Seq<char>, b: Seq<char>, c: Seq<char>)
    requires
        text_before(a, b),
        text_before(b, c),
    ensures
        text_before(a, c),
    decreases a.len(),
{
    if a.len() > 0 && b.len() > 0 && c.len() > 0 && a[0] == b[0] && b[0] == c[0] {
        lemma_before_transitive(a.drop_first(), b.drop_first(), c.drop_first());
    }
}

/// Two texts that agree on their first `i` characters are ordered as what
/// follows those characters is.
proof fn lemma_before_skip(a: Seq<char>, b: Seq<char>, i: int)
    requires
        0 <= i <= a.len(),
        i <= b.len(),
        forall|j: int| 0 <= j < i ==> a[j] == b[j],
    ensures
        text_before(a, b) == text_before(a.skip(i), b.skip(i)),
    decreases i,
{
    if i > 0 {
        lemma_before_skip(a.drop_first(), b.drop_first(), i - 1);
        assert(a.drop_first().skip(i - 1) =~= a.skip(i));
        assert(b.drop_first().skip(i - 1) =~= b.skip(i));
    } else {
        assert(a.skip(0) =~= a);
        assert(b.skip(0) =~= b);
    }
}

/// Texts are ordered at their first difference, by the characters there:
/// where `a` and `b` agree on their first `i` characters and `a`'s next one
/// is the smaller, `a` comes first; and a text comes before every longer
/// text it begins.
pub proof fn law_texts_are_ordered_at_their_first_difference(a: Seq<char>, b: Seq<char>, i: int)
    ensures
        0 <= i < a.len() && i < b.len() && (forall|j: int| 0 <= j < i ==> a[j] == b[j]) && a[i]
            < b[i] ==> text_before(a, b) && !text_before(b, a),
        a.len() < b.len() && a == b.take(a.len() as int) ==> text_before(a, b) && !text_before(b, a),
{
    if 0 <= i < a.len() && i < b.len() && (forall|j: int| 0 <= j < i ==> a[j] == b[j]) && a[i] < b[i] {
        lemma_before_skip(a, b, i);
        lemma_before_skip(b, a, i);
        assert(a.skip(i)[0] == a[i]);
        assert(b.skip(i)[0] == b[i]);
    }
    if a.len() < b.len() && a == b.take(a.len() as int) {
        let n = a.len() as int;
        assert forall|j: int| 0 <= j < n implies a[j] == b[j] by {
            assert(b.take(n)[j] == b[j]);
        }
        lemma_before_skip(a, b, n);
        lemma_before_skip(b, a, n);
        assert(a.skip(n).len() == 0);
    }
}

/// [`text_before`], on two texts.
pub fn comes_before(a: &str, b: &str) -> (r: bool)
    ensures
        r == text_before(a@, b@),
{
    let x = chars_of(a);
    let y = chars_of(b);
    let mut i: usize = 0;
    while i < x.len() && i < y.len() && x[i] == y[i]
        invariant
            x@ == a@,
            y@ == b@,
            i <= x@.len(),
            i <= y@.len(),
            forall|j: int| 0 <= j < i ==> x@[j] == y@[j],
        decreases x.len() - i,
    {
        i += 1;
    }
    proof {
        lemma_before_skip(x@, y@, i as int);
        let sa = x@.skip(i as int);
        let sb = y@.skip(i as int);
        if i < x.len() && i < y.len() {
            assert(sa[0] == x@[i as int]);
            assert(sb[0] == y@[i as int]);
        }
    }
    if i == x.len() {
        i < y.len()
    } else if i == y.len() {
        false
    } else {
        x[i] < y[i]
    }
}

/// The texts of some strings.
pub open spec fn texts(s: Seq<String>) -> Seq<Seq<char>> {
    s.map_values(|x: String| x@)
}

/// Whether a list of texts is in order with no text twice.
pub open spec fn strictly_sorted(s: Seq<Seq<char>>) -> bool {
    forall|i: int, j: int| 0 <= i < j < s.len() ==> text_before(s[i], s[j])
}

/// `name` put into an ordered list of names where it belongs, unless it is
/// there already.
pub fn insert_name(out: &mut Vec<String>, name: &str)
    requires
        strictly_sorted(texts(old(out)@)),
    ensures
        strictly_sorted(texts(final(out)@)),
        forall|t: Seq<char>| #[trigger] texts(final(out)@).contains(t) <==> (texts(old(out)@).contains(t) || t == name@),
{
    let ghost before = texts(out@);
    let mut k: usize = 0;
    while k < out.len() && comes_before(out[k].as_str(), name)
        invariant
            texts(out@) == before,
            strictly_sorted(before),
            k <= out@.len(),
            forall|i: int| 0 <= i < k ==> text_before(before[i], name@),
        decreases out.len() - k,
    {
        k += 1;
    }
    if k < out.len() && same_text(out[k].as_str(), name) {
        assert(before[k as int] == name@);
        return;
    }
    proof {
        if k < out.len() {
            lemma_before_total(before[k as int], name@);
            assert(text_before(name@, before[k as int]));
        }
    }
    out.insert(k, String::from_str(name));
    proof {
        let after = texts(out@);
        assert(after =~= before.insert(k as int, name@));
        assert forall|i: int, j: int| 0 <= i < j < after.len() implies text_before(after[i], after[j]) by {
            if j == k {
                assert(after[i] == before[i]);
            } else if i == k {
                assert(after[j] == before[j - 1]);
                if j - 1 > k {
                    lemma_before_transitive(name@, before[k as int], before[j - 1]);
                }
            } else if i < k && j > k {
                assert(after[i] == before[i]);
                assert(after[j] == before[j - 1]);
            } else if i > k {
                assert(after[i] == before[i - 1]);
                assert(after[j] == before[j - 1]);
            }
        }
        assert forall|t: Seq<char>| #[trigger] after.contains(t) <==> (before.contains(t) || t == name@) by {
            if after.contains(t) {
                let i = choose|i: int| 0 <= i < after.len() && after[i] == t;
                if i < k {
                    assert(before[i] == t);
                } else if i > k {
                    assert(before[i - 1] == t);
                }
            }
            if before.contains(t) {
                let i = choose|i: int| 0 <= i < before.len() && before[i] == t;
                if i < k {
                    assert(after[i] == t);
                } else {
                    assert(after[i + 1] == t);
                }
            }
            if t == name@ {
                assert(after[k as int] == t);
            }
        }
    }
}

/// Whether entry `i` is listed before entry `j` in a newest-first listing:
/// written later, or written at the same moment and named earlier, or — for
/// two entries with the same moment and the same name — found earlier.
pub open spec fn listed_before(written: Seq<u64>, names: Seq<Seq<char>>, i: int, j: int) -> bool {
    ||| written[i] > written[j]
    ||| written[i] == written[j] && text_before(names[i], names[j])
    ||| written[i] == written[j] && names[i] == names[j] && i < j
}

/// Listing order is an order: it is transitive, and of two different
/// entries exactly one is listed first.
pub proof fn lemma_listed_before_order(written: Seq<u64>, names: Seq<Seq<char>>, i: int, j: int, k: int)
    ensures
        i != j ==> (listed_before(written, names, i, j) || listed_before(written, names, j, i)),
        !(listed_before(written, names, i, j) && listed_before(written, names, j, i)),
        listed_before(written, names, i, j) && listed_before(written, names, j, k) ==> listed_before(written, names, i, k),
{
    lemma_before_total(names[i], names[j]);
    lemma_before_irreflexive(names[i]);
    lemma_before_irreflexive(names[j]);
    if listed_before(written, names, i, j) && listed_before(written, names, j, k) {
        if written[i] == written[j] && written[j] == written[k] {
            if text_before(names[i], names[j]) && text_before(names[j], names[k]) {
                lemma_before_transitive(names[i], names[j], names[k]);
            }
        }
    }
}

/// Whether `order` lists each of `0 .. n` exactly once.
pub open spec fn permutes(order: Seq<usize>, n: int) -> bool {
    &&& order.len() == n
    &&& order.no_duplicates()
    &&& forall|i: int| 0 <= i < order.len() ==> order[i] < n
}

/// The order a newest-first listing shows its entries in, given when each
/// was written and what each is called: as positions into the entries.
pub fn newest_first(written: &[u64], names: &[String]) -> (order: Vec<usize>)
    requires
        written@.len() == names@.len(),
    ensures
        permutes(order@, written@.len() as int),
        forall|a: int, b: int|
            0 <= a < b < order@.len() ==> listed_before(
                written@,
                texts(names@),
                order@[a] as int,
                order@[b] as int,
            ),
{
    let ghost ns = texts(names@);
    let mut order: Vec<usize> = Vec::new();
    let mut k: usize = 0;
    while k < written.len()
        invariant
            written@.len() == names@.len(),
            ns == texts(names@),
            k <= written@.len(),
            permutes(order@, k as int),
            forall|a: int, b: int|
                0 <= a < b < order@.len() ==> listed_before(written@, ns, order@[a] as int, order@[b] as int),
        decreases written.len() - k,
    {
        let mut p: usize = 0;
        let mut found = false;
        while p < order.len() && !found
            invariant
                written@.len() == names@.len(),
                ns == texts(names@),
                k < written@.len(),
                permutes(order@, k as int),
                p <= order@.len(),
                forall|a: int| 0 <= a < p ==> listed_before(written@, ns, order@[a] as int, k as int),
                found ==> p < order@.len() && !listed_before(written@, ns, order@[p as int] as int, k as int),
            decreases order.len() - p + (if found { 0int } else { 1int }),
        {
            let at = order[p];
            let earlier = written[at] > written[k] || (written[at] == written[k] && (comes_before(
                names[at].as_str(),
                names[k].as_str(),
            ) || same_text(names[at].as_str(), names[k].as_str())));
            if earlier {
                p += 1;
            } else {
                found = true;
            }
        }
        let ghost before = order@;
        proof {
            if p < order@.len() {
                let at = order@[p as int] as int;
                assert(!listed_before(written@, ns, at, k as int));
                lemma_listed_before_order(written@, ns, at, k as int, k as int);
                assert(listed_before(written@, ns, k as int, at));
            }
        }
        order.insert(p, k);
        proof {
            let after = order@;
            assert(after =~= before.insert(p as int, k));
            assert forall|a: int, b: int| 0 <= a < b < after.len() implies listed_before(
                written@,
                ns,
                after[a] as int,
                after[b] as int,
            ) by {
                if b == p {
                    assert(after[a] == before[a]);
                } else if a == p {
                    assert(after[b] == before[b - 1]);
                    if b - 1 > p {
                        lemma_listed_before_order(written@, ns, k as int, before[p as int] as int, before[b - 1] as int);
                    }
                } else if a < p && b > p {
                    assert(after[a] == before[a]);
                    assert(after[b] == before[b - 1]);
                } else if a > p {
                    assert(after[a] == before[a - 1]);
                    assert(after[b] == before[b - 1]);
                }
            }
            assert forall|a: int, b: int| 0 <= a < b < after.len() implies after[a] != after[b] by {
                if b == p {
                    assert(before[a] < k);
                } else if a == p {
                    assert(before[b - 1] < k);
                } else if a < p && b > p {
                    assert(after[b] == before[b - 1]);
                } else if a > p {
                    assert(after[a] == before[a - 1]);
                }
            }
        }
        k += 1;
    }
    order
}

/// Entries put in the order `order` gives, each once.
pub fn arranged<T>(items: Vec<T>, order: &[usize]) -> (r: Vec<T>)
    requires
        permutes(order@, items@.len() as int),
    ensures
        r@.len() == items@.len(),
        forall|i: int| 0 <= i < r@.len() ==> r@[i] == items@[order@[i] as int],
{
    let ghost all = items@;
    let mut slots: Vec<Option<T>> = Vec::new();
    for item in it: items
        invariant
            it.seq() == all,
            slots@.len() == it.index(),
            forall|i: int| 0 <= i < slots@.len() ==> slots@[i] == Some(all[i]),
    {
        slots.push(Some(item));
    }
    let mut out: Vec<T> = Vec::new();
    let mut i: usize = 0;
    while i < order.len()
        invariant
            permutes(order@, all.len() as int),
            slots@.len() == all.len(),
            i <= order@.len(),
            out@.len() == i,
            forall|j: int| 0 <= j < i ==> out@[j] == all[order@[j] as int],
            forall|j: int| 0 <= j < all.len() ==> (slots@[j] is None <==> exists|m: int| 0 <= m < i && order@[m] == j),
            forall|j: int| 0 <= j < all.len() && slots@[j] is Some ==> slots@[j] == Some(all[j]),
        decreases order.len() - i,
    {
        let at = order[i];
        proof {
            assert(slots@[at as int] is Some) by {
                if slots@[at as int] is None {
                    let m = choose|m: int| 0 <= m < i && order@[m] == at;
                    assert(order@[m] == order@[i as int]);
                }
            }
        }
        let mut taken: Option<T> = None;
        std::mem::swap(&mut taken, &mut slots[at]);
        match taken {
            Some(item) => {
                out.push(item);
            },
            None => {},
        }
        proof {
            assert forall|j: int| 0 <= j < all.len() implies (slots@[j] is None <==> exists|m: int| 0 <= m < i + 1 && order@[m] == j) by {
                if j == at {
                    assert(order@[i as int] == j);
                }
            }
        }
        i += 1;
    }
    out
}

} // verus!
