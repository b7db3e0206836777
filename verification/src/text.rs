//! Decimal numerals and the small words the sentences are built from.
use vstd::prelude::*;

verus! {

/// The numeral character for one decimal digit.
pub open spec fn digit_char(d: nat) -> char {
    if d == 0 { '0' }
    else if d == 1 { '1' }
    else if d == 2 { '2' }
    else if d == 3 { '3' }
    else if d == 4 { '4' }
    else if d == 5 { '5' }
    else if d == 6 { '6' }
    else if d == 7 { '7' }
    else if d == 8 { '8' }
    else { '9' }
}

/// How `{}` spells a non-negative integer: its decimal digits, most
/// significant first, with no leading zero.
pub open spec fn decimal(n: nat) -> Seq<char>
    decreases n,
{
    if n < 10 {
        seq![digit_char(n)]
    } else {
        decimal(n / 10).push(digit_char(n % 10))
    }
}

/// A numeral is never empty.
pub proof fn lemma_decimal_nonempty(n: nat)
    ensures
        decimal(n).len() >= 1,
        n >= 10 ==> decimal(n).len() >= 2,
    decreases n,
{
    if n >= 10 {
        lemma_decimal_nonempty(n / 10);
    }
}

/// Every character of a numeral is a decimal digit, so none of them is a
/// colon, a space or a letter.
pub proof fn lemma_decimal_digits(n: nat)
    ensures
        forall|i: int| 0 <= i < decimal(n).len() ==> '0' <= #[trigger] decimal(n)[i] <= '9',
    decreases n,
{
    if n >= 10 {
        lemma_decimal_digits(n / 10);
        let d = decimal(n);
        assert forall|i: int| 0 <= i < d.len() implies '0' <= #[trigger] d[i] <= '9' by {
            if i < d.len() - 1 {
                assert(d[i] == decimal(n / 10)[i]);
            }
        }
    }
}

/// Ten digits, ten characters: a digit's character names the digit.
pub proof fn lemma_digit_char_injective(a: nat, b: nat)
    requires
        a < 10,
        b < 10,
        digit_char(a) == digit_char(b),
    ensures
        a == b,
{
}

/// Different numbers are spelled differently: a numeral names one number.
pub proof fn lemma_decimal_injective(a: nat, b: nat)
    requires
        decimal(a) == decimal(b),
    ensures
        a == b,
    decreases a,
{
    lemma_decimal_nonempty(a);
    lemma_decimal_nonempty(b);
    if a >= 10 && b >= 10 {
        let da = decimal(a / 10);
        let db = decimal(b / 10);
        assert(decimal(a).drop_last() =~= da);
        assert(decimal(b).drop_last() =~= db);
        assert(decimal(a).last() == digit_char(a % 10));
        assert(decimal(b).last() == digit_char(b % 10));
        lemma_decimal_injective(a / 10, b / 10);
        lemma_digit_char_injective(a % 10, b % 10);
    } else if a < 10 && b < 10 {
        assert(decimal(a) =~= seq![digit_char(a)]);
        assert(decimal(b) =~= seq![digit_char(b)]);
        assert(decimal(a)[0] == decimal(b)[0]);
        assert(decimal(a)[0] == digit_char(a));
        assert(decimal(b)[0] == digit_char(b));
        lemma_digit_char_injective(a, b);
    } else {
        assert(decimal(a).len() != decimal(b).len());
    }
}

/// The one-character text of a digit.
fn digit_text(d: u64) -> (r: &'static str)
    requires
        d < 10,
    ensures
        r@ == seq![digit_char(d as nat)],
{
    proof {
        reveal_strlit("0");
        reveal_strlit("1");
        reveal_strlit("2");
        reveal_strlit("3");
        reveal_strlit("4");
        reveal_strlit("5");
        reveal_strlit("6");
        reveal_strlit("7");
        reveal_strlit("8");
        reveal_strlit("9");
    }
    if d == 0 { "0" }
    else if d == 1 { "1" }
    else if d == 2 { "2" }
    else if d == 3 { "3" }
    else if d == 4 { "4" }
    else if d == 5 { "5" }
    else if d == 6 { "6" }
    else if d == 7 { "7" }
    else if d == 8 { "8" }
    else { "9" }
}

/// A number written out in decimal, as `format!("{n}")` writes it.
pub fn numeral(n: u64) -> (r: String)
    ensures
        r@ == decimal(n as nat),
    decreases n,
{
    if n < 10 {
        String::from_str(digit_text(n))
    } else {
        let mut s = numeral(n / 10);
        s.append(digit_text(n % 10));
        s
    }
}

/// The characters of a text, in order.
pub fn chars_of(s: &str) -> (r: Vec<char>)
    ensures
        r@ == s@,
{
    let mut out: Vec<char> = Vec::new();
    for c in it: s.chars()
        invariant
            out@ == it.seq().take(it.index() as int),
    {
        out.push(c);
    }
    out
}

/// Whether two texts are the same characters in the same order.
pub fn same_text(a: &str, b: &str) -> (r: bool)
    ensures
        r == (a@ == b@),
{
    let x = chars_of(a);
    let y = chars_of(b);
    if x.len() != y.len() {
        return false;
    }
    let mut i: usize = 0;
    while i < x.len()
        invariant
            x@ == a@,
            y@ == b@,
            x.len() == y.len(),
            i <= x.len(),
            forall|j: int| 0 <= j < i ==> x@[j] == y@[j],
        decreases x.len() - i,
    {
        if x[i] != y[i] {
            assert(a@[i as int] != b@[i as int]);
            return false;
        }
        i += 1;
    }
    assert(a@ =~= b@);
    true
}

/// The plural ending a count takes: nothing for exactly one, `s` otherwise.
pub open spec fn plural(n: nat) -> Seq<char> {
    if n == 1 { Seq::empty() } else { seq!['s'] }
}

/// [`plural`], as text.
pub fn plural_ending(n: u64) -> (r: &'static str)
    ensures
        r@ == plural(n as nat),
{
    proof {
        reveal_strlit("");
        reveal_strlit("s");
    }
    if n == 1 { "" } else { "s" }
}

/// The letter a deck is called by: `A` … `D` for the four decks the console
/// draws, and `?` for any other.
pub open spec fn letter_of(deck: nat) -> Seq<char> {
    if deck == 0 {
        "A"@
    } else if deck == 1 {
        "B"@
    } else if deck == 2 {
        "C"@
    } else if deck == 3 {
        "D"@
    } else {
        "?"@
    }
}

/// [`letter_of`].
pub fn deck_letter(deck: u8) -> (r: &'static str)
    ensures
        r@ == letter_of(deck as nat),
{
    if deck == 0 {
        "A"
    } else if deck == 1 {
        "B"
    } else if deck == 2 {
        "C"
    } else if deck == 3 {
        "D"
    } else {
        "?"
    }
}

/// Lines of text, copied.
pub fn copied_lines(lines: &[String]) -> (r: Vec<String>)
    ensures
        r@ == lines@,
{
    let mut out: Vec<String> = Vec::new();
    let mut i: usize = 0;
    while i < lines.len()
        invariant
            i <= lines@.len(),
            out@ == lines@.take(i as int),
        decreases lines.len() - i,
    {
        out.push(lines[i].clone());
        i += 1;
        assert(out@ =~= lines@.take(i as int));
    }
    assert(lines@.take(i as int) =~= lines@);
    out
}

/// A character with an ASCII capital made small, and any other character as
/// it is.
pub open spec fn lower_char(c: char) -> char {
    if 'A' <= c <= 'Z' {
        ((c as u32) + 32) as char
    } else {
        c
    }
}

/// A text with its ASCII capitals made small.
pub open spec fn lower(s: Seq<char>) -> Seq<char> {
    s.map_values(|c: char| lower_char(c))
}

/// [`lower`], on characters.
pub fn lowered(s: &Vec<char>) -> (r: Vec<char>)
    ensures
        r@ == lower(s@),
{
    let mut out: Vec<char> = Vec::new();
    let mut i: usize = 0;
    while i < s.len()
        invariant
            i <= s@.len(),
            out@.len() == i,
            forall|j: int| 0 <= j < i ==> out@[j] == lower_char(s@[j]),
        decreases s.len() - i,
    {
        let c = s[i];
        if 'A' <= c && c <= 'Z' {
            let code = c as u32;
            assert(65 <= code <= 90);
            let byte = (code as u8) + 32;
            let small = byte as char;
            assert(byte as u32 == code + 32);
            assert(small == lower_char(c));
            out.push(small);
        } else {
            out.push(c);
        }
        i += 1;
    }
    assert(out@ =~= lower(s@));
    out
}

/// Whether `needle` occurs in `hay` as a run of consecutive characters; the
/// empty text occurs in every text.
pub open spec fn occurs_in(needle: Seq<char>, hay: Seq<char>) -> bool {
    exists|i: int| 0 <= i && i + needle.len() <= hay.len() && #[trigger] hay.subrange(i, i + needle.len()) == needle
}

/// [`occurs_in`].
pub fn occurs(needle: &Vec<char>, hay: &Vec<char>) -> (r: bool)
    ensures
        r == occurs_in(needle@, hay@),
{
    if needle.len() > hay.len() {
        return false;
    }
    let size = hay.len();
    let last = size - needle.len();
    let mut i: usize = 0;
    while i <= last
        invariant
            needle@.len() <= hay@.len(),
            size == hay@.len(),
            last == hay@.len() - needle@.len(),
            i <= last,
            forall|k: int| 0 <= k < i ==> #[trigger] hay@.subrange(k, k + needle@.len()) != needle@,
        decreases last + 1 - i,
    {
        let mut j: usize = 0;
        let mut differs = false;
        while j < needle.len() && !differs
            invariant
                i + needle@.len() <= hay@.len(),
                hay@.len() <= usize::MAX,
                j <= needle@.len(),
                forall|m: int| 0 <= m < j ==> hay@[i + m] == needle@[m],
                differs ==> j < needle@.len() && hay@[i + j] != needle@[j as int],
            decreases needle.len() - j + (if differs { 0int } else { 1int }),
        {
            if hay[i + j] != needle[j] {
                differs = true;
            } else {
                j += 1;
            }
        }
        if !differs {
            assert(hay@.subrange(i as int, i + needle@.len()) =~= needle@);
            return true;
        }
        assert(hay@.subrange(i as int, i + needle@.len())[j as int] != needle@[j as int]);
        if i == last {
            return false;
        }
        i += 1;
    }
    false
}

} // verus!
