//! What a key on the keyboard means to the console's grammar: space, enter,
//! the four arrows, and a digit naming a place.
use vstd::prelude::*;

use crate::text::{chars_of, decimal, digit_char};

verus! {

/// The digit a key's text names: one character, a decimal digit, and
/// nothing else.
pub open spec fn digit_named(text: Seq<char>) -> Option<nat> {
    if exists|d: nat| d < 10 && text == seq![digit_char(d)] {
        Some(choose|d: nat| d < 10 && text == seq![digit_char(d)])
    } else {
        None
    }
}

/// The character of digit `d`.
fn digit_character(d: usize) -> (r: char)
    requires
        d < 10,
    ensures
        r == digit_char(d as nat),
{
    if d == 0 { '0' }
    else if d == 1 { '1' }
    else if d == 2 { '2' }
    else if d == 3 { '3' }
    else if d == 4 { '4' }
    else if d == 5 { '5' }
    else if d == 6 { '6' }
    else if d == 7 { '7' }
    else if d == 8 { '8' }
    else { '9' }
}

/// [`digit_named`]: the place a digit key names, or `None` for any other
/// text — an empty one, two characters, or a character that is no decimal
/// digit.
pub fn digit(text: &str) -> (r: Option<usize>)
    ensures
        r matches Some(d) ==> digit_named(text@) == Some(d as nat),
        r is None <==> digit_named(text@) is None,
{
    let chars = chars_of(text);
    if chars.len() != 1 {
        proof {
            assert forall|d: nat| d < 10 implies text@ != seq![digit_char(d)] by {
                assert(seq![digit_char(d)].len() == 1);
            }
        }
        return None;
    }
    let c = chars[0];
    let mut d: usize = 0;
    while d < 10
        invariant
            chars@ == text@,
            chars@.len() == 1,
            c == text@[0],
            d <= 10,
            forall|e: nat| e < d ==> digit_char(e) != c,
        decreases 10 - d,
    {
        if digit_character(d) == c {
            proof {
                assert(text@ =~= seq![digit_char(d as nat)]);
                assert forall|e: nat| e < 10 && text@ == seq![digit_char(e)] implies e == d by {
                    assert(seq![digit_char(e)][0] == digit_char(e));
                    crate::text::lemma_digit_char_injective(e, d as nat);
                }
            }
            return Some(d);
        }
        d += 1;
    }
    proof {
        assert forall|e: nat| e < 10 implies text@ != seq![digit_char(e)] by {
            if text@ == seq![digit_char(e)] {
                assert(text@[0] == digit_char(e));
            }
        }
    }
    None
}

/// A digit key reads back as the digit it is spelled with: the numeral of
/// each of `0` … `9` names that number.
pub proof fn law_digit_reads_its_numeral(d: nat)
    requires
        d < 10,
    ensures
        digit_named(decimal(d)) == Some(d),
{
    assert(decimal(d) == seq![digit_char(d)]);
    assert forall|e: nat| e < 10 && decimal(d) == seq![digit_char(e)] implies e == d by {
        assert(seq![digit_char(e)][0] == digit_char(e));
        assert(seq![digit_char(d)][0] == digit_char(d));
        crate::text::lemma_digit_char_injective(e, d);
    }
}


/// A key as the console's grammar reads it: the few named keys it has a
/// word for, the text a character key types, and anything else.
#[derive(Clone, Debug)]
pub enum Key {
    Space,
    Enter,
    ArrowUp,
    ArrowDown,
    ArrowLeft,
    ArrowRight,
    Character(String),
    Other,
}

/// Which way an arrow points.
#[derive(Clone, Copy, Debug, PartialEq, Eq, Structural)]
pub enum Arrow {
    Up,
    Down,
    Left,
    Right,
}

/// A press in the console's grammar.
#[derive(Clone, Copy, Debug, PartialEq, Eq, Structural)]
pub enum Press {
    Space,
    Enter,
    Arrow(Arrow),
    Digit(usize),
}

/// The press a key is, where it is one: space, enter, the four arrows, and
/// a digit key naming a place; every other key is no press.
pub open spec fn press_of(key: Key) -> Option<Press> {
    match key {
        Key::Space => Some(Press::Space),
        Key::Enter => Some(Press::Enter),
        Key::ArrowUp => Some(Press::Arrow(Arrow::Up)),
        Key::ArrowDown => Some(Press::Arrow(Arrow::Down)),
        Key::ArrowLeft => Some(Press::Arrow(Arrow::Left)),
        Key::ArrowRight => Some(Press::Arrow(Arrow::Right)),
        Key::Character(text) => match digit_named(text@) {
            Some(d) => Some(Press::Digit(d as usize)),
            None => None,
        },
        Key::Other => None,
    }
}

/// [`press_of`].
pub fn grammar(key: &Key) -> (r: Option<Press>)
    ensures
        r == press_of(*key),
        *key is ArrowUp ==> r == Some(Press::Arrow(Arrow::Up)),
        *key is ArrowDown ==> r == Some(Press::Arrow(Arrow::Down)),
        *key is ArrowLeft ==> r == Some(Press::Arrow(Arrow::Left)),
        *key is ArrowRight ==> r == Some(Press::Arrow(Arrow::Right)),
        *key is Space <==> r == Some(Press::Space),
        *key is Enter <==> r == Some(Press::Enter),
        r matches Some(Press::Digit(d)) ==> d < 10 && *key is Character,
        *key is Other ==> r is None,
{
    match key {
        Key::Space => Some(Press::Space),
        Key::Enter => Some(Press::Enter),
        Key::ArrowUp => Some(Press::Arrow(Arrow::Up)),
        Key::ArrowDown => Some(Press::Arrow(Arrow::Down)),
        Key::ArrowLeft => Some(Press::Arrow(Arrow::Left)),
        Key::ArrowRight => Some(Press::Arrow(Arrow::Right)),
        Key::Character(text) => match digit(text.as_str()) {
            Some(d) => Some(Press::Digit(d)),
            None => None,
        },
        Key::Other => None,
    }
}

/// Each arrow key reads as the arrow pointing its own way, so the four
/// arrow keys are four different presses; space and enter are each their
/// own press; a digit press names a place from 0 to 9 and comes only from a
/// character key; and a key with no word in the grammar is no press.
pub proof fn law_each_key_reads_as_what_it_is_named(key: Key)
    ensures
        press_of(Key::ArrowUp) == Some(Press::Arrow(Arrow::Up)),
        press_of(Key::ArrowDown) == Some(Press::Arrow(Arrow::Down)),
        press_of(Key::ArrowLeft) == Some(Press::Arrow(Arrow::Left)),
        press_of(Key::ArrowRight) == Some(Press::Arrow(Arrow::Right)),
        key is Space <==> press_of(key) == Some(Press::Space),
        key is Enter <==> press_of(key) == Some(Press::Enter),
        press_of(key) matches Some(Press::Arrow(a)) ==> (key is ArrowUp || key is ArrowDown
            || key is ArrowLeft || key is ArrowRight),
        press_of(key) matches Some(Press::Digit(d)) ==> d < 10 && key is Character,
        key is Other ==> press_of(key) is None,
{
    if let Key::Character(text) = key {
        if let Some(d) = digit_named(text@) {
            assert(d < 10);
        }
    }
}

} // verus!
