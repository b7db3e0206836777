use karakuri_bridge::keys::{digit, grammar, Arrow, Key, Press};

#[test]
fn a_digit_key_names_its_place() {
    for d in 0..10usize {
        assert_eq!(digit(&d.to_string()), Some(d));
    }
}

#[test]
fn anything_else_is_no_digit() {
    assert_eq!(digit(""), None);
    assert_eq!(digit("10"), None);
    assert_eq!(digit("a"), None);
    assert_eq!(digit("٣"), None);
    assert_eq!(digit(" 1"), None);
}

#[test]
fn a_key_is_a_press_where_the_grammar_has_a_word_for_it() {
    assert_eq!(grammar(&Key::Space), Some(Press::Space));
    assert_eq!(grammar(&Key::Enter), Some(Press::Enter));
    assert_eq!(grammar(&Key::ArrowLeft), Some(Press::Arrow(Arrow::Left)));
    assert_eq!(grammar(&Key::ArrowDown), Some(Press::Arrow(Arrow::Down)));
    assert_eq!(grammar(&Key::Character("7".to_string())), Some(Press::Digit(7)));
    assert_eq!(grammar(&Key::Character("x".to_string())), None);
    assert_eq!(grammar(&Key::Character("12".to_string())), None);
    assert_eq!(grammar(&Key::Other), None);
}
