use darklua::generator::utils::{
    break_concat, break_long_string, break_minus, break_variable_arguments, characters,
    is_digit, is_relevant_for_spacing, starts_with, string_of,
};

fn chars(text: &str) -> Vec<char> {
    text.chars().collect()
}

#[test]
fn letters_digits_and_underscore_are_relevant_for_spacing() {
    for character in ['a', 'z', 'A', 'Z', 'm', 'Q', '0', '9', '5', '_'] {
        assert!(is_relevant_for_spacing(&character), "{}", character);
    }
}

#[test]
fn other_characters_are_not_relevant_for_spacing() {
    for character in [
        ' ', '\n', '(', ')', '[', ']', '{', '}', '.', ',', ';', ':', '-', '+', '=', '"', '\'',
        '@', '`', '/', '\u{e9}', '\u{0}',
    ] {
        assert!(!is_relevant_for_spacing(&character), "{:?}", character);
    }
}

#[test]
fn is_digit_accepts_the_ten_digits_only() {
    for character in ['0', '1', '2', '3', '4', '5', '6', '7', '8', '9'] {
        assert!(is_digit(character));
    }
    for character in ['/', ':', 'a', 'f', ' ', '\u{661}'] {
        assert!(!is_digit(character), "{:?}", character);
    }
}

#[test]
fn break_concat_holds_after_a_digit_or_a_dot() {
    assert!(break_concat(&chars("1")));
    assert!(break_concat(&chars("10")));
    assert!(break_concat(&chars("a1")));
    assert!(break_concat(&chars("1.")));
    assert!(break_concat(&chars(".")));
    assert!(!break_concat(&chars("")));
    assert!(!break_concat(&chars("a")));
    assert!(!break_concat(&chars("1a")));
    assert!(!break_concat(&chars(")")));
}

#[test]
fn break_minus_holds_after_a_minus() {
    assert!(break_minus(&chars("-")));
    assert!(break_minus(&chars("a-")));
    assert!(!break_minus(&chars("")));
    assert!(!break_minus(&chars("-a")));
    assert!(!break_minus(&chars("=")));
}

#[test]
fn break_variable_arguments_holds_after_a_digit_or_a_dot() {
    assert!(break_variable_arguments(&chars("1")));
    assert!(break_variable_arguments(&chars("..")));
    assert!(break_variable_arguments(&chars("x.")));
    assert!(!break_variable_arguments(&chars("")));
    assert!(!break_variable_arguments(&chars(",")));
    assert!(!break_variable_arguments(&chars("return")));
}

#[test]
fn break_long_string_holds_after_an_opening_bracket() {
    assert!(break_long_string(&chars("[")));
    assert!(break_long_string(&chars("t[")));
    assert!(!break_long_string(&chars("")));
    assert!(!break_long_string(&chars("]")));
    assert!(!break_long_string(&chars("[a")));
}

#[test]
fn starts_with_tests_the_first_character() {
    assert!(starts_with("[[a]]", '['));
    assert!(starts_with("[", '['));
    assert!(!starts_with("", '['));
    assert!(!starts_with("'['", '['));
    assert!(!starts_with("a[", '['));
    assert!(starts_with("\u{e9}a", '\u{e9}'));
}

#[test]
fn characters_lists_the_characters_in_order() {
    assert_eq!(characters(""), Vec::<char>::new());
    assert_eq!(characters("abc"), vec!['a', 'b', 'c']);
    assert_eq!(characters("a\u{e9}\u{65e5}"), vec!['a', '\u{e9}', '\u{65e5}']);
}

#[test]
fn string_of_joins_the_characters_in_order() {
    assert_eq!(string_of(&Vec::new()), "");
    assert_eq!(string_of(&vec!['a', 'b', 'c']), "abc");
    assert_eq!(string_of(&vec!['\u{e9}', '\n', ' ']), "\u{e9}\n ");
}

#[test]
fn string_of_undoes_characters() {
    let text = "local x = 'h\u{e9}llo'\n";
    assert_eq!(string_of(&characters(text)), text);
}
