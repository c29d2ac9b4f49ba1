use darklua::generator::dense::DenseLuaGenerator;
use darklua::generator::utils::{
    break_concat, break_long_string, break_minus, break_variable_arguments,
};

fn pushed(column_span: usize, fragments: &[&str]) -> String {
    let mut generator = DenseLuaGenerator::new(column_span);
    for fragment in fragments {
        generator.push_str(fragment);
    }
    generator.into_string()
}

#[test]
fn unused_dense_generator_gives_empty_string() {
    let generator = DenseLuaGenerator::default();

    assert_eq!(generator.into_string(), "");
}

#[test]
fn default_dense_generator_wraps_after_80_columns() {
    let mut generator = DenseLuaGenerator::default();
    let long = "a".repeat(80);

    generator.push_str(&long);
    generator.push_str("(");

    assert_eq!(generator.into_string(), format!("{}\n(", long));
}

#[test]
fn push_str_appends_directly_when_no_space_is_needed() {
    assert_eq!(pushed(80, &["hello", "()"]), "hello()");
}

#[test]
fn push_str_adds_a_space_between_word_characters() {
    assert_eq!(pushed(80, &["hello", "hello"]), "hello hello");
    assert_eq!(pushed(80, &["12", "12"]), "12 12");
    assert_eq!(pushed(80, &["_", "_"]), "_ _");
    assert_eq!(pushed(80, &["a", "1"]), "a 1");
    assert_eq!(pushed(80, &["Z", "_"]), "Z _");
}

#[test]
fn push_str_ignores_an_empty_fragment() {
    assert_eq!(pushed(80, &["hello", "", "hello"]), "hello hello");
    assert_eq!(pushed(80, &[""]), "");
}

#[test]
fn push_str_breaks_the_line_when_the_line_is_full() {
    assert_eq!(pushed(5, &["hello", "("]), "hello\n(");
    assert_eq!(pushed(5, &["hello", "a"]), "hello\na");
}

#[test]
fn push_str_breaks_the_line_when_the_space_does_not_fit() {
    assert_eq!(pushed(8, &["hello", "world"]), "hello\nworld");
    assert_eq!(pushed(10, &["hello", "world"]), "hello\nworld");
    assert_eq!(pushed(11, &["hello", "world"]), "hello world");
}

#[test]
fn push_str_breaks_the_line_when_the_fragment_does_not_fit() {
    assert_eq!(pushed(6, &["hello", "()"]), "hello\n()");
    assert_eq!(pushed(7, &["hello", "()"]), "hello()");
}

#[test]
fn push_str_never_cuts_a_fragment() {
    assert_eq!(pushed(3, &["hello"]), "\nhello");
    assert_eq!(pushed(3, &["ab", "hello", "cd"]), "ab\nhello\ncd");
}

#[test]
fn push_char_behaves_as_push_str() {
    let mut generator = DenseLuaGenerator::new(80);
    generator.push_str("a");
    generator.push_char('b');
    generator.push_char('=');
    generator.push_char('1');
    assert_eq!(generator.into_string(), "a b=1");

    let mut generator = DenseLuaGenerator::new(2);
    generator.push_str("ab");
    generator.push_char(',');
    assert_eq!(generator.into_string(), "ab\n,");
}

#[test]
fn merge_char_appends_in_place_when_it_fits() {
    let mut generator = DenseLuaGenerator::new(80);
    generator.push_str("f");
    generator.merge_char('(');
    assert_eq!(generator.into_string(), "f(");
}

#[test]
fn merge_char_does_not_consult_the_spacing_oracle() {
    let mut generator = DenseLuaGenerator::new(80);
    generator.push_str("f");
    generator.merge_char('g');
    assert_eq!(generator.into_string(), "fg");
}

#[test]
fn merge_char_on_an_empty_generator_starts_a_fragment() {
    let mut generator = DenseLuaGenerator::new(80);
    generator.merge_char('(');
    generator.merge_char(')');
    assert_eq!(generator.into_string(), "()");
}

#[test]
fn merge_char_relocates_the_last_fragment_when_the_line_is_full() {
    let mut generator = DenseLuaGenerator::new(3);
    generator.push_str("abc");
    generator.merge_char('(');
    assert_eq!(generator.into_string(), "\nabc(");
}

#[test]
fn merge_char_strips_the_spaces_before_the_relocated_fragment() {
    let mut generator = DenseLuaGenerator::new(5);
    generator.push_str("a");
    generator.push_str("bcd");
    generator.merge_char('(');
    assert_eq!(generator.into_string(), "a\nbcd(");
}

#[test]
fn merge_char_counts_the_relocated_fragment_on_the_new_line() {
    // after the relocation the line holds `bcd(`: one more character fits in
    // a budget of five, a second one does not
    let mut generator = DenseLuaGenerator::new(5);
    generator.push_str("a");
    generator.push_str("bcd");
    generator.merge_char('(');
    generator.push_str("x");
    generator.push_str(")");
    assert_eq!(generator.into_string(), "a\nbcd(x\n)");
}

#[test]
fn merge_char_makes_the_last_fragment_longer() {
    // the fragment `f(` moves as a whole when the next merge does not fit
    let mut generator = DenseLuaGenerator::new(4);
    generator.push_str("ab");
    generator.push_str("f");
    generator.merge_char('(');
    generator.merge_char('(');
    assert_eq!(generator.into_string(), "ab\nf((");
}

#[test]
fn push_str_and_break_if_adds_a_space_when_the_predicate_holds() {
    let mut generator = DenseLuaGenerator::new(80);
    generator.push_str("-");
    generator.push_str_and_break_if("-", break_minus);
    assert_eq!(generator.into_string(), "- -");
}

#[test]
fn push_str_and_break_if_adds_nothing_when_the_predicate_does_not_hold() {
    let mut generator = DenseLuaGenerator::new(80);
    generator.push_str("a");
    generator.push_str_and_break_if("-", break_minus);
    assert_eq!(generator.into_string(), "a-");
}

#[test]
fn push_str_and_break_if_breaks_the_line_when_the_space_does_not_fit() {
    let mut generator = DenseLuaGenerator::new(2);
    generator.push_str("-");
    generator.push_str_and_break_if("-", break_minus);
    assert_eq!(generator.into_string(), "-\n-");

    let mut generator = DenseLuaGenerator::new(3);
    generator.push_str("-");
    generator.push_str_and_break_if("-", break_minus);
    assert_eq!(generator.into_string(), "- -");
}

#[test]
fn push_str_and_break_if_breaks_the_line_when_the_fragment_does_not_fit() {
    let mut generator = DenseLuaGenerator::new(3);
    generator.push_str("ab");
    generator.push_str_and_break_if("..", break_concat);
    assert_eq!(generator.into_string(), "ab\n..");
}

#[test]
fn push_str_and_break_if_takes_the_predicate_on_the_last_fragment() {
    let mut generator = DenseLuaGenerator::new(80);
    generator.push_str("-");
    generator.push_str("a");
    generator.push_str_and_break_if("b", |last: &[char]| last == ['a']);
    generator.push_str_and_break_if("c", |last: &[char]| last == ['a']);
    assert_eq!(generator.into_string(), "-a bc");
}

#[test]
fn minus_after_minus_gets_a_space() {
    let mut generator = DenseLuaGenerator::new(80);
    generator.push_str("a");
    generator.push_char('=');
    generator.push_str_and_break_if("-", break_minus);
    generator.push_str_and_break_if("-", break_minus);
    generator.push_str("b");
    assert_eq!(generator.into_string(), "a=- -b");
}

#[test]
fn concat_after_a_digit_gets_a_space() {
    let mut generator = DenseLuaGenerator::new(80);
    generator.push_str("1");
    generator.push_str_and_break_if("..", break_concat);
    generator.push_str("2");
    assert_eq!(generator.into_string(), "1 ..2");
}

#[test]
fn concat_after_a_dot_gets_a_space() {
    let mut generator = DenseLuaGenerator::new(80);
    generator.push_str("1.");
    generator.push_str_and_break_if("..", break_concat);
    assert_eq!(generator.into_string(), "1. ..");
}

#[test]
fn concat_after_a_name_gets_no_space() {
    let mut generator = DenseLuaGenerator::new(80);
    generator.push_str("a");
    generator.push_str_and_break_if("..", break_concat);
    generator.push_str("b");
    assert_eq!(generator.into_string(), "a..b");
}

#[test]
fn variable_arguments_after_a_dot_or_a_digit_get_a_space() {
    let mut generator = DenseLuaGenerator::new(80);
    generator.push_str("1");
    generator.push_str_and_break_if("...", break_variable_arguments);
    assert_eq!(generator.into_string(), "1 ...");

    let mut generator = DenseLuaGenerator::new(80);
    generator.push_str("..");
    generator.push_str_and_break_if("...", break_variable_arguments);
    assert_eq!(generator.into_string(), ".. ...");

    let mut generator = DenseLuaGenerator::new(80);
    generator.push_str("(");
    generator.push_str_and_break_if("...", break_variable_arguments);
    assert_eq!(generator.into_string(), "(...");
}

#[test]
fn long_string_after_a_bracket_gets_a_space() {
    let mut generator = DenseLuaGenerator::new(80);
    generator.push_str("t");
    generator.push_char('[');
    generator.push_str_and_break_if("[[a]]", break_long_string);
    generator.push_char(']');
    assert_eq!(generator.into_string(), "t[ [[a]]]");
}

#[test]
fn long_string_after_a_bracket_gets_a_line_break_when_the_space_does_not_fit() {
    let mut generator = DenseLuaGenerator::new(7);
    generator.push_str("t");
    generator.push_char('[');
    generator.push_str_and_break_if("[[a]]", break_long_string);
    assert_eq!(generator.into_string(), "t[\n[[a]]");
}

#[test]
fn into_string_keeps_characters_outside_ascii() {
    let mut generator = DenseLuaGenerator::new(80);
    generator.push_str("'é'");
    generator.push_str("'日本'");
    assert_eq!(generator.into_string(), "'é''日本'");
}

#[test]
fn lengths_are_counted_in_characters() {
    // three characters fit in a budget of three, whatever their encoding
    let mut generator = DenseLuaGenerator::new(3);
    generator.push_str("é");
    generator.push_str("日本");
    generator.push_str("é");
    assert_eq!(generator.into_string(), "é日本\né");
}
