use darklua::lua_generator::LuaGenerator;

#[test]
fn unused_generator_gives_empty_string() {
    let generator = LuaGenerator::default();

    assert_eq!(&generator.into_string(), "");
}

#[test]
fn pushed_single_string_gives_same_string() {
    let mut generator = LuaGenerator::default();
    let content = "hello";

    generator.push_str(content);

    assert_eq!(&generator.into_string(), content);
}

#[test]
fn push_adds_space_between_letters() {
    let mut generator = LuaGenerator::default();
    let content = "hello";

    generator.push_str(content);
    generator.push_str(content);

    assert_eq!(generator.into_string(), format!("{} {}", content, content));
}

#[test]
fn push_adds_space_between_numbers() {
    let mut generator = LuaGenerator::default();
    let content = "12";

    generator.push_str(content);
    generator.push_str(content);

    assert_eq!(generator.into_string(), format!("{} {}", content, content));
}

#[test]
fn push_adds_space_between_underscores() {
    let mut generator = LuaGenerator::default();
    let content = "_";

    generator.push_str(content);
    generator.push_str(content);

    assert_eq!(generator.into_string(), format!("{} {}", content, content));
}

#[test]
fn push_does_not_add_space_between_letters_and_symbol() {
    let mut generator = LuaGenerator::default();
    let content = "hello";

    generator.push_str(content);
    generator.push_str("()");

    assert_eq!(generator.into_string(), format!("{}()", content));
}
