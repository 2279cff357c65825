use todo_finder::utils::{self, TodoPattern};

fn pattern() -> TodoPattern {
    TodoPattern::new().expect("the TODO pattern compiles")
}

#[test]
fn test_extract_todo_comment() {
    let todo_pattern = pattern();
    let line_with_todo = "    // TODO: Implement the new feature";
    let line_without_todo = "    // This is a regular comment";
    let line_with_no_comment = "let x = 5;";

    assert_eq!(
        utils::extract_todo_comment(line_with_todo, &todo_pattern),
        Some(String::from("Implement the new feature"))
    );
    assert_eq!(utils::extract_todo_comment(line_without_todo, &todo_pattern), None);
    assert_eq!(utils::extract_todo_comment(line_with_no_comment, &todo_pattern), None);
}

#[test]
fn test_extract_todo_comment_with_whitespace() {
    let line_with_todo = "    //   TODO:  Improve error handling  ";
    let expected = Some(String::from("Improve error handling"));

    assert_eq!(utils::extract_todo_comment(line_with_todo, &pattern()), expected);
}

#[test]
fn test_extract_todo_comment_multiline() {
    let line_with_multiline_todo = "    // TODO: Refactor this code\n    // to make it more efficient";
    let expected = Some(String::from("Refactor this code"));

    assert_eq!(utils::extract_todo_comment(line_with_multiline_todo, &pattern()), expected);
}

#[test]
fn test_extract_todo_comment_inline() {
    let line_with_inline_todo = "let x = 5; // TODO: Use a constant instead of a hardcoded value";
    let expected = None;

    assert_eq!(utils::extract_todo_comment(line_with_inline_todo, &pattern()), expected);
}

#[test]
fn test_extract_todo_comment_python() {
    let todo_pattern = pattern();
    let line_with_todo = "# TODO: Implement the new feature";
    let line_without_todo = "# This is a regular comment";
    let line_with_no_comment = "x = 5";

    assert_eq!(
        utils::extract_todo_comment(line_with_todo, &todo_pattern),
        Some(String::from("Implement the new feature"))
    );
    assert_eq!(utils::extract_todo_comment(line_without_todo, &todo_pattern), None);
    assert_eq!(utils::extract_todo_comment(line_with_no_comment, &todo_pattern), None);
}

#[test]
fn test_extract_todo_comment_python_inline() {
    let line_with_inline_todo = "x = 5  # TODO: Use a constant instead of a hardcoded value";
    let expected = None;

    assert_eq!(utils::extract_todo_comment(line_with_inline_todo, &pattern()), expected);
}

#[test]
fn marker_without_body_is_no_match() {
    let p = pattern();
    assert_eq!(utils::extract_todo_comment("// TODO:", &p), None);
    assert_eq!(utils::extract_todo_comment("  #  TODO:    ", &p), None);
    assert_eq!(utils::extract_todo_comment("// TODO:\t \u{a0}", &p), None);
}

#[test]
fn code_before_comment_is_no_match() {
    let p = pattern();
    assert_eq!(utils::extract_todo_comment("let x = 5; // TODO: fix", &p), None);
    assert_eq!(utils::extract_todo_comment("x # TODO: fix", &p), None);
}

#[test]
fn marker_is_case_sensitive_and_follows_introducer() {
    let p = pattern();
    assert_eq!(utils::extract_todo_comment("// todo: fix", &p), None);
    assert_eq!(utils::extract_todo_comment("// TODO fix", &p), None);
    assert_eq!(utils::extract_todo_comment("/// TODO: fix", &p), None);
    assert_eq!(utils::extract_todo_comment("/ TODO: fix", &p), None);
    assert_eq!(utils::extract_todo_comment("# # TODO: fix", &p), None);
}

#[test]
fn body_keeps_inner_spacing_and_single_character() {
    let p = pattern();
    assert_eq!(utils::extract_todo_comment("#TODO:x", &p), Some(String::from("x")));
    assert_eq!(
        utils::extract_todo_comment("\t//TODO:a  b, \"c\"\t", &p),
        Some(String::from("a  b, \"c\""))
    );
    assert_eq!(
        utils::extract_todo_comment("// TODO: TODO: twice", &p),
        Some(String::from("TODO: twice"))
    );
}

#[test]
fn unicode_whitespace_is_whitespace() {
    let p = pattern();
    assert_eq!(
        utils::extract_todo_comment("\u{3000}//\u{2003}TODO:\u{a0}fix it\u{2028}", &p),
        Some(String::from("fix it"))
    );
}

#[test]
fn carriage_return_at_line_end_is_cut() {
    let p = pattern();
    assert_eq!(utils::extract_todo_comment("// TODO: fix\r", &p), Some(String::from("fix")));
}

#[test]
fn line_break_at_end_is_not_part_of_the_line() {
    let p = pattern();
    assert_eq!(utils::extract_todo_comment("// TODO: fix \n", &p), Some(String::from("fix")));
    assert_eq!(utils::extract_todo_comment("# TODO:\n", &p), None);
    assert_eq!(utils::extract_todo_comment("x = 1 # TODO: y\n", &p), None);
}
