use shell::quotations::{parse_quotes, parse_quotes_with, DoubleQuotes};

#[test]
fn single_quotes() {
    let a = "\'this is a      test \\n a\'";
    let b = parse_quotes(a);
    assert_eq!(r"this is a      test \n a", b.iter().next().unwrap());
}

#[test]
fn double_quotes() {
    let a = r#""before\   after""#;
    let b = parse_quotes_with(a, DoubleQuotes::Keep);
    assert_eq!(r#""before   after""#, b.iter().next().unwrap());
}

#[test]
fn double_quotes_are_stripped_by_default() {
    let b = parse_quotes(r#""before\   after""#);
    assert_eq!(b, vec!["before   after".to_string()]);
}

#[test]
fn unquoted_input_splits_like_whitespace() {
    let input = "  ls   -l  /tmp  x ";
    let expected: Vec<String> = input.split(' ').filter(|w| !w.is_empty()).map(String::from).collect();
    assert_eq!(parse_quotes(input), expected);
    assert_eq!(parse_quotes(input), vec!["ls", "-l", "/tmp", "x"]);
}

#[test]
fn runs_of_spaces_give_no_empty_tokens() {
    assert_eq!(parse_quotes("a     b"), vec!["a", "b"]);
    assert!(parse_quotes("      ").is_empty());
    assert!(parse_quotes("").is_empty());
    assert!(parse_quotes("'' \"\"").is_empty());
}

#[test]
fn single_quoted_backslash_is_literal() {
    assert_eq!(parse_quotes("'a\\nb'"), vec!["a\\nb"]);
}

#[test]
fn escaped_double_quote_outside_quotes() {
    assert_eq!(parse_quotes("a\\\"b"), vec!["a\"b"]);
}

#[test]
fn unterminated_quote_keeps_content() {
    assert_eq!(parse_quotes("'abc def"), vec!["abc def"]);
    assert_eq!(parse_quotes("x \"abc def"), vec!["x", "abc def"]);
}

#[test]
fn escaped_space_joins_words() {
    assert_eq!(parse_quotes("a\\ b c"), vec!["a b", "c"]);
}

#[test]
fn double_backslash_is_one_backslash() {
    assert_eq!(parse_quotes("a\\\\b"), vec!["a\\b"]);
}

#[test]
fn quotes_inside_other_quotes_are_literal() {
    assert_eq!(parse_quotes("\"it's\" 'say \"hi\"'"), vec!["it's", "say \"hi\""]);
}

#[test]
fn adjacent_quoted_runs_join() {
    assert_eq!(parse_quotes("'a b'\"c d\"e"), vec!["a bc de"]);
}
