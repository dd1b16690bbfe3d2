use deet::smart_split;

fn split(s: &str) -> Vec<String> {
    smart_split(s)
}

#[test]
fn splits_plain_words() {
    assert_eq!(split("a b c"), vec!["a", "b", "c"]);
}

#[test]
fn collapses_repeated_whitespace() {
    assert_eq!(split("  a \t b\n c  "), vec!["a", "b", "c"]);
}

#[test]
fn empty_input_has_no_tokens() {
    assert_eq!(split(""), Vec::<String>::new());
    assert_eq!(split("   \t\n"), Vec::<String>::new());
}

#[test]
fn quoting_groups_words() {
    assert_eq!(split("a \"b c\" d"), vec!["a", "b c", "d"]);
}

#[test]
fn quotes_are_never_emitted() {
    assert_eq!(split("ab\"cd\"ef"), vec!["abcdef"]);
}

#[test]
fn escaped_space_joins_words() {
    assert_eq!(split("a\\ b"), vec!["a b"]);
}

#[test]
fn escaped_quotes_are_literal() {
    assert_eq!(split("\\\"x\\\""), vec!["\"x\""]);
}

#[test]
fn escaped_backslash_is_literal() {
    assert_eq!(split("a\\\\b"), vec!["a\\b"]);
}

#[test]
fn trailing_lone_backslash_is_dropped() {
    assert_eq!(split("ab\\"), vec!["ab"]);
}

#[test]
fn unterminated_quote_keeps_trailing_whitespace() {
    assert_eq!(split("a \"b c "), vec!["a", "b c "]);
}

#[test]
fn round_trip_of_plain_tokens() {
    let tokens = vec!["git", "log", "--format=%h", "--follow", "--", "src/lib.rs"];
    let joined = tokens.join(" ");
    let again = split(&joined);
    assert_eq!(again, tokens);
}

#[test]
fn splits_a_real_command_line() {
    assert_eq!(
        split(" git log --format=\"* %C(auto)%h %f\" -n 1 abc123 "),
        vec!["git", "log", "--format=* %C(auto)%h %f", "-n", "1", "abc123"]
    );
}
