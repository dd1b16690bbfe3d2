use deet::{pnonempty, preadln, preadlns, SinkError};

#[test]
fn first_line_of_empty_stream_fails() {
    let err = preadln("").unwrap_err();
    assert_eq!(err, SinkError::EmptyOutput);
    assert_eq!(err.message(), "subprocess did not print anything");
}

#[test]
fn first_line_stops_at_terminator() {
    assert_eq!(preadln("hello\nworld\n").unwrap(), "hello");
    assert_eq!(preadln("hello").unwrap(), "hello");
}

#[test]
fn empty_first_line_is_not_an_error() {
    assert_eq!(preadln("\nrest").unwrap(), "");
}

#[test]
fn all_lines_without_trailing_empty() {
    assert_eq!(preadlns("a\nb\n"), vec!["a", "b"]);
    assert_eq!(preadlns("a\nb"), vec!["a", "b"]);
    assert_eq!(preadlns(""), Vec::<String>::new());
}

#[test]
fn all_lines_strips_carriage_returns() {
    assert_eq!(preadlns("a\r\nb\r\n"), vec!["a", "b"]);
    assert_eq!(preadlns("a\r"), vec!["a\r"]);
}

#[test]
fn all_lines_keeps_interior_empties() {
    assert_eq!(preadlns("a\n\nb"), vec!["a", "", "b"]);
}

#[test]
fn whitespace_only_output_is_empty() {
    assert!(!pnonempty(""));
    assert!(!pnonempty("  \t\n  "));
}

#[test]
fn unicode_whitespace_counts_as_empty() {
    assert!(!pnonempty("\u{00A0}\u{2003}\n"));
}

#[test]
fn any_other_character_is_output() {
    assert!(pnonempty("  x  "));
    assert!(pnonempty("\n\n.\n"));
}
