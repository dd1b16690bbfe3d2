use deet::indent::{Indent, IndentDisplay, IndentWriter};

fn display(base: &str, secondary: &str, body: &str) -> String {
    IndentDisplay {
        indent: Indent { base: base.to_string(), secondary: secondary.to_string() },
        body: body.to_string(),
    }
    .render()
}

#[test]
fn single_line_gets_the_base_prefix_only() {
    assert_eq!(display("  ", "> ", "x"), "  x");
}

#[test]
fn later_lines_get_both_prefixes() {
    assert_eq!(display("  ", "> ", "x\ny\nz"), "  x\n  > y\n  > z");
}

#[test]
fn empty_body_still_opens_the_first_line() {
    assert_eq!(display("  ", "> ", ""), "  ");
}

#[test]
fn trailing_newline_opens_an_indented_empty_line() {
    assert_eq!(display("  ", "> ", "x\n"), "  x\n  > ");
}

#[test]
fn writer_indents_across_separate_writes() {
    let mut w = IndentWriter::new(Indent { base: "+".to_string(), secondary: "-".to_string() });
    w.write_str("a");
    w.write_str("b\nc");
    w.write_char('\n');
    w.write_str("d");
    assert_eq!(w.inner, "+ab\n+-c\n+-d");
}
