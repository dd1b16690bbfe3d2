use deet::cli::printblock_lines;
use deet::display::{Lines, LinesView};
use deet::git::{truncate_msg, Commit};
use deet::hex::Hex;

#[test]
fn lines_render_one_per_line() {
    let l = Lines(vec!["a".to_string(), "b".to_string(), "c".to_string()]);
    assert_eq!(l.render(), "a\nb\nc");
}

#[test]
fn empty_lines_render_empty() {
    assert_eq!(Lines(Vec::new()).render(), "");
    assert_eq!(Lines(vec!["only".to_string()]).render(), "only");
}

#[test]
fn lines_view_renders_projected_items() {
    let commits = vec![
        Commit { hash: "a1".into(), concise: "a1 c".into(), pretty: "* a1 first".into() },
        Commit { hash: "b2".into(), concise: "b2 c".into(), pretty: "* b2 second".into() },
    ];
    let view = LinesView(commits.iter().map(|c| c.pretty.clone()).collect());
    assert_eq!(view.render(), "* a1 first\n* b2 second");
}

#[test]
fn hex_renders_lowercase_without_padding() {
    assert_eq!(Hex(0).hex_string(), "0");
    assert_eq!(Hex(255).hex_string(), "ff");
    assert_eq!(Hex(0xdead_beef).hex_string(), "deadbeef");
}

#[test]
fn short_messages_stay_whole() {
    assert_eq!(truncate_msg("Fix-the-build"), "Fix-the-build");
    assert_eq!(truncate_msg(""), "");
}

#[test]
fn twenty_eight_graphemes_stay_whole() {
    let msg = "abcd".repeat(7);
    assert_eq!(truncate_msg(&msg), msg);
}

#[test]
fn twenty_nine_graphemes_gain_the_ellipsis() {
    let msg = "a".repeat(29);
    let expected = format!("{}\u{2026}", "a".repeat(29));
    assert_eq!(truncate_msg(&msg), expected);
}

#[test]
fn truncation_counts_grapheme_clusters_not_chars() {
    let cluster = "e\u{301}";
    let msg = cluster.repeat(40);
    let expected = format!("{}\u{2026}", cluster.repeat(29));
    assert_eq!(truncate_msg(&msg), expected);
}

#[test]
fn tagged_block_aligns_under_its_tag() {
    assert_eq!(
        printblock_lines("[ABORT] ", "first\nsecond"),
        vec!["[ABORT] first", "        second"]
    );
}

#[test]
fn tagged_block_of_one_line() {
    assert_eq!(printblock_lines("[DIAGNOSTIC] ", "oops"), vec!["[DIAGNOSTIC] oops"]);
}

#[test]
fn tagged_block_of_nothing_prints_nothing() {
    assert_eq!(printblock_lines("[ABORT] ", ""), Vec::<String>::new());
}
