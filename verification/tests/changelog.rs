use deet::changelog::{parse_changelog, parse_line, ParsedLine, VersionNote};

fn entries(text: &str) -> Vec<(String, String)> {
    parse_changelog(text)
        .into_iter()
        .map(|n| (n.version, n.body))
        .collect()
}

#[test]
fn headings_are_classified() {
    assert_eq!(
        parse_line("## Release notes"),
        ParsedLine::Heading { pounds: 2, body: "Release notes".to_string() }
    );
    assert_eq!(
        parse_line("####   spaced  "),
        ParsedLine::Heading { pounds: 4, body: "spaced  ".to_string() }
    );
}

#[test]
fn rules_and_plain_lines_are_classified() {
    assert_eq!(parse_line("---"), ParsedLine::SectionBreak);
    assert_eq!(parse_line("-----   "), ParsedLine::SectionBreak);
    assert_eq!(parse_line("--"), ParsedLine::Plain);
    assert_eq!(parse_line("--- x"), ParsedLine::Plain);
    assert_eq!(parse_line("just text"), ParsedLine::Plain);
}

#[test]
fn version_headings_are_recognized() {
    let mut p = parse_line("#### 1.2.3");
    p.specialize_header();
    assert_eq!(
        p,
        ParsedLine::VersionHeading { pounds: 4, version: "1.2.3".to_string() }
    );

    let mut q = parse_line("## not a version");
    q.specialize_header();
    assert_eq!(
        q,
        ParsedLine::Heading { pounds: 2, body: "not a version".to_string() }
    );
}

#[test]
fn prerelease_versions_count() {
    let mut p = parse_line("# 1.0.0-alpha.1+build5");
    p.specialize_header();
    assert!(matches!(p, ParsedLine::VersionHeading { .. }));
}

#[test]
fn a_changelog_groups_into_version_notes() {
    let text = "# Changelog\n\n#### 0.2.0\n\n- Added things\n\n#### 0.1.0\nFirst release.\n\n---\nFooter text.\n";
    assert_eq!(
        entries(text),
        vec![
            ("0.2.0".to_string(), "- Added things\n".to_string()),
            ("0.1.0".to_string(), "First release.\n".to_string()),
        ]
    );
}

#[test]
fn an_equal_or_deeper_heading_closes_an_entry() {
    let text = "#### 0.1.0\nbody\n#### Other\nignored\n";
    assert_eq!(entries(text), vec![("0.1.0".to_string(), "body\n".to_string())]);

    let deeper = "#### 0.1.0\nbody\n##### sub\nignored\n";
    assert_eq!(entries(deeper), vec![("0.1.0".to_string(), "body\n".to_string())]);
}

#[test]
fn a_shallower_heading_stays_in_the_entry() {
    let text = "## 0.1.0\n# big\nafter\n";
    assert_eq!(entries(text), vec![("0.1.0".to_string(), "# big\nafter\n".to_string())]);
}

#[test]
fn text_before_the_first_version_is_dropped() {
    let text = "intro\n---\nmore\n#### 3.0.0\nnote\n";
    assert_eq!(entries(text), vec![("3.0.0".to_string(), "note\n".to_string())]);
}

#[test]
fn empty_entries_render_with_a_blank_body() {
    let text = "#### 1.1.1\n\n\n";
    assert_eq!(entries(text), vec![("1.1.1".to_string(), "\n".to_string())]);
}

#[test]
fn notes_render_back_as_markdown() {
    let n = VersionNote { version: "0.2.0".to_string(), body: "- Added things\n".to_string() };
    assert_eq!(n.render(), "#### 0.2.0\n\n- Added things");
}
