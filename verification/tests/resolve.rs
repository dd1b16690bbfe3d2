use deet::{parse_assignment, resolve_command_line, ResolveError};

#[test]
fn assignment_pattern_matches_key_value() {
    assert_eq!(
        parse_assignment("FOO=bar"),
        Some(("FOO".to_string(), "bar".to_string()))
    );
}

#[test]
fn assignment_pattern_needs_both_halves() {
    assert_eq!(parse_assignment("=bar"), None);
    assert_eq!(parse_assignment("FOO="), None);
    assert_eq!(parse_assignment("="), None);
    assert_eq!(parse_assignment("plain"), None);
}

#[test]
fn assignment_pattern_rejects_second_equals() {
    assert_eq!(parse_assignment("A=B=C"), None);
    assert_eq!(parse_assignment("A==B"), None);
}

#[test]
fn env_detection_is_positional() {
    let spec = resolve_command_line("FOO=1 BAR=2 echo FOO=3").unwrap();
    assert_eq!(
        spec.env,
        vec![
            ("FOO".to_string(), "1".to_string()),
            ("BAR".to_string(), "2".to_string()),
        ]
    );
    assert_eq!(spec.program, "echo");
    assert_eq!(spec.args, vec!["FOO=3"]);
}

#[test]
fn arguments_after_program_stay_verbatim() {
    let spec = resolve_command_line("git log --follow -- a.txt").unwrap();
    assert_eq!(spec.env, Vec::<(String, String)>::new());
    assert_eq!(spec.program, "git");
    assert_eq!(spec.args, vec!["log", "--follow", "--", "a.txt"]);
}

#[test]
fn all_assignments_is_an_error() {
    let err = resolve_command_line("FOO=1").unwrap_err();
    assert_eq!(err, ResolveError::NoProgram);
    assert_eq!(err.message(), "cannot find program part of command");
}

#[test]
fn empty_line_is_an_error() {
    assert_eq!(resolve_command_line("").unwrap_err(), ResolveError::NoProgram);
    assert_eq!(resolve_command_line("A=1 B=2").unwrap_err(), ResolveError::NoProgram);
}

#[test]
fn duplicate_assignments_keep_scan_order() {
    // the spawner applies the overlay in order, so the later pair wins
    let spec = resolve_command_line("A=1 A=2 prog").unwrap();
    assert_eq!(
        spec.env,
        vec![("A".to_string(), "1".to_string()), ("A".to_string(), "2".to_string())]
    );
}

#[test]
fn quoted_value_with_spaces_is_one_assignment() {
    let spec = resolve_command_line("MSG=\"a b\" prog").unwrap();
    assert_eq!(spec.env, vec![("MSG".to_string(), "a b".to_string())]);
    assert_eq!(spec.program, "prog");
}
