use deet::error::{OwnedRecord, PreFormatted, Problem, ProblemLevel};
use deet::level::LogLevel;
use deet::scope::{catch_errors, log_indent, LogScopes};

fn problem(level: ProblemLevel, text: &str) -> Problem {
    let rl = match level {
        ProblemLevel::Error => LogLevel::Error,
        ProblemLevel::Warn => LogLevel::Warn,
    };
    Problem::new(
        level,
        OwnedRecord {
            body: PreFormatted::new(text.to_string(), format!("{:?}", text), format!("{:#?}", text)),
            level: rl,
            target: "deet".to_string(),
            module: None,
            file: None,
            line: None,
        },
        None,
    )
}

#[test]
fn indent_guard_nests_and_unnests() {
    let mut state = LogScopes::new();
    assert_eq!(state.indent, 0);
    let g1 = log_indent(&mut state);
    let g2 = log_indent(&mut state);
    assert_eq!(state.indent, 2);
    g2.end(&mut state);
    g1.end(&mut state);
    assert_eq!(state.indent, 0);
}

#[test]
fn linebreak_is_due_from_the_second_repetition() {
    let mut state = LogScopes::new();
    let mut g = log_indent(&mut state);
    assert!(!g.linebreak());
    assert!(g.linebreak());
    assert!(g.linebreak());
    g.end(&mut state);
}

#[test]
fn catch_scope_collects_problems_in_order() {
    let mut state = LogScopes::new();
    let catch = catch_errors(&mut state, false);
    state.record_problem(problem(ProblemLevel::Warn, "w1"));
    state.record_problem(problem(ProblemLevel::Error, "e1"));
    let problems = catch.get(&mut state);
    assert_eq!(problems.len(), 2);
    assert_eq!(problems[0].level(), ProblemLevel::Warn);
    assert_eq!(problems[1].level(), ProblemLevel::Error);
    assert_eq!(state.catch.len(), 0);
}

#[test]
fn problems_go_to_the_innermost_scope() {
    let mut state = LogScopes::new();
    let outer = catch_errors(&mut state, false);
    state.record_problem(problem(ProblemLevel::Error, "outer"));
    let inner = catch_errors(&mut state, false);
    state.record_problem(problem(ProblemLevel::Error, "inner"));
    let got_inner = inner.get(&mut state);
    assert_eq!(got_inner.len(), 1);
    assert_eq!(got_inner[0].record().body.display, "inner");
    let got_outer = outer.get(&mut state);
    assert_eq!(got_outer.len(), 1);
    assert_eq!(got_outer[0].record().body.display, "outer");
}

#[test]
fn problems_without_a_scope_are_dropped() {
    let mut state = LogScopes::new();
    state.record_problem(problem(ProblemLevel::Error, "lost"));
    assert_eq!(state.catch.len(), 0);
}

#[test]
fn pardoning_keeps_only_errors() {
    let mut state = LogScopes::new();
    let catch = catch_errors(&mut state, false);
    state.record_problem(problem(ProblemLevel::Warn, "w1"));
    state.record_problem(problem(ProblemLevel::Error, "e1"));
    state.record_problem(problem(ProblemLevel::Warn, "w2"));
    state.record_problem(problem(ProblemLevel::Error, "e2"));
    let errors = catch.get_errors(&mut state);
    assert_eq!(errors.len(), 2);
    assert_eq!(errors[0].record().body.display, "e1");
    assert_eq!(errors[1].record().body.display, "e2");
}

#[test]
fn indenting_scope_restores_depth() {
    let mut state = LogScopes::new();
    let catch = catch_errors(&mut state, true);
    assert_eq!(state.indent, 1);
    let mut catch = catch;
    assert!(!catch.linebreak());
    assert!(catch.linebreak());
    let problems = catch.get(&mut state);
    assert!(problems.is_empty());
    assert_eq!(state.indent, 0);
}
