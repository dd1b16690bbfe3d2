use deet::error::{OwnedRecord, PreFormatted, Problem, ProblemLevel};
use deet::level::{LevelFilter, LogLevel};
use deet::logger::{indent_prefix, LogMode, Logger};

fn record(level: LogLevel, text: &str) -> OwnedRecord {
    OwnedRecord {
        body: PreFormatted::new(text.to_string(), format!("{:?}", text), format!("{:#?}", text)),
        level,
        target: "deet".to_string(),
        module: None,
        file: None,
        line: None,
    }
}

#[test]
fn mode_maps_to_filter() {
    assert_eq!(LogMode::Default.to_level_filter(), LevelFilter::Info);
    assert_eq!(LogMode::Verbose.to_level_filter(), LevelFilter::Debug);
    assert_eq!(LogMode::Trace.to_level_filter(), LevelFilter::Trace);
}

#[test]
fn default_mode_stops_at_info() {
    let l = Logger::new(LogMode::Default);
    assert!(l.enabled(&LogLevel::Error));
    assert!(l.enabled(&LogLevel::Info));
    assert!(!l.enabled(&LogLevel::Debug));
    assert!(!l.enabled(&LogLevel::Trace));
}

#[test]
fn verbose_mode_stops_at_debug() {
    let l = Logger::new(LogMode::Verbose);
    assert!(l.enabled(&LogLevel::Debug));
    assert!(!l.enabled(&LogLevel::Trace));
}

#[test]
fn trace_mode_lets_everything_through() {
    let l = Logger::new(LogMode::Trace);
    assert!(l.enabled(&LogLevel::Trace));
}

#[test]
fn info_record_renders_flat() {
    let l = Logger::new(LogMode::Default);
    let out = l.format_record(0, &record(LogLevel::Info, "Hello"));
    assert_eq!(out, "\x1B[33m[ INFO  ]\x1B[0m\x1B[33m\x1B[0m Hello");
}

#[test]
fn multi_line_record_is_indented() {
    let l = Logger::new(LogMode::Default);
    let out = l.format_record(1, &record(LogLevel::Warn, "A\nB"));
    assert_eq!(
        out,
        "    \x1B[31m[ WARN  ]\x1B[0m\x1B[31m\x1B[0m A\n              B"
    );
}

#[test]
fn trace_mode_names_the_origin() {
    let l = Logger::new(LogMode::Trace);
    let mut r = record(LogLevel::Trace, "t");
    r.module = Some("deet::sink".to_string());
    r.line = Some(42);
    let out = l.format_record(0, &r);
    assert_eq!(
        out,
        "\x1B[36m[ TRACE ]\x1B[0m\x1B[36m[deet::sink:42]\x1B[0m t"
    );
}

#[test]
fn unknown_origin_shows_question_marks() {
    let l = Logger::new(LogMode::Trace);
    let out = l.format_record(0, &record(LogLevel::Error, "x"));
    assert_eq!(out, "\x1B[31m[ ERROR ]\x1B[0m\x1B[31m[?:?]\x1B[0m x");
}

#[test]
fn indent_prefix_grows_then_stops() {
    assert_eq!(indent_prefix(0), "");
    assert_eq!(indent_prefix(1), "    ");
    assert_eq!(indent_prefix(2), "        ");
    assert_eq!(indent_prefix(3), "            ");
    assert_eq!(indent_prefix(4), "           \u{2026}");
    assert_eq!(indent_prefix(9), "           \u{2026}");
}

#[test]
fn problem_heading_names_file_and_line() {
    let mut r = record(LogLevel::Error, "boom");
    r.file = Some("src/x.rs".to_string());
    r.line = Some(12);
    let p = Problem::new(ProblemLevel::Error, r, None);
    assert_eq!(p.render(), "[ ERROR ][src/x.rs:12] boom");
}

#[test]
fn problem_heading_defaults_to_question_marks() {
    let p = Problem::new(ProblemLevel::Warn, record(LogLevel::Warn, "careful"), None);
    assert_eq!(p.render(), "[ WARN  ][?:?] careful");
}

#[test]
fn problem_backtrace_follows_on_its_own_lines() {
    let p = Problem::new(
        ProblemLevel::Error,
        record(LogLevel::Error, "boom"),
        Some("frame 0\nframe 1".to_string()),
    );
    assert_eq!(p.render(), "[ ERROR ][?:?] boom\nframe 0\nframe 1");
    assert_eq!(p.backtrace(), Some("frame 0\nframe 1"));
}

#[test]
fn problem_accessors_hand_back_what_went_in() {
    let r = record(LogLevel::Warn, "w");
    let p = Problem::new(ProblemLevel::Warn, r.clone(), None);
    assert_eq!(p.level(), ProblemLevel::Warn);
    assert_eq!(p.record(), &r);
    assert!(p.backtrace_arc().is_none());
    assert_eq!(p.into_record(), r);
}

#[test]
fn level_labels() {
    assert_eq!(ProblemLevel::Error.label(), "[ ERROR ]");
    assert_eq!(ProblemLevel::Warn.label(), "[ WARN  ]");
}
