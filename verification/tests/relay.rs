use deet::relay::{feeder_step, relay_stderr_lines, FeederStep};

#[test]
fn stderr_lines_carry_the_marker() {
    assert_eq!(relay_stderr_lines("e1\ne2\n"), vec!["| e1", "| e2"]);
}

#[test]
fn stderr_relay_of_silence_is_silent() {
    assert_eq!(relay_stderr_lines(""), Vec::<String>::new());
}

#[test]
fn stderr_relay_keeps_interior_empty_lines() {
    assert_eq!(relay_stderr_lines("a\n\nb"), vec!["| a", "| ", "| b"]);
}

#[test]
fn feeder_stops_cleanly_at_end_of_input() {
    assert_eq!(feeder_step(0, &None), FeederStep::CloseStdin);
    assert_eq!(feeder_step(0, &Some(5)), FeederStep::CloseStdin);
}

#[test]
fn feeder_write_failure_is_a_diagnostic() {
    assert_eq!(feeder_step(10, &None), FeederStep::Diagnostic);
}

#[test]
fn feeder_consumes_what_was_written() {
    assert_eq!(feeder_step(10, &Some(4)), FeederStep::Consume { amount: 4 });
}
