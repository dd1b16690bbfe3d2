use deet::pipeline::{Action, Pipeline};
use deet::{pjoin_verdict, ExitStatus};

fn cmd(p: Pipeline, line: &str) -> Pipeline {
    p.then_command(".".to_string(), line.to_string())
}

#[test]
fn single_command_streams_then_joins() {
    let p = cmd(Pipeline::new(), "true");
    assert_eq!(
        p.plan(),
        vec![
            Action::Spawn { stage: 0 },
            Action::StreamToTerminal { stage: 0 },
            Action::JoinSync { stage: 0 },
        ]
    );
}

#[test]
fn piped_commands_join_concurrently() {
    let p = cmd(cmd(Pipeline::new(), "producer"), "consumer");
    let plan = p.plan();
    assert_eq!(
        plan,
        vec![
            Action::Spawn { stage: 0 },
            Action::JoinConcurrent { stage: 0 },
            Action::Spawn { stage: 1 },
            Action::StreamToTerminal { stage: 1 },
            Action::JoinSync { stage: 1 },
        ]
    );
    assert!(!plan.contains(&Action::JoinSync { stage: 0 }));
}

#[test]
fn command_into_function_joins_synchronously() {
    let p = cmd(Pipeline::new(), "git rev-parse HEAD").then_function();
    assert_eq!(
        p.plan(),
        vec![
            Action::Spawn { stage: 0 },
            Action::JoinSync { stage: 0 },
            Action::ApplyFunction { stage: 1 },
        ]
    );
}

#[test]
fn function_into_command_just_spawns() {
    let p = cmd(Pipeline::new().then_function(), "wc -l");
    assert_eq!(
        p.plan(),
        vec![
            Action::ApplyFunction { stage: 0 },
            Action::Spawn { stage: 1 },
            Action::StreamToTerminal { stage: 1 },
            Action::JoinSync { stage: 1 },
        ]
    );
}

#[test]
fn three_stage_pipe_keeps_every_downstream_spawn_early() {
    let p = cmd(cmd(cmd(Pipeline::new(), "a"), "b"), "c");
    let plan = p.plan();
    assert_eq!(
        plan,
        vec![
            Action::Spawn { stage: 0 },
            Action::JoinConcurrent { stage: 0 },
            Action::Spawn { stage: 1 },
            Action::JoinConcurrent { stage: 1 },
            Action::Spawn { stage: 2 },
            Action::StreamToTerminal { stage: 2 },
            Action::JoinSync { stage: 2 },
        ]
    );
}

#[test]
fn empty_pipeline_plans_nothing() {
    assert_eq!(Pipeline::new().plan(), Vec::<Action>::new());
}

#[test]
fn success_passes_judgment() {
    assert!(pjoin_verdict(&ExitStatus { success: true, code: Some(0) }).is_ok());
}

#[test]
fn exit_code_seven_is_reported() {
    let err = pjoin_verdict(&ExitStatus { success: false, code: Some(7) }).unwrap_err();
    assert_eq!(err.code, Some(7));
    assert_eq!(err.message(), "exit code 7");
}

#[test]
fn signal_death_reports_no_code() {
    let err = pjoin_verdict(&ExitStatus { success: false, code: None }).unwrap_err();
    assert_eq!(err.message(), "exit code unknown");
}

#[test]
fn negative_exit_code_is_rendered() {
    let err = pjoin_verdict(&ExitStatus { success: false, code: Some(-3) }).unwrap_err();
    assert_eq!(err.message(), "exit code -3");
}
