use rsground::messages::{OutputChannel, ServerMessage};
use rsground::runner::{
    exit_code_byte, validate_environment, Command, ExecEvent, Executor, Phase, RunnerError,
    COMPILE_FAILURE_EXIT_CODE,
};

fn ended_with(msgs: &[ServerMessage]) -> Option<u8> {
    match msgs.last() {
        Some(ServerMessage::SyncOutputEnd { exit_code }) => Some(*exit_code),
        _ => None,
    }
}

#[test]
fn exit_codes_are_clamped_to_a_byte() {
    assert_eq!(exit_code_byte(-1), 0);
    assert_eq!(exit_code_byte(0), 0);
    assert_eq!(exit_code_byte(42), 42);
    assert_eq!(exit_code_byte(255), 255);
    assert_eq!(exit_code_byte(256), 255);
    assert_eq!(exit_code_byte(137), 137);
}

#[test]
fn host_rootfs_only_for_local_debug_builds() {
    let path = "/rootfs".to_string();
    assert_eq!(validate_environment(true, true, false, path.clone()), Ok(()));
    assert_eq!(validate_environment(false, false, true, path.clone()), Ok(()));
    assert_eq!(
        validate_environment(false, true, true, path.clone()),
        Err(RunnerError::MissingRootfs(path.clone()))
    );
    assert_eq!(
        validate_environment(false, false, false, path.clone()),
        Err(RunnerError::MissingRootfs(path))
    );
}

#[test]
fn successful_execution_compiles_patches_and_runs() {
    let mut exec = Executor::new();
    let (msgs, cmd) = exec.step(ExecEvent::Start);
    assert!(matches!(msgs.as_slice(), [ServerMessage::SyncOutputStart]));
    assert_eq!(cmd, Command::Compile);
    assert!(exec.is_running());

    let (msgs, cmd) = exec.step(ExecEvent::Output { channel: OutputChannel::Stderr, bytes: b"warn".to_vec() });
    assert!(matches!(
        msgs.as_slice(),
        [ServerMessage::SyncOutput { channel: OutputChannel::Stderr, buf }] if buf == b"warn"
    ));
    assert_eq!(cmd, Command::Nothing);

    let (msgs, cmd) = exec.step(ExecEvent::Exited { code: 0, stdout: vec![], stderr: vec![] });
    assert!(msgs.is_empty());
    assert_eq!(cmd, Command::Patch);
    assert_eq!(exec.phase, Phase::Patching);

    // Output of the patch step is not streamed.
    let (msgs, _) = exec.step(ExecEvent::Output { channel: OutputChannel::Stdout, bytes: b"x".to_vec() });
    assert!(msgs.is_empty());

    let (msgs, cmd) = exec.step(ExecEvent::Exited { code: 0, stdout: vec![], stderr: vec![] });
    assert!(msgs.is_empty());
    assert_eq!(cmd, Command::Run);

    let (msgs, _) = exec.step(ExecEvent::Output { channel: OutputChannel::Stdout, bytes: b"Hello World".to_vec() });
    assert_eq!(msgs.len(), 1);

    let (msgs, cmd) = exec.step(ExecEvent::Exited { code: 3, stdout: vec![], stderr: vec![] });
    assert_eq!(ended_with(&msgs), Some(3));
    assert_eq!(cmd, Command::Nothing);
    assert!(!exec.is_running());
}

#[test]
fn failed_compilation_ends_with_its_exit_code() {
    let mut exec = Executor::new();
    exec.step(ExecEvent::Start);
    let (msgs, cmd) = exec.step(ExecEvent::Exited { code: 1, stdout: vec![], stderr: vec![] });
    assert_eq!(ended_with(&msgs), Some(1));
    assert_eq!(msgs.len(), 1);
    assert_eq!(cmd, Command::Nothing);
    assert_eq!(exec.phase, Phase::Idle);
}

#[test]
fn a_command_that_cannot_run_reports_its_error() {
    let mut exec = Executor::new();
    exec.step(ExecEvent::Start);
    let (msgs, _) = exec.step(ExecEvent::Failed { error: "no rustc".into() });
    assert_eq!(msgs.len(), 2);
    assert!(matches!(
        &msgs[0],
        ServerMessage::SyncOutput { channel: OutputChannel::Stderr, buf } if buf == b"no rustc"
    ));
    assert_eq!(ended_with(&msgs), Some(COMPILE_FAILURE_EXIT_CODE));
}

#[test]
fn failed_patch_reports_both_streams() {
    let mut exec = Executor::new();
    exec.step(ExecEvent::Start);
    exec.step(ExecEvent::Exited { code: 0, stdout: vec![], stderr: vec![] });
    let (msgs, _) = exec.step(ExecEvent::Exited { code: 2, stdout: b"out".to_vec(), stderr: b"err".to_vec() });
    assert_eq!(msgs.len(), 3);
    assert!(matches!(&msgs[0], ServerMessage::SyncOutput { channel: OutputChannel::Stdout, buf } if buf == b"out"));
    assert!(matches!(&msgs[1], ServerMessage::SyncOutput { channel: OutputChannel::Stderr, buf } if buf == b"err"));
    assert_eq!(ended_with(&msgs), Some(126));
}

#[test]
fn a_second_start_is_ignored_while_running() {
    let mut exec = Executor::new();
    exec.step(ExecEvent::Start);
    let (msgs, cmd) = exec.step(ExecEvent::Start);
    assert!(msgs.is_empty());
    assert_eq!(cmd, Command::Nothing);
    assert_eq!(exec.phase, Phase::Compiling);
}

#[test]
fn an_aborted_program_ends_with_137() {
    let mut exec = Executor::new();
    exec.step(ExecEvent::Start);
    exec.step(ExecEvent::Exited { code: 0, stdout: vec![], stderr: vec![] });
    exec.step(ExecEvent::Exited { code: 0, stdout: vec![], stderr: vec![] });
    let (msgs, _) = exec.step(ExecEvent::Exited { code: rsground::runner::ABORTED_EXIT_CODE, stdout: vec![], stderr: vec![] });
    assert_eq!(ended_with(&msgs), Some(137));
}

#[test]
fn an_idle_executor_ignores_stray_events() {
    let mut exec = Executor::new();
    let (msgs, cmd) = exec.step(ExecEvent::Exited { code: 0, stdout: vec![], stderr: vec![] });
    assert!(msgs.is_empty());
    assert_eq!(cmd, Command::Nothing);
    let (msgs, _) = exec.step(ExecEvent::Failed { error: "x".into() });
    assert!(msgs.is_empty());
    assert_eq!(exec.phase, Phase::Idle);
}
