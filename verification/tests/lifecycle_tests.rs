//! Lifecycle controller: start/stop/restart/test-config transitions, the
//! process probe and version extraction.

use nginx_supervisor::lifecycle::is_running;
use nginx_supervisor::lifecycle::parse_version;
use nginx_supervisor::lifecycle::restart_step;
use nginx_supervisor::lifecycle::start_step;
use nginx_supervisor::lifecycle::status_step;
use nginx_supervisor::lifecycle::stop_step;
use nginx_supervisor::lifecycle::test_config_step;
use nginx_supervisor::lifecycle::ExitInfo;
use nginx_supervisor::lifecycle::LifecycleError;
use nginx_supervisor::lifecycle::ProcessState;

const OK_EXIT: ExitInfo = ExitInfo { success: true, code: Some(0) };
const BAD_EXIT: ExitInfo = ExitInfo { success: false, code: Some(1) };

fn installed(running: bool) -> ProcessState {
    ProcessState { binary_present: true, running, pid_file_present: true }
}

#[test]
fn start_twice_is_idempotent() {
    let first = start_step(installed(false), Ok(false), OK_EXIT);
    assert_eq!(first.outcome, Ok(()));
    assert!(first.command_issued);
    assert!(first.state.running);
    assert!(!first.state.pid_file_present);

    let second = start_step(first.state, Ok(true), OK_EXIT);
    assert_eq!(second.outcome, Ok(()));
    assert!(!second.command_issued);
    assert_eq!(second.state, first.state);
}

#[test]
fn start_surfaces_a_failed_launch() {
    let r = start_step(installed(false), Ok(false), BAD_EXIT);
    assert_eq!(r.outcome, Err(LifecycleError::StartFailed { code: Some(1) }));
    assert!(r.command_issued);
    assert_eq!(r.state, installed(false));
}

#[test]
fn start_surfaces_a_failed_probe() {
    let r = start_step(installed(false), Err("no tasklist".to_string()), OK_EXIT);
    assert_eq!(
        r.outcome,
        Err(LifecycleError::ProcessCheckFailed { message: "no tasklist".to_string() })
    );
    assert!(!r.command_issued);
}

#[test]
fn every_operation_fails_without_the_binary() {
    let absent = ProcessState { binary_present: false, running: false, pid_file_present: false };
    let start = start_step(absent, Ok(false), OK_EXIT);
    let stop = stop_step(absent, OK_EXIT, String::new());
    let restart = restart_step(absent, OK_EXIT, String::new());
    let test = test_config_step(absent, OK_EXIT, String::new());
    for r in [start, stop, restart, test] {
        assert_eq!(r.outcome, Err(LifecycleError::BinaryMissing));
        assert!(!r.command_issued);
        assert_eq!(r.state, absent);
    }
    assert_eq!(status_step(false, Ok(true)), Err(LifecycleError::BinaryMissing));
}

#[test]
fn stop_reports_captured_diagnostics() {
    let r = stop_step(installed(true), BAD_EXIT, "no pid file".to_string());
    assert_eq!(
        r.outcome,
        Err(LifecycleError::StopFailed { stderr: "no pid file".to_string() })
    );
    let ok = stop_step(installed(true), OK_EXIT, String::new());
    assert_eq!(ok.outcome, Ok(()));
    assert!(!ok.state.running);
}

#[test]
fn restart_keeps_the_instance_running() {
    let r = restart_step(installed(true), OK_EXIT, String::new());
    assert_eq!(r.outcome, Ok(()));
    assert!(r.state.running);
    let bad = restart_step(installed(true), BAD_EXIT, "bind failed".to_string());
    assert_eq!(
        bad.outcome,
        Err(LifecycleError::RestartFailed { stderr: "bind failed".to_string() })
    );
}

#[test]
fn config_test_never_changes_state() {
    let s = installed(true);
    let good = test_config_step(s, OK_EXIT, String::new());
    assert_eq!(good.outcome, Ok(()));
    assert_eq!(good.state, s);
    let bad = test_config_step(s, BAD_EXIT, "syntax error".to_string());
    assert_eq!(
        bad.outcome,
        Err(LifecycleError::ConfigInvalid { stderr: "syntax error".to_string() })
    );
    assert_eq!(bad.state, s);
}

#[test]
fn status_is_derived_from_the_probe() {
    assert_eq!(status_step(true, Ok(true)), Ok("running".to_string()));
    assert_eq!(status_step(true, Ok(false)), Ok("stopped".to_string()));
    assert_eq!(
        status_step(true, Err("denied".to_string())),
        Err(LifecycleError::ProcessCheckFailed { message: "denied".to_string() })
    );
}

#[test]
fn probe_matches_the_binary_name_anywhere_in_the_listing() {
    let listing = b"Image Name    PID\nnginx.exe     4242\n".to_vec();
    assert!(is_running(&listing, &b"nginx.exe".to_vec()));
    let empty = b"INFO: No tasks are running.\n".to_vec();
    assert!(!is_running(&empty, &b"nginx.exe".to_vec()));
}

#[test]
fn version_is_the_last_token_of_the_diagnostics() {
    let out = b"nginx version: nginx/1.24.0".to_vec();
    assert_eq!(parse_version(&out), b"nginx/1.24.0".to_vec());
    let empty = b"  \n".to_vec();
    assert_eq!(parse_version(&empty), b"  \n".to_vec());
}

#[test]
fn error_messages_are_short_and_readable() {
    assert_eq!(
        LifecycleError::BinaryMissing.message(),
        "Nginx executable not found"
    );
    assert_eq!(
        LifecycleError::ProcessCheckFailed { message: "denied".to_string() }.message(),
        "Failed to check Nginx process: denied"
    );
    assert_eq!(
        LifecycleError::StopFailed { stderr: "boom".to_string() }.message(),
        "boom"
    );
}
