//! The lifecycle controller: the decisions behind start, stop, restart and
//! configuration test, modelled as pure transitions over the observable state
//! of the supervised process.
//!
//! The blocking work (spawning the binary, listing processes) is performed by
//! the embedding program; each operation here takes the outcome of that work
//! as a plain value and returns the next state, the result handed to the
//! caller, and whether a command was issued at all.

use vstd::prelude::*;
use crate::bytes::contains_bytes;
use crate::bytes::contains_seq;
use crate::bytes::copy_bytes;
use crate::bytes::seq_views;
use crate::bytes::tokens_of;
use crate::bytes::tokens_spec;

verus! {

/// Why a lifecycle operation failed.
#[derive(Debug, PartialEq, Eq)]
pub enum LifecycleError {
    /// The supervised executable is not present on disk.
    BinaryMissing,
    /// The process table could not be consulted.
    ProcessCheckFailed { message: String },
    /// The launch command exited with a non-zero status.
    StartFailed { code: Option<i32> },
    /// The graceful-stop signal failed; carries the captured diagnostics.
    StopFailed { stderr: String },
    /// The reload signal failed; carries the captured diagnostics.
    RestartFailed { stderr: String },
    /// The syntax check rejected the configuration.
    ConfigInvalid { stderr: String },
    /// An unknown log kind was requested.
    InvalidLogKind,
    /// A log file could not be read or written.
    LogIoFailed { message: String },
    /// The status endpoint yielded no usable sample.
    MetricsUnavailable,
}

impl LifecycleError {
    /// The short human-readable message shown to callers.
    pub open spec fn message_spec(&self) -> Seq<char> {
        match self {
            LifecycleError::BinaryMissing => "Nginx executable not found"@,
            LifecycleError::ProcessCheckFailed { message } => "Failed to check Nginx process: "@
                + message@,
            LifecycleError::StartFailed { code } => "Nginx failed to start"@,
            LifecycleError::StopFailed { stderr } => stderr@,
            LifecycleError::RestartFailed { stderr } => stderr@,
            LifecycleError::ConfigInvalid { stderr } => stderr@,
            LifecycleError::InvalidLogKind => "Invalid log type; supported log types: access, error, service"@,
            LifecycleError::LogIoFailed { message } => message@,
            LifecycleError::MetricsUnavailable => "Metrics unavailable"@,
        }
    }

    /// Renders the error for display.
    pub fn message(&self) -> (r: String)
        ensures
            r@ == self.message_spec(),
    {
        match self {
            LifecycleError::BinaryMissing => String::from_str("Nginx executable not found"),
            LifecycleError::ProcessCheckFailed { message } => {
                let mut s = String::from_str("Failed to check Nginx process: ");
                s.append(message.as_str());
                s
            },
            LifecycleError::StartFailed { code } => String::from_str("Nginx failed to start"),
            LifecycleError::StopFailed { stderr } => stderr.clone(),
            LifecycleError::RestartFailed { stderr } => stderr.clone(),
            LifecycleError::ConfigInvalid { stderr } => stderr.clone(),
            LifecycleError::InvalidLogKind => String::from_str(
                "Invalid log type; supported log types: access, error, service",
            ),
            LifecycleError::LogIoFailed { message } => message.clone(),
            LifecycleError::MetricsUnavailable => String::from_str("Metrics unavailable"),
        }
    }
}

/// What the launch or signal command reported when it finished.
#[derive(Debug, Clone, Copy, PartialEq, Eq)]
pub struct ExitInfo {
    /// The command exited with status zero.
    pub success: bool,
    /// The numeric exit code, when the platform reported one.
    pub code: Option<i32>,
}

/// The observable state of the supervised installation: whether the binary
/// is on disk, whether a process bearing its name is running, and whether a
/// stale PID marker file is present.
#[derive(Debug, Clone, Copy, PartialEq, Eq, Structural)]
pub struct ProcessState {
    pub binary_present: bool,
    pub running: bool,
    pub pid_file_present: bool,
}

/// The outcome of one lifecycle transition.
pub struct StepResult {
    /// The state after the transition.
    pub state: ProcessState,
    /// What the caller is told.
    pub outcome: Result<(), LifecycleError>,
    /// Whether an external command was issued (a process was spawned).
    pub command_issued: bool,
}

/// The start transition.
///
/// The binary must be present; a probe failure is surfaced; an instance that
/// is already running makes start a successful no-op with no spawn; otherwise
/// the binary is launched, and a clean handoff removes any stale PID file.
pub open spec fn start_spec(s: ProcessState, probe: Result<bool, String>, launch: ExitInfo) -> StepResult {
    if !s.binary_present {
        StepResult { state: s, outcome: Err(LifecycleError::BinaryMissing), command_issued: false }
    } else {
        match probe {
            Err(message) => StepResult {
                state: s,
                outcome: Err(LifecycleError::ProcessCheckFailed { message }),
                command_issued: false,
            },
            Ok(true) => StepResult { state: s, outcome: Ok(()), command_issued: false },
            Ok(false) => {
                if launch.success {
                    StepResult {
                        state: ProcessState {
                            binary_present: s.binary_present,
                            running: true,
                            pid_file_present: false,
                        },
                        outcome: Ok(()),
                        command_issued: true,
                    }
                } else {
                    StepResult {
                        state: s,
                        outcome: Err(LifecycleError::StartFailed { code: launch.code }),
                        command_issued: true,
                    }
                }
            },
        }
    }
}

/// Applies the start transition to `s`, given the probe answer and the exit
/// of the launch command (consulted only when a launch is decided).
pub fn start_step(s: ProcessState, probe: Result<bool, String>, launch: ExitInfo) -> (r: StepResult)
    ensures
        r == start_spec(s, probe, launch),
{
    if !s.binary_present {
        return StepResult {
            state: s,
            outcome: Err(LifecycleError::BinaryMissing),
            command_issued: false,
        };
    }
    match probe {
        Err(message) => StepResult {
            state: s,
            outcome: Err(LifecycleError::ProcessCheckFailed { message }),
            command_issued: false,
        },
        Ok(true) => StepResult { state: s, outcome: Ok(()), command_issued: false },
        Ok(false) => {
            if launch.success {
                StepResult {
                    state: ProcessState {
                        binary_present: s.binary_present,
                        running: true,
                        pid_file_present: false,
                    },
                    outcome: Ok(()),
                    command_issued: true,
                }
            } else {
                StepResult {
                    state: s,
                    outcome: Err(LifecycleError::StartFailed { code: launch.code }),
                    command_issued: true,
                }
            }
        },
    }
}

/// The stop transition: the binary must be present; the graceful-stop signal
/// succeeds exactly when its exit status is zero, and failure surfaces the
/// captured diagnostics.
pub open spec fn stop_spec(s: ProcessState, exit: ExitInfo, stderr: String) -> StepResult {
    if !s.binary_present {
        StepResult { state: s, outcome: Err(LifecycleError::BinaryMissing), command_issued: false }
    } else if exit.success {
        StepResult {
            state: ProcessState {
                binary_present: s.binary_present,
                running: false,
                pid_file_present: s.pid_file_present,
            },
            outcome: Ok(()),
            command_issued: true,
        }
    } else {
        StepResult {
            state: s,
            outcome: Err(LifecycleError::StopFailed { stderr }),
            command_issued: true,
        }
    }
}

/// Applies the stop transition, given the exit of the stop signal command.
pub fn stop_step(s: ProcessState, exit: ExitInfo, stderr: String) -> (r: StepResult)
    ensures
        r == stop_spec(s, exit, stderr),
{
    if !s.binary_present {
        return StepResult {
            state: s,
            outcome: Err(LifecycleError::BinaryMissing),
            command_issued: false,
        };
    }
    if exit.success {
        StepResult {
            state: ProcessState {
                binary_present: s.binary_present,
                running: false,
                pid_file_present: s.pid_file_present,
            },
            outcome: Ok(()),
            command_issued: true,
        }
    } else {
        StepResult {
            state: s,
            outcome: Err(LifecycleError::StopFailed { stderr }),
            command_issued: true,
        }
    }
}

/// The restart transition: a graceful configuration reload, so the process
/// keeps running on success; failure surfaces the captured diagnostics.
pub open spec fn restart_spec(s: ProcessState, exit: ExitInfo, stderr: String) -> StepResult {
    if !s.binary_present {
        StepResult { state: s, outcome: Err(LifecycleError::BinaryMissing), command_issued: false }
    } else if exit.success {
        StepResult { state: s, outcome: Ok(()), command_issued: true }
    } else {
        StepResult {
            state: s,
            outcome: Err(LifecycleError::RestartFailed { stderr }),
            command_issued: true,
        }
    }
}

/// Applies the restart transition, given the exit of the reload signal.
pub fn restart_step(s: ProcessState, exit: ExitInfo, stderr: String) -> (r: StepResult)
    ensures
        r == restart_spec(s, exit, stderr),
{
    if !s.binary_present {
        return StepResult {
            state: s,
            outcome: Err(LifecycleError::BinaryMissing),
            command_issued: false,
        };
    }
    if exit.success {
        StepResult { state: s, outcome: Ok(()), command_issued: true }
    } else {
        StepResult {
            state: s,
            outcome: Err(LifecycleError::RestartFailed { stderr }),
            command_issued: true,
        }
    }
}

/// The configuration test: never changes the state of the running instance;
/// success is exactly a zero exit status.
pub open spec fn test_config_spec(s: ProcessState, exit: ExitInfo, stderr: String) -> StepResult {
    if !s.binary_present {
        StepResult { state: s, outcome: Err(LifecycleError::BinaryMissing), command_issued: false }
    } else if exit.success {
        StepResult { state: s, outcome: Ok(()), command_issued: true }
    } else {
        StepResult {
            state: s,
            outcome: Err(LifecycleError::ConfigInvalid { stderr }),
            command_issued: true,
        }
    }
}

/// Applies the configuration test, given the exit of the syntax check.
pub fn test_config_step(s: ProcessState, exit: ExitInfo, stderr: String) -> (r: StepResult)
    ensures
        r == test_config_spec(s, exit, stderr),
        r.state == s,
{
    if !s.binary_present {
        return StepResult {
            state: s,
            outcome: Err(LifecycleError::BinaryMissing),
            command_issued: false,
        };
    }
    if exit.success {
        StepResult { state: s, outcome: Ok(()), command_issued: true }
    } else {
        StepResult {
            state: s,
            outcome: Err(LifecycleError::ConfigInvalid { stderr }),
            command_issued: true,
        }
    }
}

/// Whether a process listing shows the supervised binary.
///
/// Presence of the binary's name anywhere in the listing counts as running;
/// this is the documented name-based heuristic, not PID tracking.
pub fn is_running(listing: &Vec<u8>, binary_name: &Vec<u8>) -> (r: bool)
    ensures
        r == contains_seq(listing@, binary_name@),
{
    contains_bytes(listing, binary_name)
}

/// The status derived from a probe of the process table: the binary must be
/// present, probe failures are surfaced, and the status is recomputed from
/// the listing alone, never cached.
pub fn status_step(binary_present: bool, probe: Result<bool, String>) -> (r: Result<
    String,
    LifecycleError,
>)
    ensures
        !binary_present ==> r == Err::<String, LifecycleError>(LifecycleError::BinaryMissing),
        binary_present ==> match probe {
            Ok(true) => r is Ok && r->Ok_0@ == "running"@,
            Ok(false) => r is Ok && r->Ok_0@ == "stopped"@,
            Err(m) => r == Err::<String, LifecycleError>(
                LifecycleError::ProcessCheckFailed { message: m },
            ),
        },
{
    if !binary_present {
        return Err(LifecycleError::BinaryMissing);
    }
    match probe {
        Ok(true) => Ok(String::from_str("running")),
        Ok(false) => Ok(String::from_str("stopped")),
        Err(message) => Err(LifecycleError::ProcessCheckFailed { message }),
    }
}

/// The version token of the binary's diagnostic output: its last
/// whitespace-separated token (for output shaped like `nginx version:
/// nginx/1.2.3`), or the whole output when it has no tokens.
pub open spec fn version_token(s: Seq<u8>) -> Seq<u8> {
    let ts = tokens_spec(s);
    if ts.len() > 0 {
        ts.last()
    } else {
        s
    }
}

/// Extracts the version token from the binary's diagnostic output.
pub fn parse_version(output: &Vec<u8>) -> (r: Vec<u8>)
    ensures
        r@ == version_token(output@),
{
    let ts = tokens_of(output);
    if ts.len() > 0 {
        proof {
            assert(seq_views(ts@).last() == ts@[ts@.len() - 1]@);
        }
        copy_bytes(&ts[ts.len() - 1])
    } else {
        copy_bytes(output)
    }
}

/// Starting twice in a row with the binary present: the first call leaves the
/// instance running, and the second is a successful no-op that issues no
/// command and changes nothing, whatever its launch argument would have said.
pub proof fn lemma_start_idempotent(
    s: ProcessState,
    launch: ExitInfo,
    launch2: ExitInfo,
)
    requires
        s.binary_present,
        launch.success,
    ensures
        ({
            let first = start_spec(s, Ok(s.running), launch);
            let second = start_spec(first.state, Ok(true), launch2);
            &&& first.outcome is Ok
            &&& first.state.running
            &&& second.outcome is Ok
            &&& !second.command_issued
            &&& second.state == first.state
        }),
{
}

/// With the executable absent, every lifecycle operation fails with the
/// missing-binary error, issues no command, and leaves the state unchanged.
pub proof fn lemma_missing_binary(
    s: ProcessState,
    probe: Result<bool, String>,
    launch: ExitInfo,
    exit: ExitInfo,
    stderr: String,
)
    requires
        !s.binary_present,
    ensures
        start_spec(s, probe, launch) == (StepResult {
            state: s,
            outcome: Err(LifecycleError::BinaryMissing),
            command_issued: false,
        }),
        stop_spec(s, exit, stderr) == (StepResult {
            state: s,
            outcome: Err(LifecycleError::BinaryMissing),
            command_issued: false,
        }),
        restart_spec(s, exit, stderr) == (StepResult {
            state: s,
            outcome: Err(LifecycleError::BinaryMissing),
            command_issued: false,
        }),
        test_config_spec(s, exit, stderr) == (StepResult {
            state: s,
            outcome: Err(LifecycleError::BinaryMissing),
            command_issued: false,
        }),
{
}

} // verus!
