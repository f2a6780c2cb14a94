//! The agent runtime's decisions: what each inbound command yields, when
//! the command loop stops, and how a registration attempt's outcome drives
//! the retry schedule.  The surrounding runtime performs the bus I/O, the
//! process spawning and the sleeps; every decision between those steps is
//! made here.

use vstd::prelude::*;

use crate::chars::str_eq;
use crate::codec::{encode_sysinfo_spec, encode_system_info};
use crate::{Command, CommandResult, CommandResultV, CommandType, CommandV, LogLevel, RsNatsError,
    SystemInfo};

verus! {

// ---------------------------------------------------------------------------
// Shell execution results
// ---------------------------------------------------------------------------
/// How handing a shell line to the OS executor ended.
pub enum ShellOutcome {
    /// The process ran to completion.
    Completed { exited_ok: bool, stdout: String, stderr: String },
    /// The process could not even be spawned.
    SpawnFailed { cause: String },
}

/// The error text reported when a process cannot be spawned.
pub open spec fn spawn_failure_spec(cause: Seq<char>) -> Seq<char> {
    "Failed to execute command: "@ + cause
}

/// Maps an executor outcome into the result sent back to the operator:
/// a clean exit with silent stderr reports no error; a clean exit with
/// stderr text carries it alongside success; a failing exit is a failure
/// whose error is exactly the captured stderr.
pub fn shell_result(outcome: ShellOutcome) -> (r: CommandResult)
    ensures
        r@.command_type == CommandType::Shell,
        match outcome {
            ShellOutcome::Completed { exited_ok, stdout, stderr } => {
                &&& r@.success == exited_ok
                &&& r@.output == stdout@
                &&& (exited_ok && stderr@.len() == 0 ==> r@.error is None)
                &&& (exited_ok && stderr@.len() > 0 ==> r@.error == Some(stderr@))
                &&& (!exited_ok ==> r@.error == Some(stderr@))
            },
            ShellOutcome::SpawnFailed { cause } => {
                &&& !r@.success
                &&& r@.output.len() == 0
                &&& r@.error == Some(spawn_failure_spec(cause@))
            },
        },
{
    match outcome {
        ShellOutcome::Completed { exited_ok, stdout, stderr } => {
            if exited_ok {
                let silent = stderr.as_str().is_empty();
                CommandResult {
                    success: true,
                    output: stdout,
                    error: if silent {
                        None
                    } else {
                        Some(stderr)
                    },
                    command_type: CommandType::Shell,
                }
            } else {
                CommandResult {
                    success: false,
                    output: stdout,
                    error: Some(stderr),
                    command_type: CommandType::Shell,
                }
            }
        },
        ShellOutcome::SpawnFailed { cause } => {
            let mut msg = String::from_str("Failed to execute command: ");
            msg.append(cause.as_str());
            proof {
                assert(msg@ =~= spawn_failure_spec(cause@));
            }
            CommandResult {
                success: false,
                output: String::new(),
                error: Some(msg),
                command_type: CommandType::Shell,
            }
        },
    }
}

// ---------------------------------------------------------------------------
// The command loop
// ---------------------------------------------------------------------------
/// One task the surrounding runtime must perform after a command is
/// handled.
pub enum AgentTask {
    /// Encode `result` and publish it on the agent's response subject.
    Reply { result: CommandResult },
    /// Run `shell_line` through the OS executor, then build the reply with
    /// `shell_result` and publish it.
    RunShell { shell_line: String },
}

/// What handling one inbound command yields.
pub struct AgentStep {
    pub task: Option<AgentTask>,
    pub log: Option<(LogLevel, String)>,
    pub stop: bool,
}

/// Whether the command loop is still live after handling `cmd` in a loop
/// that was `running` before.
pub open spec fn step_running(running: bool, cmd: CommandV) -> bool {
    running && !(cmd is Shutdown)
}

/// The reply to a ping.
pub open spec fn pong_spec() -> CommandResultV {
    CommandResultV {
        success: true,
        output: "Pong"@,
        error: None,
        command_type: CommandType::Internal,
    }
}

/// The reply acknowledging a shutdown.
pub open spec fn shutdown_ack_spec() -> CommandResultV {
    CommandResultV {
        success: true,
        output: "Client shutting down"@,
        error: None,
        command_type: CommandType::Internal,
    }
}

/// The reply summarizing a routed log event.
pub open spec fn logged_spec(level: LogLevel, message: Seq<char>) -> CommandResultV {
    CommandResultV {
        success: true,
        output: "Logged: ["@ + crate::label_spec(level) + "] "@ + message,
        error: None,
        command_type: CommandType::Internal,
    }
}

/// The reply carrying a fresh system-info snapshot; encoding is total
/// here, so this reply always reports success.
pub open spec fn sysinfo_reply_spec(info: crate::SystemInfoV) -> CommandResultV {
    CommandResultV {
        success: true,
        output: encode_sysinfo_spec(info),
        error: None,
        command_type: CommandType::Internal,
    }
}

/// The agent's command loop, reduced to its decisions: commands arrive one
/// at a time, each yields a task for the runtime, and a shutdown stops the
/// loop for good.
pub struct AgentMachine {
    running: bool,
}

impl AgentMachine {
    /// Whether the loop still processes commands.
    pub closed spec fn is_running(&self) -> bool {
        self.running
    }

    /// A live machine.
    pub fn new() -> (m: AgentMachine)
        ensures
            m.is_running(),
    {
        AgentMachine { running: true }
    }

    /// Handles one decoded command.  A stopped machine processes nothing;
    /// a shutdown stops the machine and acknowledges; every other command
    /// yields its reply or shell task and leaves the machine live.
    pub fn on_command(&mut self, cmd: Command, info: &SystemInfo) -> (step: AgentStep)
        ensures
            final(self).is_running() == step_running(old(self).is_running(), cmd@),
            !old(self).is_running() ==> step.task is None && step.log is None && !step.stop,
            old(self).is_running() ==> match cmd@ {
                CommandV::Ping => {
                    &&& step.task matches Some(AgentTask::Reply { result }) && result@
                        == pong_spec()
                    &&& step.log is None
                    &&& !step.stop
                },
                CommandV::Execute(line) => {
                    &&& step.task matches Some(AgentTask::RunShell { shell_line }) && shell_line@
                        == line
                    &&& step.log is None
                    &&& !step.stop
                },
                CommandV::GetSystemInfo => {
                    &&& step.task matches Some(AgentTask::Reply { result }) && result@
                        == sysinfo_reply_spec(info@)
                    &&& step.log is None
                    &&& !step.stop
                },
                CommandV::Shutdown => {
                    &&& step.task matches Some(AgentTask::Reply { result }) && result@
                        == shutdown_ack_spec()
                    &&& step.log is None
                    &&& step.stop
                },
                CommandV::LogEvent { level, message } => {
                    &&& step.task matches Some(AgentTask::Reply { result }) && result@
                        == logged_spec(level, message)
                    &&& (step.log matches Some(l) && l.0 == level && l.1@ == message)
                    &&& !step.stop
                },
            },
    {
        if !self.running {
            return AgentStep { task: None, log: None, stop: false };
        }
        match cmd {
            Command::Ping => {
                let result = CommandResult {
                    success: true,
                    output: String::from_str("Pong"),
                    error: None,
                    command_type: CommandType::Internal,
                };
                AgentStep { task: Some(AgentTask::Reply { result }), log: None, stop: false }
            },
            Command::Execute(line) => {
                AgentStep {
                    task: Some(AgentTask::RunShell { shell_line: line }),
                    log: None,
                    stop: false,
                }
            },
            Command::GetSystemInfo => {
                let result = CommandResult {
                    success: true,
                    output: encode_system_info(info),
                    error: None,
                    command_type: CommandType::Internal,
                };
                AgentStep { task: Some(AgentTask::Reply { result }), log: None, stop: false }
            },
            Command::Shutdown => {
                self.running = false;
                let result = CommandResult {
                    success: true,
                    output: String::from_str("Client shutting down"),
                    error: None,
                    command_type: CommandType::Internal,
                };
                AgentStep { task: Some(AgentTask::Reply { result }), log: None, stop: true }
            },
            Command::LogEvent { level, message } => {
                let mut output = String::from_str("Logged: [");
                let lab = level.label();
                output.append(lab.as_str());
                output.append("] ");
                output.append(message.as_str());
                proof {
                    assert(output@ =~= "Logged: ["@ + crate::label_spec(level) + "] "@ + message@);
                }
                let result = CommandResult {
                    success: true,
                    output,
                    error: None,
                    command_type: CommandType::Internal,
                };
                AgentStep {
                    task: Some(AgentTask::Reply { result }),
                    log: Some((level, message)),
                    stop: false,
                }
            },
        }
    }
}

/// Once a shutdown directive is handled, the loop is stopped and stays
/// stopped: no later command finds it running.
pub proof fn lemma_shutdown_halts(running: bool, later: CommandV)
    ensures
        !step_running(step_running(running, CommandV::Shutdown), later),
{
}

// ---------------------------------------------------------------------------
// Registration
// ---------------------------------------------------------------------------
/// How one registration attempt ended, as the surrounding runtime saw it.
pub enum RegistrationEvent {
    /// A reply arrived with this body.
    Reply(String),
    /// The bus reported that nobody listens on the registration subject.
    NoResponders,
    /// No reply arrived within the attempt's time limit.
    TimedOut,
    /// The request failed for any other transport reason.
    TransportError(String),
}

/// What the agent does after an attempt.
pub enum RegistrationDecision {
    /// The handshake is complete; `acknowledged` records whether the reply
    /// body was the expected token.
    Registered { acknowledged: bool },
    /// Sleep this long, then try again.
    RetryAfter { delay_ms: u64 },
    /// Give up: the error is not retriable.
    Fail { error: RsNatsError },
}

/// The next backoff: half again as long, capped at one minute.
pub open spec fn next_backoff_spec(b: u64) -> u64 {
    if b + b / 2 > 60000 {
        60000
    } else {
        (b + b / 2) as u64
    }
}

/// The first backoff delay, in milliseconds.
pub open spec fn initial_backoff_spec() -> u64 {
    2000
}

/// The retry schedule of the registration handshake.
pub struct RetryState {
    attempts: u64,
    backoff_ms: u64,
}

impl RetryState {
    /// How many attempts have failed retriably so far.
    pub closed spec fn attempts(&self) -> u64 {
        self.attempts
    }

    /// The delay the next retriable failure will wait.
    pub closed spec fn backoff_ms(&self) -> u64 {
        self.backoff_ms
    }

    /// A fresh schedule: no attempts yet, first delay two seconds.
    pub fn new() -> (r: RetryState)
        ensures
            r.attempts() == 0,
            r.backoff_ms() == initial_backoff_spec(),
    {
        RetryState { attempts: 0, backoff_ms: 2000 }
    }

    /// Decides what follows one attempt.  A reply of any body completes
    /// the handshake (a body other than the expected token is merely not
    /// acknowledged); a missing responder waits the current backoff and
    /// grows it; a timeout or any other transport error fails the startup
    /// at once.
    pub fn registration_step(&mut self, event: RegistrationEvent) -> (d: RegistrationDecision)
        ensures
            match event {
                RegistrationEvent::Reply(body) => {
                    &&& (d matches RegistrationDecision::Registered { acknowledged }
                        && acknowledged == (body@ == "ACK"@))
                    &&& final(self).attempts() == old(self).attempts()
                    &&& final(self).backoff_ms() == old(self).backoff_ms()
                },
                RegistrationEvent::NoResponders => {
                    &&& (d matches RegistrationDecision::RetryAfter { delay_ms } && delay_ms == old(
                        self,
                    ).backoff_ms())
                    &&& final(self).backoff_ms() == next_backoff_spec(old(self).backoff_ms())
                    &&& final(self).attempts() == (if old(self).attempts() < u64::MAX {
                        old(self).attempts() + 1
                    } else {
                        old(self).attempts() as int
                    })
                },
                RegistrationEvent::TimedOut => {
                    &&& (d matches RegistrationDecision::Fail { error } && (
                    error matches RsNatsError::ConnectionError(m) && m@
                        == "Registration request timed out"@))
                    &&& final(self).attempts() == old(self).attempts()
                    &&& final(self).backoff_ms() == old(self).backoff_ms()
                },
                RegistrationEvent::TransportError(cause) => {
                    &&& (d matches RegistrationDecision::Fail { error } && (
                    error matches RsNatsError::ConnectionError(m) && m@
                        == "Registration failed: "@ + cause@))
                    &&& final(self).attempts() == old(self).attempts()
                    &&& final(self).backoff_ms() == old(self).backoff_ms()
                },
            },
    {
        match event {
            RegistrationEvent::Reply(body) => {
                let acknowledged = str_eq(body.as_str(), "ACK");
                RegistrationDecision::Registered { acknowledged }
            },
            RegistrationEvent::NoResponders => {
                let delay_ms = self.backoff_ms;
                let half = self.backoff_ms / 2;
                if half > 60000 || self.backoff_ms > 60000 - half {
                    self.backoff_ms = 60000;
                } else {
                    self.backoff_ms = self.backoff_ms + half;
                }
                if self.attempts < u64::MAX {
                    self.attempts = self.attempts + 1;
                }
                RegistrationDecision::RetryAfter { delay_ms }
            },
            RegistrationEvent::TimedOut => {
                RegistrationDecision::Fail {
                    error: RsNatsError::ConnectionError(
                        String::from_str("Registration request timed out"),
                    ),
                }
            },
            RegistrationEvent::TransportError(cause) => {
                let mut m = String::from_str("Registration failed: ");
                m.append(cause.as_str());
                proof {
                    assert(m@ =~= "Registration failed: "@ + cause@);
                }
                RegistrationDecision::Fail { error: RsNatsError::ConnectionError(m) }
            },
        }
    }
}

/// Whether `n` occurs contiguously anywhere in `h`.
pub open spec fn has_substring(h: Seq<char>, n: Seq<char>) -> bool {
    exists|i: int| 0 <= i <= h.len() - n.len() && #[trigger] h.subrange(i, i + n.len()) == n
}

fn contains_chars(h: &Vec<char>, n: &Vec<char>) -> (r: bool)
    ensures
        r == has_substring(h@, n@),
{
    let hn = h.len();
    let nn = n.len();
    if nn > hn {
        return false;
    }
    if nn == 0 {
        proof {
            assert(h@.subrange(0, 0 + n@.len() as int) =~= n@);
            assert(has_substring(h@, n@));
        }
        return true;
    }
    let mut i: usize = 0;
    while i <= hn - nn
        invariant
            hn == h@.len(),
            nn == n@.len(),
            1 <= nn <= hn,
            i <= hn - nn + 1,
            forall|k: int| 0 <= k < i ==> #[trigger] h@.subrange(k, k + n@.len() as int) != n@,
        decreases hn - nn + 1 - i,
    {
        if crate::chars::match_lit_at(h, i, n) {
            proof {
                assert(h@.skip(i as int).take(nn as int) =~= h@.subrange(
                    i as int,
                    i + nn as int,
                ));
            }
            return true;
        }
        proof {
            assert(h@.skip(i as int).take(nn as int) =~= h@.subrange(i as int, i + nn as int));
        }
        i = i + 1;
    }
    false
}

/// Sorts a failed registration request into its retry class: an error
/// whose rendering mentions missing responders is the retriable "no
/// operator yet" condition; anything else is a fatal transport error
/// carrying the rendering itself.
pub fn classify_registration_error(msg: &str) -> (ev: RegistrationEvent)
    ensures
        has_substring(msg@, "no responders"@) ==> ev is NoResponders,
        !has_substring(msg@, "no responders"@) ==> (ev matches RegistrationEvent::TransportError(m)
            && m@ == msg@),
{
    let h = crate::chars::str_to_chars(msg);
    let n = crate::chars::str_to_chars("no responders");
    if contains_chars(&h, &n) {
        RegistrationEvent::NoResponders
    } else {
        RegistrationEvent::TransportError(String::from_str(msg))
    }
}

/// A fresh schedule's first two retriable failures wait two seconds, then
/// three: at least five seconds pass before a third attempt.
pub proof fn lemma_retry_backoff_sequence()
    ensures
        next_backoff_spec(initial_backoff_spec()) == 3000,
        initial_backoff_spec() + next_backoff_spec(initial_backoff_spec()) >= 5000,
{
}

} // verus!
