use rs_nats_lib::agent::{classify_registration_error, shell_result, AgentMachine, AgentTask,
    RegistrationDecision, RegistrationEvent, RetryState, ShellOutcome};
use rs_nats_lib::codec::encode_system_info;
use rs_nats_lib::subjects::response_subject;
use rs_nats_lib::{Command, CommandType, LogLevel, SystemInfo};

fn info() -> SystemInfo {
    SystemInfo {
        hostname: String::from("laptop"),
        username: String::from("alice"),
        os_type: String::from("Linux"),
        os_version: Some(String::from("Debian 12")),
    }
}

#[test]
fn shell_success_silent_stderr_has_no_error() {
    let r = shell_result(ShellOutcome::Completed {
        exited_ok: true,
        stdout: String::from("hi\n"),
        stderr: String::new(),
    });
    assert!(r.success);
    assert_eq!(r.output, "hi\n");
    assert_eq!(r.error, None);
    assert!(matches!(r.command_type, CommandType::Shell));
}

#[test]
fn shell_success_with_stderr_carries_it() {
    let r = shell_result(ShellOutcome::Completed {
        exited_ok: true,
        stdout: String::from("done"),
        stderr: String::from("warning: deprecated"),
    });
    assert!(r.success);
    assert_eq!(r.error, Some(String::from("warning: deprecated")));
}

#[test]
fn shell_failure_error_is_captured_stderr() {
    let r = shell_result(ShellOutcome::Completed {
        exited_ok: false,
        stdout: String::from("partial"),
        stderr: String::from("no such file"),
    });
    assert!(!r.success);
    assert_eq!(r.output, "partial");
    assert_eq!(r.error, Some(String::from("no such file")));
}

#[test]
fn shell_spawn_failure_reports_cause() {
    let r = shell_result(ShellOutcome::SpawnFailed { cause: String::from("sh missing") });
    assert!(!r.success);
    assert_eq!(r.output, "");
    assert_eq!(r.error, Some(String::from("Failed to execute command: sh missing")));
}

#[test]
fn ping_yields_pong_on_the_response_subject() {
    let mut m = AgentMachine::new();
    let step = m.on_command(Command::Ping, &info());
    match step.task {
        Some(AgentTask::Reply { result }) => {
            assert!(result.success);
            assert_eq!(result.output, "Pong");
            assert_eq!(result.error, None);
            assert!(matches!(result.command_type, CommandType::Internal));
        },
        _ => panic!("ping must yield a reply"),
    }
    assert!(!step.stop);
    assert_eq!(
        response_subject("rs-support", "alice-laptop"),
        "rs-support.response.alice-laptop"
    );
}

#[test]
fn execute_hands_the_line_to_the_shell() {
    let mut m = AgentMachine::new();
    let step = m.on_command(Command::Execute(String::from("echo hi")), &info());
    match step.task {
        Some(AgentTask::RunShell { shell_line }) => assert_eq!(shell_line, "echo hi"),
        _ => panic!("execute must run the shell"),
    }
}

#[test]
fn get_system_info_replies_with_encoded_snapshot() {
    let mut m = AgentMachine::new();
    let i = info();
    let step = m.on_command(Command::GetSystemInfo, &i);
    match step.task {
        Some(AgentTask::Reply { result }) => {
            assert!(result.success);
            assert_eq!(result.output, encode_system_info(&i));
            assert!(matches!(result.command_type, CommandType::Internal));
        },
        _ => panic!("sysinfo must yield a reply"),
    }
}

#[test]
fn log_event_routes_and_summarizes() {
    let mut m = AgentMachine::new();
    let step = m.on_command(
        Command::LogEvent { level: LogLevel::Warning, message: String::from("low disk") },
        &info(),
    );
    match step.log {
        Some((level, message)) => {
            assert!(matches!(level, LogLevel::Warning));
            assert_eq!(message, "low disk");
        },
        None => panic!("log event must route locally"),
    }
    match step.task {
        Some(AgentTask::Reply { result }) => {
            assert_eq!(result.output, "Logged: [WARNING] low disk");
        },
        _ => panic!("log event must yield a reply"),
    }
}

#[test]
fn shutdown_stops_the_loop_and_acknowledges() {
    let mut m = AgentMachine::new();
    let step = m.on_command(Command::Shutdown, &info());
    assert!(step.stop);
    match step.task {
        Some(AgentTask::Reply { result }) => {
            assert!(result.success);
            assert_eq!(result.output, "Client shutting down");
        },
        _ => panic!("shutdown must acknowledge"),
    }
    let after = m.on_command(Command::Ping, &info());
    assert!(after.task.is_none());
    assert!(after.log.is_none());
    assert!(!after.stop);
}

#[test]
fn registration_retries_twice_then_succeeds() {
    let mut st = RetryState::new();
    let mut waited: u64 = 0;
    match st.registration_step(RegistrationEvent::NoResponders) {
        RegistrationDecision::RetryAfter { delay_ms } => {
            assert_eq!(delay_ms, 2000);
            waited += delay_ms;
        },
        _ => panic!("first miss must retry"),
    }
    match st.registration_step(RegistrationEvent::NoResponders) {
        RegistrationDecision::RetryAfter { delay_ms } => {
            assert_eq!(delay_ms, 3000);
            waited += delay_ms;
        },
        _ => panic!("second miss must retry"),
    }
    match st.registration_step(RegistrationEvent::Reply(String::from("ACK"))) {
        RegistrationDecision::Registered { acknowledged } => assert!(acknowledged),
        _ => panic!("a reply completes the handshake"),
    }
    assert!(waited >= 5000);
}

#[test]
fn registration_accepts_unexpected_reply_body() {
    let mut st = RetryState::new();
    match st.registration_step(RegistrationEvent::Reply(String::from("OK?"))) {
        RegistrationDecision::Registered { acknowledged } => assert!(!acknowledged),
        _ => panic!("any reply body completes the handshake"),
    }
}

#[test]
fn registration_fails_fast_on_other_errors() {
    let mut st = RetryState::new();
    match st.registration_step(RegistrationEvent::TransportError(String::from("tls broke"))) {
        RegistrationDecision::Fail { error } => {
            assert_eq!(error.message(), "NATS connection error: Registration failed: tls broke");
        },
        _ => panic!("a transport error must fail the startup"),
    }
    let mut st2 = RetryState::new();
    match st2.registration_step(RegistrationEvent::TimedOut) {
        RegistrationDecision::Fail { error } => {
            assert_eq!(
                error.message(),
                "NATS connection error: Registration request timed out"
            );
        },
        _ => panic!("a timeout must fail the startup"),
    }
}

#[test]
fn backoff_caps_at_one_minute() {
    let mut st = RetryState::new();
    let mut last: u64 = 0;
    for _ in 0..20 {
        match st.registration_step(RegistrationEvent::NoResponders) {
            RegistrationDecision::RetryAfter { delay_ms } => last = delay_ms,
            _ => panic!("must keep retrying"),
        }
    }
    assert_eq!(last, 60000);
}

#[test]
fn error_classification_spots_missing_responders() {
    match classify_registration_error("request failed: no responders available") {
        RegistrationEvent::NoResponders => {},
        _ => panic!("must be retriable"),
    }
    match classify_registration_error("connection reset by peer") {
        RegistrationEvent::TransportError(m) => assert_eq!(m, "connection reset by peer"),
        _ => panic!("must be fatal"),
    }
}
