use rs_nats_lib::codec::{decode_command, decode_command_result, decode_system_info,
    encode_command, encode_command_result, encode_system_info};
use rs_nats_lib::{Command, CommandResult, CommandType, LogLevel, SystemInfo};

fn sample_info(os_version: Option<&str>) -> SystemInfo {
    SystemInfo {
        hostname: String::from("box1"),
        username: String::from("alice"),
        os_type: String::from("Linux"),
        os_version: os_version.map(String::from),
    }
}

#[test]
fn encode_ping_is_bare_tag() {
    assert_eq!(encode_command(&Command::Ping), "\"Ping\"");
    assert_eq!(encode_command(&Command::GetSystemInfo), "\"GetSystemInfo\"");
    assert_eq!(encode_command(&Command::Shutdown), "\"Shutdown\"");
}

#[test]
fn encode_execute_is_tagged_object() {
    assert_eq!(
        encode_command(&Command::Execute(String::from("echo hi"))),
        "{\"Execute\":\"echo hi\"}"
    );
}

#[test]
fn encode_log_event_nests_fields() {
    let cmd = Command::LogEvent { level: LogLevel::Info, message: String::from("hello") };
    assert_eq!(
        encode_command(&cmd),
        "{\"LogEvent\":{\"level\":\"Info\",\"message\":\"hello\"}}"
    );
}

#[test]
fn encode_escapes_quotes_and_newlines() {
    let cmd = Command::Execute(String::from("say \"hi\"\nnow"));
    assert_eq!(
        encode_command(&cmd),
        "{\"Execute\":\"say \\\"hi\\\"\\nnow\"}"
    );
}

#[test]
fn command_round_trip_all_variants() {
    let cases = vec![
        Command::Ping,
        Command::GetSystemInfo,
        Command::Shutdown,
        Command::Execute(String::from("ls -la /tmp")),
        Command::Execute(String::from("say \"hi\"\t\\ \u{1}end")),
        Command::LogEvent { level: LogLevel::Debug, message: String::from("dbg") },
        Command::LogEvent { level: LogLevel::Info, message: String::from("") },
        Command::LogEvent { level: LogLevel::Warning, message: String::from("w w w") },
        Command::LogEvent { level: LogLevel::Error, message: String::from("e\r\n\"q\"") },
    ];
    for cmd in cases {
        let wire = encode_command(&cmd);
        let back = decode_command(&wire).expect("canonical encoding must decode");
        assert_eq!(back, cmd);
    }
}

#[test]
fn decode_command_rejects_noise() {
    assert_eq!(decode_command(""), None);
    assert_eq!(decode_command("Ping"), None);
    assert_eq!(decode_command("\"Pong\""), None);
    assert_eq!(decode_command("{\"Execute\":}"), None);
    assert_eq!(decode_command("{\"Execute\":\"unterminated"), None);
    assert_eq!(decode_command("{\"LogEvent\":{\"level\":\"Fatal\",\"message\":\"x\"}}"), None);
    assert_eq!(decode_command("{\"Execute\":\"ls\"} "), None);
}

#[test]
fn encode_result_with_error_field() {
    let r = CommandResult {
        success: false,
        output: String::from("partial"),
        error: Some(String::from("boom")),
        command_type: CommandType::Shell,
    };
    assert_eq!(
        encode_command_result(&r),
        "{\"success\":false,\"output\":\"partial\",\"error\":\"boom\",\"command_type\":\"Shell\"}"
    );
}

#[test]
fn encode_result_without_error_is_null() {
    let r = CommandResult {
        success: true,
        output: String::from("hi\n"),
        error: None,
        command_type: CommandType::Internal,
    };
    assert_eq!(
        encode_command_result(&r),
        "{\"success\":true,\"output\":\"hi\\n\",\"error\":null,\"command_type\":\"Internal\"}"
    );
}

#[test]
fn result_round_trip() {
    let cases = vec![
        CommandResult {
            success: true,
            output: String::from("Pong"),
            error: None,
            command_type: CommandType::Internal,
        },
        CommandResult {
            success: false,
            output: String::new(),
            error: Some(String::from("Failed to execute command: nope")),
            command_type: CommandType::Shell,
        },
        CommandResult {
            success: true,
            output: String::from("out \"x\"\n"),
            error: Some(String::from("warn\ttext")),
            command_type: CommandType::Shell,
        },
    ];
    for r in cases {
        let wire = encode_command_result(&r);
        let back = decode_command_result(&wire).expect("canonical encoding must decode");
        assert_eq!(back, r);
    }
}

#[test]
fn decode_result_rejects_missing_fields() {
    assert_eq!(decode_command_result("{\"success\":true}"), None);
    assert_eq!(decode_command_result("{}"), None);
    assert_eq!(
        decode_command_result("{\"success\":yes,\"output\":\"\",\"error\":null,\"command_type\":\"Shell\"}"),
        None
    );
}

#[test]
fn sysinfo_encoding_uses_field_names() {
    let info = sample_info(Some("Ubuntu 22.04"));
    assert_eq!(
        encode_system_info(&info),
        "{\"hostname\":\"box1\",\"username\":\"alice\",\"os_type\":\"Linux\",\"os_version\":\"Ubuntu 22.04\"}"
    );
    let bare = sample_info(None);
    assert_eq!(
        encode_system_info(&bare),
        "{\"hostname\":\"box1\",\"username\":\"alice\",\"os_type\":\"Linux\",\"os_version\":null}"
    );
}

#[test]
fn sysinfo_round_trip() {
    for info in [sample_info(None), sample_info(Some("Fedora Linux 40"))] {
        let wire = encode_system_info(&info);
        let back = decode_system_info(&wire).expect("canonical encoding must decode");
        assert_eq!(back, info);
    }
}

#[test]
fn decode_sysinfo_rejects_wrong_shape() {
    assert_eq!(decode_system_info("{\"hostname\":\"h\"}"), None);
    assert_eq!(decode_system_info("\"Ping\""), None);
    assert_eq!(decode_system_info(""), None);
}
