use rs_nats_lib::codec::encode_system_info;
use rs_nats_lib::operator::{console_dispatch, handle_registration, parse_console_line,
    render_client_line, render_result_block, tokenize, ConsoleCommand, ConsoleEffect};
use rs_nats_lib::registry::ClientRegistry;
use rs_nats_lib::subjects::{command_subject, heartbeat_subject, register_subject,
    response_subject};
use rs_nats_lib::{CommandResult, CommandType, SystemInfo};

fn info(host: &str) -> SystemInfo {
    SystemInfo {
        hostname: String::from(host),
        username: String::from("alice"),
        os_type: String::from("Linux"),
        os_version: None,
    }
}

#[test]
fn subjects_follow_the_naming_scheme() {
    assert_eq!(register_subject("rs-support"), "rs-support.register");
    assert_eq!(heartbeat_subject("rs-support"), "rs-support.heartbeat");
    assert_eq!(command_subject("rs-support", "bob-pc"), "rs-support.command.bob-pc");
    assert_eq!(response_subject("rs-support", "bob-pc"), "rs-support.response.bob-pc");
}

#[test]
fn tokenize_splits_on_runs_of_whitespace() {
    assert_eq!(tokenize("  execute  alice   echo hi "), vec![
        String::from("execute"),
        String::from("alice"),
        String::from("echo"),
        String::from("hi"),
    ]);
    assert_eq!(tokenize(""), Vec::<String>::new());
    assert_eq!(tokenize(" \t \n"), Vec::<String>::new());
}

#[test]
fn parse_console_recognizes_each_command() {
    assert!(matches!(parse_console_line("list"), ConsoleCommand::List));
    assert!(matches!(parse_console_line("exit"), ConsoleCommand::Exit));
    assert!(matches!(parse_console_line("   "), ConsoleCommand::Empty));
    match parse_console_line("execute bob-pc echo  hi there") {
        ConsoleCommand::Execute { client_id, shell_line } => {
            assert_eq!(client_id, "bob-pc");
            assert_eq!(shell_line, "echo hi there");
        },
        _ => panic!("must parse as execute"),
    }
    match parse_console_line("sysinfo bob-pc") {
        ConsoleCommand::SysInfo { client_id } => assert_eq!(client_id, "bob-pc"),
        _ => panic!("must parse as sysinfo"),
    }
    match parse_console_line("ping bob-pc") {
        ConsoleCommand::Ping { client_id } => assert_eq!(client_id, "bob-pc"),
        _ => panic!("must parse as ping"),
    }
    match parse_console_line("execute onlyid") {
        ConsoleCommand::Usage { word } => assert_eq!(word, "execute"),
        _ => panic!("must ask for usage"),
    }
    match parse_console_line("frobnicate x") {
        ConsoleCommand::Unknown { word } => assert_eq!(word, "frobnicate"),
        _ => panic!("must be unknown"),
    }
}

#[test]
fn execute_for_unknown_client_publishes_nothing() {
    let reg = ClientRegistry::new();
    let eff = console_dispatch(
        &reg,
        "rs-support",
        ConsoleCommand::Execute {
            client_id: String::from("ghost"),
            shell_line: String::from("rm -rf /"),
        },
    );
    match eff {
        ConsoleEffect::NotFound { client_id } => assert_eq!(client_id, "ghost"),
        _ => panic!("an unknown client must be reported, not published to"),
    }
}

#[test]
fn execute_for_known_client_publishes_the_command() {
    let mut reg = ClientRegistry::new();
    reg.upsert(String::from("bob-pc"), info("pc"));
    let eff = console_dispatch(
        &reg,
        "rs-support",
        ConsoleCommand::Execute {
            client_id: String::from("bob-pc"),
            shell_line: String::from("uptime"),
        },
    );
    match eff {
        ConsoleEffect::Publish { subject, payload } => {
            assert_eq!(subject, "rs-support.command.bob-pc");
            assert_eq!(payload, "{\"Execute\":\"uptime\"}");
        },
        _ => panic!("a known client must get the command"),
    }
}

#[test]
fn ping_and_sysinfo_publish_their_tags() {
    let mut reg = ClientRegistry::new();
    reg.upsert(String::from("bob-pc"), info("pc"));
    match console_dispatch(&reg, "p", ConsoleCommand::Ping { client_id: String::from("bob-pc") }) {
        ConsoleEffect::Publish { subject, payload } => {
            assert_eq!(subject, "p.command.bob-pc");
            assert_eq!(payload, "\"Ping\"");
        },
        _ => panic!("ping must publish"),
    }
    match console_dispatch(&reg, "p", ConsoleCommand::SysInfo { client_id: String::from("bob-pc") })
    {
        ConsoleEffect::Publish { subject, payload } => {
            assert_eq!(subject, "p.command.bob-pc");
            assert_eq!(payload, "\"GetSystemInfo\"");
        },
        _ => panic!("sysinfo must publish"),
    }
}

#[test]
fn registration_stores_acks_and_subscribes() {
    let mut reg = ClientRegistry::new();
    let payload = encode_system_info(&info("laptop"));
    let out = handle_registration(
        &mut reg,
        "rs-support",
        &payload,
        Some(String::from("alice-laptop")),
        Some(String::from("_INBOX.42")),
    );
    assert!(out.accepted);
    assert_eq!(out.client_id, Some(String::from("alice-laptop")));
    assert_eq!(out.ack_to, Some(String::from("_INBOX.42")));
    assert_eq!(out.listen_on, Some(String::from("rs-support.response.alice-laptop")));
    assert!(reg.contains("alice-laptop"));
    assert_eq!(reg.get("alice-laptop").unwrap().hostname, "laptop");
}

#[test]
fn registration_without_header_keys_by_reply_address() {
    let mut reg = ClientRegistry::new();
    let payload = encode_system_info(&info("laptop"));
    let out = handle_registration(&mut reg, "p", &payload, None, Some(String::from("_INBOX.7")));
    assert!(out.accepted);
    assert_eq!(out.client_id, Some(String::from("_INBOX.7")));
    assert!(reg.contains("_INBOX.7"));
}

#[test]
fn registration_with_bad_payload_changes_nothing() {
    let mut reg = ClientRegistry::new();
    let out = handle_registration(
        &mut reg,
        "p",
        "not a snapshot",
        Some(String::from("x")),
        Some(String::from("_INBOX.9")),
    );
    assert!(!out.accepted);
    assert!(out.client_id.is_none());
    assert!(out.ack_to.is_none());
    assert!(out.listen_on.is_none());
    assert_eq!(reg.len(), 0);
}

#[test]
fn reregistration_replaces_the_entry() {
    let mut reg = ClientRegistry::new();
    reg.upsert(String::from("alice-laptop"), info("first"));
    reg.upsert(String::from("alice-laptop"), info("second"));
    assert_eq!(reg.len(), 1);
    let entries = reg.snapshot();
    assert_eq!(entries.len(), 1);
    assert_eq!(entries[0].0, "alice-laptop");
    assert_eq!(entries[0].1.hostname, "second");
}

#[test]
fn registry_lookup_distinguishes_clients() {
    let mut reg = ClientRegistry::new();
    reg.upsert(String::from("a"), info("ha"));
    reg.upsert(String::from("b"), info("hb"));
    assert_eq!(reg.len(), 2);
    assert!(reg.contains("a"));
    assert!(reg.contains("b"));
    assert!(!reg.contains("c"));
    assert_eq!(reg.get("a").unwrap().hostname, "ha");
    assert_eq!(reg.get("b").unwrap().hostname, "hb");
    assert!(reg.get("c").is_none());
}

#[test]
fn client_line_shows_id_host_user_os() {
    let line = render_client_line("bob-pc", &info("pc9"));
    assert_eq!(line, "  bob-pc - pc9 (alice / Linux)");
}

#[test]
fn result_block_shows_status_output_and_error() {
    let ok = CommandResult {
        success: true,
        output: String::from("hi\n"),
        error: None,
        command_type: CommandType::Shell,
    };
    assert_eq!(
        render_result_block("bob-pc", &ok),
        "----- COMMAND RESULT -----\nClient: bob-pc\nStatus: Success\nOutput:\nhi\n\n--------------------------"
    );
    let bad = CommandResult {
        success: false,
        output: String::new(),
        error: Some(String::from("oops")),
        command_type: CommandType::Shell,
    };
    assert_eq!(
        render_result_block("bob-pc", &bad),
        "----- COMMAND RESULT -----\nClient: bob-pc\nStatus: Failed\nOutput:\n\nError: oops\n--------------------------"
    );
}
