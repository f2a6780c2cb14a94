use rs_nats_lib::{get_client_id, get_os_type, get_system_info, make_client_id, make_system_info,
    Command, LogLevel, Platform, RsNatsError, DEFAULT_NATS_URL, DEFAULT_SUBJECT_PREFIX};

#[test]
fn defaults_are_fixed() {
    assert_eq!(DEFAULT_NATS_URL, "nats://localhost:4222");
    assert_eq!(DEFAULT_SUBJECT_PREFIX, "rs-support");
}

#[test]
fn os_type_names_each_platform() {
    assert_eq!(get_os_type(Platform::Windows), "Windows");
    assert_eq!(get_os_type(Platform::Linux), "Linux");
    assert_eq!(get_os_type(Platform::MacOs), "macOS");
    assert_eq!(get_os_type(Platform::Other), "Unknown");
}

#[test]
fn client_id_joins_user_and_host() {
    assert_eq!(make_client_id("alice", "laptop"), "alice-laptop");
}

#[test]
fn generated_client_id_has_the_join_shape() {
    let id = get_client_id();
    assert!(id.contains('-'));
}

#[test]
fn system_info_keeps_its_parts() {
    let info = make_system_info(
        String::from("h"),
        String::from("u"),
        String::from("Linux"),
        Some(String::from("v1")),
    );
    assert_eq!(info.hostname, "h");
    assert_eq!(info.username, "u");
    assert_eq!(info.os_type, "Linux");
    assert_eq!(info.os_version, Some(String::from("v1")));
}

#[test]
fn sampled_system_info_reports_the_platform() {
    let info = get_system_info(Platform::Linux, Some(String::from("Alpine 3.20")));
    assert_eq!(info.os_type, "Linux");
    assert_eq!(info.os_version, Some(String::from("Alpine 3.20")));
    assert!(!info.hostname.is_empty());
    assert!(!info.username.is_empty());
}

#[test]
fn log_levels_have_upper_case_labels() {
    assert_eq!(LogLevel::Debug.label(), "DEBUG");
    assert_eq!(LogLevel::Info.label(), "INFO");
    assert_eq!(LogLevel::Warning.label(), "WARNING");
    assert_eq!(LogLevel::Error.label(), "ERROR");
}

#[test]
fn commands_describe_themselves() {
    assert_eq!(Command::Ping.describe(), "Ping");
    assert_eq!(Command::Execute(String::from("ls")).describe(), "Execute: ls");
    assert_eq!(Command::GetSystemInfo.describe(), "GetSystemInfo");
    assert_eq!(Command::Shutdown.describe(), "Shutdown");
    assert_eq!(
        Command::LogEvent { level: LogLevel::Error, message: String::from("bad") }.describe(),
        "Log [ERROR]: bad"
    );
}

#[test]
fn errors_render_their_taxonomy() {
    assert_eq!(
        RsNatsError::ConnectionError(String::from("x")).message(),
        "NATS connection error: x"
    );
    assert_eq!(
        RsNatsError::CommandError(String::from("x")).message(),
        "Command execution error: x"
    );
    assert_eq!(
        RsNatsError::SerializationError(String::from("x")).message(),
        "Serialization error: x"
    );
    assert_eq!(RsNatsError::AuthError(String::from("x")).message(), "Authentication error: x");
    assert_eq!(
        RsNatsError::PlatformNotSupported.message(),
        "Operation not supported on this platform"
    );
}
