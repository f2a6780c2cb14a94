//! Protocol core for a pub/sub remote-support tool: an operator process
//! directs agent processes over a subject-based message bus.  This crate
//! holds the verified parts: the wire data model and its codec, subject
//! naming, the client registry, and the decision logic of the agent and
//! operator runtimes.  The async bus plumbing lives outside the crate and
//! drives these functions.

use vstd::prelude::*;

verus! {

/// Default URL of the message bus server.
pub const DEFAULT_NATS_URL: &'static str = "nats://localhost:4222";

/// Default subject prefix for all messages.
pub const DEFAULT_SUBJECT_PREFIX: &'static str = "rs-support";

/// Error taxonomy of the protocol core.
#[derive(Debug, Clone)]
pub enum RsNatsError {
    ConnectionError(String),
    CommandError(String),
    SerializationError(String),
    AuthError(String),
    PlatformNotSupported,
}

/// Commands sent operator-to-agent.
#[derive(Debug, Clone, PartialEq)]
pub enum Command {
    Ping,
    Execute(String),
    GetSystemInfo,
    Shutdown,
    LogEvent { level: LogLevel, message: String },
}

/// Mathematical model of a `Command`: payload strings as `Seq<char>`.
pub enum CommandV {
    Ping,
    Execute(Seq<char>),
    GetSystemInfo,
    Shutdown,
    LogEvent { level: LogLevel, message: Seq<char> },
}

impl View for Command {
    type V = CommandV;

    open spec fn view(&self) -> CommandV {
        match self {
            Command::Ping => CommandV::Ping,
            Command::Execute(s) => CommandV::Execute(s@),
            Command::GetSystemInfo => CommandV::GetSystemInfo,
            Command::Shutdown => CommandV::Shutdown,
            Command::LogEvent { level, message } => CommandV::LogEvent {
                level: *level,
                message: message@,
            },
        }
    }
}

/// Log severities carried by `Command::LogEvent`, used only for local log
/// routing and echoed into the result string.
#[derive(Debug, Clone, Copy, PartialEq, Eq, Structural)]
pub enum LogLevel {
    Debug,
    Info,
    Warning,
    Error,
}

/// Snapshot of an agent machine, attached to registration payloads and to
/// `GetSystemInfo` results.
#[derive(Debug, Clone, PartialEq)]
pub struct SystemInfo {
    pub hostname: String,
    pub username: String,
    pub os_type: String,
    pub os_version: Option<String>,
}

/// Mathematical model of a `SystemInfo`.
pub struct SystemInfoV {
    pub hostname: Seq<char>,
    pub username: Seq<char>,
    pub os_type: Seq<char>,
    pub os_version: Option<Seq<char>>,
}

impl View for SystemInfo {
    type V = SystemInfoV;

    open spec fn view(&self) -> SystemInfoV {
        SystemInfoV {
            hostname: self.hostname@,
            username: self.username@,
            os_type: self.os_type@,
            os_version: match self.os_version {
                Some(ref v) => Some(v@),
                None => None,
            },
        }
    }
}

/// Result of one command execution, sent agent-to-operator.
#[derive(Debug, Clone, PartialEq)]
pub struct CommandResult {
    pub success: bool,
    pub output: String,
    pub error: Option<String>,
    pub command_type: CommandType,
}

/// Mathematical model of a `CommandResult`.
pub struct CommandResultV {
    pub success: bool,
    pub output: Seq<char>,
    pub error: Option<Seq<char>>,
    pub command_type: CommandType,
}

impl View for CommandResult {
    type V = CommandResultV;

    open spec fn view(&self) -> CommandResultV {
        CommandResultV {
            success: self.success,
            output: self.output@,
            error: match self.error {
                Some(ref e) => Some(e@),
                None => None,
            },
            command_type: self.command_type,
        }
    }
}

/// Whether a result came from the shell executor or from the agent itself.
#[derive(Debug, Clone, Copy, PartialEq, Eq, Structural)]
pub enum CommandType {
    Shell,
    Internal,
}

// ---------------------------------------------------------------------------
// Labels and messages
// ---------------------------------------------------------------------------
/// The label a log severity is rendered with.
pub open spec fn label_spec(l: LogLevel) -> Seq<char> {
    match l {
        LogLevel::Debug => "DEBUG"@,
        LogLevel::Info => "INFO"@,
        LogLevel::Warning => "WARNING"@,
        LogLevel::Error => "ERROR"@,
    }
}

impl LogLevel {
    /// The severity's display label.
    pub fn label(&self) -> (r: String)
        ensures
            r@ == label_spec(*self),
    {
        match self {
            LogLevel::Debug => String::from_str("DEBUG"),
            LogLevel::Info => String::from_str("INFO"),
            LogLevel::Warning => String::from_str("WARNING"),
            LogLevel::Error => String::from_str("ERROR"),
        }
    }
}

/// How a command is rendered in log lines.
pub open spec fn describe_spec(c: CommandV) -> Seq<char> {
    match c {
        CommandV::Ping => "Ping"@,
        CommandV::Execute(s) => "Execute: "@ + s,
        CommandV::GetSystemInfo => "GetSystemInfo"@,
        CommandV::Shutdown => "Shutdown"@,
        CommandV::LogEvent { level, message } => "Log ["@ + label_spec(level) + "]: "@ + message,
    }
}

impl Command {
    /// The command's display rendering.
    pub fn describe(&self) -> (r: String)
        ensures
            r@ == describe_spec(self@),
    {
        match self {
            Command::Ping => String::from_str("Ping"),
            Command::Execute(s) => {
                let mut r = String::from_str("Execute: ");
                r.append(s.as_str());
                proof {
                    assert(r@ =~= describe_spec(self@));
                }
                r
            },
            Command::GetSystemInfo => String::from_str("GetSystemInfo"),
            Command::Shutdown => String::from_str("Shutdown"),
            Command::LogEvent { level, message } => {
                let mut r = String::from_str("Log [");
                let lab = level.label();
                r.append(lab.as_str());
                r.append("]: ");
                r.append(message.as_str());
                proof {
                    assert(r@ =~= describe_spec(self@));
                }
                r
            },
        }
    }
}

/// How each error is rendered.
pub open spec fn message_spec(e: &RsNatsError) -> Seq<char> {
    match e {
        RsNatsError::ConnectionError(s) => "NATS connection error: "@ + s@,
        RsNatsError::CommandError(s) => "Command execution error: "@ + s@,
        RsNatsError::SerializationError(s) => "Serialization error: "@ + s@,
        RsNatsError::AuthError(s) => "Authentication error: "@ + s@,
        RsNatsError::PlatformNotSupported => "Operation not supported on this platform"@,
    }
}

impl RsNatsError {
    /// The error's display message.
    pub fn message(&self) -> (r: String)
        ensures
            r@ == message_spec(self),
    {
        match self {
            RsNatsError::ConnectionError(s) => {
                let mut r = String::from_str("NATS connection error: ");
                r.append(s.as_str());
                proof {
                    assert(r@ =~= message_spec(self));
                }
                r
            },
            RsNatsError::CommandError(s) => {
                let mut r = String::from_str("Command execution error: ");
                r.append(s.as_str());
                proof {
                    assert(r@ =~= message_spec(self));
                }
                r
            },
            RsNatsError::SerializationError(s) => {
                let mut r = String::from_str("Serialization error: ");
                r.append(s.as_str());
                proof {
                    assert(r@ =~= message_spec(self));
                }
                r
            },
            RsNatsError::AuthError(s) => {
                let mut r = String::from_str("Authentication error: ");
                r.append(s.as_str());
                proof {
                    assert(r@ =~= message_spec(self));
                }
                r
            },
            RsNatsError::PlatformNotSupported => String::from_str(
                "Operation not supported on this platform",
            ),
        }
    }
}

// ---------------------------------------------------------------------------
// Machine identity
// ---------------------------------------------------------------------------
/// The platform the process runs on, as the surrounding runtime reports it.
#[derive(Debug, Clone, Copy, PartialEq, Eq, Structural)]
pub enum Platform {
    Windows,
    Linux,
    MacOs,
    Other,
}

/// The name each platform is reported under.
pub open spec fn os_type_spec(p: Platform) -> Seq<char> {
    match p {
        Platform::Windows => "Windows"@,
        Platform::Linux => "Linux"@,
        Platform::MacOs => "macOS"@,
        Platform::Other => "Unknown"@,
    }
}

/// Get the system's OS type name for a platform.
pub fn get_os_type(p: Platform) -> (r: String)
    ensures
        r@ == os_type_spec(p),
{
    match p {
        Platform::Windows => String::from_str("Windows"),
        Platform::Linux => String::from_str("Linux"),
        Platform::MacOs => String::from_str("macOS"),
        Platform::Other => String::from_str("Unknown"),
    }
}

/// Relies on `whoami::username`: the name of the user running this process.
/// The result depends on the machine, so nothing is promised of it.
#[verifier::external_body]
fn probe_username() -> (r: Option<String>) {
    whoami::username().ok()
}

/// Relies on `whoami::hostname`: this machine's hostname.  The result
/// depends on the machine, so nothing is promised of it.
#[verifier::external_body]
fn probe_hostname() -> (r: Option<String>) {
    whoami::hostname().ok()
}

/// The identifier derived from a username and hostname.
pub open spec fn client_id_spec(username: Seq<char>, hostname: Seq<char>) -> Seq<char> {
    username + seq!['-'] + hostname
}

/// Joins a username and hostname into a client identifier.
pub fn make_client_id(username: &str, hostname: &str) -> (r: String)
    ensures
        r@ == client_id_spec(username@, hostname@),
{
    let mut r = String::new();
    r.append(username);
    r.append("-");
    r.append(hostname);
    proof {
        reveal_strlit("-");
        assert(r@ =~= client_id_spec(username@, hostname@));
    }
    r
}

/// Get a unique client ID based on the machine: `<username>-<hostname>`,
/// with fixed fallbacks where the machine reports neither.
pub fn get_client_id() -> (r: String)
    ensures
        exists|u: Seq<char>, h: Seq<char>| r@ == client_id_spec(u, h),
{
    let username = match probe_username() {
        Some(u) => u,
        None => String::from_str("unknown-user"),
    };
    let hostname = match probe_hostname() {
        Some(h) => h,
        None => String::from_str("unknown-host"),
    };
    let r = make_client_id(username.as_str(), hostname.as_str());
    proof {
        assert(r@ == client_id_spec(username@, hostname@));
    }
    r
}

/// Builds a snapshot from its parts.
pub fn make_system_info(
    hostname: String,
    username: String,
    os_type: String,
    os_version: Option<String>,
) -> (r: SystemInfo)
    ensures
        r@.hostname == hostname@,
        r@.username == username@,
        r@.os_type == os_type@,
        r@.os_version == (match os_version {
            Some(v) => Some(v@),
            None => None::<Seq<char>>,
        }),
{
    SystemInfo { hostname, username, os_type, os_version }
}

/// Samples this machine: hostname and username from the machine probes,
/// the OS type name for `platform`, and whatever OS version string the
/// surrounding runtime obtained.
pub fn get_system_info(platform: Platform, os_version: Option<String>) -> (r: SystemInfo)
    ensures
        r@.os_type == os_type_spec(platform),
        r@.os_version == (match os_version {
            Some(v) => Some(v@),
            None => None::<Seq<char>>,
        }),
{
    let hostname = match probe_hostname() {
        Some(h) => h,
        None => String::from_str("unknown-host"),
    };
    let username = match probe_username() {
        Some(u) => u,
        None => String::from_str("unknown-user"),
    };
    make_system_info(hostname, username, get_os_type(platform), os_version)
}

} // verus!

mod chars;
pub mod agent;
pub mod codec;
pub mod operator;
pub mod osinfo;
pub mod registry;
pub mod subjects;

