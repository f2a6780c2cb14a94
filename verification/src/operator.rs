//! The operator runtime's decisions: how a console line is read, what each
//! console command does to the registry and the bus, how a registration
//! message is admitted, and how results are rendered.  The surrounding
//! runtime reads stdin, prints, and talks to the bus; every rule between
//! those steps is made and proved here.

use vstd::prelude::*;

use crate::chars::{chars_to_string, str_eq, str_to_chars};
use crate::codec::{encode_command_spec, spec_decode_sysinfo, decode_system_info, encode_command};
use crate::registry::ClientRegistry;
use crate::subjects::{command_subject, command_subject_spec, response_subject,
    response_subject_spec};
use crate::{Command, CommandResult, CommandResultV, CommandV, SystemInfo, SystemInfoV};

verus! {

// ---------------------------------------------------------------------------
// Tokenizing console input
// ---------------------------------------------------------------------------
pub open spec fn is_space(c: char) -> bool {
    c == ' ' || c == '\t' || c == '\r' || c == '\n'
}

/// Folds the input into whitespace-separated tokens: `cur` is the token
/// being read, `done` the tokens already read.
pub open spec fn tokens_acc(s: Seq<char>, cur: Seq<char>, done: Seq<Seq<char>>) -> Seq<Seq<char>>
    decreases s.len(),
{
    if s.len() == 0 {
        if cur.len() == 0 {
            done
        } else {
            done.push(cur)
        }
    } else if is_space(s[0]) {
        if cur.len() == 0 {
            tokens_acc(s.skip(1), Seq::empty(), done)
        } else {
            tokens_acc(s.skip(1), Seq::empty(), done.push(cur))
        }
    } else {
        tokens_acc(s.skip(1), cur.push(s[0]), done)
    }
}

/// The whitespace-separated tokens of a console line, in order.
pub open spec fn tokens_spec(s: Seq<char>) -> Seq<Seq<char>> {
    tokens_acc(s, Seq::empty(), Seq::empty())
}

/// The views of a vector of strings.
pub open spec fn strings_view(ts: Seq<String>) -> Seq<Seq<char>> {
    ts.map_values(|t: String| t@)
}

/// Splits a console line on whitespace.
pub fn tokenize(line: &str) -> (r: Vec<String>)
    ensures
        strings_view(r@) == tokens_spec(line@),
{
    let v = str_to_chars(line);
    let mut done: Vec<String> = Vec::new();
    let mut cur: Vec<char> = Vec::new();
    let mut i: usize = 0;
    proof {
        assert(v@.skip(0) =~= v@);
        assert(strings_view(done@) =~= Seq::<Seq<char>>::empty());
    }
    while i < v.len()
        invariant
            i <= v@.len(),
            v@ == line@,
            tokens_acc(v@.skip(i as int), cur@, strings_view(done@)) == tokens_spec(line@),
        decreases v@.len() - i,
    {
        let ghost w = v@.skip(i as int);
        proof {
            assert(w[0] == v@[i as int]);
            assert(w.skip(1) =~= v@.skip(i + 1));
        }
        let ghost cur0 = cur@;
        let ghost done0 = strings_view(done@);
        let c = v[i];
        if c == ' ' || c == '\t' || c == '\r' || c == '\n' {
            if cur.len() > 0 {
                let tok = chars_to_string(&cur);
                done.push(tok);
                cur = Vec::new();
                proof {
                    assert(strings_view(done@) =~= done0.push(cur0));
                    assert(tokens_acc(w, cur0, done0) == tokens_acc(
                        w.skip(1),
                        Seq::empty(),
                        done0.push(cur0),
                    ));
                }
            } else {
                proof {
                    assert(tokens_acc(w, cur0, done0) == tokens_acc(
                        w.skip(1),
                        Seq::empty(),
                        done0,
                    ));
                    assert(cur0 =~= Seq::<char>::empty());
                }
            }
        } else {
            cur.push(c);
            proof {
                assert(!is_space(w[0]));
                assert(tokens_acc(w, cur0, done0) == tokens_acc(
                    w.skip(1),
                    cur0.push(w[0]),
                    done0,
                ));
            }
        }
        proof {
            assert(tokens_acc(v@.skip(i + 1), cur@, strings_view(done@)) == tokens_spec(line@));
        }
        i = i + 1;
    }
    proof {
        assert(v@.skip(v@.len() as int) =~= Seq::<char>::empty());
    }
    if cur.len() > 0 {
        let ghost done0 = strings_view(done@);
        let tok = chars_to_string(&cur);
        done.push(tok);
        proof {
            assert(strings_view(done@) =~= done0.push(tok@));
        }
    }
    done
}

// ---------------------------------------------------------------------------
// Console commands
// ---------------------------------------------------------------------------
/// One parsed console command.
pub enum ConsoleCommand {
    /// `list`: show every registered client.
    List,
    /// `execute <id> <cmd...>`: run a shell line on a client.
    Execute { client_id: String, shell_line: String },
    /// `sysinfo <id>`: ask a client for its snapshot.
    SysInfo { client_id: String },
    /// `ping <id>`: ping a client.
    Ping { client_id: String },
    /// `exit`: stop the operator.
    Exit,
    /// A blank line.
    Empty,
    /// A known word missing its arguments.
    Usage { word: String },
    /// Anything else.
    Unknown { word: String },
}

/// Mathematical model of a `ConsoleCommand`.
pub enum ConsoleCommandV {
    List,
    Execute { client_id: Seq<char>, shell_line: Seq<char> },
    SysInfo { client_id: Seq<char> },
    Ping { client_id: Seq<char> },
    Exit,
    Empty,
    Usage { word: Seq<char> },
    Unknown { word: Seq<char> },
}

impl View for ConsoleCommand {
    type V = ConsoleCommandV;

    open spec fn view(&self) -> ConsoleCommandV {
        match self {
            ConsoleCommand::List => ConsoleCommandV::List,
            ConsoleCommand::Execute { client_id, shell_line } => ConsoleCommandV::Execute {
                client_id: client_id@,
                shell_line: shell_line@,
            },
            ConsoleCommand::SysInfo { client_id } => ConsoleCommandV::SysInfo {
                client_id: client_id@,
            },
            ConsoleCommand::Ping { client_id } => ConsoleCommandV::Ping { client_id: client_id@ },
            ConsoleCommand::Exit => ConsoleCommandV::Exit,
            ConsoleCommand::Empty => ConsoleCommandV::Empty,
            ConsoleCommand::Usage { word } => ConsoleCommandV::Usage { word: word@ },
            ConsoleCommand::Unknown { word } => ConsoleCommandV::Unknown { word: word@ },
        }
    }
}

/// Joins tokens with single spaces.
pub open spec fn join_spec(ts: Seq<Seq<char>>) -> Seq<char>
    decreases ts.len(),
{
    if ts.len() == 0 {
        Seq::empty()
    } else if ts.len() == 1 {
        ts[0]
    } else {
        ts[0] + seq![' '] + join_spec(ts.skip(1))
    }
}

proof fn lemma_join_snoc(ts: Seq<Seq<char>>, k: int)
    requires
        1 <= k < ts.len(),
    ensures
        join_spec(ts.take(k + 1)) == join_spec(ts.take(k)) + seq![' '] + ts[k],
    decreases k,
{
    let a = ts.take(k + 1);
    let b = ts.take(k);
    if k == 1 {
        assert(a.len() == 2);
        assert(a.skip(1) =~= seq![ts[1]]);
        assert(a[0] == ts[0]);
        assert(join_spec(a) == ts[0] + seq![' '] + join_spec(seq![ts[1]]));
        assert(join_spec(seq![ts[1]]) == ts[1]);
        assert(b =~= seq![ts[0]]);
        assert(join_spec(b) == ts[0]);
    } else {
        lemma_join_snoc(ts.skip(1), k - 1);
        assert(a.skip(1) =~= ts.skip(1).take(k));
        assert(b.skip(1) =~= ts.skip(1).take(k - 1));
        assert(a[0] == ts[0]);
        assert(b[0] == ts[0]);
        assert(ts.skip(1)[k - 1] == ts[k]);
        assert(join_spec(a) == ts[0] + seq![' '] + join_spec(ts.skip(1).take(k)));
        assert(join_spec(b) == ts[0] + seq![' '] + join_spec(ts.skip(1).take(k - 1)));
        assert(ts[0] + seq![' '] + (join_spec(ts.skip(1).take(k - 1)) + seq![' '] + ts[k]) =~= (
        ts[0] + seq![' '] + join_spec(ts.skip(1).take(k - 1))) + seq![' '] + ts[k]);
    }
}

/// Joins `tokens[from..]` with single spaces.
fn join_tokens(tokens: &Vec<String>, from: usize) -> (r: String)
    requires
        from < tokens@.len(),
    ensures
        r@ == join_spec(strings_view(tokens@).skip(from as int)),
{
    let ghost ts = strings_view(tokens@).skip(from as int);
    let n = tokens.len();
    let mut r = tokens[from].clone();
    proof {
        assert(ts[0] == tokens@[from as int]@);
        assert(ts.take(1) =~= seq![ts[0]]);
        assert(join_spec(ts.take(1)) == ts[0]);
    }
    let mut j: usize = from + 1;
    while j < n
        invariant
            n == tokens@.len(),
            from < j <= n,
            ts == strings_view(tokens@).skip(from as int),
            r@ == join_spec(ts.take(j - from)),
        decreases n - j,
    {
        r.append(" ");
        r.append(tokens[j].as_str());
        proof {
            reveal_strlit(" ");
            assert(" "@ =~= seq![' ']);
            lemma_join_snoc(ts, j - from);
            assert(ts[j - from] == tokens@[j as int]@);
        }
        j = j + 1;
    }
    proof {
        assert(ts.take(tokens@.len() - from) =~= ts);
    }
    r
}

/// What a console line means.
pub open spec fn spec_parse_console(s: Seq<char>) -> ConsoleCommandV {
    let ts = tokens_spec(s);
    if ts.len() == 0 {
        ConsoleCommandV::Empty
    } else if ts[0] == "list"@ {
        ConsoleCommandV::List
    } else if ts[0] == "execute"@ {
        if ts.len() < 3 {
            ConsoleCommandV::Usage { word: "execute"@ }
        } else {
            ConsoleCommandV::Execute { client_id: ts[1], shell_line: join_spec(ts.skip(2)) }
        }
    } else if ts[0] == "sysinfo"@ {
        if ts.len() < 2 {
            ConsoleCommandV::Usage { word: "sysinfo"@ }
        } else {
            ConsoleCommandV::SysInfo { client_id: ts[1] }
        }
    } else if ts[0] == "ping"@ {
        if ts.len() < 2 {
            ConsoleCommandV::Usage { word: "ping"@ }
        } else {
            ConsoleCommandV::Ping { client_id: ts[1] }
        }
    } else if ts[0] == "exit"@ {
        ConsoleCommandV::Exit
    } else {
        ConsoleCommandV::Unknown { word: ts[0] }
    }
}

/// Reads one console line: tokenize on whitespace, dispatch on the first
/// word, join the rest of an `execute` line back into one shell line.
pub fn parse_console_line(line: &str) -> (r: ConsoleCommand)
    ensures
        r@ == spec_parse_console(line@),
{
    let mut tokens = tokenize(line);
    let ghost ts = tokens_spec(line@);
    if tokens.len() == 0 {
        return ConsoleCommand::Empty;
    }
    proof {
        assert(ts[0] == tokens@[0]@);
    }
    if str_eq(tokens[0].as_str(), "list") {
        ConsoleCommand::List
    } else if str_eq(tokens[0].as_str(), "execute") {
        if tokens.len() < 3 {
            ConsoleCommand::Usage { word: String::from_str("execute") }
        } else {
            let shell_line = join_tokens(&tokens, 2);
            proof {
                assert(ts[1] == tokens@[1]@);
                assert(strings_view(tokens@).skip(2) =~= ts.skip(2));
            }
            let client_id = tokens.remove(1);
            ConsoleCommand::Execute { client_id, shell_line }
        }
    } else if str_eq(tokens[0].as_str(), "sysinfo") {
        if tokens.len() < 2 {
            ConsoleCommand::Usage { word: String::from_str("sysinfo") }
        } else {
            proof {
                assert(ts[1] == tokens@[1]@);
            }
            ConsoleCommand::SysInfo { client_id: tokens.remove(1) }
        }
    } else if str_eq(tokens[0].as_str(), "ping") {
        if tokens.len() < 2 {
            ConsoleCommand::Usage { word: String::from_str("ping") }
        } else {
            proof {
                assert(ts[1] == tokens@[1]@);
            }
            ConsoleCommand::Ping { client_id: tokens.remove(1) }
        }
    } else if str_eq(tokens[0].as_str(), "exit") {
        ConsoleCommand::Exit
    } else {
        ConsoleCommand::Unknown { word: tokens.remove(0) }
    }
}

// ---------------------------------------------------------------------------
// Console dispatch
// ---------------------------------------------------------------------------
/// What the runtime must do for one console command.
pub enum ConsoleEffect {
    /// Print the registry's entries (or that none are connected).
    ShowClients,
    /// Print that this client is not registered.  Nothing is published.
    NotFound { client_id: String },
    /// Publish `payload` on `subject`.
    Publish { subject: String, payload: String },
    /// Stop the console loop and signal shutdown.
    ExitRequested,
    /// Print the usage line of this command word.
    ShowUsage { word: String },
    /// Print that this command word is unknown.
    ShowUnknown { word: String },
    /// A blank line: do nothing.
    Idle,
}

/// Decides what one console command does.  A command aimed at a client
/// publishes the encoded command on that client's command subject exactly
/// when the client is registered; an unregistered identifier is reported
/// and nothing reaches the bus.
pub fn console_dispatch(reg: &ClientRegistry, prefix: &str, cmd: ConsoleCommand) -> (eff:
    ConsoleEffect)
    requires
        reg.wf(),
    ensures
        match cmd@ {
            ConsoleCommandV::List => eff is ShowClients,
            ConsoleCommandV::Execute { client_id, shell_line } => {
                if reg@.dom().contains(client_id) {
                    eff matches ConsoleEffect::Publish { subject, payload } && subject@
                        == command_subject_spec(prefix@, client_id) && payload@
                        == encode_command_spec(CommandV::Execute(shell_line))
                } else {
                    eff matches ConsoleEffect::NotFound { client_id: c } && c@ == client_id
                }
            },
            ConsoleCommandV::SysInfo { client_id } => {
                if reg@.dom().contains(client_id) {
                    eff matches ConsoleEffect::Publish { subject, payload } && subject@
                        == command_subject_spec(prefix@, client_id) && payload@
                        == encode_command_spec(CommandV::GetSystemInfo)
                } else {
                    eff matches ConsoleEffect::NotFound { client_id: c } && c@ == client_id
                }
            },
            ConsoleCommandV::Ping { client_id } => {
                if reg@.dom().contains(client_id) {
                    eff matches ConsoleEffect::Publish { subject, payload } && subject@
                        == command_subject_spec(prefix@, client_id) && payload@
                        == encode_command_spec(CommandV::Ping)
                } else {
                    eff matches ConsoleEffect::NotFound { client_id: c } && c@ == client_id
                }
            },
            ConsoleCommandV::Exit => eff is ExitRequested,
            ConsoleCommandV::Empty => eff is Idle,
            ConsoleCommandV::Usage { word } => eff matches ConsoleEffect::ShowUsage { word: w }
                && w@ == word,
            ConsoleCommandV::Unknown { word } => eff matches ConsoleEffect::ShowUnknown { word: w }
                && w@ == word,
        },
{
    match cmd {
        ConsoleCommand::List => ConsoleEffect::ShowClients,
        ConsoleCommand::Execute { client_id, shell_line } => {
            if reg.contains(client_id.as_str()) {
                let subject = command_subject(prefix, client_id.as_str());
                let payload = encode_command(&Command::Execute(shell_line));
                ConsoleEffect::Publish { subject, payload }
            } else {
                ConsoleEffect::NotFound { client_id }
            }
        },
        ConsoleCommand::SysInfo { client_id } => {
            if reg.contains(client_id.as_str()) {
                let subject = command_subject(prefix, client_id.as_str());
                let payload = encode_command(&Command::GetSystemInfo);
                ConsoleEffect::Publish { subject, payload }
            } else {
                ConsoleEffect::NotFound { client_id }
            }
        },
        ConsoleCommand::Ping { client_id } => {
            if reg.contains(client_id.as_str()) {
                let subject = command_subject(prefix, client_id.as_str());
                let payload = encode_command(&Command::Ping);
                ConsoleEffect::Publish { subject, payload }
            } else {
                ConsoleEffect::NotFound { client_id }
            }
        },
        ConsoleCommand::Exit => ConsoleEffect::ExitRequested,
        ConsoleCommand::Empty => ConsoleEffect::Idle,
        ConsoleCommand::Usage { word } => ConsoleEffect::ShowUsage { word },
        ConsoleCommand::Unknown { word } => ConsoleEffect::ShowUnknown { word },
    }
}

// ---------------------------------------------------------------------------
// Registration handling
// ---------------------------------------------------------------------------
pub open spec fn opt_str_view(o: &Option<String>) -> Option<Seq<char>> {
    match o {
        Some(s) => Some(s@),
        None => None,
    }
}

/// The identifier an inbound registration is stored under: the message's
/// identifier header wins; without one, the reply address stands in; a
/// message carrying neither is keyed under the empty identifier.
pub open spec fn chosen_id_spec(header: Option<Seq<char>>, reply: Option<Seq<char>>) -> Seq<char> {
    match header {
        Some(h) => h,
        None => match reply {
            Some(r) => r,
            None => Seq::empty(),
        },
    }
}

/// What the runtime must do after one registration message.
pub struct RegistrationOutcome {
    /// Whether the payload decoded and the client was stored.
    pub accepted: bool,
    /// The identifier the client was stored under.
    pub client_id: Option<String>,
    /// Where to publish the acknowledgement token, when the message
    /// carried a reply address.
    pub ack_to: Option<String>,
    /// The response subject to subscribe for this client.
    pub listen_on: Option<String>,
}

/// Admits one message from the registration subject.  An undecodable
/// payload changes nothing; a decoded snapshot is stored under the chosen
/// identifier (replacing any earlier entry), the reply address — if any —
/// gets the acknowledgement, and the client's response subject is handed
/// back for subscription.
pub fn handle_registration(
    reg: &mut ClientRegistry,
    prefix: &str,
    payload: &str,
    header_id: Option<String>,
    reply_to: Option<String>,
) -> (out: RegistrationOutcome)
    requires
        old(reg).wf(),
    ensures
        final(reg).wf(),
        spec_decode_sysinfo(payload@) is None ==> {
            &&& !out.accepted
            &&& final(reg)@ == old(reg)@
            &&& out.client_id is None
            &&& out.ack_to is None
            &&& out.listen_on is None
        },
        spec_decode_sysinfo(payload@) matches Some(info) ==> {
            let id = chosen_id_spec(opt_str_view(&header_id), opt_str_view(&reply_to));
            &&& out.accepted
            &&& (out.client_id matches Some(c) && c@ == id)
            &&& final(reg)@ == old(reg)@.insert(id, info)
            &&& (match reply_to {
                Some(r) => out.ack_to matches Some(a) && a@ == r@,
                None => out.ack_to is None,
            })
            &&& (out.listen_on matches Some(l) && l@ == response_subject_spec(prefix@, id))
        },
{
    match decode_system_info(payload) {
        None => {
            RegistrationOutcome { accepted: false, client_id: None, ack_to: None, listen_on: None }
        },
        Some(info) => {
            let id: String = match &header_id {
                Some(h) => h.clone(),
                None => match &reply_to {
                    Some(r) => r.clone(),
                    None => String::new(),
                },
            };
            let listen_on = response_subject(prefix, id.as_str());
            reg.upsert(id.clone(), info);
            RegistrationOutcome {
                accepted: true,
                client_id: Some(id),
                ack_to: reply_to,
                listen_on: Some(listen_on),
            }
        },
    }
}

/// The token acknowledging a registration.
pub fn ack_token() -> (r: String)
    ensures
        r@ == "ACK"@,
{
    String::from_str("ACK")
}

// ---------------------------------------------------------------------------
// Rendering
// ---------------------------------------------------------------------------
/// One line of the `list` output.
pub open spec fn client_line_spec(id: Seq<char>, info: SystemInfoV) -> Seq<char> {
    "  "@ + id + " - "@ + info.hostname + " ("@ + info.username + " / "@ + info.os_type + ")"@
}

/// Renders one registry entry for the `list` command.
pub fn render_client_line(id: &str, info: &SystemInfo) -> (r: String)
    ensures
        r@ == client_line_spec(id@, info@),
{
    let mut r = String::from_str("  ");
    r.append(id);
    r.append(" - ");
    r.append(info.hostname.as_str());
    r.append(" (");
    r.append(info.username.as_str());
    r.append(" / ");
    r.append(info.os_type.as_str());
    r.append(")");
    proof {
        assert(r@ =~= client_line_spec(id@, info@));
    }
    r
}

/// The block a decoded result is displayed as.
pub open spec fn result_block_spec(id: Seq<char>, r: CommandResultV) -> Seq<char> {
    "----- COMMAND RESULT -----\nClient: "@ + id + "\nStatus: "@ + (if r.success {
        "Success"@
    } else {
        "Failed"@
    }) + "\nOutput:\n"@ + r.output + (match r.error {
        Some(e) => "\nError: "@ + e,
        None => Seq::<char>::empty(),
    }) + "\n--------------------------"@
}

/// Renders a decoded result for the operator's console.
pub fn render_result_block(id: &str, result: &CommandResult) -> (r: String)
    ensures
        r@ == result_block_spec(id@, result@),
{
    let mut r = String::from_str("----- COMMAND RESULT -----\nClient: ");
    r.append(id);
    r.append("\nStatus: ");
    if result.success {
        r.append("Success");
    } else {
        r.append("Failed");
    }
    r.append("\nOutput:\n");
    r.append(result.output.as_str());
    match &result.error {
        Some(e) => {
            r.append("\nError: ");
            r.append(e.as_str());
        },
        None => {
        },
    }
    r.append("\n--------------------------");
    proof {
        assert(r@ =~= result_block_spec(id@, result@));
    }
    r
}

} // verus!
