//! Wire codec for the protocol data model.
//!
//! Values travel as UTF-8 text in a JSON shape: field names exactly as in
//! the data model, tagged variants for `Command`, `null` for an absent
//! option.  The encoder is total; the decoder accepts the canonical form
//! the encoder emits and rejects everything else, which keeps a decode
//! failure local and recoverable.  The round-trip laws at the end of this
//! file prove that decoding an encoded value always returns the value
//! itself.

use vstd::prelude::*;

use crate::chars::{chars_eq_str, chars_to_string, match_lit_at, starts_with_chars, str_to_chars};
use crate::{Command, CommandResult, CommandResultV, CommandType, CommandV, LogLevel, SystemInfo,
    SystemInfoV};

verus! {

// ---------------------------------------------------------------------------
// String escaping
// ---------------------------------------------------------------------------
/// The hexadecimal digit for a value below sixteen.
pub open spec fn hex_char(v: u32) -> char {
    if v == 0 {
        '0'
    } else if v == 1 {
        '1'
    } else if v == 2 {
        '2'
    } else if v == 3 {
        '3'
    } else if v == 4 {
        '4'
    } else if v == 5 {
        '5'
    } else if v == 6 {
        '6'
    } else if v == 7 {
        '7'
    } else if v == 8 {
        '8'
    } else if v == 9 {
        '9'
    } else if v == 10 {
        'a'
    } else if v == 11 {
        'b'
    } else if v == 12 {
        'c'
    } else if v == 13 {
        'd'
    } else if v == 14 {
        'e'
    } else {
        'f'
    }
}

/// The value of a lowercase hexadecimal digit.
pub open spec fn hex_val(c: char) -> Option<u32> {
    if c == '0' {
        Some(0u32)
    } else if c == '1' {
        Some(1u32)
    } else if c == '2' {
        Some(2u32)
    } else if c == '3' {
        Some(3u32)
    } else if c == '4' {
        Some(4u32)
    } else if c == '5' {
        Some(5u32)
    } else if c == '6' {
        Some(6u32)
    } else if c == '7' {
        Some(7u32)
    } else if c == '8' {
        Some(8u32)
    } else if c == '9' {
        Some(9u32)
    } else if c == 'a' {
        Some(10u32)
    } else if c == 'b' {
        Some(11u32)
    } else if c == 'c' {
        Some(12u32)
    } else if c == 'd' {
        Some(13u32)
    } else if c == 'e' {
        Some(14u32)
    } else if c == 'f' {
        Some(15u32)
    } else {
        None
    }
}

/// How one character appears inside a JSON string: itself, a short escape,
/// or a `\u00XX` escape for the remaining control characters.
pub open spec fn escape_char(c: char) -> Seq<char> {
    if c == '"' {
        seq!['\\', '"']
    } else if c == '\\' {
        seq!['\\', '\\']
    } else if c == '\u{8}' {
        seq!['\\', 'b']
    } else if c == '\t' {
        seq!['\\', 't']
    } else if c == '\n' {
        seq!['\\', 'n']
    } else if c == '\u{c}' {
        seq!['\\', 'f']
    } else if c == '\r' {
        seq!['\\', 'r']
    } else if (c as u32) < 0x20 {
        seq!['\\', 'u', '0', '0', hex_char((c as u32) / 16), hex_char((c as u32) % 16)]
    } else {
        seq![c]
    }
}

/// The body of a JSON string holding the characters of `s`.
pub open spec fn escape_seq(s: Seq<char>) -> Seq<char>
    decreases s.len(),
{
    if s.len() == 0 {
        Seq::empty()
    } else {
        escape_char(s[0]) + escape_seq(s.skip(1))
    }
}

/// A complete JSON string: quote, escaped body, quote.
pub open spec fn quoted(s: Seq<char>) -> Seq<char> {
    seq!['"'] + escape_seq(s) + seq!['"']
}

proof fn lemma_escape_app(a: Seq<char>, b: Seq<char>)
    ensures
        escape_seq(a + b) == escape_seq(a) + escape_seq(b),
    decreases a.len(),
{
    if a.len() == 0 {
        assert(a + b =~= b);
        assert(escape_seq(a) + escape_seq(b) =~= escape_seq(b));
    } else {
        assert((a + b)[0] == a[0]);
        assert((a + b).skip(1) =~= a.skip(1) + b);
        lemma_escape_app(a.skip(1), b);
        assert(escape_char(a[0]) + (escape_seq(a.skip(1)) + escape_seq(b)) =~= (escape_char(a[0])
            + escape_seq(a.skip(1))) + escape_seq(b));
    }
}

proof fn lemma_escape_snoc(s: Seq<char>, i: int)
    requires
        0 <= i < s.len(),
    ensures
        escape_seq(s.take(i + 1)) == escape_seq(s.take(i)) + escape_char(s[i]),
{
    assert(s.take(i + 1) =~= s.take(i) + seq![s[i]]);
    lemma_escape_app(s.take(i), seq![s[i]]);
    let single = seq![s[i]];
    assert(single[0] == s[i]);
    assert(single.skip(1) =~= Seq::<char>::empty());
    assert(escape_seq(single) == escape_char(s[i]) + escape_seq(Seq::<char>::empty()));
    assert(escape_char(s[i]) + Seq::<char>::empty() =~= escape_char(s[i]));
}

/// Appends the escaped body of `s` to `out`.
fn push_escaped(out: &mut Vec<char>, s: &Vec<char>)
    ensures
        final(out)@ == old(out)@ + escape_seq(s@),
{
    let ghost base = out@;
    let mut i: usize = 0;
    while i < s.len()
        invariant
            i <= s@.len(),
            out@ == base + escape_seq(s@.take(i as int)),
        decreases s@.len() - i,
    {
        let c = s[i];
        if c == '"' {
            out.push('\\');
            out.push('"');
        } else if c == '\\' {
            out.push('\\');
            out.push('\\');
        } else if c == '\u{8}' {
            out.push('\\');
            out.push('b');
        } else if c == '\t' {
            out.push('\\');
            out.push('t');
        } else if c == '\n' {
            out.push('\\');
            out.push('n');
        } else if c == '\u{c}' {
            out.push('\\');
            out.push('f');
        } else if c == '\r' {
            out.push('\\');
            out.push('r');
        } else if (c as u32) < 0x20 {
            let code = c as u32;
            out.push('\\');
            out.push('u');
            out.push('0');
            out.push('0');
            out.push(hex_char_exec(code / 16));
            out.push(hex_char_exec(code % 16));
        } else {
            out.push(c);
        }
        proof {
            lemma_escape_snoc(s@, i as int);
            assert(out@ =~= base + escape_seq(s@.take(i + 1 as int)));
        }
        i = i + 1;
    }
    proof {
        assert(s@.take(s@.len() as int) =~= s@);
    }
}

fn hex_char_exec(v: u32) -> (r: char)
    requires
        v < 16,
    ensures
        r == hex_char(v),
{
    if v == 0 {
        '0'
    } else if v == 1 {
        '1'
    } else if v == 2 {
        '2'
    } else if v == 3 {
        '3'
    } else if v == 4 {
        '4'
    } else if v == 5 {
        '5'
    } else if v == 6 {
        '6'
    } else if v == 7 {
        '7'
    } else if v == 8 {
        '8'
    } else if v == 9 {
        '9'
    } else if v == 10 {
        'a'
    } else if v == 11 {
        'b'
    } else if v == 12 {
        'c'
    } else if v == 13 {
        'd'
    } else if v == 14 {
        'e'
    } else {
        'f'
    }
}

fn hex_val_exec(c: char) -> (r: Option<u32>)
    ensures
        r == hex_val(c),
{
    if c == '0' {
        Some(0u32)
    } else if c == '1' {
        Some(1u32)
    } else if c == '2' {
        Some(2u32)
    } else if c == '3' {
        Some(3u32)
    } else if c == '4' {
        Some(4u32)
    } else if c == '5' {
        Some(5u32)
    } else if c == '6' {
        Some(6u32)
    } else if c == '7' {
        Some(7u32)
    } else if c == '8' {
        Some(8u32)
    } else if c == '9' {
        Some(9u32)
    } else if c == 'a' {
        Some(10u32)
    } else if c == 'b' {
        Some(11u32)
    } else if c == 'c' {
        Some(12u32)
    } else if c == 'd' {
        Some(13u32)
    } else if c == 'e' {
        Some(14u32)
    } else if c == 'f' {
        Some(15u32)
    } else {
        None
    }
}

// ---------------------------------------------------------------------------
// JSON string parsing
// ---------------------------------------------------------------------------
/// Parses the body of a JSON string (the opening quote already consumed),
/// accumulating unescaped characters into `acc`.  Returns the content and
/// the input remaining after the closing quote.
pub open spec fn parse_string_body(v: Seq<char>, acc: Seq<char>) -> Option<(Seq<char>, Seq<char>)>
    decreases v.len(),
{
    if v.len() == 0 {
        None
    } else if v[0] == '"' {
        Some((acc, v.skip(1)))
    } else if v[0] == '\\' {
        if v.len() < 2 {
            None
        } else if v[1] == '"' {
            parse_string_body(v.skip(2), acc.push('"'))
        } else if v[1] == '\\' {
            parse_string_body(v.skip(2), acc.push('\\'))
        } else if v[1] == 'b' {
            parse_string_body(v.skip(2), acc.push('\u{8}'))
        } else if v[1] == 't' {
            parse_string_body(v.skip(2), acc.push('\t'))
        } else if v[1] == 'n' {
            parse_string_body(v.skip(2), acc.push('\n'))
        } else if v[1] == 'f' {
            parse_string_body(v.skip(2), acc.push('\u{c}'))
        } else if v[1] == 'r' {
            parse_string_body(v.skip(2), acc.push('\r'))
        } else if v[1] == 'u' {
            if v.len() < 6 {
                None
            } else if v[2] == '0' && v[3] == '0' && hex_val(v[4]) is Some && hex_val(v[5]) is Some {
                parse_string_body(
                    v.skip(6),
                    acc.push(((16 * hex_val(v[4]).unwrap() + hex_val(v[5]).unwrap()) as u8) as char),
                )
            } else {
                None
            }
        } else {
            None
        }
    } else if (v[0] as u32) >= 0x20 {
        parse_string_body(v.skip(1), acc.push(v[0]))
    } else {
        None
    }
}

/// Parsing an escaped body followed by a closing quote recovers exactly the
/// original characters and leaves exactly the trailing input.
pub proof fn lemma_parse_escaped(s: Seq<char>, rest: Seq<char>, acc: Seq<char>)
    ensures
        parse_string_body(escape_seq(s) + seq!['"'] + rest, acc) == Some((acc + s, rest)),
    decreases s.len(),
{
    let v = escape_seq(s) + seq!['"'] + rest;
    if s.len() == 0 {
        assert(v =~= seq!['"'] + rest);
        assert(v[0] == '"');
        assert(v.skip(1) =~= rest);
        assert(acc + s =~= acc);
    } else {
        let c = s[0];
        let tail = s.skip(1);
        let v2 = escape_seq(tail) + seq!['"'] + rest;
        assert(escape_seq(s) == escape_char(c) + escape_seq(tail));
        assert(v =~= escape_char(c) + v2);
        if c == '"' || c == '\\' || c == '\u{8}' || c == '\t' || c == '\n' || c == '\u{c}' || c
            == '\r' {
            assert(v[0] == '\\');
            assert(v.skip(2) =~= v2);
            lemma_parse_escaped(tail, rest, acc.push(c));
            assert(acc.push(c) + tail =~= acc + s);
        } else if (c as u32) < 0x20 {
            let code = c as u32;
            assert(v[0] == '\\');
            assert(v[1] == 'u');
            assert(v[2] == '0');
            assert(v[3] == '0');
            assert(v[4] == hex_char(code / 16));
            assert(v[5] == hex_char(code % 16));
            assert(hex_val(hex_char(code / 16)) == Some(code / 16));
            assert(hex_val(hex_char(code % 16)) == Some(code % 16));
            assert(16 * (code / 16) + code % 16 == code);
            lemma_low_code_char(c);
            assert(v.skip(6) =~= v2);
            lemma_parse_escaped(tail, rest, acc.push(c));
            assert(acc.push(c) + tail =~= acc + s);
        } else {
            assert(v[0] == c);
            assert(v.skip(1) =~= v2);
            lemma_parse_escaped(tail, rest, acc.push(c));
            assert(acc.push(c) + tail =~= acc + s);
        }
    }
}

proof fn lemma_low_code_char(c: char)
    requires
        (c as u32) < 0x20,
    ensures
        (((c as u32) as u8) as char) == c,
{
}

proof fn lemma_skip_skip(v: Seq<char>, i: int, k: int)
    requires
        0 <= i,
        0 <= k,
        i + k <= v.len(),
    ensures
        v.skip(i).skip(k) == v.skip(i + k),
{
    assert(v.skip(i).skip(k) =~= v.skip(i + k));
}

/// Parses a JSON string body out of `v` starting at `start` (just past the
/// opening quote).  On success returns the content and the index just past
/// the closing quote.
fn parse_string_at(v: &Vec<char>, start: usize) -> (r: Option<(Vec<char>, usize)>)
    requires
        start <= v@.len(),
    ensures
        match r {
            Some(p) => {
                &&& p.1 <= v@.len()
                &&& parse_string_body(v@.skip(start as int), Seq::empty()) == Some(
                    (p.0@, v@.skip(p.1 as int)),
                )
            },
            None => parse_string_body(v@.skip(start as int), Seq::empty()) is None,
        },
{
    let mut i: usize = start;
    let mut acc: Vec<char> = Vec::new();
    loop
        invariant
            start <= i <= v@.len(),
            parse_string_body(v@.skip(start as int), Seq::empty()) == parse_string_body(
                v@.skip(i as int),
                acc@,
            ),
        decreases v@.len() - i,
    {
        if i >= v.len() {
            proof {
                assert(v@.skip(i as int) =~= Seq::<char>::empty());
            }
            return None;
        }
        let ghost w = v@.skip(i as int);
        proof {
            assert(w[0] == v@[i as int]);
            assert(w.len() == v@.len() - i);
        }
        let c = v[i];
        if c == '"' {
            proof {
                lemma_skip_skip(v@, i as int, 1);
            }
            return Some((acc, i + 1));
        } else if c == '\\' {
            if i + 1 >= v.len() {
                return None;
            }
            let e = v[i + 1];
            proof {
                assert(w[1] == v@[i + 1 as int]);
                lemma_skip_skip(v@, i as int, 2);
            }
            if e == '"' {
                acc.push('"');
                i = i + 2;
            } else if e == '\\' {
                acc.push('\\');
                i = i + 2;
            } else if e == 'b' {
                acc.push('\u{8}');
                i = i + 2;
            } else if e == 't' {
                acc.push('\t');
                i = i + 2;
            } else if e == 'n' {
                acc.push('\n');
                i = i + 2;
            } else if e == 'f' {
                acc.push('\u{c}');
                i = i + 2;
            } else if e == 'r' {
                acc.push('\r');
                i = i + 2;
            } else if e == 'u' {
                if v.len() - i < 6 {
                    return None;
                }
                proof {
                    assert(w[2] == v@[i + 2 as int]);
                    assert(w[3] == v@[i + 3 as int]);
                    assert(w[4] == v@[i + 4 as int]);
                    assert(w[5] == v@[i + 5 as int]);
                    lemma_skip_skip(v@, i as int, 6);
                }
                let h1 = hex_val_exec(v[i + 4]);
                let h2 = hex_val_exec(v[i + 5]);
                if v[i + 2] == '0' && v[i + 3] == '0' && h1.is_some() && h2.is_some() {
                    let code: u32 = 16 * h1.unwrap() + h2.unwrap();
                    acc.push((code as u8) as char);
                    i = i + 6;
                } else {
                    return None;
                }
            } else {
                return None;
            }
        } else if (c as u32) >= 0x20 {
            proof {
                lemma_skip_skip(v@, i as int, 1);
            }
            acc.push(c);
            i = i + 1;
        } else {
            return None;
        }
    }
}

// ---------------------------------------------------------------------------
// Command
// ---------------------------------------------------------------------------
/// The encoding of a log severity: a tagged unit variant, so a bare string.
pub open spec fn encode_log_level_spec(l: LogLevel) -> Seq<char> {
    match l {
        LogLevel::Debug => seq!['"', 'D', 'e', 'b', 'u', 'g', '"'],
        LogLevel::Info => seq!['"', 'I', 'n', 'f', 'o', '"'],
        LogLevel::Warning => seq!['"', 'W', 'a', 'r', 'n', 'i', 'n', 'g', '"'],
        LogLevel::Error => seq!['"', 'E', 'r', 'r', 'o', 'r', '"'],
    }
}

/// The opening of an `Execute` object, up to and including the quote that
/// starts the payload string.
pub open spec fn execute_prefix() -> Seq<char> {
    seq!['{', '"', 'E', 'x', 'e', 'c', 'u', 't', 'e', '"', ':', '"']
}

/// The opening of a `LogEvent` object, up to the value of its `level` field.
pub open spec fn logevent_prefix() -> Seq<char> {
    seq!['{', '"', 'L', 'o', 'g', 'E', 'v', 'e', 'n', 't', '"', ':', '{', '"', 'l', 'e', 'v', 'e',
        'l', '"', ':']
}

/// The separator between the `level` value and the `message` string of a
/// `LogEvent`, up to and including the quote that starts the message.
pub open spec fn message_mid() -> Seq<char> {
    seq![',', '"', 'm', 'e', 's', 's', 'a', 'g', 'e', '"', ':', '"']
}

/// The canonical encoding of a command.
pub open spec fn encode_command_spec(c: CommandV) -> Seq<char> {
    match c {
        CommandV::Ping => seq!['"', 'P', 'i', 'n', 'g', '"'],
        CommandV::GetSystemInfo => seq!['"', 'G', 'e', 't', 'S', 'y', 's', 't', 'e', 'm', 'I', 'n',
            'f', 'o', '"'],
        CommandV::Shutdown => seq!['"', 'S', 'h', 'u', 't', 'd', 'o', 'w', 'n', '"'],
        CommandV::Execute(s) => seq!['{', '"', 'E', 'x', 'e', 'c', 'u', 't', 'e', '"', ':']
            + quoted(s) + seq!['}'],
        CommandV::LogEvent { level, message } => logevent_prefix() + encode_log_level_spec(level)
            + seq![',', '"', 'm', 'e', 's', 's', 'a', 'g', 'e', '"', ':'] + quoted(message) + seq![
            '}',
            '}',
        ],
    }
}

/// Reads a log severity off the front of `v`; returns it and what follows.
pub open spec fn parse_level(v: Seq<char>) -> Option<(LogLevel, Seq<char>)> {
    if v.len() >= 7 && v.take(7) == encode_log_level_spec(LogLevel::Debug) {
        Some((LogLevel::Debug, v.skip(7)))
    } else if v.len() >= 6 && v.take(6) == encode_log_level_spec(LogLevel::Info) {
        Some((LogLevel::Info, v.skip(6)))
    } else if v.len() >= 9 && v.take(9) == encode_log_level_spec(LogLevel::Warning) {
        Some((LogLevel::Warning, v.skip(9)))
    } else if v.len() >= 7 && v.take(7) == encode_log_level_spec(LogLevel::Error) {
        Some((LogLevel::Error, v.skip(7)))
    } else {
        None
    }
}

/// What the decoder accepts: exactly the canonical encodings.
pub open spec fn spec_decode_command(v: Seq<char>) -> Option<CommandV> {
    if v == encode_command_spec(CommandV::Ping) {
        Some(CommandV::Ping)
    } else if v == encode_command_spec(CommandV::GetSystemInfo) {
        Some(CommandV::GetSystemInfo)
    } else if v == encode_command_spec(CommandV::Shutdown) {
        Some(CommandV::Shutdown)
    } else if v.len() >= 12 && v.take(12) == execute_prefix() {
        match parse_string_body(v.skip(12), Seq::empty()) {
            Some(p) => {
                if p.1 == seq!['}'] {
                    Some(CommandV::Execute(p.0))
                } else {
                    None
                }
            },
            None => None,
        }
    } else if v.len() >= 21 && v.take(21) == logevent_prefix() {
        match parse_level(v.skip(21)) {
            Some(lv) => {
                if lv.1.len() >= 12 && lv.1.take(12) == message_mid() {
                    match parse_string_body(lv.1.skip(12), Seq::empty()) {
                        Some(p) => {
                            if p.1 == seq!['}', '}'] {
                                Some(CommandV::LogEvent { level: lv.0, message: p.0 })
                            } else {
                                None
                            }
                        },
                        None => None,
                    }
                } else {
                    None
                }
            },
            None => None,
        }
    } else {
        None
    }
}

/// Encodes a command into its wire characters.
fn encode_command_chars(cmd: &Command) -> (out: Vec<char>)
    ensures
        out@ == encode_command_spec(cmd@),
{
    let mut out: Vec<char> = Vec::new();
    match cmd {
        Command::Ping => {
            out.push('"');
            out.push('P');
            out.push('i');
            out.push('n');
            out.push('g');
            out.push('"');
            proof {
                assert(out@ =~= encode_command_spec(cmd@));
            }
        },
        Command::GetSystemInfo => {
            out.push('"');
            out.push('G');
            out.push('e');
            out.push('t');
            out.push('S');
            out.push('y');
            out.push('s');
            out.push('t');
            out.push('e');
            out.push('m');
            out.push('I');
            out.push('n');
            out.push('f');
            out.push('o');
            out.push('"');
            proof {
                assert(out@ =~= encode_command_spec(cmd@));
            }
        },
        Command::Shutdown => {
            out.push('"');
            out.push('S');
            out.push('h');
            out.push('u');
            out.push('t');
            out.push('d');
            out.push('o');
            out.push('w');
            out.push('n');
            out.push('"');
            proof {
                assert(out@ =~= encode_command_spec(cmd@));
            }
        },
        Command::Execute(s) => {
            out.push('{');
            out.push('"');
            out.push('E');
            out.push('x');
            out.push('e');
            out.push('c');
            out.push('u');
            out.push('t');
            out.push('e');
            out.push('"');
            out.push(':');
            out.push('"');
            let body = str_to_chars(s.as_str());
            push_escaped(&mut out, &body);
            out.push('"');
            out.push('}');
            proof {
                assert(out@ =~= encode_command_spec(cmd@));
            }
        },
        Command::LogEvent { level, message } => {
            out.push('{');
            out.push('"');
            out.push('L');
            out.push('o');
            out.push('g');
            out.push('E');
            out.push('v');
            out.push('e');
            out.push('n');
            out.push('t');
            out.push('"');
            out.push(':');
            out.push('{');
            out.push('"');
            out.push('l');
            out.push('e');
            out.push('v');
            out.push('e');
            out.push('l');
            out.push('"');
            out.push(':');
            push_level(&mut out, *level);
            out.push(',');
            out.push('"');
            out.push('m');
            out.push('e');
            out.push('s');
            out.push('s');
            out.push('a');
            out.push('g');
            out.push('e');
            out.push('"');
            out.push(':');
            out.push('"');
            let body = str_to_chars(message.as_str());
            push_escaped(&mut out, &body);
            out.push('"');
            out.push('}');
            out.push('}');
            proof {
                assert(out@ =~= encode_command_spec(cmd@));
            }
        },
    }
    out
}

fn push_level(out: &mut Vec<char>, level: LogLevel)
    ensures
        final(out)@ == old(out)@ + encode_log_level_spec(level),
{
    match level {
        LogLevel::Debug => {
            out.push('"');
            out.push('D');
            out.push('e');
            out.push('b');
            out.push('u');
            out.push('g');
            out.push('"');
        },
        LogLevel::Info => {
            out.push('"');
            out.push('I');
            out.push('n');
            out.push('f');
            out.push('o');
            out.push('"');
        },
        LogLevel::Warning => {
            out.push('"');
            out.push('W');
            out.push('a');
            out.push('r');
            out.push('n');
            out.push('i');
            out.push('n');
            out.push('g');
            out.push('"');
        },
        LogLevel::Error => {
            out.push('"');
            out.push('E');
            out.push('r');
            out.push('r');
            out.push('o');
            out.push('r');
            out.push('"');
        },
    }
    proof {
        assert(out@ =~= old(out)@ + encode_log_level_spec(level));
    }
}

/// Encodes a command for the bus.
pub fn encode_command(cmd: &Command) -> (r: String)
    ensures
        r@ == encode_command_spec(cmd@),
{
    chars_to_string(&encode_command_chars(cmd))
}

fn decode_command_vec(v: &Vec<char>) -> (r: Option<Command>)
    ensures
        match r {
            Some(c) => spec_decode_command(v@) == Some(c@),
            None => spec_decode_command(v@) is None,
        },
{
    proof {
        reveal_strlit("\"Ping\"");
        reveal_strlit("\"GetSystemInfo\"");
        reveal_strlit("\"Shutdown\"");
        reveal_strlit("{\"Execute\":\"");
        reveal_strlit("{\"LogEvent\":{\"level\":");
        reveal_strlit("\"Debug\"");
        reveal_strlit("\"Info\"");
        reveal_strlit("\"Warning\"");
        reveal_strlit("\"Error\"");
        reveal_strlit(",\"message\":\"");
        assert("\"Ping\""@ =~= encode_command_spec(CommandV::Ping));
        assert("\"GetSystemInfo\""@ =~= encode_command_spec(CommandV::GetSystemInfo));
        assert("\"Shutdown\""@ =~= encode_command_spec(CommandV::Shutdown));
        assert("{\"Execute\":\""@ =~= execute_prefix());
        assert("{\"LogEvent\":{\"level\":"@ =~= logevent_prefix());
        assert("\"Debug\""@ =~= encode_log_level_spec(LogLevel::Debug));
        assert("\"Info\""@ =~= encode_log_level_spec(LogLevel::Info));
        assert("\"Warning\""@ =~= encode_log_level_spec(LogLevel::Warning));
        assert("\"Error\""@ =~= encode_log_level_spec(LogLevel::Error));
        assert(",\"message\":\""@ =~= message_mid());
    }
    if chars_eq_str(v, "\"Ping\"") {
        return Some(Command::Ping);
    }
    if chars_eq_str(v, "\"GetSystemInfo\"") {
        return Some(Command::GetSystemInfo);
    }
    if chars_eq_str(v, "\"Shutdown\"") {
        return Some(Command::Shutdown);
    }
    let exec_pre = str_to_chars("{\"Execute\":\"");
    if starts_with_chars(v, &exec_pre) {
        match parse_string_at(v, 12) {
            Some((content, next)) => {
                if next == v.len() - 1 && v[next] == '}' {
                    proof {
                        assert(v@.skip(next as int) =~= seq!['}']);
                    }
                    return Some(Command::Execute(chars_to_string(&content)));
                } else {
                    proof {
                        let rem = v@.skip(next as int);
                        if next != v@.len() - 1 {
                            assert(rem.len() != 1);
                        } else {
                            assert(rem[0] == v@[next as int]);
                        }
                        assert(rem != seq!['}']);
                    }
                    return None;
                }
            },
            None => {
                return None;
            },
        }
    }
    let log_pre = str_to_chars("{\"LogEvent\":{\"level\":");
    if starts_with_chars(v, &log_pre) {
        let ghost w = v@.skip(21);
        let level: LogLevel;
        let lvl_len: usize;
        if match_lit_at(v, 21, &str_to_chars("\"Debug\"")) {
            level = LogLevel::Debug;
            lvl_len = 7;
        } else if match_lit_at(v, 21, &str_to_chars("\"Info\"")) {
            level = LogLevel::Info;
            lvl_len = 6;
        } else if match_lit_at(v, 21, &str_to_chars("\"Warning\"")) {
            level = LogLevel::Warning;
            lvl_len = 9;
        } else if match_lit_at(v, 21, &str_to_chars("\"Error\"")) {
            level = LogLevel::Error;
            lvl_len = 7;
        } else {
            proof {
                assert(parse_level(w) is None);
            }
            return None;
        }
        proof {
            lemma_skip_skip(v@, 21, lvl_len as int);
            assert(parse_level(w) == Some((level, v@.skip(21 + lvl_len as int))));
        }
        let mid_at = 21 + lvl_len;
        let ghost rest = v@.skip(21 + lvl_len as int);
        if !match_lit_at(v, mid_at, &str_to_chars(",\"message\":\"")) {
            return None;
        }
        proof {
            lemma_skip_skip(v@, mid_at as int, 12);
        }
        match parse_string_at(v, mid_at + 12) {
            Some((content, next)) => {
                if v.len() >= 2 && next == v.len() - 2 && v[next] == '}' && v[next + 1] == '}' {
                    proof {
                        assert(v@.skip(next as int) =~= seq!['}', '}']);
                    }
                    return Some(Command::LogEvent { level, message: chars_to_string(&content) });
                } else {
                    proof {
                        let rem = v@.skip(next as int);
                        if next != v@.len() - 2 {
                            assert(rem.len() != 2);
                        } else {
                            assert(rem[0] == v@[next as int]);
                            assert(rem[1] == v@[next + 1 as int]);
                        }
                        assert(rem != seq!['}', '}']);
                    }
                    return None;
                }
            },
            None => {
                return None;
            },
        }
    }
    proof {
        let ghost vv = v@;
        assert(spec_decode_command(vv) is None);
    }
    None
}

/// Decodes a command from the bus; `None` on anything but a canonical
/// encoding.
pub fn decode_command(s: &str) -> (r: Option<Command>)
    ensures
        match r {
            Some(c) => spec_decode_command(s@) == Some(c@),
            None => spec_decode_command(s@) is None,
        },
{
    let v = str_to_chars(s);
    decode_command_vec(&v)
}

/// Round-trip law: decoding an encoded command yields the command itself.
#[verifier::rlimit(60)]
pub proof fn lemma_command_round_trip(c: CommandV)
    ensures
        spec_decode_command(encode_command_spec(c)) == Some(c),
{
    let v = encode_command_spec(c);
    match c {
        CommandV::Ping => {
        },
        CommandV::GetSystemInfo => {
            assert(v != encode_command_spec(CommandV::Ping));
        },
        CommandV::Shutdown => {
            assert(v != encode_command_spec(CommandV::Ping));
            assert(v != encode_command_spec(CommandV::GetSystemInfo));
        },
        CommandV::Execute(s) => {
            assert(v[0] == '{');
            assert(v != encode_command_spec(CommandV::Ping));
            assert(v != encode_command_spec(CommandV::GetSystemInfo));
            assert(v != encode_command_spec(CommandV::Shutdown));
            assert(v.take(12) =~= execute_prefix());
            assert(v.skip(12) =~= escape_seq(s) + seq!['"'] + seq!['}']);
            lemma_parse_escaped(s, seq!['}'], Seq::empty());
            assert(Seq::empty() + s =~= s);
        },
        CommandV::LogEvent { level, message } => {
            assert(v[0] == '{');
            assert(v[2] == 'L');
            assert(v != encode_command_spec(CommandV::Ping));
            assert(v != encode_command_spec(CommandV::GetSystemInfo));
            assert(v != encode_command_spec(CommandV::Shutdown));
            assert(v.take(12) != execute_prefix());
            assert(v.take(21) =~= logevent_prefix());
            let w = v.skip(21);
            let ll = encode_log_level_spec(level);
            assert(w =~= ll + message_mid() + escape_seq(message) + seq!['"'] + seq!['}', '}']);
            match level {
                LogLevel::Debug => {
                    assert(w.take(7) =~= ll);
                },
                LogLevel::Info => {
                    assert(w.take(7)[1] == 'I');
                    assert(w.take(7) != encode_log_level_spec(LogLevel::Debug));
                    assert(w.take(6) =~= ll);
                },
                LogLevel::Warning => {
                    assert(w.take(7)[1] == 'W');
                    assert(w.take(6)[1] == 'W');
                    assert(w.take(7) != encode_log_level_spec(LogLevel::Debug));
                    assert(w.take(6) != encode_log_level_spec(LogLevel::Info));
                    assert(w.take(9) =~= ll);
                },
                LogLevel::Error => {
                    assert(w.take(7)[1] == 'E');
                    assert(w.take(6)[1] == 'E');
                    assert(w.take(7) != encode_log_level_spec(LogLevel::Debug));
                    assert(w.take(6) != encode_log_level_spec(LogLevel::Info));
                    assert(w.take(9)[1] == 'E');
                    assert(w.take(9) != encode_log_level_spec(LogLevel::Warning));
                    assert(w.take(7) =~= ll);
                },
            }
            let rest = w.skip(ll.len() as int);
            assert(parse_level(w) == Some((level, rest)));
            assert(rest =~= message_mid() + escape_seq(message) + seq!['"'] + seq!['}', '}']);
            assert(rest.take(12) =~= message_mid());
            assert(rest.skip(12) =~= escape_seq(message) + seq!['"'] + seq!['}', '}']);
            lemma_parse_escaped(message, seq!['}', '}'], Seq::empty());
            assert(Seq::empty() + message =~= message);
        },
    }
}

// ---------------------------------------------------------------------------
// CommandResult
// ---------------------------------------------------------------------------
/// The opening of a result object, up to the value of its `success` field.
pub open spec fn success_prefix() -> Seq<char> {
    seq!['{', '"', 's', 'u', 'c', 'c', 'e', 's', 's', '"', ':']
}

pub open spec fn bool_lit(b: bool) -> Seq<char> {
    if b {
        seq!['t', 'r', 'u', 'e']
    } else {
        seq!['f', 'a', 'l', 's', 'e']
    }
}

pub open spec fn output_mid() -> Seq<char> {
    seq![',', '"', 'o', 'u', 't', 'p', 'u', 't', '"', ':', '"']
}

pub open spec fn error_mid() -> Seq<char> {
    seq![',', '"', 'e', 'r', 'r', 'o', 'r', '"', ':']
}

pub open spec fn null_lit() -> Seq<char> {
    seq!['n', 'u', 'l', 'l']
}

pub open spec fn ctype_mid() -> Seq<char> {
    seq![',', '"', 'c', 'o', 'm', 'm', 'a', 'n', 'd', '_', 't', 'y', 'p', 'e', '"', ':']
}

pub open spec fn encode_ctype_spec(t: CommandType) -> Seq<char> {
    match t {
        CommandType::Shell => seq!['"', 'S', 'h', 'e', 'l', 'l', '"'],
        CommandType::Internal => seq!['"', 'I', 'n', 't', 'e', 'r', 'n', 'a', 'l', '"'],
    }
}

/// An optional string field: `null` when absent, a JSON string otherwise.
pub open spec fn encode_opt_str_spec(o: Option<Seq<char>>) -> Seq<char> {
    match o {
        None => null_lit(),
        Some(s) => quoted(s),
    }
}

/// The canonical encoding of a command result.
pub open spec fn encode_result_spec(r: CommandResultV) -> Seq<char> {
    success_prefix() + bool_lit(r.success) + output_mid() + escape_seq(r.output) + seq!['"']
        + error_mid() + encode_opt_str_spec(r.error) + ctype_mid() + encode_ctype_spec(
        r.command_type,
    ) + seq!['}']
}

pub open spec fn parse_result_tail(
    success: bool,
    output: Seq<char>,
    error: Option<Seq<char>>,
    w: Seq<char>,
) -> Option<CommandResultV> {
    if w.len() >= 16 && w.take(16) == ctype_mid() {
        let y = w.skip(16);
        if y.len() >= 7 && y.take(7) == encode_ctype_spec(CommandType::Shell) {
            if y.skip(7) == seq!['}'] {
                Some(
                    CommandResultV {
                        success,
                        output,
                        error,
                        command_type: CommandType::Shell,
                    },
                )
            } else {
                None
            }
        } else if y.len() >= 10 && y.take(10) == encode_ctype_spec(CommandType::Internal) {
            if y.skip(10) == seq!['}'] {
                Some(
                    CommandResultV {
                        success,
                        output,
                        error,
                        command_type: CommandType::Internal,
                    },
                )
            } else {
                None
            }
        } else {
            None
        }
    } else {
        None
    }
}

pub open spec fn parse_result_error(success: bool, output: Seq<char>, w: Seq<char>) -> Option<
    CommandResultV,
> {
    if w.len() >= 9 && w.take(9) == error_mid() {
        let x = w.skip(9);
        if x.len() >= 4 && x.take(4) == null_lit() {
            parse_result_tail(success, output, None, x.skip(4))
        } else if x.len() >= 1 && x[0] == '"' {
            match parse_string_body(x.skip(1), Seq::empty()) {
                Some(p) => parse_result_tail(success, output, Some(p.0), p.1),
                None => None,
            }
        } else {
            None
        }
    } else {
        None
    }
}

pub open spec fn parse_result_output(success: bool, w: Seq<char>) -> Option<CommandResultV> {
    if w.len() >= 11 && w.take(11) == output_mid() {
        match parse_string_body(w.skip(11), Seq::empty()) {
            Some(p) => parse_result_error(success, p.0, p.1),
            None => None,
        }
    } else {
        None
    }
}

/// What the decoder accepts for a result: exactly the canonical encodings.
pub open spec fn spec_decode_result(v: Seq<char>) -> Option<CommandResultV> {
    if v.len() >= 11 && v.take(11) == success_prefix() {
        let w = v.skip(11);
        if w.len() >= 4 && w.take(4) == bool_lit(true) {
            parse_result_output(true, w.skip(4))
        } else if w.len() >= 5 && w.take(5) == bool_lit(false) {
            parse_result_output(false, w.skip(5))
        } else {
            None
        }
    } else {
        None
    }
}

/// Appends a complete JSON string for `s`.
fn push_quoted(out: &mut Vec<char>, s: &str)
    ensures
        final(out)@ == old(out)@ + quoted(s@),
{
    out.push('"');
    let body = str_to_chars(s);
    push_escaped(out, &body);
    out.push('"');
    proof {
        assert(out@ =~= old(out)@ + quoted(s@));
    }
}

fn push_success_prefix(out: &mut Vec<char>)
    ensures
        final(out)@ == old(out)@ + success_prefix(),
{
    out.push('{');
    out.push('"');
    out.push('s');
    out.push('u');
    out.push('c');
    out.push('c');
    out.push('e');
    out.push('s');
    out.push('s');
    out.push('"');
    out.push(':');
    proof {
        assert(out@ =~= old(out)@ + success_prefix());
    }
}

fn push_bool(out: &mut Vec<char>, b: bool)
    ensures
        final(out)@ == old(out)@ + bool_lit(b),
{
    if b {
        out.push('t');
        out.push('r');
        out.push('u');
        out.push('e');
    } else {
        out.push('f');
        out.push('a');
        out.push('l');
        out.push('s');
        out.push('e');
    }
    proof {
        assert(out@ =~= old(out)@ + bool_lit(b));
    }
}

fn push_output_mid(out: &mut Vec<char>)
    ensures
        final(out)@ == old(out)@ + output_mid(),
{
    out.push(',');
    out.push('"');
    out.push('o');
    out.push('u');
    out.push('t');
    out.push('p');
    out.push('u');
    out.push('t');
    out.push('"');
    out.push(':');
    out.push('"');
    proof {
        assert(out@ =~= old(out)@ + output_mid());
    }
}

fn push_error_mid(out: &mut Vec<char>)
    ensures
        final(out)@ == old(out)@ + error_mid(),
{
    out.push(',');
    out.push('"');
    out.push('e');
    out.push('r');
    out.push('r');
    out.push('o');
    out.push('r');
    out.push('"');
    out.push(':');
    proof {
        assert(out@ =~= old(out)@ + error_mid());
    }
}

fn push_opt_str(out: &mut Vec<char>, o: &Option<String>)
    ensures
        final(out)@ == old(out)@ + encode_opt_str_spec(
            match o {
                Some(s) => Some(s@),
                None => None,
            },
        ),
{
    match o {
        Some(s) => {
            push_quoted(out, s.as_str());
        },
        None => {
            out.push('n');
            out.push('u');
            out.push('l');
            out.push('l');
            proof {
                assert(out@ =~= old(out)@ + null_lit());
            }
        },
    }
}

fn push_ctype_mid(out: &mut Vec<char>)
    ensures
        final(out)@ == old(out)@ + ctype_mid(),
{
    out.push(',');
    out.push('"');
    out.push('c');
    out.push('o');
    out.push('m');
    out.push('m');
    out.push('a');
    out.push('n');
    out.push('d');
    out.push('_');
    out.push('t');
    out.push('y');
    out.push('p');
    out.push('e');
    out.push('"');
    out.push(':');
    proof {
        assert(out@ =~= old(out)@ + ctype_mid());
    }
}

fn push_ctype(out: &mut Vec<char>, t: CommandType)
    ensures
        final(out)@ == old(out)@ + encode_ctype_spec(t),
{
    match t {
        CommandType::Shell => {
            out.push('"');
            out.push('S');
            out.push('h');
            out.push('e');
            out.push('l');
            out.push('l');
            out.push('"');
        },
        CommandType::Internal => {
            out.push('"');
            out.push('I');
            out.push('n');
            out.push('t');
            out.push('e');
            out.push('r');
            out.push('n');
            out.push('a');
            out.push('l');
            out.push('"');
        },
    }
    proof {
        assert(out@ =~= old(out)@ + encode_ctype_spec(t));
    }
}

/// Encodes a command result for the bus.
pub fn encode_command_result(r: &CommandResult) -> (s: String)
    ensures
        s@ == encode_result_spec(r@),
{
    let mut out: Vec<char> = Vec::new();
    push_success_prefix(&mut out);
    push_bool(&mut out, r.success);
    push_output_mid(&mut out);
    let body = str_to_chars(r.output.as_str());
    push_escaped(&mut out, &body);
    out.push('"');
    push_error_mid(&mut out);
    push_opt_str(&mut out, &r.error);
    push_ctype_mid(&mut out);
    push_ctype(&mut out, r.command_type);
    out.push('}');
    proof {
        assert(out@ =~= encode_result_spec(r@));
    }
    chars_to_string(&out)
}

pub open spec fn opt_chars_view(o: &Option<Vec<char>>) -> Option<Seq<char>> {
    match o {
        Some(v) => Some(v@),
        None => None,
    }
}

fn decode_result_tail(
    v: &Vec<char>,
    at: usize,
    success: bool,
    output: Vec<char>,
    error: Option<Vec<char>>,
) -> (r: Option<CommandResult>)
    requires
        at <= v@.len(),
    ensures
        match r {
            Some(c) => parse_result_tail(success, output@, opt_chars_view(&error), v@.skip(at as int))
                == Some(c@),
            None => parse_result_tail(success, output@, opt_chars_view(&error), v@.skip(at as int))
                is None,
        },
{
    proof {
        reveal_strlit(",\"command_type\":");
        reveal_strlit("\"Shell\"");
        reveal_strlit("\"Internal\"");
        assert(",\"command_type\":"@ =~= ctype_mid());
        assert("\"Shell\""@ =~= encode_ctype_spec(CommandType::Shell));
        assert("\"Internal\""@ =~= encode_ctype_spec(CommandType::Internal));
    }
    let n = v.len();
    let ghost w = v@.skip(at as int);
    if !match_lit_at(v, at, &str_to_chars(",\"command_type\":")) {
        return None;
    }
    proof {
        lemma_skip_skip(v@, at as int, 16);
    }
    let ghost y = v@.skip(at + 16);
    let command_type: CommandType;
    let ct_len: usize;
    if match_lit_at(v, at + 16, &str_to_chars("\"Shell\"")) {
        command_type = CommandType::Shell;
        ct_len = 7;
    } else if match_lit_at(v, at + 16, &str_to_chars("\"Internal\"")) {
        proof {
            assert(y.take(7) != encode_ctype_spec(CommandType::Shell));
        }
        command_type = CommandType::Internal;
        ct_len = 10;
    } else {
        return None;
    }
    proof {
        lemma_skip_skip(v@, at + 16, ct_len as int);
    }
    let close_at = at + 16 + ct_len;
    if close_at == n - 1 && v[close_at] == '}' {
        proof {
            assert(v@.skip(close_at as int) =~= seq!['}']);
        }
        Some(
            CommandResult {
                success,
                output: chars_to_string(&output),
                error: match &error {
                    Some(e) => Some(chars_to_string(e)),
                    None => None,
                },
                command_type,
            },
        )
    } else {
        proof {
            let rem = v@.skip(close_at as int);
            if close_at != v@.len() - 1 {
                assert(rem.len() != 1);
            } else {
                assert(rem[0] == v@[close_at as int]);
            }
            assert(rem != seq!['}']);
        }
        None
    }
}

fn decode_result_error(v: &Vec<char>, at: usize, success: bool, output: Vec<char>) -> (r: Option<
    CommandResult,
>)
    requires
        at <= v@.len(),
    ensures
        match r {
            Some(c) => parse_result_error(success, output@, v@.skip(at as int)) == Some(c@),
            None => parse_result_error(success, output@, v@.skip(at as int)) is None,
        },
{
    proof {
        reveal_strlit(",\"error\":");
        reveal_strlit("null");
        assert(",\"error\":"@ =~= error_mid());
        assert("null"@ =~= null_lit());
    }
    let n = v.len();
    let ghost w = v@.skip(at as int);
    if !match_lit_at(v, at, &str_to_chars(",\"error\":")) {
        return None;
    }
    proof {
        lemma_skip_skip(v@, at as int, 9);
    }
    let ghost x = v@.skip(at + 9);
    if match_lit_at(v, at + 9, &str_to_chars("null")) {
        proof {
            lemma_skip_skip(v@, at + 9, 4);
        }
        decode_result_tail(v, at + 9 + 4, success, output, None)
    } else if at + 9 < n && v[at + 9] == '"' {
        proof {
            assert(x[0] == v@[at + 9]);
            if x.len() >= 4 {
                assert(x.take(4)[0] == x[0]);
                assert(x.take(4) != null_lit());
            }
            lemma_skip_skip(v@, at + 9, 1);
        }
        match parse_string_at(v, at + 9 + 1) {
            Some((content, next)) => decode_result_tail(v, next, success, output, Some(content)),
            None => None,
        }
    } else {
        proof {
            if x.len() >= 4 {
                assert(x[0] == v@[at + 9]);
                assert(x.take(4)[0] == x[0]);
                assert(x.take(4) != null_lit());
            }
            if x.len() >= 1 {
                assert(x[0] == v@[at + 9]);
            }
        }
        None
    }
}

fn decode_result_vec(v: &Vec<char>) -> (r: Option<CommandResult>)
    ensures
        match r {
            Some(c) => spec_decode_result(v@) == Some(c@),
            None => spec_decode_result(v@) is None,
        },
{
    proof {
        reveal_strlit("{\"success\":");
        reveal_strlit("true");
        reveal_strlit("false");
        reveal_strlit(",\"output\":\"");
        assert("{\"success\":"@ =~= success_prefix());
        assert("true"@ =~= bool_lit(true));
        assert("false"@ =~= bool_lit(false));
        assert(",\"output\":\""@ =~= output_mid());
    }
    let n = v.len();
    if !match_lit_at(v, 0, &str_to_chars("{\"success\":")) {
        proof {
            assert(v@.skip(0) =~= v@);
            if v@.len() >= 11 {
                assert(v@.skip(0).take(11) == v@.take(11));
            }
        }
        return None;
    }
    proof {
        assert(v@.skip(0) =~= v@);
        assert(v@.skip(0).take(11) == v@.take(11));
    }
    let ghost w = v@.skip(11);
    let success: bool;
    let bool_len: usize;
    if match_lit_at(v, 11, &str_to_chars("true")) {
        success = true;
        bool_len = 4;
    } else if match_lit_at(v, 11, &str_to_chars("false")) {
        success = false;
        bool_len = 5;
    } else {
        return None;
    }
    proof {
        lemma_skip_skip(v@, 11, bool_len as int);
    }
    let out_at = 11 + bool_len;
    if !match_lit_at(v, out_at, &str_to_chars(",\"output\":\"")) {
        return None;
    }
    proof {
        lemma_skip_skip(v@, out_at as int, 11);
    }
    match parse_string_at(v, out_at + 11) {
        Some((content, next)) => decode_result_error(v, next, success, content),
        None => None,
    }
}

/// Decodes a command result from the bus; `None` on anything but a
/// canonical encoding.
pub fn decode_command_result(s: &str) -> (r: Option<CommandResult>)
    ensures
        match r {
            Some(c) => spec_decode_result(s@) == Some(c@),
            None => spec_decode_result(s@) is None,
        },
{
    let v = str_to_chars(s);
    decode_result_vec(&v)
}

#[verifier::rlimit(50)]
proof fn lemma_result_tail_rt(s: bool, o: Seq<char>, e: Option<Seq<char>>, t: CommandType)
    ensures
        parse_result_tail(s, o, e, ctype_mid() + encode_ctype_spec(t) + seq!['}']) == Some(
            CommandResultV { success: s, output: o, error: e, command_type: t },
        ),
{
    let w = ctype_mid() + encode_ctype_spec(t) + seq!['}'];
    assert(w.take(16) =~= ctype_mid());
    let y = w.skip(16);
    assert(y =~= encode_ctype_spec(t) + seq!['}']);
    match t {
        CommandType::Shell => {
            assert(y.take(7) =~= encode_ctype_spec(CommandType::Shell));
            assert(y.skip(7) =~= seq!['}']);
        },
        CommandType::Internal => {
            assert(y.take(7)[1] == 'I');
            assert(y.take(7) != encode_ctype_spec(CommandType::Shell));
            assert(y.take(10) =~= encode_ctype_spec(CommandType::Internal));
            assert(y.skip(10) =~= seq!['}']);
        },
    }
}

#[verifier::rlimit(100)]
proof fn lemma_result_error_rt(s: bool, o: Seq<char>, e: Option<Seq<char>>, t: CommandType)
    ensures
        parse_result_error(
            s,
            o,
            error_mid() + encode_opt_str_spec(e) + ctype_mid() + encode_ctype_spec(t) + seq!['}'],
        ) == Some(CommandResultV { success: s, output: o, error: e, command_type: t }),
{
    let tail = ctype_mid() + encode_ctype_spec(t) + seq!['}'];
    let w = error_mid() + encode_opt_str_spec(e) + tail;
    assert(error_mid() + encode_opt_str_spec(e) + ctype_mid() + encode_ctype_spec(t) + seq!['}']
        =~= w);
    assert(w.take(9) =~= error_mid());
    let x = w.skip(9);
    assert(x =~= encode_opt_str_spec(e) + tail);
    match e {
        None => {
            assert(x.take(4) =~= null_lit());
            assert(x.skip(4) =~= tail);
        },
        Some(es) => {
            assert(x[0] == '"');
            assert(x.take(4)[0] == '"');
            assert(x.take(4) != null_lit());
            assert(x.skip(1) =~= escape_seq(es) + seq!['"'] + tail);
            lemma_parse_escaped(es, tail, Seq::empty());
            assert(Seq::empty() + es =~= es);
        },
    }
    lemma_result_tail_rt(s, o, e, t);
}

/// Round-trip law: decoding an encoded result yields the result itself.
#[verifier::rlimit(100)]
pub proof fn lemma_result_round_trip(r: CommandResultV)
    ensures
        spec_decode_result(encode_result_spec(r)) == Some(r),
{
    let v = encode_result_spec(r);
    let after_str = error_mid() + encode_opt_str_spec(r.error) + ctype_mid() + encode_ctype_spec(
        r.command_type,
    ) + seq!['}'];
    let after_bool = output_mid() + escape_seq(r.output) + seq!['"'] + after_str;
    assert(v.take(11) =~= success_prefix());
    let w = v.skip(11);
    assert(w =~= bool_lit(r.success) + after_bool);
    if r.success {
        assert(w.take(4) =~= bool_lit(true));
        assert(w.skip(4) =~= after_bool);
    } else {
        assert(w.take(4)[0] == 'f');
        assert(w.take(4) != bool_lit(true));
        assert(w.take(5) =~= bool_lit(false));
        assert(w.skip(5) =~= after_bool);
    }
    assert(after_bool.take(11) =~= output_mid());
    assert(after_bool.skip(11) =~= escape_seq(r.output) + seq!['"'] + after_str);
    lemma_parse_escaped(r.output, after_str, Seq::empty());
    assert(Seq::empty() + r.output =~= r.output);
    lemma_result_error_rt(r.success, r.output, r.error, r.command_type);
    assert(spec_decode_result(v) == Some(CommandResultV {
        success: r.success,
        output: r.output,
        error: r.error,
        command_type: r.command_type,
    }));
    assert(CommandResultV {
        success: r.success,
        output: r.output,
        error: r.error,
        command_type: r.command_type,
    } == r);
}

// ---------------------------------------------------------------------------
// SystemInfo
// ---------------------------------------------------------------------------
/// The opening of a system-info object, up to and including the quote that
/// starts the hostname.
pub open spec fn hostname_prefix() -> Seq<char> {
    seq!['{', '"', 'h', 'o', 's', 't', 'n', 'a', 'm', 'e', '"', ':', '"']
}

pub open spec fn username_mid() -> Seq<char> {
    seq![',', '"', 'u', 's', 'e', 'r', 'n', 'a', 'm', 'e', '"', ':', '"']
}

pub open spec fn os_type_mid() -> Seq<char> {
    seq![',', '"', 'o', 's', '_', 't', 'y', 'p', 'e', '"', ':', '"']
}

pub open spec fn os_version_mid() -> Seq<char> {
    seq![',', '"', 'o', 's', '_', 'v', 'e', 'r', 's', 'i', 'o', 'n', '"', ':']
}

/// The canonical encoding of a system-info snapshot.
pub open spec fn encode_sysinfo_spec(i: SystemInfoV) -> Seq<char> {
    hostname_prefix() + escape_seq(i.hostname) + seq!['"'] + username_mid() + escape_seq(i.username)
        + seq!['"'] + os_type_mid() + escape_seq(i.os_type) + seq!['"'] + os_version_mid()
        + encode_opt_str_spec(i.os_version) + seq!['}']
}

pub open spec fn parse_sysinfo_version(
    hostname: Seq<char>,
    username: Seq<char>,
    os_type: Seq<char>,
    w: Seq<char>,
) -> Option<SystemInfoV> {
    if w.len() >= 14 && w.take(14) == os_version_mid() {
        let x = w.skip(14);
        if x.len() >= 4 && x.take(4) == null_lit() {
            if x.skip(4) == seq!['}'] {
                Some(SystemInfoV { hostname, username, os_type, os_version: None })
            } else {
                None
            }
        } else if x.len() >= 1 && x[0] == '"' {
            match parse_string_body(x.skip(1), Seq::empty()) {
                Some(p) => {
                    if p.1 == seq!['}'] {
                        Some(SystemInfoV { hostname, username, os_type, os_version: Some(p.0) })
                    } else {
                        None
                    }
                },
                None => None,
            }
        } else {
            None
        }
    } else {
        None
    }
}

pub open spec fn parse_sysinfo_os(hostname: Seq<char>, username: Seq<char>, w: Seq<char>) -> Option<
    SystemInfoV,
> {
    if w.len() >= 12 && w.take(12) == os_type_mid() {
        match parse_string_body(w.skip(12), Seq::empty()) {
            Some(p) => parse_sysinfo_version(hostname, username, p.0, p.1),
            None => None,
        }
    } else {
        None
    }
}

pub open spec fn parse_sysinfo_user(hostname: Seq<char>, w: Seq<char>) -> Option<SystemInfoV> {
    if w.len() >= 13 && w.take(13) == username_mid() {
        match parse_string_body(w.skip(13), Seq::empty()) {
            Some(p) => parse_sysinfo_os(hostname, p.0, p.1),
            None => None,
        }
    } else {
        None
    }
}

/// What the decoder accepts for a system-info snapshot: exactly the
/// canonical encodings.
pub open spec fn spec_decode_sysinfo(v: Seq<char>) -> Option<SystemInfoV> {
    if v.len() >= 13 && v.take(13) == hostname_prefix() {
        match parse_string_body(v.skip(13), Seq::empty()) {
            Some(p) => parse_sysinfo_user(p.0, p.1),
            None => None,
        }
    } else {
        None
    }
}

fn push_hostname_prefix(out: &mut Vec<char>)
    ensures
        final(out)@ == old(out)@ + hostname_prefix(),
{
    out.push('{');
    out.push('"');
    out.push('h');
    out.push('o');
    out.push('s');
    out.push('t');
    out.push('n');
    out.push('a');
    out.push('m');
    out.push('e');
    out.push('"');
    out.push(':');
    out.push('"');
    proof {
        assert(out@ =~= old(out)@ + hostname_prefix());
    }
}

fn push_username_mid(out: &mut Vec<char>)
    ensures
        final(out)@ == old(out)@ + username_mid(),
{
    out.push(',');
    out.push('"');
    out.push('u');
    out.push('s');
    out.push('e');
    out.push('r');
    out.push('n');
    out.push('a');
    out.push('m');
    out.push('e');
    out.push('"');
    out.push(':');
    out.push('"');
    proof {
        assert(out@ =~= old(out)@ + username_mid());
    }
}

fn push_os_type_mid(out: &mut Vec<char>)
    ensures
        final(out)@ == old(out)@ + os_type_mid(),
{
    out.push(',');
    out.push('"');
    out.push('o');
    out.push('s');
    out.push('_');
    out.push('t');
    out.push('y');
    out.push('p');
    out.push('e');
    out.push('"');
    out.push(':');
    out.push('"');
    proof {
        assert(out@ =~= old(out)@ + os_type_mid());
    }
}

fn push_os_version_mid(out: &mut Vec<char>)
    ensures
        final(out)@ == old(out)@ + os_version_mid(),
{
    out.push(',');
    out.push('"');
    out.push('o');
    out.push('s');
    out.push('_');
    out.push('v');
    out.push('e');
    out.push('r');
    out.push('s');
    out.push('i');
    out.push('o');
    out.push('n');
    out.push('"');
    out.push(':');
    proof {
        assert(out@ =~= old(out)@ + os_version_mid());
    }
}

/// Encodes a system-info snapshot for the bus.
pub fn encode_system_info(i: &SystemInfo) -> (s: String)
    ensures
        s@ == encode_sysinfo_spec(i@),
{
    let mut out: Vec<char> = Vec::new();
    push_hostname_prefix(&mut out);
    let hbody = str_to_chars(i.hostname.as_str());
    push_escaped(&mut out, &hbody);
    out.push('"');
    push_username_mid(&mut out);
    let ubody = str_to_chars(i.username.as_str());
    push_escaped(&mut out, &ubody);
    out.push('"');
    push_os_type_mid(&mut out);
    let obody = str_to_chars(i.os_type.as_str());
    push_escaped(&mut out, &obody);
    out.push('"');
    push_os_version_mid(&mut out);
    push_opt_str(&mut out, &i.os_version);
    out.push('}');
    proof {
        assert(out@ =~= encode_sysinfo_spec(i@));
    }
    chars_to_string(&out)
}

fn decode_sysinfo_version(
    v: &Vec<char>,
    at: usize,
    hostname: Vec<char>,
    username: Vec<char>,
    os_type: Vec<char>,
) -> (r: Option<SystemInfo>)
    requires
        at <= v@.len(),
    ensures
        match r {
            Some(c) => parse_sysinfo_version(hostname@, username@, os_type@, v@.skip(at as int))
                == Some(c@),
            None => parse_sysinfo_version(hostname@, username@, os_type@, v@.skip(at as int))
                is None,
        },
{
    proof {
        reveal_strlit(",\"os_version\":");
        reveal_strlit("null");
        assert(",\"os_version\":"@ =~= os_version_mid());
        assert("null"@ =~= null_lit());
    }
    let n = v.len();
    let ghost w = v@.skip(at as int);
    if !match_lit_at(v, at, &str_to_chars(",\"os_version\":")) {
        return None;
    }
    proof {
        lemma_skip_skip(v@, at as int, 14);
    }
    let ghost x = v@.skip(at + 14);
    if match_lit_at(v, at + 14, &str_to_chars("null")) {
        proof {
            lemma_skip_skip(v@, at + 14, 4);
        }
        let close_at = at + 14 + 4;
        if close_at == n - 1 && v[close_at] == '}' {
            proof {
                assert(v@.skip(close_at as int) =~= seq!['}']);
            }
            Some(
                SystemInfo {
                    hostname: chars_to_string(&hostname),
                    username: chars_to_string(&username),
                    os_type: chars_to_string(&os_type),
                    os_version: None,
                },
            )
        } else {
            proof {
                let rem = v@.skip(close_at as int);
                if close_at != v@.len() - 1 {
                    assert(rem.len() != 1);
                } else {
                    assert(rem[0] == v@[close_at as int]);
                }
                assert(rem != seq!['}']);
            }
            None
        }
    } else if at + 14 < n && v[at + 14] == '"' {
        proof {
            assert(x[0] == v@[at + 14]);
            if x.len() >= 4 {
                assert(x.take(4)[0] == x[0]);
                assert(x.take(4) != null_lit());
            }
            lemma_skip_skip(v@, at + 14, 1);
        }
        match parse_string_at(v, at + 14 + 1) {
            Some((content, next)) => {
                if next == n - 1 && v[next] == '}' {
                    proof {
                        assert(v@.skip(next as int) =~= seq!['}']);
                    }
                    Some(
                        SystemInfo {
                            hostname: chars_to_string(&hostname),
                            username: chars_to_string(&username),
                            os_type: chars_to_string(&os_type),
                            os_version: Some(chars_to_string(&content)),
                        },
                    )
                } else {
                    proof {
                        let rem = v@.skip(next as int);
                        if next != v@.len() - 1 {
                            assert(rem.len() != 1);
                        } else {
                            assert(rem[0] == v@[next as int]);
                        }
                        assert(rem != seq!['}']);
                    }
                    None
                }
            },
            None => None,
        }
    } else {
        proof {
            if x.len() >= 4 {
                assert(x[0] == v@[at + 14]);
                assert(x.take(4)[0] == x[0]);
                assert(x.take(4) != null_lit());
            }
            if x.len() >= 1 {
                assert(x[0] == v@[at + 14]);
            }
        }
        None
    }
}

fn decode_sysinfo_os(v: &Vec<char>, at: usize, hostname: Vec<char>, username: Vec<char>) -> (r:
    Option<SystemInfo>)
    requires
        at <= v@.len(),
    ensures
        match r {
            Some(c) => parse_sysinfo_os(hostname@, username@, v@.skip(at as int)) == Some(c@),
            None => parse_sysinfo_os(hostname@, username@, v@.skip(at as int)) is None,
        },
{
    proof {
        reveal_strlit(",\"os_type\":\"");
        assert(",\"os_type\":\""@ =~= os_type_mid());
    }
    let _n = v.len();
    if !match_lit_at(v, at, &str_to_chars(",\"os_type\":\"")) {
        return None;
    }
    proof {
        lemma_skip_skip(v@, at as int, 12);
    }
    match parse_string_at(v, at + 12) {
        Some((content, next)) => decode_sysinfo_version(v, next, hostname, username, content),
        None => None,
    }
}

fn decode_sysinfo_user(v: &Vec<char>, at: usize, hostname: Vec<char>) -> (r: Option<SystemInfo>)
    requires
        at <= v@.len(),
    ensures
        match r {
            Some(c) => parse_sysinfo_user(hostname@, v@.skip(at as int)) == Some(c@),
            None => parse_sysinfo_user(hostname@, v@.skip(at as int)) is None,
        },
{
    proof {
        reveal_strlit(",\"username\":\"");
        assert(",\"username\":\""@ =~= username_mid());
    }
    let _n = v.len();
    if !match_lit_at(v, at, &str_to_chars(",\"username\":\"")) {
        return None;
    }
    proof {
        lemma_skip_skip(v@, at as int, 13);
    }
    match parse_string_at(v, at + 13) {
        Some((content, next)) => decode_sysinfo_os(v, next, hostname, content),
        None => None,
    }
}

fn decode_sysinfo_vec(v: &Vec<char>) -> (r: Option<SystemInfo>)
    ensures
        match r {
            Some(c) => spec_decode_sysinfo(v@) == Some(c@),
            None => spec_decode_sysinfo(v@) is None,
        },
{
    proof {
        reveal_strlit("{\"hostname\":\"");
        assert("{\"hostname\":\""@ =~= hostname_prefix());
    }
    if !match_lit_at(v, 0, &str_to_chars("{\"hostname\":\"")) {
        proof {
            assert(v@.skip(0) =~= v@);
            if v@.len() >= 13 {
                assert(v@.skip(0).take(13) == v@.take(13));
            }
        }
        return None;
    }
    proof {
        assert(v@.skip(0) =~= v@);
        assert(v@.skip(0).take(13) == v@.take(13));
    }
    match parse_string_at(v, 13) {
        Some((content, next)) => decode_sysinfo_user(v, next, content),
        None => None,
    }
}

/// Decodes a system-info snapshot from the bus; `None` on anything but a
/// canonical encoding.
pub fn decode_system_info(s: &str) -> (r: Option<SystemInfo>)
    ensures
        match r {
            Some(c) => spec_decode_sysinfo(s@) == Some(c@),
            None => spec_decode_sysinfo(s@) is None,
        },
{
    let v = str_to_chars(s);
    decode_sysinfo_vec(&v)
}

#[verifier::rlimit(50)]
proof fn lemma_sysinfo_version_rt(i: SystemInfoV)
    ensures
        parse_sysinfo_version(
            i.hostname,
            i.username,
            i.os_type,
            os_version_mid() + encode_opt_str_spec(i.os_version) + seq!['}'],
        ) == Some(i),
{
    let w = os_version_mid() + encode_opt_str_spec(i.os_version) + seq!['}'];
    assert(w.take(14) =~= os_version_mid());
    let x = w.skip(14);
    assert(x =~= encode_opt_str_spec(i.os_version) + seq!['}']);
    match i.os_version {
        None => {
            assert(x.take(4) =~= null_lit());
            assert(x.skip(4) =~= seq!['}']);
        },
        Some(vs) => {
            assert(x[0] == '"');
            if x.len() >= 4 {
                assert(x.take(4)[0] == '"');
                assert(x.take(4) != null_lit());
            }
            assert(x.skip(1) =~= escape_seq(vs) + seq!['"'] + seq!['}']);
            lemma_parse_escaped(vs, seq!['}'], Seq::empty());
            assert(Seq::empty() + vs =~= vs);
        },
    }
}

#[verifier::rlimit(100)]
proof fn lemma_sysinfo_os_rt(i: SystemInfoV)
    ensures
        parse_sysinfo_os(
            i.hostname,
            i.username,
            os_type_mid() + escape_seq(i.os_type) + seq!['"'] + os_version_mid()
                + encode_opt_str_spec(i.os_version) + seq!['}'],
        ) == Some(i),
{
    let tail = os_version_mid() + encode_opt_str_spec(i.os_version) + seq!['}'];
    let w = os_type_mid() + escape_seq(i.os_type) + seq!['"'] + tail;
    assert(os_type_mid() + escape_seq(i.os_type) + seq!['"'] + os_version_mid()
        + encode_opt_str_spec(i.os_version) + seq!['}'] =~= w);
    assert(w.take(12) =~= os_type_mid());
    assert(w.skip(12) =~= escape_seq(i.os_type) + seq!['"'] + tail);
    lemma_parse_escaped(i.os_type, tail, Seq::empty());
    assert(Seq::empty() + i.os_type =~= i.os_type);
    lemma_sysinfo_version_rt(i);
}

/// Round-trip law: decoding an encoded system-info snapshot yields the
/// snapshot itself.
#[verifier::rlimit(100)]
pub proof fn lemma_sysinfo_round_trip(i: SystemInfoV)
    ensures
        spec_decode_sysinfo(encode_sysinfo_spec(i)) == Some(i),
{
    let v = encode_sysinfo_spec(i);
    let tail2 = os_type_mid() + escape_seq(i.os_type) + seq!['"'] + os_version_mid()
        + encode_opt_str_spec(i.os_version) + seq!['}'];
    let tail1 = username_mid() + escape_seq(i.username) + seq!['"'] + tail2;
    assert(v.take(13) =~= hostname_prefix());
    assert(v.skip(13) =~= escape_seq(i.hostname) + seq!['"'] + tail1);
    lemma_parse_escaped(i.hostname, tail1, Seq::empty());
    assert(Seq::empty() + i.hostname =~= i.hostname);
    assert(tail1.take(13) =~= username_mid());
    assert(tail1.skip(13) =~= escape_seq(i.username) + seq!['"'] + tail2);
    lemma_parse_escaped(i.username, tail2, Seq::empty());
    assert(Seq::empty() + i.username =~= i.username);
    lemma_sysinfo_os_rt(i);
    assert(spec_decode_sysinfo(v) == Some(SystemInfoV {
        hostname: i.hostname,
        username: i.username,
        os_type: i.os_type,
        os_version: i.os_version,
    }));
    assert(SystemInfoV {
        hostname: i.hostname,
        username: i.username,
        os_type: i.os_type,
        os_version: i.os_version,
    } == i);
}

} // verus!
