//! Decisions of the forwarder: title modes, argument parsing, the frames it
//! sends on the supervisor channel, and the frame it takes off the receive
//! buffer.  The forwarder's I/O loops live in the surrounding binary and call
//! down here for everything they decide or encode.

use vstd::prelude::*;
use vstd::string::StringExecFns;
use vstd::utf8::{encode_scalar, encode_utf8};

use crate::codec::{decode_message, encode_message, frame_bytes, MessageType};
use crate::commands::{
    json_escape_char, json_escaped_from, kill_command_payload, kill_command_text,
    resize_command_payload, resize_command_text, update_title_command_payload,
    update_title_command_text, dec_chars,
};
use crate::errors::VtError;
use crate::text::str_eq;
use vstd::slice::{slice_subrange, slice_to_vec};

verus! {

/// How the forwarder manages the terminal title; advisory, recorded in the
/// session metadata.
#[derive(Debug, Clone, Copy, PartialEq, Eq, Structural)]
pub enum TitleMode {
    /// Applications control their own titles.
    NoTitle,
    /// All title changes from applications are blocked.
    Filter,
    /// The title shows working directory and command.
    Static,
    /// The title shows directory, command and live activity.
    Dynamic,
}

/// The lowercase name of a title mode.
pub open spec fn spec_title_mode_label(m: TitleMode) -> Seq<char> {
    match m {
        TitleMode::NoTitle => "none"@,
        TitleMode::Filter => "filter"@,
        TitleMode::Static => "static"@,
        TitleMode::Dynamic => "dynamic"@,
    }
}

/// The title mode a name denotes; every unknown name denotes `None`.
pub open spec fn spec_title_mode_of(s: Seq<char>) -> TitleMode {
    if s == "none"@ {
        TitleMode::NoTitle
    } else if s == "filter"@ {
        TitleMode::Filter
    } else if s == "static"@ {
        TitleMode::Static
    } else if s == "dynamic"@ {
        TitleMode::Dynamic
    } else {
        TitleMode::NoTitle
    }
}

impl TitleMode {
    /// The lowercase name of this mode, as recorded in metadata.
    pub fn label(&self) -> (r: &'static str)
        ensures
            r@ == spec_title_mode_label(*self),
    {
        match self {
            TitleMode::NoTitle => "none",
            TitleMode::Filter => "filter",
            TitleMode::Static => "static",
            TitleMode::Dynamic => "dynamic",
        }
    }

    /// The mode a name denotes; unknown names fall back to `None`.
    pub fn lenient_parse(s: &str) -> (r: TitleMode)
        ensures
            r == spec_title_mode_of(s@),
    {
        if str_eq(s, "none") {
            TitleMode::NoTitle
        } else if str_eq(s, "filter") {
            TitleMode::Filter
        } else if str_eq(s, "static") {
            TitleMode::Static
        } else if str_eq(s, "dynamic") {
            TitleMode::Dynamic
        } else {
            TitleMode::NoTitle
        }
    }
}

impl core::str::FromStr for TitleMode {
    type Err = String;

    fn from_str(s: &str) -> Result<TitleMode, String> {
        if str_eq(s, "none") {
            Ok(TitleMode::NoTitle)
        } else if str_eq(s, "filter") {
            Ok(TitleMode::Filter)
        } else if str_eq(s, "static") {
            Ok(TitleMode::Static)
        } else if str_eq(s, "dynamic") {
            Ok(TitleMode::Dynamic)
        } else {
            let mut msg = "Invalid title mode: ".to_owned();
            msg.append(s);
            Err(msg)
        }
    }
}

/// What the supervisor answers when a session is created over its API.
#[derive(Debug, Clone)]
pub struct CreateSessionResponse {
    pub session_id: String,
    pub message: Option<String>,
}

/// One UTF-8 byte sequence is at most four bytes per character.
proof fn lemma_encode_utf8_len(chars: Seq<char>)
    ensures
        encode_utf8(chars).len() <= 4 * chars.len(),
    decreases chars.len(),
{
    if chars.len() > 0 {
        lemma_encode_utf8_len(chars.drop_first());
        assert(encode_scalar(chars[0] as u32).len() <= 4);
    }
}

/// A decimal rendering is never longer than the value plus one.
proof fn lemma_dec_chars_len(n: nat)
    ensures
        dec_chars(n).len() <= n + 1,
    decreases n,
{
    if n >= 10 {
        lemma_dec_chars_len(n / 10);
    }
}

/// A JSON escaping is at most six characters per character.
proof fn lemma_json_escaped_len(s: Seq<char>, i: int)
    requires
        0 <= i <= s.len(),
    ensures
        json_escaped_from(s, i).len() <= 6 * (s.len() - i),
    decreases s.len() - i,
{
    if i < s.len() {
        lemma_json_escaped_len(s, i + 1);
        assert(json_escape_char(s[i]).len() <= 6);
    }
}

/// The frame that forwards one chunk of user input to the supervisor.
pub fn stdin_frame(data: &[u8]) -> (r: Vec<u8>)
    requires
        data@.len() <= 0xFFFF_FFFF,
    ensures
        r@ == frame_bytes(MessageType::StdinData, data@),
{
    encode_message(MessageType::StdinData, data)
}

/// The frame that mirrors one chunk of child output to the supervisor.
pub fn stdout_frame(data: &[u8]) -> (r: Vec<u8>)
    requires
        data@.len() <= 0xFFFF_FFFF,
    ensures
        r@ == frame_bytes(MessageType::StdoutData, data@),
{
    encode_message(MessageType::StdoutData, data)
}

/// The frame that tells the supervisor about a window-size change.
pub fn resize_frame(cols: u16, rows: u16) -> (r: Vec<u8>)
    ensures
        r@ == frame_bytes(MessageType::ControlCmd, encode_utf8(resize_command_text(cols, rows))),
{
    let payload = resize_command_payload(cols, rows);
    proof {
        reveal_strlit("{\"cmd\":\"resize\",\"cols\":");
        reveal_strlit(",\"rows\":");
        reveal_strlit("}");
        lemma_encode_utf8_len(resize_command_text(cols, rows));
        lemma_dec_chars_len(cols as nat);
        lemma_dec_chars_len(rows as nat);
    }
    encode_message(MessageType::ControlCmd, payload.as_slice())
}

/// The frame that asks the supervisor to retitle the session.
pub fn update_title_frame(title: &str) -> (r: Vec<u8>)
    requires
        title@.len() <= 0xFF_FFFF,
    ensures
        r@ == frame_bytes(
            MessageType::ControlCmd,
            encode_utf8(update_title_command_text(title@)),
        ),
{
    let payload = update_title_command_payload(title);
    proof {
        reveal_strlit("{\"cmd\":\"update-title\",\"title\":\"");
        reveal_strlit("\"}");
        lemma_encode_utf8_len(update_title_command_text(title@));
        lemma_json_escaped_len(title@, 0);
    }
    encode_message(MessageType::ControlCmd, payload.as_slice())
}

/// The frame that asks the supervisor to deliver a signal.
pub fn kill_frame(signal: &Option<String>) -> (r: Vec<u8>)
    requires
        match *signal {
            Some(ref s) => s@.len() <= 0xFF_FFFF,
            None => true,
        },
    ensures
        r@ == frame_bytes(MessageType::ControlCmd, encode_utf8(kill_command_text(match *signal {
            Some(ref s) => Some(s@),
            None => None,
        }))),
{
    let payload = kill_command_payload(signal);
    proof {
        reveal_strlit("{\"cmd\":\"kill\",\"signal\":\"");
        reveal_strlit("{\"cmd\":\"kill\"}");
        reveal_strlit("\"}");
        match *signal {
            Some(ref s) => {
                lemma_encode_utf8_len(kill_command_text(Some(s@)));
                lemma_json_escaped_len(s@, 0);
            },
            None => {
                lemma_encode_utf8_len(kill_command_text(None));
            },
        }
    }
    encode_message(MessageType::ControlCmd, payload.as_slice())
}

/// Take one frame off the front of the receive buffer: nothing when the
/// buffer holds no complete frame yet, `BadMessageType` (leaving the buffer
/// as it was, for the channel to close on) when the type byte is malformed,
/// and otherwise the frame, with exactly its bytes consumed.
pub fn take_frame(buffer: &mut Vec<u8>) -> (r: Result<Option<(MessageType, Vec<u8>)>, VtError>)
    ensures
        match r {
            Ok(opt) => match opt {
                Some(frame) => ({
                    let data = old(buffer)@;
                    &&& data.len() >= 5
                    &&& crate::codec::valid_type_code(data[0])
                    &&& frame.0 == crate::codec::spec_type_of_code(data[0])
                    &&& frame.1@ == data.subrange(5, 5 + crate::codec::be32(data.subrange(1, 5)))
                    &&& final(buffer)@ == data.skip(5 + crate::codec::be32(data.subrange(1, 5)))
                }),
                None => crate::codec::spec_needs_more(old(buffer)@) && final(buffer)@ == old(
                    buffer,
                )@,
            },
            Err(e) => ({
                &&& e == VtError::BadMessageType(old(buffer)@[0])
                &&& old(buffer)@.len() >= 5
                &&& !crate::codec::valid_type_code(old(buffer)@[0])
                &&& final(buffer)@ == old(buffer)@
            }),
        },
{
    let decoded = decode_message(buffer.as_slice());
    match decoded {
        Ok(Some((msg_type, payload, consumed))) => {
            let rest = slice_to_vec(slice_subrange(buffer.as_slice(), consumed, buffer.len()));
            *buffer = rest;
            proof {
                assert(final(buffer)@ =~= old(buffer)@.skip(
                    5 + crate::codec::be32(old(buffer)@.subrange(1, 5)),
                ));
            }
            Ok(Some((msg_type, payload)))
        },
        Ok(None) => Ok(None),
        Err(e) => Err(e),
    }
}

/// Options and command picked out of a raw argument list.
pub struct ForwardArgs {
    /// An adopted session id, when `--session-id` was given.
    pub session_id: Option<String>,
    /// The title mode, `None` unless `--title-mode` named another.
    pub title_mode: TitleMode,
    /// The command and its arguments, from the first non-option on.
    pub command: Vec<String>,
}

/// One step of scanning the argument list from position `i`: `--session-id`
/// and `--title-mode` take a value, other `--` options are skipped, and the
/// first remaining word starts the command.
pub open spec fn spec_scan_args(
    args: Seq<Seq<char>>,
    i: int,
    sid: Option<Seq<char>>,
    mode: TitleMode,
) -> (Option<Seq<char>>, TitleMode, Seq<Seq<char>>)
    decreases args.len() - i,
    when 0 <= i <= args.len()
{
    if i >= args.len() {
        (sid, mode, Seq::<Seq<char>>::empty())
    } else if args[i] == "--session-id"@ && i + 1 < args.len() {
        spec_scan_args(args, i + 2, Some(args[i + 1]), mode)
    } else if args[i] == "--title-mode"@ && i + 1 < args.len() {
        spec_scan_args(args, i + 2, sid, spec_title_mode_of(args[i + 1]))
    } else if args[i].len() >= 2 && args[i][0] == '-' && args[i][1] == '-' {
        spec_scan_args(args, i + 1, sid, mode)
    } else {
        (sid, mode, args.skip(i))
    }
}

/// The views of a list of strings.
pub open spec fn views_of(args: Seq<String>) -> Seq<Seq<char>> {
    args.map_values(|a: String| a@)
}

/// Whether an argument starts with two dashes.
fn is_option_like(arg: &str) -> (r: bool)
    ensures
        r == (arg@.len() >= 2 && arg@[0] == '-' && arg@[1] == '-'),
{
    let chars = crate::text::str_chars(arg);
    chars.len() >= 2 && chars[0] == '-' && chars[1] == '-'
}

/// Pick `--session-id`, `--title-mode` and the command out of a raw argument
/// list, as the forwarder's command line allows options before the command.
/// Position 0 holds the program name and is skipped.
pub fn parse_forward_args(args: &Vec<String>) -> (r: ForwardArgs)
    requires
        args@.len() >= 1,
    ensures
        ({
            let scanned = spec_scan_args(views_of(args@), 1, None, TitleMode::NoTitle);
            &&& (match r.session_id {
                Some(s) => scanned.0 == Some(s@),
                None => scanned.0 is None,
            })
            &&& r.title_mode == scanned.1
            &&& views_of(r.command@) == scanned.2
        }),
{
    let ghost argv = views_of(args@);
    let mut sid: Option<String> = None;
    let mut mode: TitleMode = TitleMode::NoTitle;
    let mut i: usize = 1;
    while i < args.len()
        invariant
            1 <= i <= args@.len(),
            argv == views_of(args@),
            argv.len() == args@.len(),
            forall|j: int| 0 <= j < argv.len() ==> argv[j] == args@[j]@,
            spec_scan_args(argv, 1, None, TitleMode::NoTitle) == spec_scan_args(
                argv,
                i as int,
                match sid {
                    Some(ref s) => Some(s@),
                    None => None,
                },
                mode,
            ),
        decreases args@.len() - i,
    {
        if str_eq(args[i].as_str(), "--session-id") && i + 1 < args.len() {
            sid = Some(args[i + 1].clone());
            i = i + 2;
        } else if str_eq(args[i].as_str(), "--title-mode") && i + 1 < args.len() {
            mode = TitleMode::lenient_parse(args[i + 1].as_str());
            i = i + 2;
        } else if is_option_like(args[i].as_str()) {
            i = i + 1;
        } else {
            let mut command: Vec<String> = Vec::new();
            let mut j = i;
            while j < args.len()
                invariant
                    i <= j <= args@.len(),
                    argv == views_of(args@),
                    argv.len() == args@.len(),
                    forall|k: int| 0 <= k < argv.len() ==> argv[k] == args@[k]@,
                    views_of(command@) =~= argv.subrange(i as int, j as int),
                decreases args@.len() - j,
            {
                let ghost pre = command@;
                let cloned = args[j].clone();
                proof {
                    assert(cloned@ == args@[j as int]@);
                    assert(cloned@ == argv[j as int]);
                }
                command.push(cloned);
                proof {
                    assert(command@ == pre.push(cloned));
                    assert(views_of(pre) == argv.subrange(i as int, j as int));
                    assert(views_of(pre).len() == pre.len());
                    assert(pre.len() == j - i);
                    assert(views_of(command@).len() == pre.len() + 1);
                    assert forall|k: int| 0 <= k < command@.len() implies views_of(command@)[k]
                        == argv.subrange(i as int, j + 1)[k] by {
                        assert(views_of(command@)[k] == command@[k]@);
                        if k < pre.len() {
                            assert(command@[k] == pre[k]);
                            assert(views_of(pre)[k] == pre[k]@);
                            assert(views_of(pre)[k] == argv.subrange(i as int, j as int)[k]);
                            assert(argv.subrange(i as int, j as int)[k] == argv[i + k]);
                            assert(argv.subrange(i as int, j + 1)[k] == argv[i + k]);
                        } else {
                            assert(command@[k] == cloned);
                            assert(argv.subrange(i as int, j + 1)[k] == argv[j as int]);
                        }
                    }
                    assert(views_of(command@) =~= argv.subrange(i as int, j + 1));
                }
                j = j + 1;
            }
            proof {
                assert(argv.subrange(i as int, argv.len() as int) =~= argv.skip(i as int));
            }
            return ForwardArgs { session_id: sid, title_mode: mode, command };
        }
    }
    proof {
        assert(spec_scan_args(argv, i as int, match sid {
            Some(ref s) => Some(s@),
            None => None,
        }, mode).2 =~= Seq::<Seq<char>>::empty());
        assert(views_of(Seq::<String>::empty()) =~= Seq::<Seq<char>>::empty());
    }
    ForwardArgs { session_id: sid, title_mode: mode, command: Vec::new() }
}

/// What a forwarder invocation has to do.
pub enum FwdPlan {
    /// Connect to the named session's socket, send one update-title command,
    /// and exit.
    UpdateTitle { session_id: String, title: String },
    /// `--update-title` was given without `--session-id`: a setup failure.
    MissingSessionId,
    /// No command was given and no shell could stand in: a setup failure.
    NoCommand,
    /// Run the command under a fresh PTY session.
    Run,
}

/// Decide what an invocation does: a title update needs a session id and
/// takes precedence; otherwise an empty command is a setup failure and
/// anything else runs.
pub fn plan_forward(update_title: Option<String>, session_id: Option<String>, command_len: usize)
    -> (r: FwdPlan)
    ensures
        match r {
            FwdPlan::UpdateTitle { session_id: s, title: t } => ({
                &&& update_title matches Some(ut) && t == ut
                &&& session_id matches Some(si) && s == si
            }),
            FwdPlan::MissingSessionId => update_title is Some && session_id is None,
            FwdPlan::NoCommand => update_title is None && command_len == 0,
            FwdPlan::Run => update_title is None && command_len > 0,
        },
{
    match update_title {
        Some(title) => match session_id {
            Some(sid) => FwdPlan::UpdateTitle { session_id: sid, title },
            None => FwdPlan::MissingSessionId,
        },
        None => {
            if command_len == 0 {
                FwdPlan::NoCommand
            } else {
                FwdPlan::Run
            }
        },
    }
}

/// The terminal-related environment handed to the child: `TERM` always
/// (defaulting to `xterm-256color`), and each colour variable when set.
pub open spec fn spec_term_environment(
    term: Option<Seq<char>>,
    colorterm: Option<Seq<char>>,
    term_program: Option<Seq<char>>,
    term_program_version: Option<Seq<char>>,
) -> Seq<(Seq<char>, Seq<char>)> {
    seq![
        (
            "TERM"@,
            match term {
                Some(t) => t,
                None => "xterm-256color"@,
            },
        ),
    ] + (match colorterm {
        Some(v) => seq![("COLORTERM"@, v)],
        None => Seq::<(Seq<char>, Seq<char>)>::empty(),
    }) + (match term_program {
        Some(v) => seq![("TERM_PROGRAM"@, v)],
        None => Seq::<(Seq<char>, Seq<char>)>::empty(),
    }) + (match term_program_version {
        Some(v) => seq![("TERM_PROGRAM_VERSION"@, v)],
        None => Seq::<(Seq<char>, Seq<char>)>::empty(),
    })
}

/// The views of an environment list.
pub open spec fn env_views(env: Seq<(String, String)>) -> Seq<(Seq<char>, Seq<char>)> {
    env.map_values(|e: (String, String)| (e.0@, e.1@))
}

/// Build the terminal-related environment for the child from what the caller
/// read out of its own environment.
pub fn term_environment(
    term: Option<String>,
    colorterm: Option<String>,
    term_program: Option<String>,
    term_program_version: Option<String>,
) -> (r: Vec<(String, String)>)
    ensures
        env_views(r@) == spec_term_environment(
            match term {
                Some(ref t) => Some(t@),
                None => None,
            },
            match colorterm {
                Some(ref v) => Some(v@),
                None => None,
            },
            match term_program {
                Some(ref v) => Some(v@),
                None => None,
            },
            match term_program_version {
                Some(ref v) => Some(v@),
                None => None,
            },
        ),
{
    let ghost expected = spec_term_environment(
        match term {
            Some(ref t) => Some(t@),
            None => None,
        },
        match colorterm {
            Some(ref v) => Some(v@),
            None => None,
        },
        match term_program {
            Some(ref v) => Some(v@),
            None => None,
        },
        match term_program_version {
            Some(ref v) => Some(v@),
            None => None,
        },
    );
    let mut env: Vec<(String, String)> = Vec::new();
    let term_value: String = match term {
        Some(t) => t,
        None => "xterm-256color".to_owned(),
    };
    env.push(("TERM".to_owned(), term_value));
    match colorterm {
        Some(v) => env.push(("COLORTERM".to_owned(), v)),
        None => (),
    }
    match term_program {
        Some(v) => env.push(("TERM_PROGRAM".to_owned(), v)),
        None => (),
    }
    match term_program_version {
        Some(v) => env.push(("TERM_PROGRAM_VERSION".to_owned(), v)),
        None => (),
    }
    proof {
        assert(env_views(env@) =~= expected);
    }
    env
}

} // verus!
