//! The control-directory layout: where a session's metadata, socket and logs
//! live.  Path strings are computed here; the surrounding binary turns them
//! into filesystem paths.

use vstd::prelude::*;
use vstd::string::StringExecFns;

verus! {

/// The base of the control tree: the override directory when one is set,
/// else `<home>/.vibetunnel`, or nothing when no home is known.
pub open spec fn spec_base_dir(override_dir: Option<Seq<char>>, home: Option<Seq<char>>) -> Option<
    Seq<char>,
> {
    match override_dir {
        Some(d) => Some(d),
        None => match home {
            Some(h) => Some(h + "/.vibetunnel"@),
            None => None,
        },
    }
}

/// The base of the control tree.
pub fn base_dir(override_dir: &Option<String>, home: &Option<String>) -> (r: Option<String>)
    ensures
        match r {
            Some(d) => spec_base_dir(
                match *override_dir {
                    Some(ref o) => Some(o@),
                    None => None,
                },
                match *home {
                    Some(ref h) => Some(h@),
                    None => None,
                },
            ) == Some(d@),
            None => override_dir is None && home is None,
        },
{
    match override_dir {
        Some(d) => Some(d.clone()),
        None => match home {
            Some(h) => {
                let mut out = h.clone();
                out.append("/.vibetunnel");
                Some(out)
            },
            None => None,
        },
    }
}

/// The per-session control directory: `<base>/control/<sessionId>`.
pub open spec fn spec_control_dir(base: Seq<char>, session_id: Seq<char>) -> Seq<char> {
    base + "/control/"@ + session_id
}

/// The per-session control directory.
pub fn control_dir(base: &str, session_id: &str) -> (r: String)
    ensures
        r@ == spec_control_dir(base@, session_id@),
{
    let mut out = base.to_owned();
    out.append("/control/");
    out.append(session_id);
    out
}

/// The session's local stream socket: `<dir>/ipc.sock`.
pub fn socket_path(dir: &str) -> (r: String)
    ensures
        r@ == dir@ + "/ipc.sock"@,
{
    let mut out = dir.to_owned();
    out.append("/ipc.sock");
    out
}

/// The session's metadata file: `<dir>/session.json`.
pub fn session_json_path(dir: &str) -> (r: String)
    ensures
        r@ == dir@ + "/session.json"@,
{
    let mut out = dir.to_owned();
    out.append("/session.json");
    out
}

/// The append-only log of child output: `<dir>/stdout`.
pub fn stdout_path(dir: &str) -> (r: String)
    ensures
        r@ == dir@ + "/stdout"@,
{
    let mut out = dir.to_owned();
    out.append("/stdout");
    out
}

/// The append-only log of forwarded input: `<dir>/stdin`.
pub fn stdin_path(dir: &str) -> (r: String)
    ensures
        r@ == dir@ + "/stdin"@,
{
    let mut out = dir.to_owned();
    out.append("/stdin");
    out
}

} // verus!
