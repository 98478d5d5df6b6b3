//! Classification of what application a session runs and whether it is
//! active, for status records attached to session metadata.

use vstd::prelude::*;

use crate::text::{chars_to_string, str_chars};

verus! {

/// A structured status of a named application.
#[derive(Debug, Clone)]
pub struct SpecificStatus {
    pub app: String,
    pub status: String,
}

/// Activity classification of a session at one instant.
#[derive(Debug, Clone)]
pub struct ActivityState {
    pub is_active: bool,
    pub specific_status: Option<SpecificStatus>,
    pub last_activity_millis: i64,
    pub last_meaningful_output_millis: Option<i64>,
}

/// What lowercasing yields on a text; the result depends on the characters
/// alone.
pub uninterp spec fn lower_of(s: Seq<char>) -> Seq<char>;

/// Relies on `str::to_lowercase`: the lowercase form is a function of the
/// characters alone.
#[verifier::external_body]
fn lowercase_chars(s: &str) -> (r: Vec<char>)
    ensures
        r@ == lower_of(s@),
{
    s.to_lowercase().chars().collect()
}

/// Whether `needle` occurs contiguously inside `haystack`.
pub open spec fn contains_seq(haystack: Seq<char>, needle: Seq<char>) -> bool {
    exists|i: int|
        0 <= i && i + needle.len() <= haystack.len() && #[trigger] haystack.subrange(
            i,
            i + needle.len(),
        ) == needle
}

/// Decide whether `needle` occurs contiguously inside `haystack`.
fn contains_chars(haystack: &Vec<char>, needle: &Vec<char>) -> (r: bool)
    ensures
        r == contains_seq(haystack@, needle@),
{
    let n = needle.len();
    let h = haystack.len();
    if n > h {
        return false;
    }
    let last = h - n;
    let mut i: usize = 0;
    while i <= last
        invariant
            n == needle@.len(),
            h == haystack@.len(),
            n <= h <= usize::MAX,
            last == h - n,
            i <= last + 1,
            forall|x: int|
                0 <= x < i ==> #[trigger] haystack@.subrange(x, x + needle@.len()) != needle@,
        decreases last + 1 - i,
    {
        let mut j: usize = 0;
        while j < n && haystack[i + j] == needle[j]
            invariant
                n == needle@.len(),
                h == haystack@.len(),
                n <= h <= usize::MAX,
                i + n <= h,
                j <= n,
                forall|y: int| 0 <= y < j ==> haystack@[i + y] == needle@[y],
            decreases n - j,
        {
            j = j + 1;
        }
        if j == n {
            proof {
                assert(haystack@.subrange(i as int, i + needle@.len()) =~= needle@);
            }
            return true;
        }
        proof {
            assert(haystack@[i + j] != needle@[j as int]);
            assert(haystack@.subrange(i as int, i + needle@.len())[j as int] != needle@[
                j as int
            ]);
        }
        i = i + 1;
    }
    proof {
        assert forall|x: int|
            0 <= x && x + needle@.len() <= haystack@.len() implies #[trigger] haystack@.subrange(
            x,
            x + needle@.len(),
        ) != needle@ by {
            assert(x < i);
        }
    }
    false
}

/// The part of a path after its last slash; the whole text when it has no
/// slash.
pub open spec fn basename(s: Seq<char>) -> Seq<char>
    decreases s.len(),
    via basename_decreases
{
    if exists|i: int| 0 <= i < s.len() && s[i] == '/' {
        let f = choose|i: int| 0 <= i < s.len() && s[i] == '/' && forall|j: int|
            0 <= j < i ==> s[j] != '/';
        basename(s.skip(f + 1))
    } else {
        s
    }
}

#[via_fn]
proof fn basename_decreases(s: Seq<char>) {
    if exists|i: int| 0 <= i < s.len() && s[i] == '/' {
        lemma_first_slash(s);
    }
}

/// The first slash of a text with a slash is well defined.
proof fn lemma_first_slash(s: Seq<char>)
    requires
        exists|i: int| 0 <= i < s.len() && s[i] == '/',
    ensures
        ({
            let f = choose|i: int| 0 <= i < s.len() && s[i] == '/' && forall|j: int|
                0 <= j < i ==> s[j] != '/';
            &&& 0 <= f < s.len()
            &&& s[f] == '/'
            &&& forall|j: int| 0 <= j < f ==> s[j] != '/'
        }),
{
    let w = choose|i: int| 0 <= i < s.len() && s[i] == '/';
    lemma_first_slash_from(s, 0, w);
}

/// Below any slash position there is a first slash.
proof fn lemma_first_slash_from(s: Seq<char>, lo: int, w: int)
    requires
        0 <= lo <= w < s.len(),
        s[w] == '/',
        forall|j: int| 0 <= j < lo ==> s[j] != '/',
    ensures
        exists|i: int|
            0 <= i < s.len() && s[i] == '/' && (forall|j: int| 0 <= j < i ==> s[j] != '/'),
    decreases w - lo,
{
    if s[lo] == '/' {
        assert(0 <= lo < s.len() && s[lo] == '/' && (forall|j: int| 0 <= j < lo ==> s[j] != '/'));
    } else {
        lemma_first_slash_from(s, lo + 1, w);
    }
}

/// The basename of a text whose last slash stands at `k` is the part after
/// `k`.
#[verifier::rlimit(50)]
proof fn lemma_basename_after_last(s: Seq<char>, k: int)
    requires
        0 <= k < s.len(),
        s[k] == '/',
        forall|j: int| k < j < s.len() ==> s[j] != '/',
    ensures
        basename(s) == s.skip(k + 1),
    decreases s.len(),
{
    lemma_first_slash(s);
    let f = choose|i: int| 0 <= i < s.len() && s[i] == '/' && forall|j: int|
        0 <= j < i ==> s[j] != '/';
    assert(f <= k);
    if f == k {
        let rest = s.skip(k + 1);
        assert forall|i: int| 0 <= i < rest.len() implies rest[i] != '/' by {
            assert(rest[i] == s[k + 1 + i]);
        }
        lemma_basename_no_slash(rest);
    } else {
        let rest = s.skip(f + 1);
        assert(rest[k - f - 1] == s[k]);
        assert forall|j: int| k - f - 1 < j < rest.len() implies rest[j] != '/' by {
            assert(rest[j] == s[f + 1 + j]);
        }
        lemma_basename_after_last(rest, k - f - 1);
        assert(rest.skip(k - f) =~= s.skip(k + 1));
    }
}

/// A text without a slash is its own basename.
proof fn lemma_basename_no_slash(s: Seq<char>)
    requires
        forall|j: int| 0 <= j < s.len() ==> s[j] != '/',
    ensures
        basename(s) == s,
{
    assert(!(exists|i: int| 0 <= i < s.len() && s[i] == '/'));
}

/// The part of a path after its last slash.
fn basename_chars(s: &Vec<char>) -> (r: Vec<char>)
    ensures
        r@ == basename(s@),
{
    let mut k: usize = s.len();
    while k > 0
        invariant
            k <= s@.len(),
            forall|j: int| k <= j < s@.len() ==> s@[j] != '/',
        decreases k,
    {
        if s[k - 1] == '/' {
            let mut out: Vec<char> = Vec::new();
            let mut j = k;
            while j < s.len()
                invariant
                    k <= j <= s@.len(),
                    out@ =~= s@.subrange(k as int, j as int),
                decreases s@.len() - j,
            {
                out.push(s[j]);
                proof {
                    assert(s@.subrange(k as int, j + 1) =~= s@.subrange(k as int, j as int).push(
                        s@[j as int],
                    ));
                }
                j = j + 1;
            }
            proof {
                lemma_basename_after_last(s@, k - 1);
                assert(s@.subrange(k as int, s@.len() as int) =~= s@.skip(k as int));
            }
            return out;
        }
        k = k - 1;
    }
    proof {
        lemma_basename_no_slash(s@);
    }
    s.clone()
}

/// The application name a known tool inside the lowercased command denotes,
/// trying the tool names in one fixed order.
pub open spec fn spec_known_app(lower: Seq<char>) -> Option<Seq<char>> {
    if contains_seq(lower, "npm"@) {
        Some("npm"@)
    } else if contains_seq(lower, "yarn"@) {
        Some("yarn"@)
    } else if contains_seq(lower, "pnpm"@) {
        Some("pnpm"@)
    } else if contains_seq(lower, "cargo"@) {
        Some("cargo"@)
    } else if contains_seq(lower, "rustc"@) {
        Some("rust"@)
    } else if contains_seq(lower, "python"@) {
        Some("python"@)
    } else if contains_seq(lower, "node"@) {
        Some("node"@)
    } else if contains_seq(lower, "git"@) {
        Some("git"@)
    } else if contains_seq(lower, "docker"@) {
        Some("docker"@)
    } else if contains_seq(lower, "kubectl"@) {
        Some("kubernetes"@)
    } else if contains_seq(lower, "terraform"@) {
        Some("terraform"@)
    } else if contains_seq(lower, "ansible"@) {
        Some("ansible"@)
    } else if contains_seq(lower, "make"@) {
        Some("make"@)
    } else if contains_seq(lower, "gradle"@) {
        Some("gradle"@)
    } else if contains_seq(lower, "maven"@) {
        Some("maven"@)
    } else if contains_seq(lower, "dotnet"@) {
        Some("dotnet"@)
    } else if contains_seq(lower, "go"@) {
        Some("go"@)
    } else {
        None
    }
}

/// The application a command line denotes: `unknown` for an empty command
/// line; the assistant's name when any token of the command contains it
/// (case-insensitively); else the first known tool name inside the
/// lowercased command; else the command's base name.
pub open spec fn spec_detect_app(command: Seq<Seq<char>>, assistant: Seq<char>) -> Seq<char> {
    if command.len() == 0 {
        "unknown"@
    } else if assistant.len() > 0 && (exists|i: int|
        0 <= i < command.len() && contains_seq(lower_of(command[i]), assistant)) {
        assistant
    } else {
        match spec_known_app(lower_of(command[0])) {
            Some(app) => app,
            None => basename(command[0]),
        }
    }
}

/// Decide which application a command line denotes.  The assistant whose
/// sessions take precedence is named by the caller, in lowercase, and is
/// looked for in every token of the command line; when several known tool
/// names occur in one command, the first in the fixed scan order wins.
pub fn detect_app_from_command(command: &Vec<String>, assistant: &str) -> (r: String)
    ensures
        r@ == spec_detect_app(command@.map_values(|c: String| c@), assistant@),
{
    let ghost cmds = command@.map_values(|c: String| c@);
    if command.len() == 0 {
        return "unknown".to_owned();
    }
    let needle = str_chars(assistant);
    if needle.len() > 0 {
        let mut i: usize = 0;
        while i < command.len()
            invariant
                i <= command@.len(),
                cmds == command@.map_values(|c: String| c@),
                cmds.len() == command@.len(),
                forall|j: int| 0 <= j < cmds.len() ==> cmds[j] == command@[j]@,
                needle@ == assistant@,
                needle@.len() > 0,
                forall|j: int| 0 <= j < i ==> !contains_seq(lower_of(cmds[j]), assistant@),
            decreases command@.len() - i,
        {
            let token_lower = lowercase_chars(command[i].as_str());
            if contains_chars(&token_lower, &needle) {
                proof {
                    assert(cmds[i as int] == command@[i as int]@);
                    assert(contains_seq(lower_of(cmds[i as int]), assistant@));
                }
                return assistant.to_owned();
            }
            i = i + 1;
        }
    }
    proof {
        assert(cmds[0] == command@[0]@);
    }
    let cmd_lower = lowercase_chars(command[0].as_str());
    let npm = str_chars("npm");
    if contains_chars(&cmd_lower, &npm) {
        return "npm".to_owned();
    }
    let yarn = str_chars("yarn");
    if contains_chars(&cmd_lower, &yarn) {
        return "yarn".to_owned();
    }
    let pnpm = str_chars("pnpm");
    if contains_chars(&cmd_lower, &pnpm) {
        return "pnpm".to_owned();
    }
    let cargo = str_chars("cargo");
    if contains_chars(&cmd_lower, &cargo) {
        return "cargo".to_owned();
    }
    let rustc = str_chars("rustc");
    if contains_chars(&cmd_lower, &rustc) {
        return "rust".to_owned();
    }
    let python = str_chars("python");
    if contains_chars(&cmd_lower, &python) {
        return "python".to_owned();
    }
    let node = str_chars("node");
    if contains_chars(&cmd_lower, &node) {
        return "node".to_owned();
    }
    let git = str_chars("git");
    if contains_chars(&cmd_lower, &git) {
        return "git".to_owned();
    }
    let docker = str_chars("docker");
    if contains_chars(&cmd_lower, &docker) {
        return "docker".to_owned();
    }
    let kubectl = str_chars("kubectl");
    if contains_chars(&cmd_lower, &kubectl) {
        return "kubernetes".to_owned();
    }
    let terraform = str_chars("terraform");
    if contains_chars(&cmd_lower, &terraform) {
        return "terraform".to_owned();
    }
    let ansible = str_chars("ansible");
    if contains_chars(&cmd_lower, &ansible) {
        return "ansible".to_owned();
    }
    let make = str_chars("make");
    if contains_chars(&cmd_lower, &make) {
        return "make".to_owned();
    }
    let gradle = str_chars("gradle");
    if contains_chars(&cmd_lower, &gradle) {
        return "gradle".to_owned();
    }
    let maven = str_chars("maven");
    if contains_chars(&cmd_lower, &maven) {
        return "maven".to_owned();
    }
    let dotnet = str_chars("dotnet");
    if contains_chars(&cmd_lower, &dotnet) {
        return "dotnet".to_owned();
    }
    let go = str_chars("go");
    if contains_chars(&cmd_lower, &go) {
        return "go".to_owned();
    }
    let base = basename_chars(&str_chars(command[0].as_str()));
    chars_to_string(&base)
}

/// Classify a session's activity at one instant: it is active when a
/// specific status is known, or when meaningful output arrived within the
/// last thirty seconds.
pub fn activity_state(
    now_millis: i64,
    last_output_millis: i64,
    last_meaningful_output_millis: Option<i64>,
    specific_status: Option<SpecificStatus>,
) -> (r: ActivityState)
    ensures
        r.is_active == (specific_status is Some || (match last_meaningful_output_millis {
            Some(t) => now_millis - t < 30000,
            None => false,
        })),
        r.specific_status == specific_status,
        r.last_activity_millis == last_output_millis,
        r.last_meaningful_output_millis == last_meaningful_output_millis,
{
    let recent: bool = match last_meaningful_output_millis {
        Some(t) => (now_millis as i128) - (t as i128) < 30000,
        None => false,
    };
    ActivityState {
        is_active: specific_status.is_some() || recent,
        specific_status,
        last_activity_millis: last_output_millis,
        last_meaningful_output_millis,
    }
}

} // verus!
