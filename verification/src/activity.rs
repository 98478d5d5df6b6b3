//! Stateless activity detection on raw terminal output.
//!
//! A chunk of output is lossily decoded to text, terminal control sequences
//! of the form `ESC '[' [0-9;]* <letter>` are stripped, and the first
//! occurrence of a work-in-progress indicator line
//! `<indicator> <action>… (<duration>s [· <dir?> <tokens>k? tokens · <…> to interrupt])`
//! is turned into a structured record.

use vstd::prelude::*;

use crate::errors::VtError;
use crate::text::{chars_to_string, lossy_chars, lossy_decode, str_chars};

verus! {

/// Whitespace inside an activity line: spaces and tabs.
pub open spec fn is_ws(c: char) -> bool {
    c == ' ' || c == '\t'
}

/// A decimal digit.
pub open spec fn is_digit(c: char) -> bool {
    48 <= c as u32 <= 57
}

/// A character of a token count: digits and dots.
pub open spec fn is_numtok(c: char) -> bool {
    is_digit(c) || c == '.'
}

/// A parameter character of a control sequence: digits and semicolons.
pub open spec fn is_ansi_param(c: char) -> bool {
    is_digit(c) || c == ';'
}

/// An ASCII letter, the final byte of a control sequence.
pub open spec fn is_ascii_letter(c: char) -> bool {
    (65 <= c as u32 <= 90) || (97 <= c as u32 <= 122)
}

/// A character that may stand in an action word: anything that is neither
/// whitespace nor the ellipsis that closes the action.
pub open spec fn is_action_char(c: char) -> bool {
    !is_ws(c) && c != '\u{2026}' && c != '\n' && c != '\r'
}

/// How many consecutive characters from position `i` satisfy `cls`.
pub open spec fn run_len(t: Seq<char>, i: int, cls: spec_fn(char) -> bool) -> nat
    decreases t.len() - i,
{
    if 0 <= i < t.len() && cls(t[i]) {
        1 + run_len(t, i + 1, cls)
    } else {
        0
    }
}

/// A run counted over a region whose characters all satisfy `cls` continues
/// past that region.
pub proof fn lemma_run_prefix(t: Seq<char>, i: int, j: int, cls: spec_fn(char) -> bool)
    requires
        0 <= i <= j <= t.len(),
        forall|k: int| i <= k < j ==> cls(t[k]),
    ensures
        run_len(t, i, cls) == (j - i) + run_len(t, j, cls),
    decreases j - i,
{
    if i < j {
        lemma_run_prefix(t, i + 1, j, cls);
    }
}

/// A run never reaches past the end of the text.
pub proof fn lemma_run_bound(t: Seq<char>, i: int, cls: spec_fn(char) -> bool)
    requires
        0 <= i <= t.len(),
    ensures
        0 <= run_len(t, i, cls),
        i + run_len(t, i, cls) <= t.len(),
        i + run_len(t, i, cls) == t.len() || !cls(t[i + run_len(t, i, cls)]),
        forall|k: int| i <= k < i + run_len(t, i, cls) ==> cls(t[k]),
    decreases t.len() - i,
{
    if i < t.len() && cls(t[i]) {
        lemma_run_bound(t, i + 1, cls);
    }
}

/// The length of the control sequence starting at position `i`, or zero when
/// none starts there.  A control sequence is `ESC '[' [0-9;]* <letter>`.
pub open spec fn csi_len_at(t: Seq<char>, i: int) -> int {
    if 0 <= i && i + 1 < t.len() && t[i] == '\u{1b}' && t[i + 1] == '[' {
        let p = run_len(t, i + 2, |c: char| is_ansi_param(c));
        if i + 2 + p < t.len() && is_ascii_letter(t[i + 2 + p]) {
            3 + p as int
        } else {
            0
        }
    } else {
        0
    }
}

/// A control sequence fits inside the text.
pub proof fn lemma_csi_len_bounds(t: Seq<char>, i: int)
    requires
        0 <= i <= t.len(),
        csi_len_at(t, i) > 0,
    ensures
        csi_len_at(t, i) >= 3,
        i + csi_len_at(t, i) <= t.len(),
{
    lemma_run_bound(t, i + 2, |c: char| is_ansi_param(c));
}

/// The text from position `i` on, with every control sequence removed.
pub open spec fn strip_ansi_from(t: Seq<char>, i: int) -> Seq<char>
    decreases t.len() - i, t.len() - i + 1,
    when 0 <= i <= t.len()
    via strip_ansi_from_decreases
{
    if i >= t.len() {
        Seq::<char>::empty()
    } else if csi_len_at(t, i) > 0 {
        strip_ansi_from(t, i + csi_len_at(t, i))
    } else {
        seq![t[i]] + strip_ansi_from(t, i + 1)
    }
}

#[via_fn]
proof fn strip_ansi_from_decreases(t: Seq<char>, i: int) {
    if i < t.len() && csi_len_at(t, i) > 0 {
        lemma_csi_len_bounds(t, i);
    }
}

/// The text with every control sequence removed.
pub open spec fn strip_ansi(t: Seq<char>) -> Seq<char> {
    strip_ansi_from(t, 0)
}

/// Decide whether a character is whitespace inside an activity line.
fn ws_char(c: char) -> (r: bool)
    ensures
        r == is_ws(c),
{
    c == ' ' || c == '\t'
}

/// Decide whether a character is a decimal digit.
fn digit_char(c: char) -> (r: bool)
    ensures
        r == is_digit(c),
{
    let u = c as u32;
    48 <= u && u <= 57
}

/// Decide whether a character may stand in a token count.
fn numtok_char(c: char) -> (r: bool)
    ensures
        r == is_numtok(c),
{
    digit_char(c) || c == '.'
}

/// Decide whether a character is an ASCII letter.
fn ascii_letter_char(c: char) -> (r: bool)
    ensures
        r == is_ascii_letter(c),
{
    let u = c as u32;
    (65 <= u && u <= 90) || (97 <= u && u <= 122)
}

/// Decide whether a character may stand in an action word.
fn action_char(c: char) -> (r: bool)
    ensures
        r == is_action_char(c),
{
    !ws_char(c) && c != '\u{2026}' && c != '\n' && c != '\r'
}

/// The first position at or after `i` whose character is not whitespace.
fn skip_ws(t: &Vec<char>, i: usize) -> (j: usize)
    requires
        i <= t@.len(),
    ensures
        j == i + run_len(t@, i as int, |c: char| is_ws(c)),
        i <= j <= t@.len(),
{
    let ghost cls = |c: char| is_ws(c);
    let mut j = i;
    while j < t.len() && ws_char(t[j])
        invariant
            i <= j <= t@.len(),
            forall|k: int| i <= k < j ==> is_ws(t@[k]),
        decreases t@.len() - j,
    {
        j = j + 1;
    }
    proof {
        lemma_run_prefix(t@, i as int, j as int, cls);
    }
    j
}

/// The first position at or after `i` whose character is not an action
/// character.
fn skip_action(t: &Vec<char>, i: usize) -> (j: usize)
    requires
        i <= t@.len(),
    ensures
        j == i + run_len(t@, i as int, |c: char| is_action_char(c)),
        i <= j <= t@.len(),
{
    let ghost cls = |c: char| is_action_char(c);
    let mut j = i;
    while j < t.len() && action_char(t[j])
        invariant
            i <= j <= t@.len(),
            forall|k: int| i <= k < j ==> is_action_char(t@[k]),
        decreases t@.len() - j,
    {
        j = j + 1;
    }
    proof {
        lemma_run_prefix(t@, i as int, j as int, cls);
    }
    j
}

/// The first position at or after `i` whose character is not a digit.
fn skip_digits(t: &Vec<char>, i: usize) -> (j: usize)
    requires
        i <= t@.len(),
    ensures
        j == i + run_len(t@, i as int, |c: char| is_digit(c)),
        i <= j <= t@.len(),
{
    let ghost cls = |c: char| is_digit(c);
    let mut j = i;
    while j < t.len() && digit_char(t[j])
        invariant
            i <= j <= t@.len(),
            forall|k: int| i <= k < j ==> is_digit(t@[k]),
        decreases t@.len() - j,
    {
        j = j + 1;
    }
    proof {
        lemma_run_prefix(t@, i as int, j as int, cls);
    }
    j
}

/// The first position at or after `i` whose character is not a token-count
/// character.
fn skip_numtok(t: &Vec<char>, i: usize) -> (j: usize)
    requires
        i <= t@.len(),
    ensures
        j == i + run_len(t@, i as int, |c: char| is_numtok(c)),
        i <= j <= t@.len(),
{
    let ghost cls = |c: char| is_numtok(c);
    let mut j = i;
    while j < t.len() && numtok_char(t[j])
        invariant
            i <= j <= t@.len(),
            forall|k: int| i <= k < j ==> is_numtok(t@[k]),
        decreases t@.len() - j,
    {
        j = j + 1;
    }
    proof {
        lemma_run_prefix(t@, i as int, j as int, cls);
    }
    j
}

/// The first position at or after `i` that holds a closing parenthesis.
fn skip_non_close(t: &Vec<char>, i: usize) -> (j: usize)
    requires
        i <= t@.len(),
    ensures
        j == i + run_len(t@, i as int, |c: char| c != ')'),
        i <= j <= t@.len(),
{
    let ghost cls = |c: char| c != ')';
    let mut j = i;
    while j < t.len() && t[j] != ')'
        invariant
            i <= j <= t@.len(),
            forall|k: int| i <= k < j ==> t@[k] != ')',
        decreases t@.len() - j,
    {
        j = j + 1;
    }
    proof {
        lemma_run_prefix(t@, i as int, j as int, cls);
    }
    j
}

/// Strip every control sequence out of the text.
pub fn strip_ansi_chars(t: &Vec<char>) -> (out: Vec<char>)
    ensures
        out@ == strip_ansi(t@),
{
    let mut out: Vec<char> = Vec::new();
    let mut i: usize = 0;
    while i < t.len()
        invariant
            i <= t@.len(),
            strip_ansi(t@) == out@ + strip_ansi_from(t@, i as int),
        decreases t@.len() - i,
    {
        let ghost params = |c: char| is_ansi_param(c);
        if t[i] == '\u{1b}' && i + 1 < t.len() && t[i + 1] == '[' {
            let mut j = i + 2;
            while j < t.len() && (digit_char(t[j]) || t[j] == ';')
                invariant
                    i + 2 <= j <= t@.len(),
                    forall|k: int| i + 2 <= k < j ==> is_ansi_param(t@[k]),
                decreases t@.len() - j,
            {
                j = j + 1;
            }
            proof {
                lemma_run_prefix(t@, i + 2, j as int, params);
            }
            if j < t.len() && ascii_letter_char(t[j]) {
                proof {
                    assert(csi_len_at(t@, i as int) == 3 + (j - i - 2));
                    assert(strip_ansi_from(t@, i as int) == strip_ansi_from(t@, j + 1));
                }
                i = j + 1;
            } else {
                proof {
                    assert(csi_len_at(t@, i as int) == 0);
                    assert(strip_ansi_from(t@, i as int) == seq![t@[i as int]] + strip_ansi_from(
                        t@,
                        i + 1,
                    ));
                }
                out.push(t[i]);
                i = i + 1;
            }
        } else {
            proof {
                assert(csi_len_at(t@, i as int) == 0);
                assert(strip_ansi_from(t@, i as int) == seq![t@[i as int]] + strip_ansi_from(
                    t@,
                    i + 1,
                ));
            }
            out.push(t[i]);
            i = i + 1;
        }
    }
    proof {
        assert(strip_ansi_from(t@, i as int) =~= Seq::<char>::empty());
        assert(out@ =~= strip_ansi(t@));
    }
    out
}

/// Where the action word starts: past the indicator and the whitespace run
/// behind it.
pub open spec fn sp_a_start(t: Seq<char>, p: int) -> int {
    p + 1 + run_len(t, p + 1, |c: char| is_ws(c))
}

/// Where the action word ends (exclusive).
pub open spec fn sp_a_end(t: Seq<char>, p: int) -> int {
    sp_a_start(t, p) + run_len(t, sp_a_start(t, p), |c: char| is_action_char(c))
}

/// Where the opening parenthesis stands: past the ellipsis and whitespace.
pub open spec fn sp_lp(t: Seq<char>, p: int) -> int {
    sp_a_end(t, p) + 1 + run_len(t, sp_a_end(t, p) + 1, |c: char| is_ws(c))
}

/// Where the duration digits start.
pub open spec fn sp_d_start(t: Seq<char>, p: int) -> int {
    sp_lp(t, p) + 1
}

/// Where the duration digits end (exclusive); the `s` follows here.
pub open spec fn sp_d_end(t: Seq<char>, p: int) -> int {
    sp_d_start(t, p) + run_len(t, sp_d_start(t, p), |c: char| is_digit(c))
}

/// A character that may open an activity line: anything but whitespace and
/// line breaks.
pub open spec fn is_indicator(c: char) -> bool {
    !is_ws(c) && c != '\n' && c != '\r'
}

/// The line shape shared by both forms: indicator, whitespace, action word,
/// ellipsis, optional whitespace, opening parenthesis, duration digits, `s`.
pub open spec fn header_ok(t: Seq<char>, p: int) -> bool {
    &&& 0 <= p < t.len()
    &&& is_indicator(t[p])
    &&& sp_a_start(t, p) > p + 1
    &&& sp_a_end(t, p) > sp_a_start(t, p)
    &&& sp_a_end(t, p) < t.len() && t[sp_a_end(t, p)] == '\u{2026}'
    &&& sp_lp(t, p) < t.len() && t[sp_lp(t, p)] == '('
    &&& sp_d_end(t, p) > sp_d_start(t, p)
    &&& sp_d_end(t, p) < t.len() && t[sp_d_end(t, p)] == 's'
}

/// The simple form: the closing parenthesis follows the `s` directly.
pub open spec fn simple_ok(t: Seq<char>, p: int) -> bool {
    &&& header_ok(t, p)
    &&& sp_d_end(t, p) + 1 < t.len() && t[sp_d_end(t, p) + 1] == ')'
}

/// Where the first separator dot of the extended segment stands.
pub open spec fn sp_dot1(t: Seq<char>, p: int) -> int {
    sp_d_end(t, p) + 1 + run_len(t, sp_d_end(t, p) + 1, |c: char| is_ws(c))
}

/// Where the direction mark or the token count starts.
pub open spec fn sp_q0(t: Seq<char>, p: int) -> int {
    sp_dot1(t, p) + 1 + run_len(t, sp_dot1(t, p) + 1, |c: char| is_ws(c))
}

/// Whether a direction mark stands before the token count.
pub open spec fn has_dir(t: Seq<char>, p: int) -> bool {
    sp_q0(t, p) < t.len() && !is_numtok(t[sp_q0(t, p)])
}

/// Where the token count starts.
pub open spec fn sp_tk_start(t: Seq<char>, p: int) -> int {
    if has_dir(t, p) {
        sp_q0(t, p) + 1 + run_len(t, sp_q0(t, p) + 1, |c: char| is_ws(c))
    } else {
        sp_q0(t, p)
    }
}

/// Where the token count ends (exclusive).
pub open spec fn sp_tk_end(t: Seq<char>, p: int) -> int {
    sp_tk_start(t, p) + run_len(t, sp_tk_start(t, p), |c: char| is_numtok(c))
}

/// Where the text continues past the token count's optional `k` suffix.
pub open spec fn sp_after_k(t: Seq<char>, p: int) -> int {
    if sp_tk_end(t, p) < t.len() && t[sp_tk_end(t, p)] == 'k' {
        sp_tk_end(t, p) + 1
    } else {
        sp_tk_end(t, p)
    }
}

/// Where the literal word `tokens` starts.
pub open spec fn sp_lit(t: Seq<char>, p: int) -> int {
    sp_after_k(t, p) + run_len(t, sp_after_k(t, p), |c: char| is_ws(c))
}

/// The literal word `tokens`.
pub open spec fn tokens_lit() -> Seq<char> {
    seq!['t', 'o', 'k', 'e', 'n', 's']
}

/// Where the second separator dot stands.
pub open spec fn sp_dot2(t: Seq<char>, p: int) -> int {
    sp_lit(t, p) + 6 + run_len(t, sp_lit(t, p) + 6, |c: char| is_ws(c))
}

/// Where the interrupt hint starts.
pub open spec fn sp_tail(t: Seq<char>, p: int) -> int {
    sp_dot2(t, p) + 1
}

/// Where the closing parenthesis stands.
pub open spec fn sp_close(t: Seq<char>, p: int) -> int {
    sp_tail(t, p) + run_len(t, sp_tail(t, p), |c: char| c != ')')
}

/// The literal tail `to interrupt`.
pub open spec fn interrupt_lit() -> Seq<char> {
    seq!['t', 'o', ' ', 'i', 'n', 't', 'e', 'r', 'r', 'u', 'p', 't']
}

/// The extended form: a separator dot, an optional direction mark, a token
/// count with an optional `k` suffix, the word `tokens`, a second separator
/// dot, and an interrupt hint ending in `to interrupt` before the closing
/// parenthesis.
pub open spec fn ext_ok(t: Seq<char>, p: int) -> bool {
    &&& header_ok(t, p)
    &&& sp_dot1(t, p) < t.len() && t[sp_dot1(t, p)] == '\u{b7}'
    &&& sp_tk_end(t, p) > sp_tk_start(t, p)
    &&& sp_lit(t, p) + 6 <= t.len() && t.subrange(sp_lit(t, p), sp_lit(t, p) + 6) == tokens_lit()
    &&& sp_dot2(t, p) < t.len() && t[sp_dot2(t, p)] == '\u{b7}'
    &&& sp_close(t, p) < t.len()
    &&& sp_close(t, p) - sp_tail(t, p) >= 13
    &&& t.subrange(sp_close(t, p) - 12, sp_close(t, p)) == interrupt_lit()
}

/// Whether an activity line starts at position `p`.
pub open spec fn match_at(t: Seq<char>, p: int) -> bool {
    simple_ok(t, p) || ext_ok(t, p)
}

/// The position just past the activity line starting at `p`.
pub open spec fn match_end(t: Seq<char>, p: int) -> int {
    if simple_ok(t, p) {
        sp_d_end(t, p) + 2
    } else {
        sp_close(t, p) + 1
    }
}

/// A match covers at least one character and stays inside the text.
pub proof fn lemma_match_end_bounds(t: Seq<char>, p: int)
    requires
        match_at(t, p),
    ensures
        p < match_end(t, p) <= t.len(),
{
}

/// The status of a match: the indicator, one space, the action word.
pub open spec fn status_at(t: Seq<char>, p: int) -> Seq<char> {
    seq![t[p], ' '] + t.subrange(sp_a_start(t, p), sp_a_end(t, p))
}

/// The details of a match: the duration digits and `s`; in the extended form
/// also a comma, a space, the direction mark when present, the token count
/// digits and `k`.
pub open spec fn details_at(t: Seq<char>, p: int) -> Seq<char> {
    if simple_ok(t, p) {
        t.subrange(sp_d_start(t, p), sp_d_end(t, p)).push('s')
    } else {
        t.subrange(sp_d_start(t, p), sp_d_end(t, p)) + seq!['s', ',', ' '] + (if has_dir(t, p) {
            seq![t[sp_q0(t, p)]]
        } else {
            Seq::<char>::empty()
        }) + t.subrange(sp_tk_start(t, p), sp_tk_end(t, p)) + seq!['k']
    }
}

/// The first position at or after `i` where an activity line starts.
pub open spec fn first_match_from(t: Seq<char>, i: int) -> Option<int>
    decreases t.len() - i,
    when 0 <= i <= t.len()
{
    if i >= t.len() {
        None
    } else if match_at(t, i) {
        Some(i)
    } else {
        first_match_from(t, i + 1)
    }
}

/// What detection yields on stripped text: the status and details of the
/// first activity line, when one is present.
pub open spec fn spec_detect(t: Seq<char>) -> Option<(Seq<char>, Seq<char>)> {
    match first_match_from(t, 0) {
        Some(p) => Some((status_at(t, p), details_at(t, p))),
        None => None,
    }
}

/// The text with every activity line removed, scanning from position `i`.
pub open spec fn filtered_from(t: Seq<char>, i: int) -> Seq<char>
    decreases t.len() - i,
    when 0 <= i <= t.len()
    via filtered_from_decreases
{
    if i >= t.len() {
        Seq::<char>::empty()
    } else if match_at(t, i) {
        filtered_from(t, match_end(t, i))
    } else {
        seq![t[i]] + filtered_from(t, i + 1)
    }
}

#[via_fn]
proof fn filtered_from_decreases(t: Seq<char>, i: int) {
    if i < t.len() && match_at(t, i) {
        lemma_match_end_bounds(t, i);
    }
}

/// The text with every activity line removed.
pub open spec fn spec_filtered(t: Seq<char>) -> Seq<char> {
    filtered_from(t, 0)
}

/// The concrete shape of one matched activity line.
struct MatchShape {
    simple: bool,
    a_from: usize,
    a_to: usize,
    d_from: usize,
    d_to: usize,
    dir: Option<char>,
    tk_from: usize,
    tk_to: usize,
    end: usize,
}

/// Try to match an activity line at position `p`.
fn try_match_at(t: &Vec<char>, p: usize) -> (r: Option<MatchShape>)
    requires
        p < t@.len(),
    ensures
        match r {
            Some(m) => ({
                &&& match_at(t@, p as int)
                &&& m.simple == simple_ok(t@, p as int)
                &&& m.a_from == sp_a_start(t@, p as int)
                &&& m.a_to == sp_a_end(t@, p as int)
                &&& m.d_from == sp_d_start(t@, p as int)
                &&& m.d_to == sp_d_end(t@, p as int)
                &&& m.end == match_end(t@, p as int)
                &&& (!m.simple ==> ({
                    &&& (m.dir is Some) == has_dir(t@, p as int)
                    &&& (m.dir matches Some(c) ==> c == t@[sp_q0(t@, p as int)])
                    &&& m.tk_from == sp_tk_start(t@, p as int)
                    &&& m.tk_to == sp_tk_end(t@, p as int)
                }))
            }),
            None => !match_at(t@, p as int),
        },
{
    let total = t.len();
    if !(action_char(t[p]) || t[p] == '\u{2026}') {
        return None;
    }
    let a_from = skip_ws(t, p + 1);
    if a_from == p + 1 {
        return None;
    }
    let a_to = skip_action(t, a_from);
    if a_to == a_from {
        return None;
    }
    if a_to >= t.len() || t[a_to] != '\u{2026}' {
        return None;
    }
    let lp = skip_ws(t, a_to + 1);
    if lp >= t.len() || t[lp] != '(' {
        return None;
    }
    let d_from = lp + 1;
    let d_to = skip_digits(t, d_from);
    if d_to == d_from {
        return None;
    }
    if d_to >= t.len() || t[d_to] != 's' {
        return None;
    }
    if d_to + 1 < t.len() && t[d_to + 1] == ')' {
        return Some(
            MatchShape {
                simple: true,
                a_from,
                a_to,
                d_from,
                d_to,
                dir: None,
                tk_from: 0,
                tk_to: 0,
                end: d_to + 2,
            },
        );
    }
    let dot1 = skip_ws(t, d_to + 1);
    if dot1 >= t.len() || t[dot1] != '\u{b7}' {
        return None;
    }
    let q0 = skip_ws(t, dot1 + 1);
    let (dir, tk_from): (Option<char>, usize) = if q0 < t.len() && !numtok_char(t[q0]) {
        (Some(t[q0]), skip_ws(t, q0 + 1))
    } else {
        (None, q0)
    };
    let tk_to = skip_numtok(t, tk_from);
    if tk_to == tk_from {
        return None;
    }
    let after_k = if tk_to < t.len() && t[tk_to] == 'k' {
        tk_to + 1
    } else {
        tk_to
    };
    let lit = skip_ws(t, after_k);
    if t.len() - lit < 6 {
        return None;
    }
    if !(t[lit] == 't' && t[lit + 1] == 'o' && t[lit + 2] == 'k' && t[lit + 3] == 'e' && t[lit + 4]
        == 'n' && t[lit + 5] == 's') {
        proof {
            assert(t@.subrange(sp_lit(t@, p as int), sp_lit(t@, p as int) + 6) != tokens_lit());
        }
        return None;
    }
    proof {
        assert(t@.subrange(lit as int, lit + 6) =~= tokens_lit());
    }
    let dot2 = skip_ws(t, lit + 6);
    if dot2 >= t.len() || t[dot2] != '\u{b7}' {
        return None;
    }
    let tail = dot2 + 1;
    let close = skip_non_close(t, tail);
    if close >= t.len() {
        return None;
    }
    if close - tail < 13 {
        return None;
    }
    let h = close - 12;
    if !(t[h] == 't' && t[h + 1] == 'o' && t[h + 2] == ' ' && t[h + 3] == 'i' && t[h + 4] == 'n'
        && t[h + 5] == 't' && t[h + 6] == 'e' && t[h + 7] == 'r' && t[h + 8] == 'r' && t[h + 9]
        == 'u' && t[h + 10] == 'p' && t[h + 11] == 't') {
        proof {
            assert(t@.subrange(sp_close(t@, p as int) - 12, sp_close(t@, p as int))
                != interrupt_lit());
        }
        return None;
    }
    proof {
        assert(t@.subrange(h as int, close as int) =~= interrupt_lit());
    }
    Some(
        MatchShape {
            simple: false,
            a_from,
            a_to,
            d_from,
            d_to,
            dir,
            tk_from,
            tk_to,
            end: close + 1,
        },
    )
}

/// Append the characters `from..to` of `t`.
fn push_char_range(out: &mut Vec<char>, t: &Vec<char>, from: usize, to: usize)
    requires
        from <= to <= t@.len(),
    ensures
        final(out)@ == old(out)@ + t@.subrange(from as int, to as int),
{
    let mut j = from;
    proof {
        assert(out@ =~= out@ + t@.subrange(from as int, from as int));
    }
    while j < to
        invariant
            from <= j <= to <= t@.len(),
            out@ == old(out)@ + t@.subrange(from as int, j as int),
        decreases to - j,
    {
        out.push(t[j]);
        proof {
            assert(t@.subrange(from as int, j + 1) =~= t@.subrange(from as int, j as int).push(
                t@[j as int],
            ));
            assert(out@ =~= old(out)@ + t@.subrange(from as int, j + 1));
        }
        j = j + 1;
    }
}

/// A structured record of what the child is currently doing.
#[derive(Debug, Clone, PartialEq, Eq)]
pub struct Activity {
    /// Wall-clock time of the detection, in milliseconds since the epoch.
    pub timestamp_millis: i64,
    /// The indicator and the action word, joined by one space.
    pub status: String,
    /// The duration, and the token count when one was given.
    pub details: Option<String>,
}

/// Relies on `chrono::Utc::now` / `timestamp_millis` for the current wall
/// time; nothing can be promised of a clock reading.
#[verifier::external_body]
fn now_millis() -> i64 {
    chrono::Utc::now().timestamp_millis()
}

/// Detect the first activity line in already-stripped text, stamping the
/// record with the given time.
pub fn detect_in_text(t: &Vec<char>, timestamp_millis: i64) -> (r: Option<Activity>)
    ensures
        match spec_detect(t@) {
            Some(sd) => ({
                &&& r matches Some(a)
                &&& a.timestamp_millis == timestamp_millis
                &&& a.status@ == sd.0
                &&& a.details matches Some(d) && d@ == sd.1
            }),
            None => r is None,
        },
{
    let mut p: usize = 0;
    while p < t.len()
        invariant
            p <= t@.len(),
            first_match_from(t@, 0) == first_match_from(t@, p as int),
        decreases t@.len() - p,
    {
        match try_match_at(t, p) {
            Some(m) => {
                let mut status: Vec<char> = Vec::new();
                status.push(t[p]);
                status.push(' ');
                push_char_range(&mut status, t, m.a_from, m.a_to);
                proof {
                    assert(status@ =~= status_at(t@, p as int));
                }
                let mut details: Vec<char> = Vec::new();
                push_char_range(&mut details, t, m.d_from, m.d_to);
                if m.simple {
                    details.push('s');
                    proof {
                        assert(details@ =~= details_at(t@, p as int));
                    }
                } else {
                    details.push('s');
                    details.push(',');
                    details.push(' ');
                    match m.dir {
                        Some(c) => details.push(c),
                        None => (),
                    }
                    push_char_range(&mut details, t, m.tk_from, m.tk_to);
                    details.push('k');
                    proof {
                        assert(details@ =~= details_at(t@, p as int));
                    }
                }
                return Some(
                    Activity {
                        timestamp_millis,
                        status: chars_to_string(&status),
                        details: Some(chars_to_string(&details)),
                    },
                );
            },
            None => (),
        }
        p = p + 1;
    }
    None
}

/// Remove every activity line from already-stripped text.
fn filter_in_text(t: &Vec<char>) -> (out: Vec<char>)
    ensures
        out@ == spec_filtered(t@),
{
    let mut out: Vec<char> = Vec::new();
    let mut p: usize = 0;
    while p < t.len()
        invariant
            p <= t@.len(),
            spec_filtered(t@) == out@ + filtered_from(t@, p as int),
        decreases t@.len() - p,
    {
        match try_match_at(t, p) {
            Some(m) => {
                proof {
                    lemma_match_end_bounds(t@, p as int);
                }
                p = m.end;
            },
            None => {
                out.push(t[p]);
                p = p + 1;
            },
        }
    }
    proof {
        assert(filtered_from(t@, p as int) =~= Seq::<char>::empty());
        assert(out@ =~= spec_filtered(t@));
    }
    out
}

/// Stateless detector of work-in-progress indicator lines.
pub struct ActivityDetector {}

impl ActivityDetector {
    /// A fresh detector; creation never fails.
    pub fn new() -> (r: Result<ActivityDetector, VtError>)
        ensures
            r is Ok,
    {
        Ok(ActivityDetector {  })
    }

    /// Detect the first activity line in a raw output chunk: the chunk is
    /// lossily decoded, control sequences are stripped, and the first
    /// matching line yields a record stamped with the current wall time.
    /// Invalid UTF-8 never fails: it decodes to replacement characters.
    pub fn detect(&self, data: &[u8]) -> (r: Option<Activity>)
        ensures
            match spec_detect(strip_ansi(lossy_decode(data@))) {
                Some(sd) => ({
                    &&& r matches Some(a)
                    &&& a.status@ == sd.0
                    &&& a.details matches Some(d) && d@ == sd.1
                }),
                None => r is None,
            },
    {
        let chars = lossy_chars(data);
        let stripped = strip_ansi_chars(&chars);
        detect_in_text(&stripped, now_millis())
    }

    /// Strip control sequences and remove every activity line.
    pub fn filter_status(&self, data: &str) -> (r: String)
        ensures
            r@ == spec_filtered(strip_ansi(data@)),
    {
        let chars = str_chars(data);
        let stripped = strip_ansi_chars(&chars);
        let out = filter_in_text(&stripped);
        chars_to_string(&out)
    }
}

/// Detection is a function of the chunk alone: the status and details of two
/// detections on equal text are equal, so repeated detection is stable up to
/// the timestamp.
pub proof fn lemma_detect_stable(t1: Seq<char>, t2: Seq<char>)
    requires
        t1 == t2,
    ensures
        spec_detect(t1) == spec_detect(t2),
{
}

} // verus!
