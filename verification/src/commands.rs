//! Control-command payloads of the supervisor channel.
//!
//! A `ControlCmd` frame carries a UTF-8 JSON object.  Three commands exist:
//! resize, update-title and kill.  Keys appear in alphabetical order and
//! strings are escaped as JSON requires.

use vstd::prelude::*;
use vstd::utf8::encode_utf8;

use crate::ids::hex_char;
use crate::text::{chars_to_string, str_chars};

verus! {

/// The decimal rendering of `n`, most significant digit first, no leading
/// zeros (a single zero for zero).
pub open spec fn dec_chars(n: nat) -> Seq<char>
    decreases n,
{
    if n < 10 {
        seq![hex_char(n as int)]
    } else {
        dec_chars(n / 10).push(hex_char((n % 10) as int))
    }
}

/// The decimal digits of a value, as characters.
pub fn u64_dec_chars(n: u64) -> (v: Vec<char>)
    ensures
        v@ == dec_chars(n as nat),
{
    let mut low: Vec<char> = Vec::new();
    let d: u8 = (n % 10) as u8;
    low.push(dec_digit_of(d));
    let mut rest: u64 = n / 10;
    proof {
        if n < 10 {
            assert(n % 10 == n);
            assert(low@.reverse() =~= dec_chars(n as nat));
        } else {
            assert(dec_chars(n as nat) == dec_chars((n / 10) as nat).push(
                hex_char((n % 10) as int),
            ));
            assert(dec_chars(n as nat) =~= dec_chars(rest as nat) + low@.reverse());
        }
    }
    while rest > 0
        invariant
            rest > 0 ==> dec_chars(n as nat) =~= dec_chars(rest as nat) + low@.reverse(),
            rest == 0 ==> dec_chars(n as nat) =~= low@.reverse(),
            low@.len() >= 1,
        decreases rest,
    {
        let d: u8 = (rest % 10) as u8;
        let ghost oldlow = low@;
        let ghost oldrest = rest;
        low.push(dec_digit_of(d));
        rest = rest / 10;
        proof {
            assert(oldlow.push(hex_char(d as int)).reverse() =~= seq![hex_char(d as int)]
                + oldlow.reverse());
            if oldrest < 10 {
                assert(oldrest % 10 == oldrest);
                assert(dec_chars(oldrest as nat) == seq![hex_char(oldrest as int)]);
                assert(dec_chars(n as nat) =~= low@.reverse());
            } else {
                assert(dec_chars(oldrest as nat) == dec_chars((oldrest / 10) as nat).push(
                    hex_char((oldrest % 10) as int),
                ));
                assert(dec_chars(n as nat) =~= dec_chars(rest as nat) + low@.reverse());
            }
        }
    }
    let mut out: Vec<char> = Vec::new();
    let total = low.len();
    let mut k: usize = 0;
    while k < total
        invariant
            k <= total == low@.len(),
            out@ =~= low@.reverse().subrange(0, k as int),
        decreases total - k,
    {
        out.push(low[total - 1 - k]);
        proof {
            assert(low@.reverse()[k as int] == low@[total - 1 - k as int]);
            assert(low@.reverse().subrange(0, k + 1) =~= low@.reverse().subrange(0, k as int).push(
                low@.reverse()[k as int],
            ));
        }
        k = k + 1;
    }
    proof {
        assert(out@ =~= low@.reverse());
    }
    out
}

/// The decimal digit character for a value below 10.
fn dec_digit_of(d: u8) -> (c: char)
    requires
        d < 10,
    ensures
        c == hex_char(d as int),
{
    match d {
        0 => '0',
        1 => '1',
        2 => '2',
        3 => '3',
        4 => '4',
        5 => '5',
        6 => '6',
        7 => '7',
        8 => '8',
        _ => '9',
    }
}

/// How one character stands inside a JSON string: quotes and backslashes are
/// escaped, the named control characters take their short escapes, the other
/// control characters a `\u00XX` escape, and everything else itself.
pub open spec fn json_escape_char(c: char) -> Seq<char> {
    if c == '"' {
        seq!['\\', '"']
    } else if c == '\\' {
        seq!['\\', '\\']
    } else if c == '\u{8}' {
        seq!['\\', 'b']
    } else if c == '\t' {
        seq!['\\', 't']
    } else if c == '\n' {
        seq!['\\', 'n']
    } else if c == '\u{c}' {
        seq!['\\', 'f']
    } else if c == '\r' {
        seq!['\\', 'r']
    } else if (c as u32) < 32 {
        seq!['\\', 'u', '0', '0', hex_char(((c as u32) / 16) as int), hex_char(
            ((c as u32) % 16) as int,
        )]
    } else {
        seq![c]
    }
}

/// The JSON escaping of the text from position `i` on.
pub open spec fn json_escaped_from(s: Seq<char>, i: int) -> Seq<char>
    decreases s.len() - i,
    when 0 <= i <= s.len()
{
    if i >= s.len() {
        Seq::<char>::empty()
    } else {
        json_escape_char(s[i]) + json_escaped_from(s, i + 1)
    }
}

/// The JSON escaping of a text.
pub open spec fn json_escaped(s: Seq<char>) -> Seq<char> {
    json_escaped_from(s, 0)
}

/// Append the JSON escaping of `s`.
fn push_json_escaped(out: &mut Vec<char>, s: &Vec<char>)
    ensures
        final(out)@ == old(out)@ + json_escaped(s@),
{
    let mut i: usize = 0;
    while i < s.len()
        invariant
            i <= s@.len(),
            old(out)@ + json_escaped(s@) == out@ + json_escaped_from(s@, i as int),
        decreases s@.len() - i,
    {
        let c = s[i];
        let ghost before = out@;
        if c == '"' {
            out.push('\\');
            out.push('"');
        } else if c == '\\' {
            out.push('\\');
            out.push('\\');
        } else if c == '\u{8}' {
            out.push('\\');
            out.push('b');
        } else if c == '\t' {
            out.push('\\');
            out.push('t');
        } else if c == '\n' {
            out.push('\\');
            out.push('n');
        } else if c == '\u{c}' {
            out.push('\\');
            out.push('f');
        } else if c == '\r' {
            out.push('\\');
            out.push('r');
        } else if (c as u32) < 32 {
            out.push('\\');
            out.push('u');
            out.push('0');
            out.push('0');
            out.push(dec_digit_hex(((c as u32) / 16) as u8));
            out.push(dec_digit_hex(((c as u32) % 16) as u8));
        } else {
            out.push(c);
        }
        proof {
            assert(out@ =~= before + json_escape_char(s@[i as int]));
            assert(json_escaped_from(s@, i as int) == json_escape_char(s@[i as int])
                + json_escaped_from(s@, i + 1));
            assert(before + json_escaped_from(s@, i as int) =~= out@ + json_escaped_from(
                s@,
                i + 1,
            ));
        }
        i = i + 1;
    }
    proof {
        assert(json_escaped_from(s@, i as int) =~= Seq::<char>::empty());
        assert(out@ + json_escaped_from(s@, i as int) =~= out@);
    }
}

/// The lowercase hex digit character for a value below 16.
fn dec_digit_hex(d: u8) -> (c: char)
    requires
        d < 16,
    ensures
        c == hex_char(d as int),
{
    match d {
        0 => '0',
        1 => '1',
        2 => '2',
        3 => '3',
        4 => '4',
        5 => '5',
        6 => '6',
        7 => '7',
        8 => '8',
        9 => '9',
        10 => 'a',
        11 => 'b',
        12 => 'c',
        13 => 'd',
        14 => 'e',
        _ => 'f',
    }
}

/// The resize command: `{"cmd":"resize","cols":C,"rows":R}`.
pub open spec fn resize_command_text(cols: u16, rows: u16) -> Seq<char> {
    "{\"cmd\":\"resize\",\"cols\":"@ + dec_chars(cols as nat) + ",\"rows\":"@ + dec_chars(
        rows as nat,
    ) + "}"@
}

/// The UTF-8 payload of a resize command.
pub fn resize_command_payload(cols: u16, rows: u16) -> (r: Vec<u8>)
    ensures
        r@ == encode_utf8(resize_command_text(cols, rows)),
{
    let mut text: Vec<char> = str_chars("{\"cmd\":\"resize\",\"cols\":");
    let mut cols_digits = u64_dec_chars(cols as u64);
    text.append(&mut cols_digits);
    let mut mid = str_chars(",\"rows\":");
    text.append(&mut mid);
    let mut rows_digits = u64_dec_chars(rows as u64);
    text.append(&mut rows_digits);
    let mut tail = str_chars("}");
    text.append(&mut tail);
    utf8_bytes(&text)
}

/// The update-title command: `{"cmd":"update-title","title":"<escaped>"}`.
pub open spec fn update_title_command_text(title: Seq<char>) -> Seq<char> {
    "{\"cmd\":\"update-title\",\"title\":\""@ + json_escaped(title) + "\"}"@
}

/// The UTF-8 payload of an update-title command.
pub fn update_title_command_payload(title: &str) -> (r: Vec<u8>)
    ensures
        r@ == encode_utf8(update_title_command_text(title@)),
{
    let mut text: Vec<char> = str_chars("{\"cmd\":\"update-title\",\"title\":\"");
    let title_chars = str_chars(title);
    push_json_escaped(&mut text, &title_chars);
    let mut tail = str_chars("\"}");
    text.append(&mut tail);
    utf8_bytes(&text)
}

/// The kill command: `{"cmd":"kill","signal":"<escaped>"}`, or
/// `{"cmd":"kill"}` when no signal is named.
pub open spec fn kill_command_text(signal: Option<Seq<char>>) -> Seq<char> {
    match signal {
        Some(s) => "{\"cmd\":\"kill\",\"signal\":\""@ + json_escaped(s) + "\"}"@,
        None => "{\"cmd\":\"kill\"}"@,
    }
}

/// The UTF-8 payload of a kill command.
pub fn kill_command_payload(signal: &Option<String>) -> (r: Vec<u8>)
    ensures
        r@ == encode_utf8(kill_command_text(match *signal {
            Some(ref s) => Some(s@),
            None => None,
        })),
{
    match signal {
        Some(sig) => {
            let mut text: Vec<char> = str_chars("{\"cmd\":\"kill\",\"signal\":\"");
            let sig_chars = str_chars(sig.as_str());
            push_json_escaped(&mut text, &sig_chars);
            let mut tail = str_chars("\"}");
            text.append(&mut tail);
            utf8_bytes(&text)
        },
        None => {
            let text: Vec<char> = str_chars("{\"cmd\":\"kill\"}");
            utf8_bytes(&text)
        },
    }
}

/// The UTF-8 encoding of a character buffer.
fn utf8_bytes(text: &Vec<char>) -> (r: Vec<u8>)
    ensures
        r@ == encode_utf8(text@),
{
    let s = chars_to_string(text);
    s.as_str().as_bytes_vec()
}

} // verus!
