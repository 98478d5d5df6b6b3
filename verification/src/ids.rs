//! Session identifiers: opaque 128-bit values rendered as hyphenated hex.

use vstd::prelude::*;

use crate::text::chars_to_string;

verus! {

/// Opaque 128-bit identifier of a session, unique for the process lifetime.
#[derive(Debug, Clone, Copy, PartialEq, Eq, Structural)]
pub struct SessionId {
    pub bits: u128,
}

/// The lowercase hex digit for a value below 16.
pub open spec fn hex_char(d: int) -> char {
    if d == 0 {
        '0'
    } else if d == 1 {
        '1'
    } else if d == 2 {
        '2'
    } else if d == 3 {
        '3'
    } else if d == 4 {
        '4'
    } else if d == 5 {
        '5'
    } else if d == 6 {
        '6'
    } else if d == 7 {
        '7'
    } else if d == 8 {
        '8'
    } else if d == 9 {
        '9'
    } else if d == 10 {
        'a'
    } else if d == 11 {
        'b'
    } else if d == 12 {
        'c'
    } else if d == 13 {
        'd'
    } else if d == 14 {
        'e'
    } else {
        'f'
    }
}

/// The last `digits` hex digits of `n`, most significant first.
pub open spec fn hex_of(n: nat, digits: nat) -> Seq<char>
    decreases digits,
{
    if digits == 0 {
        Seq::<char>::empty()
    } else {
        hex_of(n / 16, (digits - 1) as nat).push(hex_char((n % 16) as int))
    }
}

/// The hyphenated lowercase hex rendering of 128 bits: groups of
/// 8, 4, 4, 4 and 12 digits.
pub open spec fn uuid_text(bits: u128) -> Seq<char> {
    let h = hex_of(bits as nat, 32);
    h.subrange(0, 8) + seq!['-'] + h.subrange(8, 12) + seq!['-'] + h.subrange(12, 16) + seq!['-']
        + h.subrange(16, 20) + seq!['-'] + h.subrange(20, 32)
}

/// A hyphenated rendering is always 36 characters long.
pub proof fn lemma_uuid_text_len(bits: u128)
    ensures
        uuid_text(bits).len() == 36,
{
    lemma_hex_of_len(bits as nat, 32);
}

/// `hex_of` yields exactly the asked number of digits.
pub proof fn lemma_hex_of_len(n: nat, digits: nat)
    ensures
        hex_of(n, digits).len() == digits,
    decreases digits,
{
    if digits > 0 {
        lemma_hex_of_len(n / 16, (digits - 1) as nat);
    }
}

/// The lowercase hex digit for a value below 16.
fn hex_char_of(d: u8) -> (c: char)
    requires
        d < 16,
    ensures
        c == hex_char(d as int),
{
    match d {
        0 => '0',
        1 => '1',
        2 => '2',
        3 => '3',
        4 => '4',
        5 => '5',
        6 => '6',
        7 => '7',
        8 => '8',
        9 => '9',
        10 => 'a',
        11 => 'b',
        12 => 'c',
        13 => 'd',
        14 => 'e',
        _ => 'f',
    }
}

/// Append the digits `from..to` (most significant first) of the digit buffer
/// `low`, which stores them least significant first.
fn push_hex_range(out: &mut Vec<char>, low: &Vec<char>, from: usize, to: usize)
    requires
        low@.len() == 32,
        from <= to <= 32,
    ensures
        final(out)@ == old(out)@ + low@.reverse().subrange(from as int, to as int),
{
    let mut j: usize = from;
    proof {
        assert(out@ =~= out@ + low@.reverse().subrange(from as int, from as int));
    }
    while j < to
        invariant
            from <= j <= to <= 32,
            low@.len() == 32,
            out@ == old(out)@ + low@.reverse().subrange(from as int, j as int),
        decreases to - j,
    {
        out.push(low[31 - j]);
        proof {
            assert(low@.reverse()[j as int] == low@[31 - j as int]);
            assert(low@.reverse().subrange(from as int, j + 1) =~= low@.reverse().subrange(
                from as int,
                j as int,
            ).push(low@.reverse()[j as int]));
            assert(out@ =~= old(out)@ + low@.reverse().subrange(from as int, j + 1));
        }
        j = j + 1;
    }
}

impl SessionId {
    /// The hyphenated lowercase hex string of this identifier,
    /// 8-4-4-4-12 digits, 36 characters in all.
    pub fn render(&self) -> (s: String)
        ensures
            s@ == uuid_text(self.bits),
            s@.len() == 36,
    {
        let mut low: Vec<char> = Vec::new();
        let mut rest: u128 = self.bits;
        let mut i: usize = 0;
        proof {
            assert(hex_of(self.bits as nat, 32) =~= hex_of(rest as nat, 32) + low@.reverse());
        }
        while i < 32
            invariant
                i <= 32,
                low@.len() == i,
                hex_of(self.bits as nat, 32) =~= hex_of(rest as nat, (32 - i) as nat)
                    + low@.reverse(),
            decreases 32 - i,
        {
            let d: u8 = (rest % 16) as u8;
            let c = hex_char_of(d);
            proof {
                let ghost oldlow = low@;
                assert(hex_of(rest as nat, (32 - i) as nat) == hex_of(
                    (rest / 16) as nat,
                    (32 - i - 1) as nat,
                ).push(hex_char((rest % 16) as int)));
                assert(oldlow.push(c).reverse() =~= seq![c] + oldlow.reverse());
            }
            low.push(c);
            proof {
                assert(hex_of(self.bits as nat, 32) =~= hex_of(
                    (rest / 16) as nat,
                    (32 - (i + 1)) as nat,
                ) + low@.reverse());
            }
            rest = rest / 16;
            i = i + 1;
        }
        proof {
            lemma_hex_of_len(rest as nat, 0);
            assert(hex_of(self.bits as nat, 32) =~= low@.reverse());
        }
        let mut out: Vec<char> = Vec::new();
        push_hex_range(&mut out, &low, 0, 8);
        out.push('-');
        push_hex_range(&mut out, &low, 8, 12);
        out.push('-');
        push_hex_range(&mut out, &low, 12, 16);
        out.push('-');
        push_hex_range(&mut out, &low, 16, 20);
        out.push('-');
        push_hex_range(&mut out, &low, 20, 32);
        proof {
            lemma_uuid_text_len(self.bits);
            assert(out@ =~= uuid_text(self.bits));
        }
        chars_to_string(&out)
    }
}

/// Relies on `uuid::Uuid::new_v4` for a fresh random identifier; nothing can
/// be promised of a random value.
#[verifier::external_body]
fn fresh_id_bits() -> u128 {
    uuid::Uuid::new_v4().as_u128()
}

/// A fresh random session identifier.
pub fn new_session_id() -> SessionId {
    SessionId { bits: fresh_id_bits() }
}

} // verus!
