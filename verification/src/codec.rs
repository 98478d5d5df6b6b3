//! Length-prefixed framing for the supervisor channel.
//!
//! One frame is `[1 byte type][4 bytes length, big-endian][length bytes payload]`.

use vstd::prelude::*;
use vstd::arithmetic::div_mod::{
    lemma_div_denominator, lemma_fundamental_div_mod, lemma_mod_division_less_than_divisor,
    lemma_multiply_divide_lt, lemma_small_mod,
};
use vstd::slice::{slice_subrange, slice_to_vec};

use crate::errors::VtError;

verus! {

/// The six message kinds carried on the supervisor channel.
#[derive(Debug, Clone, Copy, PartialEq, Eq, Structural)]
pub enum MessageType {
    StdinData,
    ControlCmd,
    StatusUpdate,
    StdoutData,
    SessionInfo,
    Error,
}

/// The wire code of each message kind.
pub open spec fn spec_type_code(t: MessageType) -> u8 {
    match t {
        MessageType::StdinData => 0x01,
        MessageType::ControlCmd => 0x02,
        MessageType::StatusUpdate => 0x03,
        MessageType::StdoutData => 0x04,
        MessageType::SessionInfo => 0x05,
        MessageType::Error => 0x06,
    }
}

/// Whether a byte is the wire code of some message kind.
pub open spec fn valid_type_code(b: u8) -> bool {
    1 <= b <= 6
}

/// The message kind encoded by a valid wire code.
pub open spec fn spec_type_of_code(b: u8) -> MessageType
    recommends
        valid_type_code(b),
{
    if b == 1 {
        MessageType::StdinData
    } else if b == 2 {
        MessageType::ControlCmd
    } else if b == 3 {
        MessageType::StatusUpdate
    } else if b == 4 {
        MessageType::StdoutData
    } else if b == 5 {
        MessageType::SessionInfo
    } else {
        MessageType::Error
    }
}

impl MessageType {
    /// The wire code of this message kind.
    pub fn code(self) -> (r: u8)
        ensures
            r == spec_type_code(self),
    {
        match self {
            MessageType::StdinData => 0x01,
            MessageType::ControlCmd => 0x02,
            MessageType::StatusUpdate => 0x03,
            MessageType::StdoutData => 0x04,
            MessageType::SessionInfo => 0x05,
            MessageType::Error => 0x06,
        }
    }

    /// The message kind with a given wire code, or `BadMessageType`
    /// exactly when the byte is outside the defined codes.
    pub fn try_from(value: u8) -> (r: Result<MessageType, VtError>)
        ensures
            valid_type_code(value) ==> r == Ok::<MessageType, VtError>(spec_type_of_code(value)),
            !valid_type_code(value) ==> r == Err::<MessageType, VtError>(
                VtError::BadMessageType(value),
            ),
    {
        match value {
            0x01 => Ok(MessageType::StdinData),
            0x02 => Ok(MessageType::ControlCmd),
            0x03 => Ok(MessageType::StatusUpdate),
            0x04 => Ok(MessageType::StdoutData),
            0x05 => Ok(MessageType::SessionInfo),
            0x06 => Ok(MessageType::Error),
            _ => Err(VtError::BadMessageType(value)),
        }
    }
}

/// Round trip between a kind and its wire code.
pub proof fn lemma_type_code_round_trip(t: MessageType)
    ensures
        valid_type_code(spec_type_code(t)),
        spec_type_of_code(spec_type_code(t)) == t,
{
}

/// The value of four big-endian bytes.
pub open spec fn be32(b: Seq<u8>) -> int
    recommends
        b.len() == 4,
{
    b[0] * 0x1000000 + b[1] * 0x10000 + b[2] * 0x100 + b[3]
}

/// The four big-endian bytes of a 32-bit value.
pub open spec fn be32_bytes(n: int) -> Seq<u8>
    recommends
        0 <= n < 0x1_0000_0000,
{
    seq![
        ((n / 0x1000000) % 0x100) as u8,
        ((n / 0x10000) % 0x100) as u8,
        ((n / 0x100) % 0x100) as u8,
        (n % 0x100) as u8,
    ]
}

/// Reading back the four big-endian bytes of a 32-bit value gives the value.
pub proof fn lemma_be32_round_trip(n: int)
    requires
        0 <= n < 0x1_0000_0000,
    ensures
        be32(be32_bytes(n)) == n,
{
    lemma_fundamental_div_mod(n, 0x100);
    lemma_fundamental_div_mod(n / 0x100, 0x100);
    lemma_fundamental_div_mod(n / 0x10000, 0x100);
    lemma_div_denominator(n, 0x100, 0x100);
    lemma_div_denominator(n, 0x10000, 0x100);
    lemma_multiply_divide_lt(n, 0x1000000, 0x100);
    lemma_small_mod((n / 0x1000000) as nat, 0x100);
    lemma_mod_division_less_than_divisor(n, 0x100);
    lemma_mod_division_less_than_divisor(n / 0x100, 0x100);
    lemma_mod_division_less_than_divisor(n / 0x10000, 0x100);
}

/// The encoded frame for a kind and a payload.
pub open spec fn frame_bytes(t: MessageType, payload: Seq<u8>) -> Seq<u8> {
    seq![spec_type_code(t)] + be32_bytes(payload.len() as int) + payload
}

/// Encode one message: type byte, big-endian payload length, payload.
pub fn encode_message(msg_type: MessageType, payload: &[u8]) -> (r: Vec<u8>)
    requires
        payload@.len() <= 0xFFFF_FFFF,
    ensures
        r@ == frame_bytes(msg_type, payload@),
        r@.len() == 5 + payload@.len(),
{
    let len: usize = payload.len();
    let mut frame: Vec<u8> = Vec::new();
    frame.push(msg_type.code());
    frame.push(((len / 0x1000000) % 0x100) as u8);
    frame.push(((len / 0x10000) % 0x100) as u8);
    frame.push(((len / 0x100) % 0x100) as u8);
    frame.push((len % 0x100) as u8);
    frame.extend_from_slice(payload);
    proof {
        assert(frame@ =~= frame_bytes(msg_type, payload@));
    }
    frame
}

/// Whether a buffer is too short to hold the frame its header announces:
/// either the five header bytes are incomplete, or fewer than the announced
/// payload bytes follow them.
pub open spec fn spec_needs_more(data: Seq<u8>) -> bool {
    data.len() < 5 || data.len() < 5 + be32(data.subrange(1, 5))
}

/// Decode one frame from the front of a buffer.
///
/// Returns `Ok(None)` when the buffer is too short for the announced frame,
/// `Err(BadMessageType)` when five header bytes are present but the type byte
/// is outside the defined codes, and otherwise exactly one frame together
/// with the number of bytes consumed.
pub fn decode_message(data: &[u8]) -> (r: Result<Option<(MessageType, Vec<u8>, usize)>, VtError>)
    ensures
        data@.len() < 5 ==> r == Ok::<Option<(MessageType, Vec<u8>, usize)>, VtError>(None),
        data@.len() >= 5 && !valid_type_code(data@[0]) ==> r == Err::<
            Option<(MessageType, Vec<u8>, usize)>,
            VtError,
        >(VtError::BadMessageType(data@[0])),
        data@.len() >= 5 && valid_type_code(data@[0]) && data@.len() < 5 + be32(
            data@.subrange(1, 5),
        ) ==> r == Ok::<Option<(MessageType, Vec<u8>, usize)>, VtError>(None),
        data@.len() >= 5 && valid_type_code(data@[0]) && data@.len() >= 5 + be32(
            data@.subrange(1, 5),
        ) ==> ({
            &&& r matches Ok(Some((t, payload, consumed)))
            &&& t == spec_type_of_code(data@[0])
            &&& payload@ == data@.subrange(5, 5 + be32(data@.subrange(1, 5)))
            &&& consumed == 5 + be32(data@.subrange(1, 5))
        }),
{
    if data.len() < 5 {
        return Ok(None);
    }
    let msg_type = match MessageType::try_from(data[0]) {
        Ok(t) => t,
        Err(e) => {
            return Err(e);
        },
    };
    let length: usize = (data[1] as usize) * 0x1000000 + (data[2] as usize) * 0x10000 + (
    data[3] as usize) * 0x100 + (data[4] as usize);
    assert(length == be32(data@.subrange(1, 5)));
    if data.len() - 5 < length {
        return Ok(None);
    }
    let total_size: usize = 5 + length;
    let payload = slice_to_vec(slice_subrange(data, 5, total_size));
    Ok(Some((msg_type, payload, total_size)))
}

/// Decoding an encoded frame yields the original kind, the original payload,
/// and a consumed count of five plus the payload length.
pub proof fn lemma_frame_round_trip(t: MessageType, payload: Seq<u8>)
    requires
        payload.len() <= 0xFFFF_FFFF,
    ensures
        ({
            let f = frame_bytes(t, payload);
            &&& f.len() == 5 + payload.len()
            &&& valid_type_code(f[0])
            &&& spec_type_of_code(f[0]) == t
            &&& be32(f.subrange(1, 5)) == payload.len()
            &&& f.subrange(5, f.len() as int) == payload
            &&& !spec_needs_more(f)
        }),
{
    let f = frame_bytes(t, payload);
    lemma_type_code_round_trip(t);
    lemma_be32_round_trip(payload.len() as int);
    assert(f.subrange(1, 5) =~= be32_bytes(payload.len() as int));
    assert(f.subrange(5, f.len() as int) =~= payload);
}

/// A frame that is not decoded as "needs more bytes" is never truncated:
/// the announced payload is fully present in the buffer.
pub proof fn lemma_no_partial_payload(data: Seq<u8>)
    requires
        !spec_needs_more(data),
    ensures
        data.len() >= 5,
        5 + be32(data.subrange(1, 5)) <= data.len(),
{
}

} // verus!
