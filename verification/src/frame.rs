//! The framing used on the tunnel link: a six-byte address header followed
//! by the payload, with nothing in between and nothing after.

use crate::address::{PlayerAddress, HEADER_LEN};
use crate::error::RelayError;
use vstd::prelude::*;
use vstd::slice::slice_subrange;

verus! {

/// Largest payload a UDP datagram can carry.
pub const MAX_PAYLOAD_LEN: usize = 65535;

/// Largest frame that can cross the tunnel link: a header and a full payload.
/// A receive buffer of this size holds any frame.
pub const MAX_FRAME_LEN: usize = 65541;

/// The frame that carries `payload` for `player`.
pub open spec fn encode_spec(player: PlayerAddress, payload: Seq<u8>) -> Seq<u8> {
    player.header_spec() + payload
}

/// The address and payload that `bytes` carries, if it is long enough to hold
/// a header. Any six bytes are a valid header.
pub open spec fn decode_spec(bytes: Seq<u8>) -> Option<(PlayerAddress, Seq<u8>)> {
    if bytes.len() < HEADER_LEN {
        None
    } else {
        Some(
            (
                PlayerAddress::from_header_spec(bytes),
                bytes.subrange(HEADER_LEN as int, bytes.len() as int),
            ),
        )
    }
}

/// Frames `payload` for the tunnel link: the header of `player`, then the
/// payload unchanged. Allocates the frame once.
pub fn encode(player: PlayerAddress, payload: &[u8]) -> (framed: Vec<u8>)
    ensures
        framed@ == encode_spec(player, payload@),
        framed@.len() == HEADER_LEN + payload@.len(),
{
    let header = player.header();
    let mut framed: Vec<u8> = if payload.len() <= usize::MAX - HEADER_LEN {
        Vec::with_capacity(payload.len() + HEADER_LEN)
    } else {
        Vec::new()
    };
    framed.extend_from_slice(&header);
    framed.extend_from_slice(payload);
    framed
}

/// Writes the header of `player` over the first six bytes of `frame` and
/// leaves the rest, the payload already in place, untouched.
pub fn write_header(player: PlayerAddress, frame: &mut [u8])
    requires
        old(frame)@.len() >= HEADER_LEN,
    ensures
        final(frame)@ == encode_spec(
            player,
            old(frame)@.subrange(HEADER_LEN as int, old(frame)@.len() as int),
        ),
{
    let header = player.header();
    frame[0] = header[0];
    frame[1] = header[1];
    frame[2] = header[2];
    frame[3] = header[3];
    frame[4] = header[4];
    frame[5] = header[5];
    assert(frame@ =~= encode_spec(
        player,
        old(frame)@.subrange(HEADER_LEN as int, old(frame)@.len() as int),
    ));
}

/// Splits a tunnel datagram into the player's address and the payload.
/// Fails exactly when the datagram is shorter than a header; the payload is
/// borrowed from `bytes`, not copied.
pub fn decode(bytes: &[u8]) -> (r: Result<(PlayerAddress, &[u8]), RelayError>)
    ensures
        r is Err <==> bytes@.len() < HEADER_LEN,
        match r {
            Ok((player, payload)) => decode_spec(bytes@) == Some((player, payload@)),
            Err(e) => e == RelayError::MalformedFrame && decode_spec(bytes@) is None,
        },
{
    if bytes.len() < HEADER_LEN {
        return Err(RelayError::MalformedFrame);
    }
    let header = [bytes[0], bytes[1], bytes[2], bytes[3], bytes[4], bytes[5]];
    let player = PlayerAddress::from_header(&header);
    let payload = slice_subrange(bytes, HEADER_LEN, bytes.len());
    Ok((player, payload))
}

/// A frame is always six bytes longer than its payload.
pub proof fn lemma_encode_len(player: PlayerAddress, payload: Seq<u8>)
    ensures
        encode_spec(player, payload).len() == HEADER_LEN + payload.len(),
{
}

/// A payload that fits a UDP datagram gives a frame that fits the receive
/// buffer.
pub proof fn lemma_frame_fits(player: PlayerAddress, payload: Seq<u8>)
    requires
        payload.len() <= MAX_PAYLOAD_LEN,
    ensures
        encode_spec(player, payload).len() <= MAX_FRAME_LEN,
{
}

/// Decoding a frame gives back the address and the payload it was made from.
pub proof fn lemma_decode_encode(player: PlayerAddress, payload: Seq<u8>)
    ensures
        decode_spec(encode_spec(player, payload)) == Some((player, payload)),
{
    let framed = encode_spec(player, payload);
    crate::address::lemma_join_split_u32(player.ip);
    crate::address::lemma_join_split_u16(player.port);
    assert(PlayerAddress::from_header_spec(framed) == player);
    assert(framed.subrange(HEADER_LEN as int, framed.len() as int) =~= payload);
}

/// Encoding what a datagram decodes to gives back the datagram: every
/// datagram of six bytes or more is the frame of exactly one address and
/// payload.
pub proof fn lemma_encode_decode(bytes: Seq<u8>)
    requires
        bytes.len() >= HEADER_LEN,
    ensures
        decode_spec(bytes) matches Some((player, payload)) && encode_spec(player, payload) == bytes,
{
    let player = PlayerAddress::from_header_spec(bytes);
    let payload = bytes.subrange(HEADER_LEN as int, bytes.len() as int);
    crate::address::lemma_split_join_u32(bytes[0], bytes[1], bytes[2], bytes[3]);
    crate::address::lemma_split_join_u16(bytes[4], bytes[5]);
    assert(encode_spec(player, payload) =~= bytes);
}

/// Two frames are equal only if they carry the same address and the same
/// payload.
pub proof fn lemma_encode_injective(
    player_a: PlayerAddress,
    payload_a: Seq<u8>,
    player_b: PlayerAddress,
    payload_b: Seq<u8>,
)
    requires
        encode_spec(player_a, payload_a) == encode_spec(player_b, payload_b),
    ensures
        player_a == player_b,
        payload_a == payload_b,
{
    lemma_decode_encode(player_a, payload_a);
    lemma_decode_encode(player_b, payload_b);
}

} // verus!
