//! What each relay leg decides for one datagram. The legs themselves read and
//! write sockets; the functions here take what was read and say what to send.
//!
//! The public leg frames what players send and hands it to the tunnel. The
//! game leg takes frames off the tunnel, keeps one session per player, and
//! frames what comes back on a session with that session's player.

use crate::address::{PlayerAddress, HEADER_LEN};
use crate::error::RelayError;
use crate::frame::{decode, decode_spec, encode, encode_spec, write_header};
use crate::frame::lemma_decode_encode;
use crate::session::{
    distinct_players, has_player, lemma_one_session_per_player, names_player, Session, SessionId,
    SessionTable,
};
use vstd::prelude::*;

verus! {

/// Where a datagram on the public socket came from, as far as the relay
/// cares: an IPv4 endpoint, or something else.
#[derive(Clone, Copy, Debug, PartialEq, Eq, Structural)]
pub enum SenderAddress {
    V4(PlayerAddress),
    V6,
}

/// The frame the public leg sends for a datagram from `sender`, or the reason
/// it sends none.
pub open spec fn frame_from_player_spec(sender: SenderAddress, payload: Seq<u8>) -> Result<
    Seq<u8>,
    RelayError,
> {
    match sender {
        SenderAddress::V4(player) => Ok(encode_spec(player, payload)),
        SenderAddress::V6 => Err(RelayError::UnexpectedAddressFamily),
    }
}

/// Public leg, towards the tunnel: frames a player's datagram with the
/// address it came from. A datagram from a sender that is not IPv4 is
/// dropped.
pub fn frame_from_player(sender: SenderAddress, payload: &[u8]) -> (r: Result<Vec<u8>, RelayError>)
    ensures
        match r {
            Ok(framed) => frame_from_player_spec(sender, payload@) == Ok::<Seq<u8>, RelayError>(
                framed@,
            ),
            Err(e) => frame_from_player_spec(sender, payload@) == Err::<Seq<u8>, RelayError>(e),
        },
{
    match sender {
        SenderAddress::V4(player) => Ok(encode(player, payload)),
        SenderAddress::V6 => Err(RelayError::UnexpectedAddressFamily),
    }
}

/// As `frame_from_player`, for a datagram that was received into `frame`
/// behind six spare bytes: the header is written over those, and nothing is
/// copied. When the datagram is dropped the buffer is left as it was.
pub fn frame_from_player_in_place(sender: SenderAddress, frame: &mut [u8]) -> (r: Result<
    (),
    RelayError,
>)
    requires
        old(frame)@.len() >= HEADER_LEN,
    ensures
        match r {
            Ok(()) => frame_from_player_spec(
                sender,
                old(frame)@.subrange(HEADER_LEN as int, old(frame)@.len() as int),
            ) == Ok::<Seq<u8>, RelayError>(final(frame)@),
            Err(e) => {
                &&& sender == SenderAddress::V6
                &&& e == RelayError::UnexpectedAddressFamily
                &&& final(frame)@ == old(frame)@
            },
        },
{
    match sender {
        SenderAddress::V4(player) => {
            write_header(player, frame);
            Ok(())
        },
        SenderAddress::V6 => Err(RelayError::UnexpectedAddressFamily),
    }
}

/// Whether the game leg, holding `sessions`, sends `payload` out on the
/// session `id` when it takes `datagram` off the tunnel.
pub open spec fn forwards_on<S>(
    sessions: Seq<Session<S>>,
    datagram: Seq<u8>,
    id: SessionId,
    payload: Seq<u8>,
) -> bool {
    decode_spec(datagram) matches Some((player, carried)) && names_player(sessions, id, player)
        && carried == payload
}

/// The players that have a session, in the order in which the sessions were
/// created.
pub open spec fn players_of<S>(sessions: Seq<Session<S>>) -> Seq<PlayerAddress> {
    Seq::new(sessions.len(), |i: int| sessions[i].player)
}

/// The players that have a session once the game leg has taken `datagram`
/// off the tunnel, given that a session it had to open could be opened.
pub open spec fn players_after(players: Seq<PlayerAddress>, datagram: Seq<u8>) -> Seq<
    PlayerAddress,
> {
    match decode_spec(datagram) {
        None => players,
        Some((player, _)) => if players.contains(player) {
            players
        } else {
            players.push(player)
        },
    }
}

/// The players that have a session once the game leg has taken each of
/// `datagrams` off the tunnel, first to last.
pub open spec fn players_after_all(
    players: Seq<PlayerAddress>,
    datagrams: Seq<Seq<u8>>,
) -> Seq<PlayerAddress>
    decreases datagrams.len(),
{
    if datagrams.len() == 0 {
        players
    } else {
        players_after_all(players_after(players, datagrams.first()), datagrams.drop_first())
    }
}

/// What the game leg does with one datagram from the tunnel.
#[derive(Debug, PartialEq, Eq)]
pub enum Route<'a> {
    /// The player has the session named: send the payload on it.
    Known(SessionId, &'a [u8]),
    /// The player has no session yet: open one, then send the payload on it.
    New(PlayerAddress, &'a [u8]),
    /// The datagram holds no frame: drop it.
    Malformed,
}

/// Game leg: decides where a tunnel datagram goes, without changing anything.
pub fn route<'a, S>(sessions: &SessionTable<S>, datagram: &'a [u8]) -> (r: Route<'a>)
    requires
        sessions.wf(),
    ensures
        match decode_spec(datagram@) {
            None => r is Malformed,
            Some((player, payload)) => if sessions.has(player) {
                r matches Route::Known(id, sent) && forwards_on(sessions@, datagram@, id, sent@)
            } else {
                r matches Route::New(opened, sent) && opened == player && sent@ == payload
            },
        },
{
    match decode(datagram) {
        Err(_) => Route::Malformed,
        Ok((player, payload)) => match sessions.find(player) {
            Some(id) => Route::Known(id, payload),
            None => Route::New(player, payload),
        },
    }
}

/// A payload on its way to the game server.
#[derive(Debug, PartialEq, Eq)]
pub struct Forward<'a> {
    /// The session to send on.
    pub session: SessionId,
    /// What to send: the frame's payload, without the header.
    pub payload: &'a [u8],
    /// Whether the session was opened for this datagram.
    pub created: bool,
}

/// Why the game leg forwarded nothing for a datagram.
#[derive(Debug, PartialEq, Eq)]
pub enum DispatchError<E> {
    /// The datagram itself was dropped.
    Frame(RelayError),
    /// The player needed a session and opening it failed.
    Session(E),
}

/// Game leg, towards the game server: takes one datagram off the tunnel and
/// says on which session its payload goes out. A player seen for the first
/// time gets a session, for which `open` supplies what the session holds;
/// `open` is not called otherwise. Whatever goes wrong is confined to this
/// datagram: the sessions stay as they were.
pub fn dispatch<'a, S, E, F: FnOnce(PlayerAddress) -> Result<S, E>>(
    sessions: &mut SessionTable<S>,
    datagram: &'a [u8],
    open: F,
) -> (r: Result<Forward<'a>, DispatchError<E>>)
    requires
        old(sessions).wf(),
        decode_spec(datagram@) matches Some((player, _)) ==> old(sessions).has(player)
            || open.requires((player,)),
    ensures
        final(sessions).wf(),
        r is Ok ==> players_of(final(sessions)@) == players_after(
            players_of(old(sessions)@),
            datagram@,
        ),
        r is Err ==> final(sessions)@ == old(sessions)@,
        match decode_spec(datagram@) {
            None => {
                &&& r matches Err(DispatchError::Frame(e))
                &&& e == RelayError::MalformedFrame
                &&& final(sessions)@ == old(sessions)@
            },
            Some((player, payload)) => if old(sessions).has(player) {
                &&& r matches Ok(forward)
                &&& forwards_on(old(sessions)@, datagram@, forward.session, forward.payload@)
                &&& !forward.created
                &&& final(sessions)@ == old(sessions)@
            } else {
                match r {
                    Ok(forward) => {
                        &&& forward.session.0 == old(sessions)@.len()
                        &&& forward.payload@ == payload
                        &&& forward.created
                        &&& open.ensures((player,), Ok(final(sessions)@.last().resource))
                        &&& final(sessions)@ == old(sessions)@.push(
                            Session { player, resource: final(sessions)@.last().resource },
                        )
                    },
                    Err(DispatchError::Session(e)) => {
                        &&& open.ensures((player,), Err(e))
                        &&& final(sessions)@ == old(sessions)@
                    },
                    Err(DispatchError::Frame(_)) => false,
                }
            },
        },
{
    proof {
        lemma_players_of(sessions@);
    }
    match decode(datagram) {
        Err(e) => Err(DispatchError::Frame(e)),
        Ok((player, payload)) => {
            let before = sessions.len();
            let factory = || -> (made: Result<S, E>)
                requires
                    open.requires((player,)),
                ensures
                    open.ensures((player,), made),
                { open(player) };
            match sessions.get_or_create(player, factory) {
                Err(e) => Err(DispatchError::Session(e)),
                Ok(session) => {
                    let created = sessions.len() > before;
                    assert(created ==> players_of(sessions@) =~= players_of(
                        old(sessions)@,
                    ).push(player));
                    Ok(Forward { session, payload, created })
                },
            }
        },
    }
}

/// The frame that carries a reply `payload` read from the session at
/// `session`, if there is such a session.
pub open spec fn frame_reply_spec<S>(
    sessions: Seq<Session<S>>,
    session: SessionId,
    payload: Seq<u8>,
) -> Option<Seq<u8>> {
    if session.0 < sessions.len() {
        Some(encode_spec(sessions[session.0 as int].player, payload))
    } else {
        None
    }
}

/// Game leg, towards the tunnel: frames what the game server sent on a
/// session with the address of that session's player.
pub fn frame_reply<S>(sessions: &SessionTable<S>, session: SessionId, payload: &[u8]) -> (r:
    Option<Vec<u8>>)
    ensures
        match r {
            Some(framed) => frame_reply_spec(sessions@, session, payload@) == Some(framed@),
            None => frame_reply_spec(sessions@, session, payload@) is None,
        },
{
    match sessions.player_of(session) {
        Some(player) => Some(encode(player, payload)),
        None => None,
    }
}

/// A player has a session exactly if the player is among `players_of`.
pub proof fn lemma_players_of<S>(sessions: Seq<Session<S>>)
    ensures
        players_of(sessions).len() == sessions.len(),
        forall|player: PlayerAddress|
            has_player(sessions, player) <==> #[trigger] players_of(sessions).contains(player),
{
    let players = players_of(sessions);
    assert forall|player: PlayerAddress| has_player(sessions, player) implies #[trigger]
        players.contains(player) by {
        let i = choose|i: int| 0 <= i < sessions.len() && (#[trigger] sessions[i]).player == player;
        assert(players[i] == player);
    }
    assert forall|player: PlayerAddress| #[trigger]
        players.contains(player) implies has_player(sessions, player) by {
        let i = choose|i: int| 0 <= i < players.len() && players[i] == player;
        assert(sessions[i].player == player);
    }
}

/// Sessions are isolated: the frames of two different players go out on two
/// different sessions, and each session gets exactly the payload that was
/// framed for its player.
pub proof fn lemma_sessions_isolated<S>(
    sessions: Seq<Session<S>>,
    player_a: PlayerAddress,
    payload_a: Seq<u8>,
    id_a: SessionId,
    sent_a: Seq<u8>,
    player_b: PlayerAddress,
    payload_b: Seq<u8>,
    id_b: SessionId,
    sent_b: Seq<u8>,
)
    requires
        distinct_players(sessions),
        player_a != player_b,
        forwards_on(sessions, encode_spec(player_a, payload_a), id_a, sent_a),
        forwards_on(sessions, encode_spec(player_b, payload_b), id_b, sent_b),
    ensures
        id_a != id_b,
        sent_a == payload_a,
        sent_b == payload_b,
        names_player(sessions, id_a, player_a),
        names_player(sessions, id_b, player_b),
{
    lemma_decode_encode(player_a, payload_a);
    lemma_decode_encode(player_b, payload_b);
    lemma_one_session_per_player(sessions, player_a, id_a, player_b, id_b);
}

/// A reply read from a player's session is framed with that player's address
/// and no other: whoever decodes the frame finds that player and the reply
/// unchanged.
pub proof fn lemma_reply_addressed_to_its_player<S>(
    sessions: Seq<Session<S>>,
    id: SessionId,
    player: PlayerAddress,
    reply: Seq<u8>,
)
    requires
        names_player(sessions, id, player),
    ensures
        frame_reply_spec(sessions, id, reply) == Some(encode_spec(player, reply)),
        decode_spec(encode_spec(player, reply)) == Some((player, reply)),
{
    lemma_decode_encode(player, reply);
}

/// A datagram too short to hold a header leaves no trace: wherever it stands
/// among other datagrams, the game leg ends up with the sessions it would
/// have without it.
pub proof fn lemma_truncated_datagram_is_skipped(
    players: Seq<PlayerAddress>,
    before: Seq<Seq<u8>>,
    truncated: Seq<u8>,
    after: Seq<Seq<u8>>,
)
    requires
        truncated.len() < HEADER_LEN,
    ensures
        players_after_all(players, before + seq![truncated] + after) == players_after_all(
            players,
            before + after,
        ),
    decreases before.len(),
{
    let with = before + seq![truncated] + after;
    let without = before + after;
    if before.len() == 0 {
        assert(with.first() == truncated);
        assert(with.drop_first() =~= after);
        assert(without =~= after);
    } else {
        let next = players_after(players, before.first());
        assert(with.first() == before.first());
        assert(without.first() == before.first());
        assert(with.drop_first() =~= before.drop_first() + seq![truncated] + after);
        assert(without.drop_first() =~= before.drop_first() + after);
        lemma_truncated_datagram_is_skipped(next, before.drop_first(), truncated, after);
    }
}

} // verus!
