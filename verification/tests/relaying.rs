use udp_tunnel::address::PlayerAddress;
use udp_tunnel::error::RelayError;
use udp_tunnel::frame::{decode, encode};
use udp_tunnel::relay::{
    dispatch, frame_from_player, frame_from_player_in_place, frame_reply, route, DispatchError,
    Forward, Route, SenderAddress,
};
use udp_tunnel::session::{SessionId, SessionTable};

fn player_a() -> PlayerAddress {
    PlayerAddress::from_octets([1, 2, 3, 4], 5000)
}

fn player_b() -> PlayerAddress {
    PlayerAddress::from_octets([5, 6, 7, 8], 9000)
}

fn open_for(player: PlayerAddress) -> Result<PlayerAddress, String> {
    Ok(player)
}

#[test]
fn public_leg_frames_an_ipv4_datagram() {
    assert_eq!(
        frame_from_player(SenderAddress::V4(player_a()), b"ping-A"),
        Ok(encode(player_a(), b"ping-A"))
    );
}

#[test]
fn public_leg_drops_a_datagram_from_another_family() {
    assert_eq!(
        frame_from_player(SenderAddress::V6, b"ping-A"),
        Err(RelayError::UnexpectedAddressFamily)
    );
}

#[test]
fn public_leg_goes_on_after_a_dropped_datagram() {
    let senders = [SenderAddress::V6, SenderAddress::V4(player_b()), SenderAddress::V6];
    let framed: Vec<_> = senders.iter().map(|s| frame_from_player(*s, b"hi")).collect();
    assert_eq!(
        framed,
        vec![
            Err(RelayError::UnexpectedAddressFamily),
            Ok(vec![5, 6, 7, 8, 0x23, 0x28, b'h', b'i']),
            Err(RelayError::UnexpectedAddressFamily),
        ]
    );
}

#[test]
fn public_leg_frames_in_place() {
    let mut buffer = [0u8; 10];
    buffer[6..].copy_from_slice(b"ping");
    assert_eq!(frame_from_player_in_place(SenderAddress::V4(player_a()), &mut buffer), Ok(()));
    assert_eq!(buffer.to_vec(), encode(player_a(), b"ping"));
}

#[test]
fn public_leg_leaves_the_buffer_alone_when_it_drops() {
    let mut buffer = [0x55u8; 9];
    assert_eq!(
        frame_from_player_in_place(SenderAddress::V6, &mut buffer),
        Err(RelayError::UnexpectedAddressFamily)
    );
    assert_eq!(buffer, [0x55u8; 9]);
}

#[test]
fn what_the_public_leg_frames_the_game_leg_decodes() {
    let framed = frame_from_player(SenderAddress::V4(player_a()), b"ping-A").unwrap();
    let payload: &[u8] = b"ping-A";
    assert_eq!(decode(&framed), Ok((player_a(), payload)));
}

#[test]
fn route_tells_known_new_and_malformed_apart() {
    let mut sessions: SessionTable<()> = SessionTable::new();
    sessions.register(player_a(), ());
    let for_a = encode(player_a(), b"one");
    let for_b = encode(player_b(), b"two");
    assert_eq!(route(&sessions, &for_a), Route::Known(SessionId(0), b"one"));
    assert_eq!(route(&sessions, &for_b), Route::New(player_b(), b"two"));
    assert_eq!(route(&sessions, &for_b[..5]), Route::Malformed);
    assert_eq!(sessions.len(), 1);
}

#[test]
fn each_player_is_forwarded_on_its_own_session() {
    let mut sessions: SessionTable<PlayerAddress> = SessionTable::new();
    let mut sent: Vec<Vec<Vec<u8>>> = Vec::new();
    let datagrams = [
        encode(player_a(), b"ping-A"),
        encode(player_b(), b"ping-B"),
        encode(player_a(), b"again-A"),
    ];
    for datagram in &datagrams {
        let forward = dispatch(&mut sessions, datagram, open_for).unwrap();
        if forward.created {
            sent.push(Vec::new());
        }
        sent[forward.session.0].push(forward.payload.to_vec());
    }
    assert_eq!(sessions.len(), 2);
    let a = sessions.find(player_a()).unwrap();
    let b = sessions.find(player_b()).unwrap();
    assert_ne!(a, b);
    assert_eq!(sent[a.0], vec![b"ping-A".to_vec(), b"again-A".to_vec()]);
    assert_eq!(sent[b.0], vec![b"ping-B".to_vec()]);
    assert_eq!(sessions.session(a).unwrap().resource, player_a());
    assert_eq!(sessions.session(b).unwrap().resource, player_b());
}

#[test]
fn dispatch_says_whether_it_opened_the_session() {
    let mut sessions: SessionTable<PlayerAddress> = SessionTable::new();
    let datagram = encode(player_a(), b"ping-A");
    assert_eq!(
        dispatch(&mut sessions, &datagram, open_for),
        Ok(Forward { session: SessionId(0), payload: b"ping-A", created: true })
    );
    assert_eq!(
        dispatch(&mut sessions, &datagram, open_for),
        Ok(Forward { session: SessionId(0), payload: b"ping-A", created: false })
    );
}

#[test]
fn dispatch_opens_nothing_for_a_known_player() {
    let mut sessions: SessionTable<u8> = SessionTable::new();
    sessions.register(player_a(), 1);
    let datagram = encode(player_a(), b"x");
    let forward = dispatch(&mut sessions, &datagram, |_| -> Result<u8, ()> {
        panic!("a known player needs no new session")
    });
    assert_eq!(forward, Ok(Forward { session: SessionId(0), payload: b"x", created: false }));
}

#[test]
fn reply_is_framed_with_the_address_of_its_session() {
    let mut sessions: SessionTable<PlayerAddress> = SessionTable::new();
    let to_a = encode(player_a(), b"ping-A");
    let to_b = encode(player_b(), b"ping-B");
    let a = dispatch(&mut sessions, &to_a, open_for).unwrap().session;
    let b = dispatch(&mut sessions, &to_b, open_for).unwrap().session;
    assert_eq!(frame_reply(&sessions, a, b"pong"), Some(encode(player_a(), b"pong")));
    assert_eq!(
        frame_reply(&sessions, a, b"pong"),
        Some(vec![1, 2, 3, 4, 0x13, 0x88, b'p', b'o', b'n', b'g'])
    );
    assert_eq!(frame_reply(&sessions, b, b"pong"), Some(encode(player_b(), b"pong")));
}

#[test]
fn reply_on_no_session_is_framed_for_nobody() {
    let sessions: SessionTable<()> = SessionTable::new();
    assert_eq!(frame_reply(&sessions, SessionId(0), b"pong"), None);
}

#[test]
fn truncated_datagram_does_not_stop_the_next_one() {
    let mut sessions: SessionTable<PlayerAddress> = SessionTable::new();
    let truncated = [1u8, 2, 3];
    assert_eq!(
        dispatch(&mut sessions, &truncated, open_for),
        Err(DispatchError::Frame(RelayError::MalformedFrame))
    );
    assert!(sessions.is_empty());
    let well_formed = encode(player_a(), b"ping-A");
    assert_eq!(
        dispatch(&mut sessions, &well_formed, open_for),
        Ok(Forward { session: SessionId(0), payload: b"ping-A", created: true })
    );
    assert_eq!(
        dispatch(&mut sessions, &truncated, open_for),
        Err(DispatchError::Frame(RelayError::MalformedFrame))
    );
    assert_eq!(sessions.len(), 1);
}

#[test]
fn failed_open_drops_one_datagram_and_no_more() {
    let mut sessions: SessionTable<PlayerAddress> = SessionTable::new();
    let datagram = encode(player_a(), b"ping-A");
    let failed = dispatch(&mut sessions, &datagram, |_| Err::<PlayerAddress, &str>("no socket"));
    assert_eq!(failed, Err(DispatchError::Session("no socket")));
    assert!(sessions.is_empty());
    let retried = dispatch(&mut sessions, &datagram, |who| Ok::<PlayerAddress, &str>(who));
    assert_eq!(retried, Ok(Forward { session: SessionId(0), payload: b"ping-A", created: true }));
}

#[test]
fn error_messages_name_what_was_dropped() {
    assert_eq!(
        RelayError::MalformedFrame.message(),
        "tunnel datagram shorter than the address header"
    );
    assert_eq!(
        RelayError::UnexpectedAddressFamily.message(),
        "player datagram from a non-IPv4 sender"
    );
}
