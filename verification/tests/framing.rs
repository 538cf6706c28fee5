use udp_tunnel::address::{PlayerAddress, HEADER_LEN};
use udp_tunnel::error::RelayError;
use udp_tunnel::frame::{decode, encode, write_header, MAX_FRAME_LEN, MAX_PAYLOAD_LEN};

fn player_a() -> PlayerAddress {
    PlayerAddress::from_octets([1, 2, 3, 4], 5000)
}

#[test]
fn address_from_octets_is_big_endian() {
    let player = player_a();
    assert_eq!(player.ip, 0x0102_0304);
    assert_eq!(player.port, 5000);
    assert_eq!(player.octets(), [1, 2, 3, 4]);
    assert_eq!(player, PlayerAddress::new(0x0102_0304, 5000));
}

#[test]
fn header_is_address_then_port_in_network_order() {
    assert_eq!(player_a().header(), [1, 2, 3, 4, 0x13, 0x88]);
    assert_eq!(PlayerAddress::new(0, 0).header(), [0; 6]);
    assert_eq!(PlayerAddress::new(u32::MAX, u16::MAX).header(), [0xff; 6]);
    assert_eq!(PlayerAddress::new(0xc0a8_0160, 27018).header(), [192, 168, 1, 96, 0x69, 0x8a]);
}

#[test]
fn header_agrees_with_the_standard_byte_order() {
    for (ip, port) in [(0u32, 0u16), (1, 1), (0x8000_0001, 0x8001), (0xdead_beef, 0xcafe)] {
        let header = PlayerAddress::new(ip, port).header();
        assert_eq!(header[..4], ip.to_be_bytes());
        assert_eq!(header[4..], port.to_be_bytes());
    }
}

#[test]
fn from_header_reads_back_what_header_wrote() {
    let player = PlayerAddress::new(0x7f00_0001, 65535);
    assert_eq!(PlayerAddress::from_header(&player.header()), player);
    assert_eq!(
        PlayerAddress::from_header(&[10, 0, 0, 7, 0x00, 0x50]),
        PlayerAddress::from_octets([10, 0, 0, 7], 80)
    );
}

#[test]
fn key_puts_the_address_above_the_port() {
    assert_eq!(player_a().key(), 0x0102_0304_1388);
    assert_eq!(PlayerAddress::new(u32::MAX, u16::MAX).key(), 0xffff_ffff_ffff);
    assert_ne!(PlayerAddress::new(1, 0).key(), PlayerAddress::new(0, 1).key());
}

#[test]
fn encode_writes_address_then_port_then_payload() {
    let framed = encode(player_a(), b"ping-A");
    assert_eq!(framed, vec![1, 2, 3, 4, 0x13, 0x88, b'p', b'i', b'n', b'g', b'-', b'A']);
}

#[test]
fn encode_of_an_empty_payload_is_the_header() {
    assert_eq!(encode(player_a(), &[]), vec![1, 2, 3, 4, 0x13, 0x88]);
}

#[test]
fn frame_is_six_bytes_longer_than_its_payload() {
    for len in [0usize, 1, 5, 6, 7, 1400, MAX_PAYLOAD_LEN] {
        let payload = vec![0xabu8; len];
        assert_eq!(encode(player_a(), &payload).len(), HEADER_LEN + len);
    }
}

#[test]
fn largest_payload_gives_the_largest_frame() {
    let payload = vec![7u8; MAX_PAYLOAD_LEN];
    let framed = encode(player_a(), &payload);
    assert_eq!(framed.len(), MAX_FRAME_LEN);
    assert_eq!(MAX_FRAME_LEN, 65541);
    assert_eq!(decode(&framed), Ok((player_a(), &payload[..])));
}

#[test]
fn decode_gives_back_what_encode_was_given() {
    let players = [
        player_a(),
        PlayerAddress::from_octets([5, 6, 7, 8], 9000),
        PlayerAddress::new(0, 0),
        PlayerAddress::new(u32::MAX, u16::MAX),
    ];
    let payloads: [&[u8]; 4] = [b"", b"ping-A", &[0; 6], &[0xff, 0x00, 0x13, 0x88]];
    for player in players {
        for payload in payloads {
            let framed = encode(player, payload);
            assert_eq!(decode(&framed), Ok((player, payload)));
        }
    }
}

#[test]
fn encode_gives_back_what_decode_was_given() {
    let datagram = [9u8, 8, 7, 6, 5, 4, 3, 2, 1];
    let (player, payload) = decode(&datagram).unwrap();
    assert_eq!(encode(player, payload), datagram);
}

#[test]
fn decode_rejects_anything_shorter_than_a_header() {
    let bytes = [1u8, 2, 3, 4, 5];
    for len in 0..HEADER_LEN {
        assert_eq!(decode(&bytes[..len]), Err(RelayError::MalformedFrame));
    }
}

#[test]
fn decode_accepts_a_bare_header() {
    let empty: &[u8] = &[];
    assert_eq!(decode(&[1, 2, 3, 4, 0x13, 0x88]), Ok((player_a(), empty)));
}

#[test]
fn decode_accepts_any_six_bytes_as_an_address() {
    let payload: &[u8] = b"x";
    assert_eq!(
        decode(&[0, 0, 0, 0, 0, 0, b'x']),
        Ok((PlayerAddress::new(0, 0), payload))
    );
    assert_eq!(
        decode(&[255, 255, 255, 255, 255, 255, b'x']),
        Ok((PlayerAddress::new(u32::MAX, u16::MAX), payload))
    );
}

#[test]
fn decode_borrows_the_payload_from_the_datagram() {
    let datagram = [1u8, 2, 3, 4, 0x13, 0x88, 10, 20, 30];
    let (_, payload) = decode(&datagram).unwrap();
    assert_eq!(payload.as_ptr(), datagram[HEADER_LEN..].as_ptr());
    assert_eq!(payload, [10, 20, 30]);
}

#[test]
fn write_header_keeps_the_payload_in_place() {
    let mut frame = vec![0u8, 0, 0, 0, 0, 0, b'o', b'k'];
    write_header(PlayerAddress::new(0x0506_0708, 9000), &mut frame);
    assert_eq!(frame, vec![5, 6, 7, 8, 0x23, 0x28, b'o', b'k']);
}

#[test]
fn write_header_gives_the_frame_that_encode_gives() {
    let mut frame = [0xeeu8; 10];
    frame[HEADER_LEN..].copy_from_slice(b"pong");
    write_header(player_a(), &mut frame);
    assert_eq!(frame.to_vec(), encode(player_a(), b"pong"));
}
