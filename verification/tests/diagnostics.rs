use std::collections::hash_map::DefaultHasher;
use std::hash::{Hash, Hasher};
use udp_tunnel::diag::{hash, hex};

#[test]
fn hex_of_nothing_is_empty() {
    assert_eq!(hex(&[]), "");
}

#[test]
fn hex_of_one_byte_has_no_space() {
    assert_eq!(hex(&[0x0a]), "0a");
}

#[test]
fn hex_separates_bytes_with_one_space() {
    assert_eq!(hex(&[0x00, 0x9f, 0xa0, 0xff, 0x10]), "00 9f a0 ff 10");
}

#[test]
fn hash_is_the_default_hasher_digest_of_the_slice() {
    let bytes: &[u8] = b"ping-A";
    let mut hasher = DefaultHasher::new();
    bytes.hash(&mut hasher);
    assert_eq!(hash(bytes), hasher.finish());
}

#[test]
fn hash_tells_contents_apart() {
    assert_eq!(hash(b"pong"), hash(b"pong"));
    assert_ne!(hash(b"pong"), hash(b"ping"));
    assert_ne!(hash(b""), hash(b"\0"));
}
