//! Player endpoints and their big-endian wire form.

use vstd::prelude::*;

verus! {

/// Number of bytes an address occupies on the tunnel link.
pub const HEADER_LEN: usize = 6;

/// The IPv4 endpoint a player is seen at: the address as a 32-bit number
/// (first octet most significant) and the UDP port.
#[derive(Clone, Copy, Debug, PartialEq, Eq, Hash, Structural)]
pub struct PlayerAddress {
    pub ip: u32,
    pub port: u16,
}

/// The four bytes of `x`, most significant first.
pub open spec fn be_bytes_u32(x: u32) -> Seq<u8> {
    seq![
        (x / 0x100_0000) as u8,
        (x / 0x1_0000 % 0x100) as u8,
        (x / 0x100 % 0x100) as u8,
        (x % 0x100) as u8,
    ]
}

/// The two bytes of `x`, most significant first.
pub open spec fn be_bytes_u16(x: u16) -> Seq<u8> {
    seq![(x / 0x100) as u8, (x % 0x100) as u8]
}

/// The number whose big-endian bytes are `b0 b1 b2 b3`.
pub open spec fn u32_from_be(b0: u8, b1: u8, b2: u8, b3: u8) -> u32 {
    (b0 * 0x100_0000 + b1 * 0x1_0000 + b2 * 0x100 + b3) as u32
}

/// The number whose big-endian bytes are `b0 b1`.
pub open spec fn u16_from_be(b0: u8, b1: u8) -> u16 {
    (b0 * 0x100 + b1) as u16
}

impl PlayerAddress {
    /// The six header bytes of this address: the IPv4 address, then the port,
    /// both in network byte order.
    pub open spec fn header_spec(self) -> Seq<u8> {
        be_bytes_u32(self.ip) + be_bytes_u16(self.port)
    }

    /// The address that the first six bytes of `bytes` spell.
    pub open spec fn from_header_spec(bytes: Seq<u8>) -> PlayerAddress
        recommends
            bytes.len() >= HEADER_LEN,
    {
        PlayerAddress {
            ip: u32_from_be(bytes[0], bytes[1], bytes[2], bytes[3]),
            port: u16_from_be(bytes[4], bytes[5]),
        }
    }

    /// The address as one number: the IPv4 address above the port.
    pub open spec fn key_spec(self) -> u64 {
        (self.ip * 0x1_0000 + self.port) as u64
    }

    pub fn new(ip: u32, port: u16) -> (addr: PlayerAddress)
        ensures
            addr.ip == ip,
            addr.port == port,
    {
        PlayerAddress { ip, port }
    }

    /// Builds an address from dotted-quad octets, first octet first.
    pub fn from_octets(octets: [u8; 4], port: u16) -> (addr: PlayerAddress)
        ensures
            addr.ip == u32_from_be(octets[0], octets[1], octets[2], octets[3]),
            addr.port == port,
    {
        let ip = join_u32(octets[0], octets[1], octets[2], octets[3]);
        PlayerAddress { ip, port }
    }

    /// The dotted-quad octets of the IPv4 address, first octet first.
    pub fn octets(&self) -> (octets: [u8; 4])
        ensures
            octets@ == be_bytes_u32(self.ip),
    {
        let (b0, b1, b2, b3) = split_u32(self.ip);
        let octets = [b0, b1, b2, b3];
        assert(octets@ =~= be_bytes_u32(self.ip));
        octets
    }

    /// The header that stands for this address on the tunnel link.
    pub fn header(&self) -> (header: [u8; 6])
        ensures
            header@ == self.header_spec(),
    {
        let (b0, b1, b2, b3) = split_u32(self.ip);
        let (p0, p1) = split_u16(self.port);
        let header = [b0, b1, b2, b3, p0, p1];
        assert(header@ =~= self.header_spec());
        header
    }

    /// Reads an address back from a header.
    pub fn from_header(header: &[u8; 6]) -> (addr: PlayerAddress)
        ensures
            addr == PlayerAddress::from_header_spec(header@),
    {
        PlayerAddress {
            ip: join_u32(header[0], header[1], header[2], header[3]),
            port: join_u16(header[4], header[5]),
        }
    }

    /// A single integer that identifies the address; distinct addresses have
    /// distinct keys.
    pub fn key(&self) -> (key: u64)
        ensures
            key == self.key_spec(),
    {
        let ip = self.ip as u64;
        let port = self.port as u64;
        ip * 0x1_0000 + port
    }
}

/// Splits `x` into its bytes, most significant first.
fn split_u32(x: u32) -> (b: (u8, u8, u8, u8))
    ensures
        seq![b.0, b.1, b.2, b.3] == be_bytes_u32(x),
{
    assert(x >> 24 == x / 0x100_0000 && (x >> 24) < 0x100) by (bit_vector);
    assert((x >> 16) & 0xff == x / 0x1_0000 % 0x100) by (bit_vector);
    assert((x >> 8) & 0xff == x / 0x100 % 0x100) by (bit_vector);
    assert(x & 0xff == x % 0x100) by (bit_vector);
    let b0 = (x >> 24) as u8;
    let b1 = ((x >> 16) & 0xff) as u8;
    let b2 = ((x >> 8) & 0xff) as u8;
    let b3 = (x & 0xff) as u8;
    assert(seq![b0, b1, b2, b3] =~= be_bytes_u32(x));
    (b0, b1, b2, b3)
}

/// Splits `x` into its bytes, most significant first.
fn split_u16(x: u16) -> (b: (u8, u8))
    ensures
        seq![b.0, b.1] == be_bytes_u16(x),
{
    assert(x >> 8 == x / 0x100 && (x >> 8) < 0x100) by (bit_vector);
    assert(x & 0xff == x % 0x100) by (bit_vector);
    let b0 = (x >> 8) as u8;
    let b1 = (x & 0xff) as u8;
    assert(seq![b0, b1] =~= be_bytes_u16(x));
    (b0, b1)
}

/// Joins four bytes, most significant first, into one number.
fn join_u32(b0: u8, b1: u8, b2: u8, b3: u8) -> (x: u32)
    ensures
        x == u32_from_be(b0, b1, b2, b3),
{
    let w0 = b0 as u32;
    let w1 = b1 as u32;
    let w2 = b2 as u32;
    let w3 = b3 as u32;
    w0 * 0x100_0000 + w1 * 0x1_0000 + w2 * 0x100 + w3
}

/// Joins two bytes, most significant first, into one number.
fn join_u16(b0: u8, b1: u8) -> (x: u16)
    ensures
        x == u16_from_be(b0, b1),
{
    let w0 = b0 as u16;
    let w1 = b1 as u16;
    w0 * 0x100 + w1
}

/// Splitting a number into big-endian bytes and joining them again gives the
/// number back.
pub proof fn lemma_join_split_u32(x: u32)
    ensures
        be_bytes_u32(x).len() == 4,
        u32_from_be(be_bytes_u32(x)[0], be_bytes_u32(x)[1], be_bytes_u32(x)[2], be_bytes_u32(x)[3])
            == x,
{
}

/// Splitting a number into big-endian bytes and joining them again gives the
/// number back.
pub proof fn lemma_join_split_u16(x: u16)
    ensures
        be_bytes_u16(x).len() == 2,
        u16_from_be(be_bytes_u16(x)[0], be_bytes_u16(x)[1]) == x,
{
}

/// Joining big-endian bytes and splitting the number again gives the bytes
/// back.
pub proof fn lemma_split_join_u32(b0: u8, b1: u8, b2: u8, b3: u8)
    ensures
        be_bytes_u32(u32_from_be(b0, b1, b2, b3)) == seq![b0, b1, b2, b3],
{
    let x = u32_from_be(b0, b1, b2, b3);
    let low3: int = b1 * 0x1_0000 + b2 * 0x100 + b3;
    let low2: int = b2 * 0x100 + b3;
    assert(x == b0 * 0x100_0000 + low3 && 0 <= low3 < 0x100_0000);
    assert(x / 0x100_0000 == b0);
    assert(x / 0x1_0000 == b0 * 0x100 + b1) by {
        assert(x == (b0 * 0x100 + b1) * 0x1_0000 + low2 && 0 <= low2 < 0x1_0000);
    }
    assert(x / 0x100 == b0 * 0x1_0000 + b1 * 0x100 + b2) by {
        assert(x == (b0 * 0x1_0000 + b1 * 0x100 + b2) * 0x100 + b3);
    }
    assert(be_bytes_u32(x) =~= seq![b0, b1, b2, b3]);
}

/// Joining big-endian bytes and splitting the number again gives the bytes
/// back.
pub proof fn lemma_split_join_u16(b0: u8, b1: u8)
    ensures
        be_bytes_u16(u16_from_be(b0, b1)) == seq![b0, b1],
{
    assert(be_bytes_u16(u16_from_be(b0, b1)) =~= seq![b0, b1]);
}

/// Distinct addresses have distinct keys.
pub proof fn lemma_key_injective(a: PlayerAddress, b: PlayerAddress)
    ensures
        a.key_spec() == b.key_spec() <==> a == b,
{
}

} // verus!
