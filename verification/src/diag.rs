//! Diagnostics for the operator's log: a hex dump and a content hash of a
//! payload. Neither has any effect on what is forwarded.

use std::collections::hash_map::DefaultHasher;
use std::hash::{Hash, Hasher};
use vstd::prelude::*;
use vstd::std_specs::hash::DefaultHasherAdditionalSpecFns;

verus! {

/// The lower-case hexadecimal digit for `n`, which is below sixteen.
pub open spec fn hex_digit_spec(n: int) -> char
    recommends
        0 <= n < 16,
{
    if n < 10 {
        ('0' as int + n) as char
    } else {
        ('a' as int + n - 10) as char
    }
}

/// The character at position `at` of a hex dump of `bytes`. Each byte takes
/// three positions: its high digit, its low digit, and a space.
pub open spec fn hex_char_at(bytes: Seq<u8>, at: int) -> char
    recommends
        0 <= at < 3 * bytes.len(),
{
    if at % 3 == 0 {
        hex_digit_spec(bytes[at / 3] as int / 16)
    } else if at % 3 == 1 {
        hex_digit_spec(bytes[at / 3] as int % 16)
    } else {
        ' '
    }
}

/// The hex dump of `bytes`: two lower-case digits per byte, one space between
/// neighbours, none at either end. The dump of no bytes is empty.
pub open spec fn hex_spec(bytes: Seq<u8>) -> Seq<char> {
    Seq::new(
        if bytes.len() == 0 {
            0nat
        } else {
            (3 * bytes.len() - 1) as nat
        },
        |at: int| hex_char_at(bytes, at),
    )
}

/// Calls `String::push`. Trusted: the string grows by exactly `c` at its end.
#[verifier::external_body]
fn push_char(text: &mut String, c: char)
    ensures
        final(text)@ == old(text)@.push(c),
{
    text.push(c);
}

fn hex_digit(n: u8) -> (c: char)
    requires
        n < 16,
    ensures
        c == hex_digit_spec(n as int),
{
    if n < 10 {
        (48u8 + n) as char
    } else {
        (87u8 + n) as char
    }
}

/// Renders `bytes` as a hex dump.
pub fn hex(bytes: &[u8]) -> (text: String)
    ensures
        text@ == hex_spec(bytes@),
{
    let mut text = String::new();
    let mut i: usize = 0;
    while i < bytes.len()
        invariant
            i <= bytes@.len(),
            text@ == hex_spec(bytes@.take(i as int)),
        decreases bytes@.len() - i,
    {
        let byte = bytes[i];
        let ghost before = text@;
        if i > 0 {
            push_char(&mut text, ' ');
        }
        push_char(&mut text, hex_digit(byte / 16));
        push_char(&mut text, hex_digit(byte % 16));
        assert(text@ =~= hex_spec(bytes@.take(i + 1))) by {
            let done = bytes@.take(i as int);
            let next = bytes@.take(i + 1);
            assert forall|at: int| 0 <= at < before.len() implies hex_char_at(next, at)
                == hex_char_at(done, at) by {
                assert(at / 3 < i);
            }
        }
        i += 1;
    }
    assert(bytes@.take(i as int) =~= bytes@);
    text
}

/// The writes a `DefaultHasher` in state `state` has seen once the standard
/// library has hashed the byte slice `bytes` into it. Which writes these are
/// is the standard library's business, for the platform it was built for.
pub uninterp spec fn hasher_fed(state: Seq<Seq<u8>>, bytes: Seq<u8>) -> Seq<Seq<u8>>;

/// Calls `<[u8] as Hash>::hash`. Trusted: what the hasher has seen afterwards
/// depends only on what it had seen before and on the bytes. Nothing is
/// claimed of which writes were made.
#[verifier::external_body]
fn feed_slice(state: &mut DefaultHasher, bytes: &[u8])
    ensures
        final(state)@ == hasher_fed(old(state)@, bytes@),
{
    bytes.hash(state);
}

/// The digest of `bytes`: what a fresh `DefaultHasher` finishes with after
/// the byte slice was hashed into it.
pub open spec fn hash_spec(bytes: Seq<u8>) -> u64 {
    DefaultHasher::spec_finish(hasher_fed(Seq::empty(), bytes))
}

/// A non-cryptographic digest of `bytes`, the same for equal contents. It
/// serves to tell payloads apart in a log, not to protect them.
pub fn hash(bytes: &[u8]) -> (digest: u64)
    ensures
        digest == hash_spec(bytes@),
{
    let mut hasher = DefaultHasher::new();
    feed_slice(&mut hasher, bytes);
    hasher.finish()
}

} // verus!
