//! Session key
//!
//! A second-generation bootloader expects the data of every flash packet to
//! be masked with a key that both sides derive from a random challenge.

use rand::Rng;
use vstd::prelude::*;

use crate::frame::{checksum, checksum_of};

verus! {

/// Number of bytes in the session key.
pub const KEY_LENGTH: usize = 8;

/// Number of random bytes in the challenge.
pub const NONCE_LENGTH: usize = 48;

/// The key-exchange request that carries `nonce`: the opcode, the length of
/// the challenge, a zero, and the challenge itself.
pub open spec fn key_request_of(nonce: Seq<u8>) -> Seq<u8> {
    seq![0xA3u8, 0x30, 0x00] + nonce
}

/// The byte that both sides mix into the key: the checksum over bytes 22 to
/// 25 of the configuration reply.
pub open spec fn key_seed_of(config: Seq<u8>) -> u8 {
    checksum_of(config.subrange(22, 26))
}

/// The session key for the challenge `nonce`. Seven bytes are picked from the
/// key-exchange request at places fixed by its length byte `0x30` and masked
/// with `seed`; the eighth is the chip identifier plus the first, modulo 256.
pub open spec fn session_key(nonce: Seq<u8>, seed: u8, chip_id: u8) -> Seq<u8> {
    let request = key_request_of(nonce);
    let span = 0x30int;
    let first = request[3 + (span / 7) * 4] ^ seed;
    seq![
        first,
        request[3 + (span / 5)] ^ seed,
        request[3 + (span / 7)] ^ seed,
        request[3 + (span / 7) * 6] ^ seed,
        request[3 + (span / 7) * 3] ^ seed,
        request[3 + (span / 5) * 3] ^ seed,
        request[3 + (span / 7) * 5] ^ seed,
        ((chip_id + first) % 256) as u8,
    ]
}

/// Whether the chip's reply to the key exchange confirms `key`: its byte 4
/// is the checksum of the key.
pub open spec fn key_confirmed(reply: Seq<u8>, key: Seq<u8>) -> bool {
    reply.len() > 4 && reply[4] == checksum_of(key)
}

/// One byte from the thread-local generator of the `rand` crate
/// (`rand::thread_rng()`, then `Rng::gen`). The generator is seeded by the
/// operating system, so nothing is claimed of the byte. The generator gives
/// up with a panic if the operating system has no entropy for it, be it for
/// the seed at its first use in a thread or for a later reseed.
#[verifier::external_body]
fn random_byte() -> (byte: u8) {
    rand::thread_rng().gen()
}

/// Draws a fresh challenge. Every value of it is possible.
pub fn fresh_nonce() -> (nonce: [u8; 48]) {
    let mut nonce: [u8; 48] = [0; 48];
    let mut index: usize = 0;
    while index < NONCE_LENGTH
        invariant
            index <= NONCE_LENGTH,
        decreases NONCE_LENGTH - index,
    {
        nonce[index] = random_byte();
        index += 1;
    }
    nonce
}

/// Builds the key-exchange request around `nonce`.
pub fn key_request(nonce: &[u8; 48]) -> (request: Vec<u8>)
    ensures
        request@ == key_request_of(nonce@),
        request.len() == 3 + NONCE_LENGTH,
{
    let mut request: Vec<u8> = Vec::new();
    request.push(0xA3);
    request.push(0x30);
    request.push(0x00);
    let mut index: usize = 0;
    while index < NONCE_LENGTH
        invariant
            index <= NONCE_LENGTH,
            request@ == seq![0xA3u8, 0x30, 0x00] + nonce@.take(index as int),
        decreases NONCE_LENGTH - index,
    {
        request.push(nonce[index]);
        index += 1;
    }
    assert(nonce@.take(index as int) =~= nonce@);
    request
}

/// Computes the seed from a configuration reply of the second generation.
pub fn key_seed(config: &[u8]) -> (seed: u8)
    requires
        config.len() >= 26,
    ensures
        seed == key_seed_of(config@),
{
    let window = vstd::slice::slice_subrange(config, 22, 26);
    checksum(window)
}

/// Derives the session key from the challenge, the seed and the chip
/// identifier.
pub fn derive_key(nonce: &[u8; 48], seed: u8, chip_id: u8) -> (key: [u8; 8])
    ensures
        key@ == session_key(nonce@, seed, chip_id),
{
    let request = key_request(nonce);
    let span: usize = 0x30;
    let first = request[3 + (span / 7) * 4] ^ seed;
    let key: [u8; 8] = [
        first,
        request[3 + (span / 5)] ^ seed,
        request[3 + (span / 7)] ^ seed,
        request[3 + (span / 7) * 6] ^ seed,
        request[3 + (span / 7) * 3] ^ seed,
        request[3 + (span / 5) * 3] ^ seed,
        request[3 + (span / 7) * 5] ^ seed,
        chip_id.wrapping_add(first),
    ];
    assert(key@ =~= session_key(nonce@, seed, chip_id));
    key
}

/// Tells whether the chip's reply to the key exchange confirms `key`.
pub fn confirms_key(reply: &[u8], key: &[u8; 8]) -> (confirmed: bool)
    ensures
        confirmed == key_confirmed(reply@, key@),
{
    reply.len() > 4 && reply[4] == checksum(key)
}

/// The key is a function of the challenge, the seed and the chip identifier
/// alone: the same three give the same key and the same key checksum.
pub proof fn lemma_key_is_deterministic(
    nonce: Seq<u8>,
    again: Seq<u8>,
    seed: u8,
    chip_id: u8,
)
    requires
        nonce.len() == NONCE_LENGTH,
        nonce =~= again,
    ensures
        session_key(nonce, seed, chip_id) == session_key(again, seed, chip_id),
        checksum_of(session_key(nonce, seed, chip_id)) == checksum_of(
            session_key(again, seed, chip_id),
        ),
        session_key(nonce, seed, chip_id).len() == KEY_LENGTH,
{
}

} // verus!
