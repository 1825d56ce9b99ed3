//! The challenge-response handshake that opens a session with a metrics agent.
//!
//! The agent sends an 8-byte challenge, this service answers with the scrambled
//! challenge, and the agent confirms by echoing the answer; all three are
//! little-endian `u64`s.
use vstd::prelude::*;

verus! {

/// The scrambling the agent expects: mix in a fixed key, swap the two nibbles
/// of every byte, then mix in a second key.
pub open spec fn scrambled(input_number: u64) -> u64 {
    let out = input_number ^ 0xDEADBEEFCu64;
    let out = ((out & 0xF0F0F0F0F0F0F0F0u64) >> 4u64) | ((out & 0x0F0F0F0F0F0F0F0Fu64) << 4u64);
    out ^ 0xC0DEFACE12345678u64
}

/// The answer to a handshake challenge.
pub fn scramble(input_number: u64) -> (out: u64)
    ensures
        out == scrambled(input_number),
        out == ((((input_number ^ 0xDEADBEEFCu64) & 0xF0F0F0F0F0F0F0F0u64) >> 4u64) | (((
        input_number ^ 0xDEADBEEFCu64) & 0x0F0F0F0F0F0F0F0Fu64) << 4u64)) ^ 0xC0DEFACE12345678u64,
{
    let mut out = input_number ^ 0xDEADBEEFCu64;
    out = ((out & 0xF0F0F0F0F0F0F0F0u64) >> 4u64) | ((out & 0x0F0F0F0F0F0F0F0Fu64) << 4u64);
    out ^ 0xC0DEFACE12345678u64
}

/// The scrambling is exactly this fixed bitwise formula: the key `0xDEADBEEFC` is
/// mixed in, the nibbles of every byte are swapped, and `0xC0DEFACE12345678` is
/// mixed in.
pub proof fn lemma_scramble_formula(x: u64)
    ensures
        scrambled(x) == ((((x ^ 0xDEADBEEFCu64) & 0xF0F0F0F0F0F0F0F0u64) >> 4u64) | (((x
            ^ 0xDEADBEEFCu64) & 0x0F0F0F0F0F0F0F0Fu64) << 4u64)) ^ 0xC0DEFACE12345678u64,
{
}

/// Two different challenges never get the same answer: every bit of the
/// challenge, the top one included, shows in the answer.
pub proof fn lemma_scramble_injective(x: u64, y: u64)
    requires
        x != y,
    ensures
        scrambled(x) != scrambled(y),
{
    lemma_scramble_formula(x);
    lemma_scramble_formula(y);
    assert(((((x ^ 0xDEADBEEFCu64) & 0xF0F0F0F0F0F0F0F0u64) >> 4u64) | (((x ^ 0xDEADBEEFCu64)
        & 0x0F0F0F0F0F0F0F0Fu64) << 4u64)) ^ 0xC0DEFACE12345678u64 != ((((y ^ 0xDEADBEEFCu64)
        & 0xF0F0F0F0F0F0F0F0u64) >> 4u64) | (((y ^ 0xDEADBEEFCu64) & 0x0F0F0F0F0F0F0F0Fu64)
        << 4u64)) ^ 0xC0DEFACE12345678u64) by (bit_vector)
        requires
            x != y,
    ;
}

/// Flipping the top bit of a challenge changes its answer.
pub proof fn lemma_scramble_top_bit(x: u64)
    ensures
        scrambled(x) != scrambled(x ^ 0x8000000000000000u64),
{
    assert(x != x ^ 0x8000000000000000u64) by (bit_vector);
    lemma_scramble_injective(x, x ^ 0x8000000000000000u64);
}

/// The eight little-endian bytes of `x`.
pub open spec fn le64(x: u64) -> Seq<u8> {
    seq![
        (x & 0xff) as u8,
        ((x >> 8) & 0xff) as u8,
        ((x >> 16) & 0xff) as u8,
        ((x >> 24) & 0xff) as u8,
        ((x >> 32) & 0xff) as u8,
        ((x >> 40) & 0xff) as u8,
        ((x >> 48) & 0xff) as u8,
        ((x >> 56) & 0xff) as u8,
    ]
}

/// The `u64` whose little-endian bytes are the first eight of `b`.
pub open spec fn from_le64(b: Seq<u8>) -> u64
    recommends
        b.len() >= 8,
{
    (b[0] as u64) | ((b[1] as u64) << 8) | ((b[2] as u64) << 16) | ((b[3] as u64) << 24) | ((
    b[4] as u64) << 32) | ((b[5] as u64) << 40) | ((b[6] as u64) << 48) | ((b[7] as u64) << 56)
}

/// Reading back the bytes of a `u64` gives the `u64`.
pub proof fn lemma_le64_roundtrip(x: u64)
    ensures
        le64(x).len() == 8,
        from_le64(le64(x)) == x,
{
    let b0 = (x & 0xff) as u8;
    let b1 = ((x >> 8) & 0xff) as u8;
    let b2 = ((x >> 16) & 0xff) as u8;
    let b3 = ((x >> 24) & 0xff) as u8;
    let b4 = ((x >> 32) & 0xff) as u8;
    let b5 = ((x >> 40) & 0xff) as u8;
    let b6 = ((x >> 48) & 0xff) as u8;
    let b7 = ((x >> 56) & 0xff) as u8;
    assert(((b0 as u64) | ((b1 as u64) << 8) | ((b2 as u64) << 16) | ((b3 as u64) << 24) | ((
    b4 as u64) << 32) | ((b5 as u64) << 40) | ((b6 as u64) << 48) | ((b7 as u64) << 56)) == x)
        by (bit_vector)
        requires
            b0 == (x & 0xff) as u8,
            b1 == ((x >> 8) & 0xff) as u8,
            b2 == ((x >> 16) & 0xff) as u8,
            b3 == ((x >> 24) & 0xff) as u8,
            b4 == ((x >> 32) & 0xff) as u8,
            b5 == ((x >> 40) & 0xff) as u8,
            b6 == ((x >> 48) & 0xff) as u8,
            b7 == ((x >> 56) & 0xff) as u8,
    ;
}

/// The `u64` carried by the 8 bytes of `bytes`.
pub fn read_le64(bytes: &[u8]) -> (x: u64)
    requires
        bytes@.len() == 8,
    ensures
        x == from_le64(bytes@),
{
    (bytes[0] as u64) | ((bytes[1] as u64) << 8) | ((bytes[2] as u64) << 16) | ((bytes[3] as u64)
        << 24) | ((bytes[4] as u64) << 32) | ((bytes[5] as u64) << 40) | ((bytes[6] as u64) << 48)
        | ((bytes[7] as u64) << 56)
}

/// The 8 little-endian bytes of `x`.
pub fn write_le64(x: u64) -> (bytes: Vec<u8>)
    ensures
        bytes@ == le64(x),
{
    let mut bytes: Vec<u8> = Vec::new();
    bytes.push((x & 0xff) as u8);
    bytes.push(((x >> 8) & 0xff) as u8);
    bytes.push(((x >> 16) & 0xff) as u8);
    bytes.push(((x >> 24) & 0xff) as u8);
    bytes.push(((x >> 32) & 0xff) as u8);
    bytes.push(((x >> 40) & 0xff) as u8);
    bytes.push(((x >> 48) & 0xff) as u8);
    bytes.push(((x >> 56) & 0xff) as u8);
    assert(bytes@ =~= le64(x));
    bytes
}

/// The answer this service owes to a challenge, as a number.
pub open spec fn expected_answer(challenge: Seq<u8>) -> u64 {
    scrambled(from_le64(challenge))
}

/// The 8 bytes to send back for the 8 challenge bytes.
pub fn handshake_answer(challenge: &[u8]) -> (answer: Vec<u8>)
    requires
        challenge@.len() == 8,
    ensures
        answer@ == le64(expected_answer(challenge@)),
{
    let n = read_le64(challenge);
    write_le64(scramble(n))
}

/// Whether the agent's confirmation echoes the answer to its challenge.
pub fn confirmation_matches(challenge: &[u8], confirmation: &[u8]) -> (ok: bool)
    requires
        challenge@.len() == 8,
        confirmation@.len() == 8,
    ensures
        ok == (from_le64(confirmation@) == expected_answer(challenge@)),
{
    read_le64(confirmation) == scramble(read_le64(challenge))
}

/// An agent that echoes exactly the bytes this service answered is accepted.
pub proof fn lemma_echoed_answer_is_accepted(challenge: Seq<u8>)
    ensures
        from_le64(le64(expected_answer(challenge))) == expected_answer(challenge),
{
    lemma_le64_roundtrip(expected_answer(challenge));
}

} // verus!
