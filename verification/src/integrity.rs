//! The integrity layer: every wire envelope carries a tamper-evident digest
//! over its command name, payload length, and serialized payload.

use vstd::prelude::*;
use vstd::utf8::encode_utf8;

use sha2::Digest;

use crate::decimal::{spec_udec, usize_to_dec};

verus! {

/// The SHA-512 digest of a byte sequence. Depends on the bytes alone.
pub uninterp spec fn sha512_of(bytes: Seq<u8>) -> Seq<u8>;

/// Relies on sha2's `Sha512` through `Digest::digest`: a pure function of the
/// input bytes whose output is 64 bytes, SHA-512's documented digest size.
#[verifier::external_body]
fn sha512_bytes(input: &[u8]) -> (r: Vec<u8>)
    ensures
        r@ == sha512_of(input@),
        r@.len() == 64,
{
    sha2::Sha512::digest(input).to_vec()
}

/// The character for one hexadecimal digit, lowercase.
pub open spec fn hex_digit(d: nat) -> char
    recommends
        d < 16,
{
    if d < 10 {
        crate::decimal::dec_digit(d)
    } else if d == 10 {
        'a'
    } else if d == 11 {
        'b'
    } else if d == 12 {
        'c'
    } else if d == 13 {
        'd'
    } else if d == 14 {
        'e'
    } else {
        'f'
    }
}

/// The two hex characters of one byte, high nibble first.
pub open spec fn hex_of_byte(b: u8) -> Seq<char> {
    seq![hex_digit(b as nat / 16), hex_digit(b as nat % 16)]
}

/// The lowercase hex rendering of a byte sequence.
pub open spec fn hex_of(bytes: Seq<u8>) -> Seq<char>
    decreases bytes,
{
    if bytes.len() == 0 {
        Seq::empty()
    } else {
        hex_of(bytes.drop_last()) + hex_of_byte(bytes.last())
    }
}

/// The one-character string for a hex digit.
fn hex_digit_str(d: u8) -> (r: &'static str)
    requires
        d < 16,
    ensures
        r@ == seq![hex_digit(d as nat)],
{
    if d < 10 {
        crate::decimal::digit_str(d as u64)
    } else {
        proof {
            reveal_strlit("a");
            reveal_strlit("b");
            reveal_strlit("c");
            reveal_strlit("d");
            reveal_strlit("e");
            reveal_strlit("f");
        }
        let r = match d {
            10 => "a",
            11 => "b",
            12 => "c",
            13 => "d",
            14 => "e",
            _ => "f",
        };
        proof {
            assert(r@ =~= seq![hex_digit(d as nat)]);
        }
        r
    }
}

/// Renders bytes as lowercase hex, two characters per byte.
#[verifier::loop_isolation(false)]
pub fn bytes_to_hex(bytes: &Vec<u8>) -> (r: String)
    ensures
        r@ == hex_of(bytes@),
{
    let mut out = String::new();
    let mut i: usize = 0;
    while i < bytes.len()
        invariant
            0 <= i <= bytes@.len(),
            out@ == hex_of(bytes@.take(i as int)),
        decreases bytes@.len() - i,
    {
        let b = bytes[i];
        out.append(hex_digit_str(b / 16));
        out.append(hex_digit_str(b % 16));
        proof {
            let taken = bytes@.take(i + 1);
            assert(taken.drop_last() =~= bytes@.take(i as int));
            assert(taken.last() == bytes@[i as int]);
            assert(out@ =~= hex_of(bytes@.take(i + 1)));
        }
        i = i + 1;
    }
    proof {
        assert(bytes@.take(bytes@.len() as int) =~= bytes@);
    }
    out
}

/// Whether a character is a lowercase hexadecimal digit.
pub open spec fn is_hex_char(c: char) -> bool {
    (48 <= c as u32 <= 57) || (97 <= c as u32 <= 102)
}

/// A hex rendering is two characters per byte, all of them lowercase hex
/// digits.
pub proof fn lemma_hex_of_shape(bytes: Seq<u8>)
    ensures
        hex_of(bytes).len() == 2 * bytes.len(),
        forall|i: int| 0 <= i < hex_of(bytes).len() ==> is_hex_char(#[trigger] hex_of(bytes)[i]),
    decreases bytes,
{
    if bytes.len() > 0 {
        lemma_hex_of_shape(bytes.drop_last());
        let b = bytes.last();
        assert(is_hex_char(hex_digit(b as nat / 16)));
        assert(is_hex_char(hex_digit(b as nat % 16)));
    }
}

/// The integrity digest of a string: the SHA-512 digest of its UTF-8 bytes,
/// rendered as lowercase hex.
pub open spec fn sha512_hex(s: Seq<char>) -> Seq<char> {
    hex_of(sha512_of(encode_utf8(s)))
}

/// Computes the integrity digest of a string: 128 lowercase hexadecimal
/// characters.
pub fn calculate_hash(input: String) -> (r: String)
    ensures
        r@ == sha512_hex(input@),
        r@.len() == 128,
        forall|i: int| 0 <= i < r@.len() ==> is_hex_char(#[trigger] r@[i]),
{
    let digest = sha512_bytes(input.as_str().as_bytes());
    proof {
        lemma_hex_of_shape(digest@);
    }
    bytes_to_hex(&digest)
}

/// What an envelope's digest covers: the command name, then the payload
/// length in decimal, then the serialized payload.
pub open spec fn hash_input(command: Seq<char>, length: nat, payload: Seq<char>) -> Seq<char> {
    command + spec_udec(length) + payload
}

/// Computes the digest an envelope must carry for a command name, a payload
/// length, and a serialized payload.
pub fn envelope_hash(command: &str, length: usize, payload: &str) -> (r: String)
    ensures
        r@ == sha512_hex(hash_input(command@, length as nat, payload@)),
{
    let mut input = command.to_owned();
    input.append(usize_to_dec(length).as_str());
    input.append(payload);
    proof {
        assert(input@ =~= hash_input(command@, length as nat, payload@));
    }
    calculate_hash(input)
}

/// Decides whether a claimed digest matches the digest of the given command
/// name, payload length, and serialized payload.
pub fn verify_envelope_hash(claimed: &String, command: &str, length: usize, payload: &str) -> (r:
    bool)
    ensures
        r == (claimed@ == sha512_hex(hash_input(command@, length as nat, payload@))),
{
    let expected = envelope_hash(command, length, payload);
    *claimed == expected
}

/// The integrity digest is a function of command, length, and payload alone:
/// equal inputs give equal digests, whoever computes them.
pub proof fn lemma_hash_deterministic(
    c1: Seq<char>,
    l1: nat,
    p1: Seq<char>,
    c2: Seq<char>,
    l2: nat,
    p2: Seq<char>,
)
    requires
        c1 == c2,
        l1 == l2,
        p1 == p2,
    ensures
        sha512_hex(hash_input(c1, l1, p1)) == sha512_hex(hash_input(c2, l2, p2)),
{
}

} // verus!
