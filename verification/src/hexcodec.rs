//! Accumulator state codec: the hexadecimal transport encoding.
//!
//! Every tree, witness and nullifier payload crosses the call boundary as
//! a hex string wrapping its binary form. Encoding and decoding are done
//! by the `hex` crate behind trusted wrappers whose contracts state the
//! exact digit-level behaviour, and the round trip is proved from them.

use crate::ShieldError;
use vstd::prelude::*;

verus! {

/// The lowercase hexadecimal digit character for a value below sixteen.
pub open spec fn hex_digit_char(v: nat) -> char {
    if v == 0 {
        '0'
    } else if v == 1 {
        '1'
    } else if v == 2 {
        '2'
    } else if v == 3 {
        '3'
    } else if v == 4 {
        '4'
    } else if v == 5 {
        '5'
    } else if v == 6 {
        '6'
    } else if v == 7 {
        '7'
    } else if v == 8 {
        '8'
    } else if v == 9 {
        '9'
    } else if v == 10 {
        'a'
    } else if v == 11 {
        'b'
    } else if v == 12 {
        'c'
    } else if v == 13 {
        'd'
    } else if v == 14 {
        'e'
    } else if v == 15 {
        'f'
    } else {
        '0'
    }
}

/// The hex encoding of a byte sequence: each byte becomes two lowercase
/// digits, high nibble first.
pub open spec fn hex_str_of(b: Seq<u8>) -> Seq<char> {
    Seq::new(
        2 * b.len(),
        |i: int|
            if i % 2 == 0 {
                hex_digit_char((b[i / 2] >> 4) as nat)
            } else {
                hex_digit_char((b[i / 2] & 0x0f) as nat)
            },
    )
}

/// Whether a character is a hexadecimal digit, in either case.
pub open spec fn is_hex_digit(c: char) -> bool {
    ('0' as u32 <= c as u32 && c as u32 <= '9' as u32) || ('a' as u32 <= c as u32 && c as u32
        <= 'f' as u32) || ('A' as u32 <= c as u32 && c as u32 <= 'F' as u32)
}

/// The value of a hexadecimal digit character.
pub open spec fn hex_val(c: char) -> nat {
    if '0' as u32 <= c as u32 && c as u32 <= '9' as u32 {
        (c as u32 - '0' as u32) as nat
    } else if 'a' as u32 <= c as u32 && c as u32 <= 'f' as u32 {
        (c as u32 - 'a' as u32 + 10) as nat
    } else if 'A' as u32 <= c as u32 && c as u32 <= 'F' as u32 {
        (c as u32 - 'A' as u32 + 10) as nat
    } else {
        0
    }
}

/// Whether a character sequence is a well-formed hex payload: even length,
/// hexadecimal digits only.
pub open spec fn hex_valid(s: Seq<char>) -> bool {
    s.len() % 2 == 0 && (forall|i: int| 0 <= i < s.len() ==> is_hex_digit(#[trigger] s[i]))
}

/// The bytes a well-formed hex payload stands for: each digit pair becomes
/// one byte, high nibble first.
pub open spec fn hex_bytes_of(s: Seq<char>) -> Seq<u8> {
    Seq::new(s.len() / 2, |i: int| (hex_val(s[2 * i]) * 16 + hex_val(s[2 * i + 1])) as u8)
}

#[verifier::external_type_specification]
#[verifier::external_body]
pub struct ExFromHexError(hex::FromHexError);

/// Relies on hex::encode: each input byte becomes two lowercase
/// hexadecimal digits, high nibble first, in input order.
#[verifier::external_body]
fn hex_encode(bytes: &[u8]) -> (r: String)
    ensures
        r@ == hex_str_of(bytes@),
{
    hex::encode(bytes)
}

/// Relies on hex::decode: it succeeds exactly on inputs of even length
/// whose characters are all hexadecimal digits (either case, so all
/// ASCII), and then maps each digit pair to one byte, high nibble first;
/// it fails on an odd length or on any other character.
#[verifier::external_body]
fn hex_decode(s: &str) -> (r: Result<Vec<u8>, hex::FromHexError>)
    ensures
        r is Ok <==> hex_valid(s@),
        r is Ok ==> r->Ok_0@ == hex_bytes_of(s@),
{
    hex::decode(s)
}

/// Encode bytes as a lowercase hex string for transport.
pub fn encode_hex(bytes: &[u8]) -> (r: String)
    ensures
        r@ == hex_str_of(bytes@),
{
    hex_encode(bytes)
}

/// Decode a hex transport string back to bytes. Fails with a decode error
/// exactly when the payload is malformed: odd length or a non-hex
/// character.
pub fn decode_hex(s: &str) -> (r: Result<Vec<u8>, ShieldError>)
    ensures
        r is Ok <==> hex_valid(s@),
        r is Ok ==> r->Ok_0@ == hex_bytes_of(s@),
        r is Err ==> r->Err_0 == ShieldError::Decode,
{
    match hex_decode(s) {
        Ok(v) => Ok(v),
        Err(_) => Err(ShieldError::Decode),
    }
}

/// Law: the hex codec round-trips. The encoding of any byte sequence is a
/// well-formed hex payload, and decoding it yields the original bytes, so
/// a serialized accumulator or witness survives transport byte-identical.
pub proof fn lemma_hex_round_trip(b: Seq<u8>)
    ensures
        hex_str_of(b).len() == 2 * b.len(),
        hex_valid(hex_str_of(b)),
        hex_bytes_of(hex_str_of(b)) == b,
{
    let s = hex_str_of(b);
    assert forall|i: int| 0 <= i < s.len() implies is_hex_digit(#[trigger] s[i]) by {
        let x = b[i / 2];
        assert((x >> 4) < 16 && (x & 0x0f) < 16) by (bit_vector);
    }
    assert forall|i: int| 0 <= i < b.len() implies hex_bytes_of(s)[i] == b[i] by {
        let x = b[i];
        assert((x >> 4) < 16 && (x & 0x0f) < 16) by (bit_vector);
        assert(s[2 * i] == hex_digit_char((x >> 4) as nat));
        assert(s[2 * i + 1] == hex_digit_char((x & 0x0f) as nat));
        assert(((x >> 4) as nat * 16 + (x & 0x0f) as nat) as u8 == x) by (bit_vector);
    }
    assert(hex_bytes_of(s) =~= b);
}

} // verus!
