//! Secrets: the tokens that agents check in with, and how they are compared.

use vstd::prelude::*;
use vstd::slice::*;
use vstd::string::*;

verus! {

/// `subtle`'s `ct_eq` on byte slices, turned into a `bool`: true exactly
/// when the two slices have the same length and the same bytes. Slices of
/// different lengths are told apart at once; slices of one length are
/// compared without a branch on their contents.
#[verifier::external_body]
fn ct_eq_bytes(a: &[u8], b: &[u8]) -> (r: bool)
    ensures
        r == (a@ == b@),
{
    subtle::ConstantTimeEq::ct_eq(a, b).into()
}

/// Whether the token that a client supplied is the stored one, decided
/// over the bytes of the two by a comparison that takes the same time
/// whether or not tokens of equal length agree.
pub fn tokens_match(stored: &str, supplied: &str) -> (r: bool)
    ensures
        r == (stored@ == supplied@),
{
    let r = ct_eq_bytes(stored.as_bytes(), supplied.as_bytes());
    proof {
        vstd::utf8::encode_utf8_decode_utf8(stored@);
        vstd::utf8::encode_utf8_decode_utf8(supplied@);
    }
    r
}

/// The character that writes a value from 0 to 15 as a lower-case
/// hexadecimal digit.
pub open spec fn hex_digit(n: int) -> char {
    if n == 0 {
        '0'
    } else if n == 1 {
        '1'
    } else if n == 2 {
        '2'
    } else if n == 3 {
        '3'
    } else if n == 4 {
        '4'
    } else if n == 5 {
        '5'
    } else if n == 6 {
        '6'
    } else if n == 7 {
        '7'
    } else if n == 8 {
        '8'
    } else if n == 9 {
        '9'
    } else if n == 10 {
        'a'
    } else if n == 11 {
        'b'
    } else if n == 12 {
        'c'
    } else if n == 13 {
        'd'
    } else if n == 14 {
        'e'
    } else {
        'f'
    }
}

/// Whether `c` is a lower-case hexadecimal digit.
pub open spec fn is_hex_digit(c: char) -> bool {
    exists|n: int| 0 <= n < 16 && c == #[trigger] hex_digit(n)
}

/// Bytes written in hexadecimal: two lower-case digits for each byte, the
/// high half first.
pub open spec fn hex_text(bytes: Seq<u8>) -> Seq<char> {
    Seq::new(
        2 * bytes.len(),
        |i: int|
            if i % 2 == 0 {
                hex_digit(bytes[i / 2] as int / 16)
            } else {
                hex_digit(bytes[i / 2] as int % 16)
            },
    )
}

/// Whether a text has the form of an API token: 64 lower-case hexadecimal
/// digits.
pub open spec fn is_api_token(token: Seq<char>) -> bool {
    token.len() == 64 && forall|i: int| 0 <= i < 64 ==> is_hex_digit(#[trigger] token[i])
}

/// `rand`'s thread-local generator, asked for 32 bytes. Nothing is claimed
/// of the bytes but their number. The generator is seeded by the operating
/// system when a thread first uses it.
#[verifier::external_body]
fn random_token_bytes() -> (r: Vec<u8>)
    ensures
        r@.len() == 32,
{
    rand::Rng::gen::<[u8; 32]>(&mut rand::thread_rng()).to_vec()
}

/// `hex::encode`: every byte becomes two lower-case hexadecimal digits, in
/// order, so the text holds twice as many characters as there are bytes.
#[verifier::external_body]
fn hex_encode(data: &Vec<u8>) -> (r: String)
    ensures
        r@ == hex_text(data@),
{
    hex::encode(data)
}

/// The token that stands for `bytes`: their hexadecimal text.
pub fn encode_token(bytes: &Vec<u8>) -> (token: String)
    ensures
        token@ == hex_text(bytes@),
        token@.len() == 2 * bytes@.len(),
        forall|i: int| 0 <= i < token@.len() ==> is_hex_digit(#[trigger] token@[i]),
{
    let token = hex_encode(bytes);
    proof {
        assert forall|i: int| 0 <= i < token@.len() implies is_hex_digit(#[trigger] token@[i]) by {
            let n = if i % 2 == 0 {
                bytes@[i / 2] as int / 16
            } else {
                bytes@[i / 2] as int % 16
            };
            assert(token@[i] == hex_digit(n));
        }
    }
    token
}

/// A new API token: 32 random bytes as 64 lower-case hexadecimal digits.
pub fn generate_api_token() -> (token: String)
    ensures
        is_api_token(token@),
        token@.len() == 64,
        forall|i: int| 0 <= i < 64 ==> is_hex_digit(#[trigger] token@[i]),
        exists|bytes: Seq<u8>| bytes.len() == 32 && token@ == #[trigger] hex_text(bytes),
{
    let bytes = random_token_bytes();
    encode_token(&bytes)
}

} // verus!
