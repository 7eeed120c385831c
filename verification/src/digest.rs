//! Salted, hex-encoded SHA3-256 digests of guessed letters.
use vstd::prelude::*;
use vstd::utf8::encode_utf8;
use tiny_keccak::Hasher;

verus! {

/// The SHA3-256 digest of a byte string.
pub uninterp spec fn sha3_256(data: Seq<u8>) -> Seq<u8>;

/// The lower-case hexadecimal digit for a value below sixteen.
pub open spec fn hex_digit(n: int) -> char {
    if n < 10 {
        (48 + n) as char
    } else {
        (87 + n) as char
    }
}

/// Lower-case hexadecimal: two digits per byte, the high half first.
pub open spec fn hex_lower(data: Seq<u8>) -> Seq<char>
    decreases data.len(),
{
    if data.len() == 0 {
        Seq::empty()
    } else {
        hex_lower(data.drop_last()) + seq![
            hex_digit(data.last() as int / 16),
            hex_digit(data.last() as int % 16),
        ]
    }
}

/// The salt that every guess is hashed with.
pub open spec fn salt() -> Seq<char> {
    "mattisthebest"@
}

/// The digest a guessed letter is compared by: the hex SHA3-256 digest of
/// the letter followed by the hex SHA3-256 digest of the salt.
pub open spec fn letter_digest(letter: Seq<char>) -> Seq<char> {
    let salt_hex = hex_lower(sha3_256(encode_utf8(salt())));
    hex_lower(sha3_256(encode_utf8(letter + salt_hex)))
}

/// `tiny_keccak::Sha3::v256`, then `Hasher::update` with all of `data`,
/// then `Hasher::finalize` into a 32-byte buffer. Claims only that the
/// bytes are the SHA3-256 digest of `data`, a value fixed by `data` alone;
/// what that value is, is not stated.
#[verifier::external_body]
fn sha3_256_digest(data: &[u8]) -> (d: [u8; 32])
    ensures
        d@ == sha3_256(data@),
{
    let mut hasher = tiny_keccak::Sha3::v256();
    hasher.update(data);
    let mut out = [0u8; 32];
    hasher.finalize(&mut out);
    out
}

/// `hex::encode`: claims that the string holds two lower-case hexadecimal
/// digits per byte, the high half first, in the order of the bytes.
#[verifier::external_body]
fn hex_encode(data: &[u8]) -> (s: String)
    ensures
        s@ == hex_lower(data@),
{
    hex::encode(data)
}

/// The hex digest that a guessed letter is compared with the secret by.
pub fn letter_digest_hex(letter: &String) -> (h: String)
    ensures
        h@ == letter_digest(letter@),
{
    let salt_text = "mattisthebest";
    let salt_hash = sha3_256_digest(salt_text.as_bytes());
    let hashed_salt = hex_encode(salt_hash.as_slice());
    let mut message = letter.clone();
    message.append(hashed_salt.as_str());
    let digest = sha3_256_digest(message.as_str().as_bytes());
    hex_encode(digest.as_slice())
}

} // verus!
