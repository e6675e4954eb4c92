//! Digests, checksums and the writing of bytes as text.
use vstd::prelude::*;

verus! {

/// The SHA-256 digest of some bytes.
pub uninterp spec fn sha256(bytes: Seq<u8>) -> Seq<u8>;

/// `sha2::Sha256::digest`: the SHA-256 digest, which is 32 bytes long.
#[verifier::external_body]
pub(crate) fn sha256_of(bytes: &[u8]) -> (digest: Vec<u8>)
    ensures
        digest@ == sha256(bytes@),
        digest@.len() == 32,
{
    <sha2::Sha256 as sha2::Digest>::digest(bytes).to_vec()
}

/// The authentication code of some bytes under a key, by HMAC with SHA-256.
pub uninterp spec fn hmac_sha256(key: Seq<u8>, bytes: Seq<u8>) -> Seq<u8>;

/// `hmac::Hmac::<sha2::Sha256>`, made with `new_from_slice`, given the bytes with
/// `update` and ended with `finalize`: the authentication code. A key of any
/// length is accepted.
#[verifier::external_body]
pub(crate) fn hmac_sha256_of(key: &[u8], bytes: &[u8]) -> (code: Option<Vec<u8>>)
    ensures
        code.deep_view() == Some(hmac_sha256(key@, bytes@)),
{
    let mut mac = <hmac::Hmac<sha2::Sha256> as hmac::Mac>::new_from_slice(key).ok()?;
    hmac::Mac::update(&mut mac, bytes);
    Some(hmac::Mac::finalize(mac).into_bytes().to_vec())
}

/// The small hexadecimal digit of a number below 16.
pub open spec fn hex_lower(n: int) -> char {
    if n < 10 {
        ('0' as int + n) as char
    } else {
        ('a' as int + (n - 10)) as char
    }
}

/// Bytes, each as two hexadecimal digits.
pub open spec fn hex_text(bytes: Seq<u8>) -> Seq<char>
    decreases bytes.len(),
{
    if bytes.len() == 0 {
        Seq::empty()
    } else {
        hex_text(bytes.drop_last()).push(hex_lower(bytes.last() as int / 16)).push(
            hex_lower(bytes.last() as int % 16),
        )
    }
}

/// `hex::encode`: each byte as two small hexadecimal digits.
#[verifier::external_body]
pub(crate) fn hex_of(bytes: &[u8]) -> (text: String)
    ensures
        text@ == hex_text(bytes@),
{
    hex::encode(bytes)
}

/// The CRC-32 checksum of some bytes.
pub uninterp spec fn crc32(bytes: Seq<u8>) -> u32;

/// `crc32fast::hash`: the CRC-32 checksum.
#[verifier::external_body]
pub(crate) fn crc32_of(bytes: &[u8]) -> (sum: u32)
    ensures
        sum == crc32(bytes@),
{
    crc32fast::hash(bytes)
}

/// The character that base64 writes for a number below 64.
pub open spec fn base64_digit(n: int) -> char {
    if n < 26 {
        ('A' as int + n) as char
    } else if n < 52 {
        ('a' as int + (n - 26)) as char
    } else if n < 62 {
        ('0' as int + (n - 52)) as char
    } else if n == 62 {
        '+'
    } else {
        '/'
    }
}

/// Bytes in base64: each three of them as four characters, the last padded with
/// `=`.
pub open spec fn base64_text(bytes: Seq<u8>) -> Seq<char>
    decreases bytes.len(),
{
    if bytes.len() == 0 {
        Seq::empty()
    } else {
        let second = if bytes.len() > 1 {
            bytes[1] as int
        } else {
            0
        };
        let third = if bytes.len() > 2 {
            bytes[2] as int
        } else {
            0
        };
        let n = bytes[0] as int * 65536 + second * 256 + third;
        let group = seq![
            base64_digit(n / 262144),
            base64_digit(n / 4096 % 64),
            if bytes.len() > 1 {
                base64_digit(n / 64 % 64)
            } else {
                '='
            },
            if bytes.len() > 2 {
                base64_digit(n % 64)
            } else {
                '='
            },
        ];
        if bytes.len() > 3 {
            group + base64_text(bytes.skip(3))
        } else {
            group
        }
    }
}

/// The bytes that a base64 text writes, or the message that says why it writes
/// none.
pub uninterp spec fn base64_bytes(text: Seq<char>) -> Result<Seq<u8>, Seq<char>>;

/// Whether a base64 text writes the bytes.
pub open spec fn writes(text: Seq<char>, bytes: Seq<u8>) -> bool {
    base64_bytes(text) == Ok::<Seq<u8>, Seq<char>>(bytes)
}

/// `base64::engine::general_purpose::STANDARD.encode`: the bytes in base64 with
/// padding, from which `decode` gives them back.
#[verifier::external_body]
pub(crate) fn base64_encode(bytes: &[u8]) -> (text: String)
    ensures
        text@ == base64_text(bytes@),
        writes(text@, bytes@),
{
    base64::Engine::encode(&base64::engine::general_purpose::STANDARD, bytes)
}

/// `base64::engine::general_purpose::STANDARD.decode`: the bytes that the text
/// writes, or the message of the error where it writes none.
#[verifier::external_body]
pub(crate) fn base64_decode(text: &str) -> (bytes: Result<Vec<u8>, String>)
    ensures
        match bytes {
            Ok(bytes) => base64_bytes(text@) == Ok::<Seq<u8>, Seq<char>>(bytes@),
            Err(message) => base64_bytes(text@) == Err::<Seq<u8>, Seq<char>>(message@),
        },
{
    base64::Engine::decode(&base64::engine::general_purpose::STANDARD, text).map_err(
        |error| error.to_string(),
    )
}

} // verus!
