//! What is believed of the `aes-gcm`, `base64`, `sha2` and `rand` crates.
use aes_gcm::aead::{Aead, KeyInit};
use aes_gcm::{Aes256Gcm, Nonce};
use base64::engine::general_purpose::STANDARD;
use base64::Engine;
use rand::Rng;
use sha2::{Digest, Sha256};
use vstd::prelude::*;

verus! {

/// The error of the cipher. It says nothing about what went wrong.
#[verifier::external_type_specification]
#[verifier::external_body]
pub struct ExCipherError(aes_gcm::Error);

/// The error of the base64 decoder.
#[verifier::external_type_specification]
#[verifier::external_body]
pub struct ExDecodeError(base64::DecodeError);

/// How many bytes the cipher encrypts at most.
pub const LONGEST_PLAINTEXT: u64 = 0x10_0000_0000;

/// The SHA-256 digest of `bytes`.
pub uninterp spec fn sha256_digest(bytes: Seq<u8>) -> Seq<u8>;

/// `sha2::Sha256::digest`: a function of the bytes alone, whose result is 32
/// bytes long.
#[verifier::external_body]
pub(crate) fn sha256(bytes: &[u8]) -> (result: Vec<u8>)
    ensures
        result@ == sha256_digest(bytes@),
        result@.len() == 32,
{
    Sha256::digest(bytes).to_vec()
}

/// What AES-256-GCM makes of `plaintext` under `key` and `nonce`, with its tag.
pub uninterp spec fn sealed(key: Seq<u8>, nonce: Seq<u8>, plaintext: Seq<u8>) -> Seq<u8>;

/// What AES-256-GCM reads out of `ciphertext` under `key` and `nonce`, if its
/// tag is right.
pub uninterp spec fn opened(key: Seq<u8>, nonce: Seq<u8>, ciphertext: Seq<u8>) -> Option<Seq<u8>>;

/// `aes_gcm::Aes256Gcm::encrypt`: it fails only on a plaintext that is too
/// long, appends a tag of 16 bytes, and what it makes is decrypted, under the
/// same key and nonce, to the plaintext. A key or nonce of another length is
/// left out: the first is refused and the second panics.
#[verifier::external_body]
pub(crate) fn seal(key: &[u8], nonce: &[u8], plaintext: &[u8]) -> (result: Result<
    Vec<u8>,
    aes_gcm::Error,
>)
    requires
        key@.len() == 32,
        nonce@.len() == 12,
    ensures
        result is Ok <==> plaintext@.len() <= LONGEST_PLAINTEXT,
        result matches Ok(ciphertext) ==> {
            &&& ciphertext@ == sealed(key@, nonce@, plaintext@)
            &&& ciphertext@.len() == plaintext@.len() + 16
            &&& opened(key@, nonce@, ciphertext@) == Some(plaintext@)
        },
{
    let cipher = Aes256Gcm::new_from_slice(key).map_err(|_| aes_gcm::Error)?;
    cipher.encrypt(Nonce::from_slice(nonce), plaintext)
}

/// `aes_gcm::Aes256Gcm::decrypt`: a function of its arguments. A key or nonce of
/// another length is left out, as for `seal`.
#[verifier::external_body]
pub(crate) fn open(key: &[u8], nonce: &[u8], ciphertext: &[u8]) -> (result: Result<
    Vec<u8>,
    aes_gcm::Error,
>)
    requires
        key@.len() == 32,
        nonce@.len() == 12,
    ensures
        match result {
            Ok(plaintext) => opened(key@, nonce@, ciphertext@) == Some(plaintext@),
            Err(_) => opened(key@, nonce@, ciphertext@) is None,
        },
{
    let cipher = Aes256Gcm::new_from_slice(key).map_err(|_| aes_gcm::Error)?;
    cipher.decrypt(Nonce::from_slice(nonce), ciphertext)
}

/// Whether the base64 text of so many bytes has a length that is a `usize`.
pub open spec fn encodable(length: nat) -> bool {
    length <= usize::MAX / 2
}

/// `bytes` in padded base64 with the standard alphabet.
pub uninterp spec fn base64_text(bytes: Seq<u8>) -> Seq<char>;

/// The bytes that `text` spells in padded base64 with the standard alphabet, if
/// it spells any.
pub uninterp spec fn base64_bytes(text: Seq<char>) -> Option<Seq<u8>>;

/// `base64::engine::general_purpose::STANDARD.encode`: what it makes is decoded
/// to the bytes it was made of, and holds only letters, digits, `+`, `/` and
/// `=`, so no colon. It panics where the length overflows.
#[verifier::external_body]
pub(crate) fn base64_encode(bytes: &[u8]) -> (result: String)
    requires
        encodable(bytes@.len()),
    ensures
        result@ == base64_text(bytes@),
        base64_bytes(result@) == Some(bytes@),
        !result@.contains(':'),
{
    STANDARD.encode(bytes)
}

/// `base64::engine::general_purpose::STANDARD.decode`: a function of the text.
#[verifier::external_body]
pub(crate) fn base64_decode(text: &str) -> (result: Result<Vec<u8>, base64::DecodeError>)
    ensures
        match result {
            Ok(bytes) => base64_bytes(text@) == Some(bytes@),
            Err(_) => base64_bytes(text@) is None,
        },
{
    STANDARD.decode(text)
}

/// `rand::Rng::fill` on twelve bytes, from `rand::rng()`. Which bytes come is
/// chance, so nothing is said of them.
#[verifier::external_body]
pub(crate) fn random_nonce() -> (result: Vec<u8>)
    ensures
        result@.len() == 12,
{
    let mut nonce = [0u8; 12];
    rand::rng().fill(&mut nonce);
    nonce.to_vec()
}

} // verus!
