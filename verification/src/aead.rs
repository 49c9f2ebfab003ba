//! AES-256-GCM-SIV encryption of secrets.

use crate::error::CryptoError;
use aes_gcm_siv::aead::Aead;
use aes_gcm_siv::{Aes256GcmSiv, KeyInit};
use generic_array::GenericArray;
use vstd::prelude::*;
use vstd::utf8::*;

verus! {

/// Number of bytes of an AES-256 key.
pub const KEY_SIZE: usize = 32;

/// Number of bytes of an AES-GCM-SIV nonce.
pub const NONCE_SIZE: usize = 12;

/// Number of bytes of the authentication tag appended to a ciphertext.
pub const TAG_SIZE: usize = 16;

/// Largest plaintext that AES-GCM-SIV encrypts: 2^36 bytes.
pub const MAX_PLAINTEXT_SIZE: u64 = 0x10_0000_0000;

/// The ciphertext (with its tag appended) that AES-256-GCM-SIV computes for a
/// key, a nonce and a plaintext, with no associated data.
pub uninterp spec fn aes256_gcm_siv_seal(key: Seq<u8>, nonce: Seq<u8>, plaintext: Seq<u8>) -> Seq<u8>;

/// The plaintext that AES-256-GCM-SIV recovers from a ciphertext under a key
/// and a nonce, with no associated data, or `None` where the ciphertext does
/// not authenticate.
pub uninterp spec fn aes256_gcm_siv_open(key: Seq<u8>, nonce: Seq<u8>, ciphertext: Seq<u8>) -> Option<Seq<u8>>;

/// Calls `Aead::encrypt` of `Aes256GcmSiv` built by `KeyInit::new` from the
/// key, with the nonce converted by `GenericArray::from_slice`. Trusted: it
/// succeeds exactly on plaintexts of at most 2^36 bytes; the ciphertext is
/// `aes256_gcm_siv_seal` of the arguments, 16 bytes longer than the plaintext,
/// and opening it under the same key and nonce gives the plaintext back.
#[verifier::external_body]
fn aes_encrypt(key: &[u8], nonce: &[u8], plaintext: &[u8]) -> (ciphertext: Option<Vec<u8>>)
    requires
        key@.len() == KEY_SIZE,
        nonce@.len() == NONCE_SIZE,
    ensures
        ciphertext is Some <==> plaintext@.len() <= MAX_PLAINTEXT_SIZE,
        ciphertext matches Some(c) ==> {
            &&& c@ == aes256_gcm_siv_seal(key@, nonce@, plaintext@)
            &&& c@.len() == plaintext@.len() + TAG_SIZE
            &&& aes256_gcm_siv_open(key@, nonce@, c@) == Some(plaintext@)
        },
{
    let cipher = Aes256GcmSiv::new(GenericArray::from_slice(key));
    cipher.encrypt(GenericArray::from_slice(nonce), plaintext).ok()
}

/// Calls `Aead::decrypt` of `Aes256GcmSiv` built by `KeyInit::new` from the
/// key, with the nonce converted by `GenericArray::from_slice`. Trusted: the
/// result is `aes256_gcm_siv_open` of the arguments; a ciphertext shorter than
/// the tag never opens; a ciphertext that opens is 16 bytes longer than its
/// plaintext and, where the plaintext is short enough to encrypt, is exactly
/// the ciphertext that sealing it gives (the tag is recomputed from the
/// plaintext and must match); and the seal of a plaintext short enough to
/// encrypt opens to that plaintext.
#[verifier::external_body]
fn aes_decrypt(key: &[u8], nonce: &[u8], ciphertext: &[u8]) -> (plaintext: Option<Vec<u8>>)
    requires
        key@.len() == KEY_SIZE,
        nonce@.len() == NONCE_SIZE,
    ensures
        match plaintext {
            Some(p) => aes256_gcm_siv_open(key@, nonce@, ciphertext@) == Some(p@),
            None => aes256_gcm_siv_open(key@, nonce@, ciphertext@) is None,
        },
        ciphertext@.len() < TAG_SIZE ==> plaintext is None,
        plaintext matches Some(p) ==> {
            &&& ciphertext@.len() == p@.len() + TAG_SIZE
            &&& p@.len() <= MAX_PLAINTEXT_SIZE ==> ciphertext@ == aes256_gcm_siv_seal(key@, nonce@, p@)
        },
        plaintext is None ==> forall|q: Seq<u8>|
            q.len() <= MAX_PLAINTEXT_SIZE ==> ciphertext@ != #[trigger] aes256_gcm_siv_seal(key@, nonce@, q),
        plaintext matches Some(p) ==> forall|q: Seq<u8>|
            q.len() <= MAX_PLAINTEXT_SIZE && ciphertext@ == #[trigger] aes256_gcm_siv_seal(key@, nonce@, q) ==> p@ == q,
{
    let cipher = Aes256GcmSiv::new(GenericArray::from_slice(key));
    cipher.decrypt(GenericArray::from_slice(nonce), ciphertext).ok()
}

/// Calls `String::from_utf8`. Trusted: it succeeds exactly on valid UTF-8 and
/// then holds the characters those bytes encode.
#[verifier::external_body]
fn string_from_utf8(bytes: Vec<u8>) -> (text: Option<String>)
    ensures
        text is Some <==> valid_utf8(bytes@),
        text matches Some(t) ==> t@ == decode_utf8(bytes@),
{
    String::from_utf8(bytes).ok()
}

/// What encrypting a secret gives: an error for a key or nonce of the wrong
/// size or an over-long secret, else the AES-256-GCM-SIV ciphertext of its
/// UTF-8 bytes.
pub open spec fn encrypt_secret_result(key: Seq<u8>, nonce: Seq<u8>, secret: Seq<char>) -> Result<Seq<u8>, CryptoError> {
    if key.len() != KEY_SIZE {
        Err(CryptoError::IncorrectKeySize)
    } else if nonce.len() != NONCE_SIZE {
        Err(CryptoError::IncorrectNonceSize)
    } else if encode_utf8(secret).len() > MAX_PLAINTEXT_SIZE {
        Err(CryptoError::Encryption)
    } else {
        Ok(aes256_gcm_siv_seal(key, nonce, encode_utf8(secret)))
    }
}

/// What decrypting a secret gives: the text the authenticated plaintext
/// encodes, or the error for a ciphertext that does not authenticate or a
/// plaintext that is not UTF-8.
pub open spec fn decrypt_secret_result(key: Seq<u8>, nonce: Seq<u8>, ciphertext: Seq<u8>) -> Result<Seq<char>, CryptoError> {
    match aes256_gcm_siv_open(key, nonce, ciphertext) {
        None => Err(CryptoError::Decryption),
        Some(p) => if valid_utf8(p) {
            Ok(decode_utf8(p))
        } else {
            Err(CryptoError::InvalidUtf8)
        },
    }
}

/// Encrypts a secret with AES-256-GCM-SIV under a 32-byte key and a 12-byte
/// nonce; decrypting the ciphertext with the same key and nonce gives the
/// secret back.
pub fn encrypt_secret(key: &[u8], nonce: &[u8], secret: String) -> (res: Result<Vec<u8>, CryptoError>)
    ensures
        match res {
            Ok(c) => encrypt_secret_result(key@, nonce@, secret@) == Ok::<Seq<u8>, CryptoError>(c@),
            Err(e) => encrypt_secret_result(key@, nonce@, secret@) == Err::<Seq<u8>, CryptoError>(e),
        },
        res matches Ok(c) ==> c@.len() == encode_utf8(secret@).len() + TAG_SIZE,
        res matches Ok(c) ==> decrypt_secret_result(key@, nonce@, c@) == Ok::<Seq<char>, CryptoError>(secret@),
{
    if key.len() != KEY_SIZE {
        Err(CryptoError::IncorrectKeySize)
    } else if nonce.len() != NONCE_SIZE {
        Err(CryptoError::IncorrectNonceSize)
    } else {
        let plaintext = secret.as_str().as_bytes();
        match aes_encrypt(key, nonce, plaintext) {
            Some(c) => {
                proof {
                    encode_utf8_valid_utf8(secret@);
                    encode_utf8_decode_utf8(secret@);
                }
                Ok(c)
            },
            None => Err(CryptoError::Encryption),
        }
    }
}

/// Decrypts a secret encrypted with AES-256-GCM-SIV under a 32-byte key and a
/// 12-byte nonce. The encryption of bytes decrypts to the text they encode,
/// or fails where they are not UTF-8; only the encryption of a secret
/// decrypts, and to that secret.
pub fn decrypt_secret(key: &[u8], nonce: &[u8], ciphertext: &[u8]) -> (res: Result<String, CryptoError>)
    requires
        key@.len() == KEY_SIZE,
        nonce@.len() == NONCE_SIZE,
    ensures
        match res {
            Ok(s) => decrypt_secret_result(key@, nonce@, ciphertext@) == Ok::<Seq<char>, CryptoError>(s@),
            Err(e) => decrypt_secret_result(key@, nonce@, ciphertext@) == Err::<Seq<char>, CryptoError>(e),
        },
        ciphertext@.len() < TAG_SIZE ==> res == Err::<String, CryptoError>(CryptoError::Decryption),
        res matches Ok(s) ==> ciphertext@.len() == encode_utf8(s@).len() + TAG_SIZE,
        res matches Ok(s) ==> encode_utf8(s@).len() <= MAX_PLAINTEXT_SIZE ==> encrypt_secret_result(
            key@,
            nonce@,
            s@,
        ) == Ok::<Seq<u8>, CryptoError>(ciphertext@),
        forall|q: Seq<u8>|
            q.len() <= MAX_PLAINTEXT_SIZE && ciphertext@ == #[trigger] aes256_gcm_siv_seal(key@, nonce@, q) ==> (
            if valid_utf8(q) {
                res matches Ok(s) && s@ == decode_utf8(q)
            } else {
                res == Err::<String, CryptoError>(CryptoError::InvalidUtf8)
            }),
{
    match aes_decrypt(key, nonce, ciphertext) {
        Some(p) => match string_from_utf8(p) {
            Some(s) => {
                proof { decode_utf8_encode_utf8(p@); }
                Ok(s)
            },
            None => Err(CryptoError::InvalidUtf8),
        },
        None => Err(CryptoError::Decryption),
    }
}

} // verus!
