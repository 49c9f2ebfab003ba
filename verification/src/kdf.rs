//! HKDF-SHA256 key derivation and random seeds.
//!
//! A key derivation function is held by its pseudorandom key: `Hkdf::extract`
//! yields the same `Hkdf` as `Hkdf::from_prk` applied to the key it returns,
//! so the key is all the state there is.

use crate::error::CryptoError;
use crate::hexcode::{hex_decode, hex_decode_result, hex_upper, lemma_hex_roundtrip};
use hkdf::Hkdf;
use rand::RngCore;
use sha2::Sha256;
use vstd::prelude::*;
use vstd::utf8::*;

verus! {

/// Number of bytes of a random seed.
pub const SEED_SIZE: usize = 256;

/// Number of bytes of a SHA-256 output, the least length of a pseudorandom key.
pub const PRK_SIZE: usize = 32;

/// Largest output of HKDF-Expand with SHA-256 (255 blocks of 32 bytes).
pub const MAX_OKM_SIZE: usize = 8160;

/// The pseudorandom key that HKDF-Extract with SHA-256 computes from a salt and
/// input key material.
pub uninterp spec fn hkdf_sha256_extract(salt: Seq<u8>, ikm: Seq<u8>) -> Seq<u8>;

/// The output key material that HKDF-Expand with SHA-256 computes from a
/// pseudorandom key, an info string and an output length.
pub uninterp spec fn hkdf_sha256_expand(prk: Seq<u8>, info: Seq<u8>, len: usize) -> Seq<u8>;

/// Calls `RngCore::fill_bytes` on the thread-local generator of `rand`.
/// Trusted: the buffer keeps its length; its new contents are left unsaid,
/// being random.
#[verifier::external_body]
fn fill_random(buf: &mut Vec<u8>)
    ensures
        final(buf)@.len() == old(buf)@.len(),
{
    rand::thread_rng().fill_bytes(buf.as_mut_slice())
}

/// Calls `Hkdf::<Sha256>::extract` with a salt. Trusted: the key is
/// `hkdf_sha256_extract` of the salt and input key material, and has 32 bytes.
#[verifier::external_body]
fn hkdf_extract(salt: &[u8], ikm: &[u8]) -> (prk: Vec<u8>)
    ensures
        prk@ == hkdf_sha256_extract(salt@, ikm@),
        prk@.len() == PRK_SIZE,
{
    Hkdf::<Sha256>::extract(Some(salt), ikm).0.to_vec()
}

/// Calls `Hkdf::<Sha256>::from_prk`. Trusted: it accepts exactly the keys of
/// at least 32 bytes.
#[verifier::external_body]
fn hkdf_accepts_prk(prk: &[u8]) -> (ok: bool)
    ensures
        ok == (prk@.len() >= PRK_SIZE),
{
    Hkdf::<Sha256>::from_prk(prk).is_ok()
}

/// Calls `Hkdf::expand` on the `Hkdf::<Sha256>` that `from_prk` builds from the
/// key. Trusted: for a key of at least 32 bytes and an output of at most 8160
/// bytes both calls succeed, and the output is `hkdf_sha256_expand` of the key,
/// info and length.
#[verifier::external_body]
fn hkdf_expand(prk: &[u8], info: &[u8], len: usize) -> (okm: Vec<u8>)
    requires
        prk@.len() >= PRK_SIZE,
        len <= MAX_OKM_SIZE,
    ensures
        okm@ == hkdf_sha256_expand(prk@, info@, len),
        okm@.len() == len,
{
    let mut okm = vec![0u8; len];
    match Hkdf::<Sha256>::from_prk(prk) {
        Ok(kdf) => match kdf.expand(info, &mut okm) {
            Ok(()) => okm,
            Err(_) => Vec::new(),
        },
        Err(_) => Vec::new(),
    }
}

/// Generates a random seed of 256 bytes.
pub fn generate_random_seed() -> (seed: Vec<u8>)
    ensures
        seed@.len() == SEED_SIZE,
{
    let mut buf: Vec<u8> = Vec::new();
    let mut i: usize = 0;
    while i < SEED_SIZE
        invariant
            buf@.len() == i,
            i <= SEED_SIZE,
        decreases SEED_SIZE - i,
    {
        buf.push(0u8);
        i = i + 1;
    }
    fill_random(&mut buf);
    buf
}

/// An HKDF-SHA256 key derivation function, held by its pseudorandom key.
pub struct Kdf {
    prk: Vec<u8>,
}

impl View for Kdf {
    type V = Seq<u8>;

    closed spec fn view(&self) -> Seq<u8> {
        self.prk@
    }
}

/// What restoring a key derivation function from a hex-encoded secret gives:
/// the decoded pseudorandom key, or the error for text that is not hexadecimal
/// or a key shorter than 32 bytes.
pub open spec fn restore_kdf_result(secret: Seq<char>) -> Result<Seq<u8>, CryptoError> {
    match hex_decode_result(encode_utf8(secret)) {
        None => Err(CryptoError::KeyDecoding),
        Some(prk) => if prk.len() >= PRK_SIZE {
            Ok(prk)
        } else {
            Err(CryptoError::InvalidPrkLength)
        },
    }
}

impl Kdf {
    #[verifier::type_invariant]
    spec fn prk_long_enough(self) -> bool {
        self.prk@.len() >= PRK_SIZE
    }

    /// The pseudorandom key.
    pub fn prk(&self) -> (prk: &Vec<u8>)
        ensures
            prk@ == self@,
            prk@.len() >= PRK_SIZE,
    {
        proof { use_type_invariant(self); }
        &self.prk
    }

    /// HKDF-Expand of `info` to `len` bytes.
    pub fn expand(&self, info: &[u8], len: usize) -> (okm: Vec<u8>)
        requires
            len <= MAX_OKM_SIZE,
        ensures
            okm@ == hkdf_sha256_expand(self@, info@, len),
            okm@.len() == len,
    {
        proof { use_type_invariant(self); }
        hkdf_expand(self.prk.as_slice(), info, len)
    }
}

/// Draws a fresh salt and input key material and extracts from them the
/// pseudorandom key of a new key derivation function.
pub fn initialize_kdf() -> (kdf: Kdf)
    ensures
        kdf@.len() == PRK_SIZE,
        exists|salt: Seq<u8>, ikm: Seq<u8>|
            salt.len() == SEED_SIZE && ikm.len() == SEED_SIZE && kdf@ == hkdf_sha256_extract(salt, ikm),
{
    let salt = generate_random_seed();
    let ikm = generate_random_seed();
    let prk = hkdf_extract(salt.as_slice(), ikm.as_slice());
    assert(salt@.len() == SEED_SIZE && ikm@.len() == SEED_SIZE && prk@ == hkdf_sha256_extract(salt@, ikm@));
    Kdf { prk }
}

/// Restores a key derivation function from the hexadecimal text of its
/// pseudorandom key.
pub fn restore_kdf(secret: &String) -> (res: Result<Kdf, CryptoError>)
    ensures
        match res {
            Ok(kdf) => restore_kdf_result(secret@) == Ok::<Seq<u8>, CryptoError>(kdf@),
            Err(e) => restore_kdf_result(secret@) == Err::<Seq<u8>, CryptoError>(e),
        },
{
    let prk = match hex_decode(secret.as_str().as_bytes()) {
        Some(prk) => prk,
        None => return Err(CryptoError::KeyDecoding),
    };
    if hkdf_accepts_prk(prk.as_slice()) {
        Ok(Kdf { prk })
    } else {
        Err(CryptoError::InvalidPrkLength)
    }
}

/// The secret written by `initialize_kdf` restores the same key derivation
/// function.
pub proof fn lemma_restore_kdf_of_hex(prk: Seq<u8>)
    requires
        prk.len() >= PRK_SIZE,
    ensures
        restore_kdf_result(hex_upper(prk)) == Ok::<Seq<u8>, CryptoError>(prk),
{
    lemma_hex_roundtrip(prk);
}

} // verus!
