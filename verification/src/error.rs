//! Errors of the key management functions.

use vstd::prelude::*;

verus! {

/// Why deriving, encrypting or restoring key material failed.
#[derive(Debug, Clone, Copy, PartialEq, Eq, Structural)]
pub enum CryptoError {
    /// A secret that should hold a hex-encoded pseudorandom key is not hexadecimal text.
    KeyDecoding,
    /// A pseudorandom key is shorter than the hash output of SHA-256.
    InvalidPrkLength,
    /// The salt of a master key is not hexadecimal text.
    InvalidSalt,
    /// An encryption key does not have 32 bytes.
    IncorrectKeySize,
    /// A nonce does not have 12 bytes.
    IncorrectNonceSize,
    /// The cipher refused to encrypt the plaintext.
    Encryption,
    /// The ciphertext did not authenticate under the key and nonce.
    Decryption,
    /// The decrypted plaintext is not UTF-8 text.
    InvalidUtf8,
    /// Encrypting the key seed of a new key map failed.
    SeedEncryption,
    /// Decrypting the key seed of a stored key map failed.
    SeedDecryption,
}

} // verus!
