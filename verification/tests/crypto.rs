use aes_gcm_siv::aead::Aead;
use aes_gcm_siv::{Aes256GcmSiv, KeyInit};
use clearing_house::aead::{decrypt_secret, encrypt_secret};
use clearing_house::decimal::{i64_to_decimal, u64_to_decimal};
use clearing_house::error::CryptoError;
use clearing_house::kdf::{generate_random_seed, initialize_kdf, restore_kdf};
use clearing_house::keys::{
    derive_key_map, generate_key_map, restore_key_map, restore_keys, seal_key_map, DocumentPart,
    DocumentType, KeyEntry, KeyMap, KeyTable, MasterKey,
};

fn doc_type(names: &[&str]) -> DocumentType {
    DocumentType {
        id: "dt1".to_string(),
        pid: "p1".to_string(),
        parts: names.iter().map(|n| DocumentPart { name: n.to_string() }).collect(),
    }
}

fn master_key() -> MasterKey {
    MasterKey {
        id: "mk".to_string(),
        key: "000102030405060708090A0B0C0D0E0F101112131415161718191A1B1C1D1E1F".to_string(),
        salt: "a1b2c3d4".to_string(),
    }
}

fn entry<'a>(km: &'a KeyMap, k: &str) -> &'a KeyEntry {
    km.keys.get(&k.to_string()).expect("key present")
}

#[test]
fn test_generate_random_seed() {
    for _ in 1..100 {
        let seed = generate_random_seed();
        // Check length of seed
        assert_eq!(256, seed.len());
        // Check that the seed is not all zeros
        assert_ne!(0, seed.iter().map(|b| *b as usize).sum::<usize>());
    }
}

#[test]
fn decimal_rendering() {
    assert_eq!(u64_to_decimal(0), "0");
    assert_eq!(u64_to_decimal(7), "7");
    assert_eq!(u64_to_decimal(1234), "1234");
    assert_eq!(u64_to_decimal(u64::MAX), u64::MAX.to_string());
    assert_eq!(i64_to_decimal(-42), "-42");
    assert_eq!(i64_to_decimal(0), "0");
    assert_eq!(i64_to_decimal(i64::MIN), i64::MIN.to_string());
    assert_eq!(i64_to_decimal(i64::MAX), i64::MAX.to_string());
}

#[test]
fn restore_kdf_rejects_non_hex_text() {
    assert_eq!(restore_kdf(&"zz".to_string()).err(), Some(CryptoError::KeyDecoding));
    assert_eq!(restore_kdf(&"abc".to_string()).err(), Some(CryptoError::KeyDecoding));
}

#[test]
fn restore_kdf_rejects_short_keys() {
    assert_eq!(restore_kdf(&"0011".to_string()).err(), Some(CryptoError::InvalidPrkLength));
}

#[test]
fn restore_kdf_accepts_either_case() {
    let upper = restore_kdf(&"ABCDEF".repeat(11)[..64].to_string()).unwrap();
    let lower = restore_kdf(&"abcdef".repeat(11)[..64].to_string()).unwrap();
    assert_eq!(upper.prk(), lower.prk());
    assert_eq!(upper.prk().len(), 32);
    assert_eq!(upper.prk()[0], 0xAB);
}

#[test]
fn hkdf_expand_matches_rfc5869_case_one() {
    let kdf = restore_kdf(
        &"077709362c2e32df0ddc3f0dc47bba6390b6c73bb50f9c3122ec844ad7c2b3e5".to_string(),
    )
    .unwrap();
    let info: Vec<u8> = (0xf0u8..=0xf9).collect();
    let okm = kdf.expand(&info, 42);
    assert_eq!(
        hex::encode(okm),
        "3cb25f25faacd57a90434f64d0362f2a2d2d0a90cf1a5a4c5db02d56ecc4c5bf34007208d5b887185865"
    );
}

#[test]
fn initialize_kdf_gives_fresh_keys() {
    let a = initialize_kdf();
    let b = initialize_kdf();
    assert_eq!(a.prk().len(), 32);
    assert_ne!(a.prk(), b.prk());
}

#[test]
fn encrypt_secret_rejects_wrong_sizes() {
    let nonce = [7u8; 12];
    assert_eq!(
        encrypt_secret(&[1u8; 31], &nonce, "s".to_string()).err(),
        Some(CryptoError::IncorrectKeySize)
    );
    assert_eq!(
        encrypt_secret(&[1u8; 32], &[7u8; 11], "s".to_string()).err(),
        Some(CryptoError::IncorrectNonceSize)
    );
}

#[test]
fn encrypt_then_decrypt_gives_the_secret_back() {
    let key = [3u8; 32];
    let nonce = [9u8; 12];
    let secret = "geheim \u{00e4}\u{1F600}".to_string();
    let ct = encrypt_secret(&key, &nonce, secret.clone()).unwrap();
    assert_eq!(ct.len(), secret.len() + 16);
    assert_ne!(&ct[..secret.len()], secret.as_bytes());
    assert_eq!(decrypt_secret(&key, &nonce, &ct).unwrap(), secret);
}

#[test]
fn encryption_is_deterministic_per_key_and_nonce() {
    let key = [3u8; 32];
    let a = encrypt_secret(&key, &[1u8; 12], "x".to_string()).unwrap();
    let b = encrypt_secret(&key, &[1u8; 12], "x".to_string()).unwrap();
    let c = encrypt_secret(&key, &[2u8; 12], "x".to_string()).unwrap();
    assert_eq!(a, b);
    assert_ne!(a, c);
}

#[test]
fn decrypt_secret_rejects_tampered_ciphertext() {
    let key = [3u8; 32];
    let nonce = [9u8; 12];
    let mut ct = encrypt_secret(&key, &nonce, "abc".to_string()).unwrap();
    ct[0] ^= 1;
    assert_eq!(decrypt_secret(&key, &nonce, &ct).err(), Some(CryptoError::Decryption));
    assert_eq!(decrypt_secret(&key, &nonce, &[0u8; 5]).err(), Some(CryptoError::Decryption));
    assert_eq!(decrypt_secret(&key, &nonce, &[]).err(), Some(CryptoError::Decryption));
    assert_eq!(
        decrypt_secret(&[4u8; 32], &nonce, &encrypt_secret(&key, &nonce, "abc".to_string()).unwrap())
            .err(),
        Some(CryptoError::Decryption)
    );
}

#[test]
fn decrypt_secret_rejects_non_utf8_plaintext() {
    let key = [3u8; 32];
    let nonce = [9u8; 12];
    let cipher = Aes256GcmSiv::new_from_slice(&key).unwrap();
    let ct = cipher.encrypt((&nonce).into(), &[0xffu8, 0xfe][..]).unwrap();
    assert_eq!(decrypt_secret(&key, &nonce, &ct).err(), Some(CryptoError::InvalidUtf8));
}

#[test]
fn key_table_insert_replaces() {
    let mut t = KeyTable::new();
    t.insert("a".to_string(), KeyEntry::new("0".to_string(), vec![1], vec![2]));
    t.insert("b".to_string(), KeyEntry::new("1".to_string(), vec![3], vec![4]));
    t.insert("a".to_string(), KeyEntry::new("2".to_string(), vec![5], vec![6]));
    assert_eq!(t.entries().len(), 2);
    assert_eq!(t.get(&"a".to_string()).unwrap().id, "2");
    assert_eq!(t.get(&"b".to_string()).unwrap().key, vec![3]);
    assert!(t.get(&"c".to_string()).is_none());
}

#[test]
fn derive_key_map_by_name_and_by_index() {
    let kdf = restore_kdf(&"11".repeat(32)).unwrap();
    let dt = doc_type(&["header", "payload", "header"]);
    let by_name = derive_key_map(&kdf, &dt, true);
    let by_index = derive_key_map(&kdf, &dt, false);
    assert_eq!(by_name.entries().len(), 2);
    assert_eq!(by_index.entries().len(), 3);
    let h = by_name.get(&"header".to_string()).unwrap();
    assert_eq!(h.id, "2");
    assert_eq!(h.key.len(), 32);
    assert_eq!(h.nonce.len(), 12);
    let okm = kdf.expand(b"header", 44);
    assert_eq!(h.key, okm[..32].to_vec());
    assert_eq!(h.nonce, okm[32..].to_vec());
    let h2 = by_index.get(&"2".to_string()).unwrap();
    assert_eq!(h2.key, h.key);
    let h0 = by_index.get(&"0".to_string()).unwrap();
    assert_eq!(h0.key, h.key);
    assert_eq!(h0.id, "0");
    let p = by_name.get(&"payload".to_string()).unwrap();
    assert_eq!(p.id, "1");
    assert_ne!(p.key, h.key);
}

#[test]
fn restore_keys_keys_by_index() {
    let dt = doc_type(&["a", "b"]);
    let km = restore_keys(&"22".repeat(32), dt).unwrap();
    assert!(!km.enc);
    assert!(km.keys_enc.is_none());
    assert_eq!(entry(&km, "0").id, "0");
    assert_eq!(entry(&km, "1").id, "1");
    assert!(km.keys.get(&"a".to_string()).is_none());
    assert_eq!(restore_keys(&"x".to_string(), doc_type(&["a"])).err(), Some(CryptoError::KeyDecoding));
}

#[test]
fn generated_key_map_restores_to_the_same_keys() {
    let km = generate_key_map(master_key(), doc_type(&["meta", "body"])).unwrap();
    assert!(km.enc);
    let ct = km.keys_enc.clone().unwrap();
    assert_eq!(ct.len(), 80);
    for (_, e) in km.keys.entries() {
        assert_eq!(e.key.len(), 32);
        assert_eq!(e.nonce.len(), 12);
    }
    let restored = restore_key_map(master_key(), doc_type(&["meta", "body"]), ct).unwrap();
    assert!(!restored.enc);
    let mut tampered = km.keys_enc.clone().unwrap();
    tampered[3] ^= 0x40;
    assert_eq!(
        restore_key_map(master_key(), doc_type(&["meta", "body"]), tampered).err(),
        Some(CryptoError::SeedDecryption)
    );
    let mut other_master = master_key();
    other_master.salt = "a1b2c3d5".to_string();
    assert_eq!(
        restore_key_map(other_master, doc_type(&["meta", "body"]), km.keys_enc.clone().unwrap()).err(),
        Some(CryptoError::SeedDecryption)
    );
    for name in ["meta", "body"] {
        let e = entry(&km, name);
        let r = entry(&restored, &e.id);
        assert_eq!(r.id, e.id);
        assert_eq!(r.key, e.key);
        assert_eq!(r.nonce, e.nonce);
    }
}

#[test]
fn sealed_key_map_encrypts_the_hex_seed() {
    let doc_kdf = restore_kdf(&"ab".repeat(32)).unwrap();
    let km = seal_key_map(&master_key(), &doc_type(&["a"]), &doc_kdf).unwrap();
    let ct = km.keys_enc.clone().unwrap();
    assert_eq!(ct.len(), 64 + 16);
    let restored = restore_key_map(master_key(), doc_type(&["a"]), ct).unwrap();
    let direct = restore_keys(&"AB".repeat(32), doc_type(&["a"])).unwrap();
    assert_eq!(entry(&restored, "0").key, entry(&direct, "0").key);
    assert_eq!(entry(&restored, "0").key, entry(&km, "a").key);
}

#[test]
fn key_map_errors() {
    let mut bad_key = master_key();
    bad_key.key = "nothex".to_string();
    assert_eq!(generate_key_map(bad_key, doc_type(&["a"])).err(), Some(CryptoError::KeyDecoding));
    let mut short_key = master_key();
    short_key.key = "00".to_string();
    assert_eq!(
        restore_key_map(short_key, doc_type(&["a"]), vec![1, 2, 3]).err(),
        Some(CryptoError::InvalidPrkLength)
    );
    let mut bad_salt = master_key();
    bad_salt.salt = "abc".to_string();
    assert_eq!(generate_key_map(bad_salt, doc_type(&["a"])).err(), Some(CryptoError::InvalidSalt));
    assert_eq!(
        restore_key_map(master_key(), doc_type(&["a"]), vec![0u8; 40]).err(),
        Some(CryptoError::SeedDecryption)
    );
}
