//! Key maps: the per-part encryption keys of a document type, derived from a
//! random seed that is itself kept encrypted under a master key.

use crate::aead::{
    aes256_gcm_siv_seal, decrypt_secret, decrypt_secret_result, encrypt_secret, encrypt_secret_result,
    KEY_SIZE,
    MAX_PLAINTEXT_SIZE, NONCE_SIZE, TAG_SIZE,
};
use crate::decimal::{decimal, lemma_decimal_injective, u64_to_decimal};
use crate::error::CryptoError;
use crate::hexcode::{hex_decode, hex_decode_result, hex_decoded, hex_encode_upper, hex_upper, is_hex_text};
use crate::kdf::{
    hkdf_sha256_expand, hkdf_sha256_extract, initialize_kdf, lemma_restore_kdf_of_hex, restore_kdf, restore_kdf_result,
    Kdf, PRK_SIZE, SEED_SIZE,
};
use vstd::prelude::*;
use vstd::slice::{slice_subrange, slice_to_vec};
use vstd::utf8::*;

verus! {

/// Bytes of key material derived per key: a 32-byte key followed by a 12-byte nonce.
pub const KEY_MATERIAL_SIZE: usize = 44;

/// One part of a document type; each part is encrypted with a key of its own.
pub struct DocumentPart {
    pub name: String,
}

/// A document type: its identifier, owner and parts.
pub struct DocumentType {
    pub id: String,
    pub pid: String,
    pub parts: Vec<DocumentPart>,
}

impl DocumentType {
    /// The names of the parts, in order.
    pub open spec fn part_names(&self) -> Seq<Seq<char>> {
        self.parts@.map_values(|p: DocumentPart| p.name@)
    }
}

/// A master key: the hex-encoded pseudorandom key of a key derivation function
/// and the hex-encoded salt that derives the key-seed cipher key from it.
pub struct MasterKey {
    pub id: String,
    pub key: String,
    pub salt: String,
}

/// The key and nonce that encrypt one part, with the part's index as its id.
pub struct KeyEntry {
    pub id: String,
    pub key: Vec<u8>,
    pub nonce: Vec<u8>,
}

/// The abstract value of a key entry.
pub struct KeyEntryModel {
    pub id: Seq<char>,
    pub key: Seq<u8>,
    pub nonce: Seq<u8>,
}

impl View for KeyEntry {
    type V = KeyEntryModel;

    open spec fn view(&self) -> KeyEntryModel {
        KeyEntryModel { id: self.id@, key: self.key@, nonce: self.nonce@ }
    }
}

impl KeyEntry {
    pub fn new(id: String, key: Vec<u8>, nonce: Vec<u8>) -> (e: KeyEntry)
        ensures
            e@ == (KeyEntryModel { id: id@, key: key@, nonce: nonce@ }),
    {
        KeyEntry { id, key, nonce }
    }
}

/// Whether some entry of `s` has the key `k`.
pub open spec fn has_key(s: Seq<(String, KeyEntry)>, k: Seq<char>) -> bool {
    exists|i: int| 0 <= i < s.len() && (#[trigger] s[i]).0@ == k
}

/// Whether no two entries of `s` have the same key.
pub open spec fn keys_distinct(s: Seq<(String, KeyEntry)>) -> bool {
    forall|i: int, j: int|
        0 <= i < s.len() && 0 <= j < s.len() && i != j ==> (#[trigger] s[i]).0@ != (#[trigger] s[j]).0@
}

/// The map that a list of entries with distinct keys stands for.
pub open spec fn entries_map(s: Seq<(String, KeyEntry)>) -> Map<Seq<char>, KeyEntryModel> {
    Map::new(
        |k: Seq<char>| has_key(s, k),
        |k: Seq<char>| s[choose|i: int| 0 <= i < s.len() && (#[trigger] s[i]).0@ == k].1@,
    )
}

proof fn lemma_entries_map_at(s: Seq<(String, KeyEntry)>, i: int)
    requires
        keys_distinct(s),
        0 <= i < s.len(),
    ensures
        entries_map(s).contains_key(s[i].0@),
        entries_map(s)[s[i].0@] == s[i].1@,
{
    let k = s[i].0@;
    assert(has_key(s, k));
    let c = choose|c: int| 0 <= c < s.len() && (#[trigger] s[c]).0@ == k;
    assert(c == i);
}

proof fn lemma_entries_map_update(s: Seq<(String, KeyEntry)>, j: int, x: (String, KeyEntry))
    requires
        keys_distinct(s),
        0 <= j < s.len(),
        s[j].0@ == x.0@,
    ensures
        keys_distinct(s.update(j, x)),
        entries_map(s.update(j, x)) =~= entries_map(s).insert(x.0@, x.1@),
{
    let t = s.update(j, x);
    assert forall|i: int, l: int|
        0 <= i < t.len() && 0 <= l < t.len() && i != l implies (#[trigger] t[i]).0@ != (#[trigger] t[l]).0@ by {
        assert(s[i].0@ != s[l].0@);
    }
    assert forall|k: Seq<char>| #[trigger] has_key(t, k) == (has_key(s, k) || k == x.0@) by {
        if has_key(s, k) {
            let i = choose|i: int| 0 <= i < s.len() && (#[trigger] s[i]).0@ == k;
            assert(t[i].0@ == k);
        }
        if has_key(t, k) {
            let i = choose|i: int| 0 <= i < t.len() && (#[trigger] t[i]).0@ == k;
            assert(s[i].0@ == k);
        }
        if k == x.0@ {
            assert(t[j].0@ == k);
        }
    }
    assert forall|k: Seq<char>| #[trigger] entries_map(t).contains_key(k) implies entries_map(t)[k]
        == entries_map(s).insert(x.0@, x.1@)[k] by {
        let i = choose|i: int| 0 <= i < t.len() && (#[trigger] t[i]).0@ == k;
        lemma_entries_map_at(t, i);
        if i != j {
            lemma_entries_map_at(s, i);
        }
    }
}

proof fn lemma_entries_map_push(s: Seq<(String, KeyEntry)>, x: (String, KeyEntry))
    requires
        keys_distinct(s),
        !has_key(s, x.0@),
    ensures
        keys_distinct(s.push(x)),
        entries_map(s.push(x)) =~= entries_map(s).insert(x.0@, x.1@),
{
    let t = s.push(x);
    assert forall|i: int, l: int|
        0 <= i < t.len() && 0 <= l < t.len() && i != l implies (#[trigger] t[i]).0@ != (#[trigger] t[l]).0@ by {
        if i < s.len() && l < s.len() {
            assert(s[i].0@ != s[l].0@);
        } else if i < s.len() {
            assert(t[i] == s[i]);
        } else {
            assert(t[l] == s[l]);
        }
    }
    assert forall|k: Seq<char>| #[trigger] has_key(t, k) == (has_key(s, k) || k == x.0@) by {
        if has_key(s, k) {
            let i = choose|i: int| 0 <= i < s.len() && (#[trigger] s[i]).0@ == k;
            assert(t[i].0@ == k);
        }
        if has_key(t, k) {
            let i = choose|i: int| 0 <= i < t.len() && (#[trigger] t[i]).0@ == k;
            if i < s.len() {
                assert(s[i].0@ == k);
            }
        }
        if k == x.0@ {
            assert(t[s.len() as int].0@ == k);
        }
    }
    assert forall|k: Seq<char>| #[trigger] entries_map(t).contains_key(k) implies entries_map(t)[k]
        == entries_map(s).insert(x.0@, x.1@)[k] by {
        let i = choose|i: int| 0 <= i < t.len() && (#[trigger] t[i]).0@ == k;
        lemma_entries_map_at(t, i);
        if i < s.len() {
            lemma_entries_map_at(s, i);
        }
    }
}

/// A map from strings to key entries, held as a list of entries whose keys are
/// distinct.
pub struct KeyTable {
    entries: Vec<(String, KeyEntry)>,
}

impl View for KeyTable {
    type V = Map<Seq<char>, KeyEntryModel>;

    closed spec fn view(&self) -> Map<Seq<char>, KeyEntryModel> {
        entries_map(self.entries@)
    }
}

impl KeyTable {
    #[verifier::type_invariant]
    spec fn keys_are_distinct(self) -> bool {
        keys_distinct(self.entries@)
    }

    /// An empty table.
    pub fn new() -> (t: KeyTable)
        ensures
            t@ == Map::<Seq<char>, KeyEntryModel>::empty(),
    {
        let t = KeyTable { entries: Vec::new() };
        assert(t@ =~= Map::<Seq<char>, KeyEntryModel>::empty());
        t
    }

    fn position(&self, key: &String) -> (pos: Option<usize>)
        ensures
            match pos {
                Some(j) => j < self.entries@.len() && self.entries@[j as int].0@ == key@,
                None => !has_key(self.entries@, key@),
            },
    {
        let mut i: usize = 0;
        while i < self.entries.len()
            invariant
                i <= self.entries@.len(),
                forall|l: int| 0 <= l < i ==> (#[trigger] self.entries@[l]).0@ != key@,
            decreases self.entries@.len() - i,
        {
            if self.entries[i].0 == *key {
                return Some(i);
            }
            i = i + 1;
        }
        None
    }

    /// Maps `key` to `entry`, replacing the entry it had.
    pub fn insert(&mut self, key: String, entry: KeyEntry)
        ensures
            final(self)@ == old(self)@.insert(key@, entry@),
    {
        proof { use_type_invariant(&*self); }
        let ghost old_entries = self.entries@;
        let pos = self.position(&key);
        let mut entries: Vec<(String, KeyEntry)> = Vec::new();
        std::mem::swap(&mut entries, &mut self.entries);
        match pos {
            Some(j) => {
                proof { lemma_entries_map_update(old_entries, j as int, (key, entry)); }
                entries.set(j, (key, entry));
            },
            None => {
                proof { lemma_entries_map_push(old_entries, (key, entry)); }
                entries.push((key, entry));
            },
        }
        self.entries = entries;
    }

    /// The entry that `key` maps to.
    pub fn get(&self, key: &String) -> (entry: Option<&KeyEntry>)
        ensures
            match entry {
                Some(e) => self@.contains_key(key@) && self@[key@] == e@,
                None => !self@.contains_key(key@),
            },
    {
        proof { use_type_invariant(self); }
        match self.position(key) {
            Some(j) => {
                proof { lemma_entries_map_at(self.entries@, j as int); }
                Some(&self.entries[j].1)
            },
            None => None,
        }
    }

    /// All entries, each key once.
    pub fn entries(&self) -> (entries: &Vec<(String, KeyEntry)>)
        ensures
            keys_distinct(entries@),
            forall|k: Seq<char>| self@.contains_key(k) <==> has_key(entries@, k),
            forall|i: int|
                0 <= i < entries@.len() ==> #[trigger] self@[entries@[i].0@] == entries@[i].1@,
    {
        proof {
            use_type_invariant(self);
            assert forall|i: int| 0 <= i < self.entries@.len() implies #[trigger] self@[
                self.entries@[i].0@] == self.entries@[i].1@ by {
                lemma_entries_map_at(self.entries@, i);
            }
        }
        &self.entries
    }
}

/// A key map: the keys of a document type's parts, and, for a map made to
/// encrypt, the encrypted seed they were derived from.
pub struct KeyMap {
    /// Whether the map serves encryption (keys by part name) or decryption
    /// (keys by part index).
    pub enc: bool,
    pub keys: KeyTable,
    pub keys_enc: Option<Vec<u8>>,
}

/// The abstract value of a key map.
pub struct KeyMapModel {
    pub enc: bool,
    pub keys: Map<Seq<char>, KeyEntryModel>,
    pub keys_enc: Option<Seq<u8>>,
}

/// The abstract value of an optional byte string.
pub open spec fn opt_bytes(o: Option<Vec<u8>>) -> Option<Seq<u8>> {
    match o {
        Some(v) => Some(v@),
        None => None,
    }
}

impl View for KeyMap {
    type V = KeyMapModel;

    open spec fn view(&self) -> KeyMapModel {
        KeyMapModel { enc: self.enc, keys: self.keys@, keys_enc: opt_bytes(self.keys_enc) }
    }
}

impl KeyMap {
    pub fn new(enc: bool, keys: KeyTable, keys_enc: Option<Vec<u8>>) -> (m: KeyMap)
        ensures
            m@ == (KeyMapModel { enc, keys: keys@, keys_enc: opt_bytes(keys_enc) }),
    {
        KeyMap { enc, keys, keys_enc }
    }
}

/// The abstract value of the result of a key map operation.
pub open spec fn key_map_result(r: Result<KeyMap, CryptoError>) -> Result<KeyMapModel, CryptoError> {
    match r {
        Ok(m) => Ok(m@),
        Err(e) => Err(e),
    }
}

/// The key entry of the part at `index` named `name`: HKDF-Expand of the
/// name's UTF-8 bytes to 44 bytes, split into a 32-byte key and a 12-byte
/// nonce, with the decimal index as id.
pub open spec fn derived_entry(prk: Seq<u8>, index: nat, name: Seq<char>) -> KeyEntryModel {
    let okm = hkdf_sha256_expand(prk, encode_utf8(name), KEY_MATERIAL_SIZE);
    KeyEntryModel {
        id: decimal(index),
        key: okm.subrange(0, KEY_SIZE as int),
        nonce: okm.subrange(KEY_SIZE as int, KEY_MATERIAL_SIZE as int),
    }
}

/// The keys derived for the parts `names` in order, each stored under its name
/// (`by_name`) or its decimal index; a later part replaces an earlier one
/// stored under the same name.
pub open spec fn derived_keys(prk: Seq<u8>, names: Seq<Seq<char>>, by_name: bool) -> Map<Seq<char>, KeyEntryModel>
    decreases names.len(),
{
    if names.len() == 0 {
        Map::empty()
    } else {
        let i = (names.len() - 1) as nat;
        derived_keys(prk, names.drop_last(), by_name).insert(
            if by_name { names[i as int] } else { decimal(i) },
            derived_entry(prk, i, names[i as int]),
        )
    }
}

/// Whether every entry of a key map has a 32-byte key and a 12-byte nonce.
pub open spec fn entries_sized(keys: Map<Seq<char>, KeyEntryModel>) -> bool {
    forall|k: Seq<char>|
        #[trigger] keys.contains_key(k) ==> keys[k].key.len() == KEY_SIZE && keys[k].nonce.len()
            == NONCE_SIZE
}

fn bytes_range(v: &Vec<u8>, from: usize, to: usize) -> (r: Vec<u8>)
    requires
        from <= to <= v@.len(),
    ensures
        r@ == v@.subrange(from as int, to as int),
{
    slice_to_vec(slice_subrange(v.as_slice(), from, to))
}

/// Derives the key entry of every part of `dt` from `kdf`, stored under the
/// part's name when `enc`, else under its decimal index.
pub fn derive_key_map(kdf: &Kdf, dt: &DocumentType, enc: bool) -> (keys: KeyTable)
    ensures
        keys@ == derived_keys(kdf@, dt.part_names(), enc),
        entries_sized(keys@),
{
    let mut keys = KeyTable::new();
    let ghost names = dt.part_names();
    let mut i: usize = 0;
    while i < dt.parts.len()
        invariant
            i <= dt.parts@.len(),
            names == dt.part_names(),
            keys@ == derived_keys(kdf@, names.take(i as int), enc),
            entries_sized(keys@),
        decreases dt.parts@.len() - i,
    {
        let name = &dt.parts[i].name;
        let okm = kdf.expand(name.as_str().as_bytes(), KEY_MATERIAL_SIZE);
        let index = u64_to_decimal(i as u64);
        let map_key = if enc { name.clone() } else { u64_to_decimal(i as u64) };
        let entry = KeyEntry::new(index, bytes_range(&okm, 0, KEY_SIZE), bytes_range(&okm, KEY_SIZE, KEY_MATERIAL_SIZE));
        keys.insert(map_key, entry);
        proof {
            assert(names.take(i + 1).drop_last() =~= names.take(i as int));
            assert(names.take(i + 1)[i as int] == names[i as int]);
        }
        i = i + 1;
    }
    assert(names.take(dt.parts@.len() as int) =~= names);
    keys
}

/// The 44 bytes of key material that a master key derives for the cipher of a
/// key seed, or the error that stops it.
pub open spec fn seed_key_material(mkey: MasterKey) -> Result<Seq<u8>, CryptoError> {
    match restore_kdf_result(mkey.key@) {
        Err(e) => Err(e),
        Ok(prk) => match hex_decode_result(encode_utf8(mkey.salt@)) {
            None => Err(CryptoError::InvalidSalt),
            Some(salt) => Ok(hkdf_sha256_expand(prk, salt, KEY_MATERIAL_SIZE)),
        },
    }
}

/// The cipher key material of a master key: HKDF-SHA256-Expand, to 44 bytes,
/// of the key its hexadecimal key text stands for, with the bytes its
/// hexadecimal salt stands for as info; or the error for key text that is not
/// hexadecimal, a key shorter than 32 bytes, or salt text that is not
/// hexadecimal, in that order.
pub proof fn lemma_seed_key_material(mkey: MasterKey)
    ensures
        ({
            let key_text = encode_utf8(mkey.key@);
            let salt_text = encode_utf8(mkey.salt@);
            &&& !is_hex_text(key_text) ==> seed_key_material(mkey) == Err::<Seq<u8>, CryptoError>(
                CryptoError::KeyDecoding,
            )
            &&& is_hex_text(key_text) && hex_decoded(key_text).len() < PRK_SIZE ==> seed_key_material(mkey)
                == Err::<Seq<u8>, CryptoError>(CryptoError::InvalidPrkLength)
            &&& is_hex_text(key_text) && hex_decoded(key_text).len() >= PRK_SIZE && !is_hex_text(salt_text)
                ==> seed_key_material(mkey) == Err::<Seq<u8>, CryptoError>(CryptoError::InvalidSalt)
            &&& is_hex_text(key_text) && hex_decoded(key_text).len() >= PRK_SIZE && is_hex_text(salt_text)
                ==> seed_key_material(mkey) == Ok::<Seq<u8>, CryptoError>(
                hkdf_sha256_expand(hex_decoded(key_text), hex_decoded(salt_text), KEY_MATERIAL_SIZE),
            )
        }),
{
}

/// What sealing a new key map gives for a seed's pseudorandom key: the keys by
/// part name and the seed's hexadecimal text encrypted under the master key's
/// key material.
pub open spec fn generate_key_map_result(mkey: MasterKey, dt: DocumentType, prk: Seq<u8>) -> Result<KeyMapModel, CryptoError> {
    match seed_key_material(mkey) {
        Err(e) => Err(e),
        Ok(okm) => match encrypt_secret_result(
            okm.subrange(0, KEY_SIZE as int),
            okm.subrange(KEY_SIZE as int, KEY_MATERIAL_SIZE as int),
            hex_upper(prk),
        ) {
            Ok(ct) => Ok(KeyMapModel { enc: true, keys: derived_keys(prk, dt.part_names(), true), keys_enc: Some(ct) }),
            Err(_) => Err(CryptoError::SeedEncryption),
        },
    }
}

/// What restoring the decryption keys from a seed's hexadecimal text gives.
pub open spec fn restore_keys_result(secret: Seq<char>, dt: DocumentType) -> Result<KeyMapModel, CryptoError> {
    match restore_kdf_result(secret) {
        Err(e) => Err(e),
        Ok(prk) => Ok(KeyMapModel { enc: false, keys: derived_keys(prk, dt.part_names(), false), keys_enc: None }),
    }
}

/// What restoring the decryption keys from an encrypted seed gives.
pub open spec fn restore_key_map_result(mkey: MasterKey, dt: DocumentType, keys_ct: Seq<u8>) -> Result<KeyMapModel, CryptoError> {
    match seed_key_material(mkey) {
        Err(e) => Err(e),
        Ok(okm) => match decrypt_secret_result(
            okm.subrange(0, KEY_SIZE as int),
            okm.subrange(KEY_SIZE as int, KEY_MATERIAL_SIZE as int),
            keys_ct,
        ) {
            Ok(seed) => restore_keys_result(seed, dt),
            Err(_) => Err(CryptoError::SeedDecryption),
        },
    }
}

fn master_key_material(mkey: &MasterKey) -> (res: Result<Vec<u8>, CryptoError>)
    ensures
        match res {
            Ok(okm) => seed_key_material(*mkey) == Ok::<Seq<u8>, CryptoError>(okm@) && okm@.len()
                == KEY_MATERIAL_SIZE,
            Err(e) => seed_key_material(*mkey) == Err::<Seq<u8>, CryptoError>(e),
        },
{
    let kdf = match restore_kdf(&mkey.key) {
        Ok(kdf) => kdf,
        Err(e) => return Err(e),
    };
    let salt = match hex_decode(mkey.salt.as_str().as_bytes()) {
        Some(salt) => salt,
        None => return Err(CryptoError::InvalidSalt),
    };
    Ok(kdf.expand(salt.as_slice(), KEY_MATERIAL_SIZE))
}

/// Builds the key map of a new document type from the key derivation function
/// of a seed: the keys by part name, and the seed's hexadecimal text encrypted
/// under the master key. Restoring from that ciphertext gives the same keys by
/// part index.
pub fn seal_key_map(mkey: &MasterKey, dt: &DocumentType, doc_kdf: &Kdf) -> (res: Result<KeyMap, CryptoError>)
    ensures
        key_map_result(res) == generate_key_map_result(*mkey, *dt, doc_kdf@),
        res is Ok <==> (seed_key_material(*mkey) is Ok && 2 * doc_kdf@.len() <= MAX_PLAINTEXT_SIZE),
        res matches Ok(m) ==> entries_sized(m@.keys) && m@.keys_enc is Some && m@.keys_enc->0.len() == 2
            * doc_kdf@.len() + TAG_SIZE,
        res matches Ok(m) ==> restore_key_map_result(*mkey, *dt, m@.keys_enc->0) == Ok::<KeyMapModel, CryptoError>(
            KeyMapModel { enc: false, keys: derived_keys(doc_kdf@, dt.part_names(), false), keys_enc: None },
        ),
        ({
            let key_text = encode_utf8(mkey.key@);
            let salt_text = encode_utf8(mkey.salt@);
            let okm = hkdf_sha256_expand(hex_decoded(key_text), hex_decoded(salt_text), KEY_MATERIAL_SIZE);
            &&& res is Ok <==> (is_hex_text(key_text) && hex_decoded(key_text).len() >= PRK_SIZE
                && is_hex_text(salt_text) && 2 * doc_kdf@.len() <= MAX_PLAINTEXT_SIZE)
            &&& res matches Ok(m) ==> m@.enc && m@.keys == derived_keys(doc_kdf@, dt.part_names(), true)
                && m@.keys_enc == Some(
                aes256_gcm_siv_seal(
                    okm.subrange(0, KEY_SIZE as int),
                    okm.subrange(KEY_SIZE as int, KEY_MATERIAL_SIZE as int),
                    encode_utf8(hex_upper(doc_kdf@)),
                ),
            )
        }),
{
    proof {
        lemma_seed_key_material(*mkey);
    }
    let prk = doc_kdf.prk();
    let secret = hex_encode_upper(prk.as_slice());
    let key_map = derive_key_map(doc_kdf, dt, true);
    let okm = match master_key_material(mkey) {
        Ok(okm) => okm,
        Err(e) => return Err(e),
    };
    let key = bytes_range(&okm, 0, KEY_SIZE);
    let nonce = bytes_range(&okm, KEY_SIZE, KEY_MATERIAL_SIZE);
    proof {
        lemma_hex_text_len(doc_kdf@);
    }
    match encrypt_secret(key.as_slice(), nonce.as_slice(), secret) {
        Ok(ct) => {
            proof { lemma_restore_kdf_of_hex(doc_kdf@); }
            Ok(KeyMap::new(true, key_map, Some(ct)))
        },
        Err(_) => Err(CryptoError::SeedEncryption),
    }
}

proof fn lemma_hex_text_len(prk: Seq<u8>)
    ensures
        encode_utf8(hex_upper(prk)).len() == 2 * prk.len(),
{
    crate::hexcode::lemma_hex_upper_ascii(prk);
    is_ascii_chars_encode_utf8(hex_upper(prk));
}

/// Generates the key map of a new document type: draws a fresh seed, derives
/// the keys of the parts by name, and encrypts the seed under the master key.
/// Whatever seed is drawn, restoring from the ciphertext gives the same keys by
/// part index.
pub fn generate_key_map(mkey: MasterKey, dt: DocumentType) -> (res: Result<KeyMap, CryptoError>)
    ensures
        res is Ok <==> seed_key_material(mkey) is Ok,
        res matches Ok(m) ==> entries_sized(m@.keys) && m@.keys_enc is Some && m@.keys_enc->0.len() == 2
            * PRK_SIZE + TAG_SIZE,
        exists|prk: Seq<u8>|
            {
                &&& prk.len() == PRK_SIZE
                &&& exists|salt: Seq<u8>, ikm: Seq<u8>|
                    salt.len() == SEED_SIZE && ikm.len() == SEED_SIZE && prk == hkdf_sha256_extract(salt, ikm)
                &&& key_map_result(res) == generate_key_map_result(mkey, dt, prk)
                &&& res matches Ok(m) ==> restore_key_map_result(mkey, dt, m@.keys_enc->0) == Ok::<
                    KeyMapModel,
                    CryptoError,
                >(KeyMapModel { enc: false, keys: derived_keys(prk, dt.part_names(), false), keys_enc: None })
                &&& res matches Ok(m) ==> m@.keys_enc == Some(
                    aes256_gcm_siv_seal(
                        hkdf_sha256_expand(
                            hex_decoded(encode_utf8(mkey.key@)),
                            hex_decoded(encode_utf8(mkey.salt@)),
                            KEY_MATERIAL_SIZE,
                        ).subrange(0, KEY_SIZE as int),
                        hkdf_sha256_expand(
                            hex_decoded(encode_utf8(mkey.key@)),
                            hex_decoded(encode_utf8(mkey.salt@)),
                            KEY_MATERIAL_SIZE,
                        ).subrange(KEY_SIZE as int, KEY_MATERIAL_SIZE as int),
                        encode_utf8(hex_upper(prk)),
                    ),
                )
            },
        res is Ok <==> (is_hex_text(encode_utf8(mkey.key@)) && hex_decoded(encode_utf8(mkey.key@)).len()
            >= PRK_SIZE && is_hex_text(encode_utf8(mkey.salt@))),
{
    proof {
        lemma_seed_key_material(mkey);
    }
    let doc_kdf = initialize_kdf();
    seal_key_map(&mkey, &dt, &doc_kdf)
}

/// Restores the decryption key map of a document type from the key seed
/// encrypted under the master key.
pub fn restore_key_map(mkey: MasterKey, dt: DocumentType, keys_ct: Vec<u8>) -> (res: Result<KeyMap, CryptoError>)
    ensures
        key_map_result(res) == restore_key_map_result(mkey, dt, keys_ct@),
        res matches Ok(m) ==> entries_sized(m@.keys),
        forall|s: Seq<char>|
            seed_key_material(mkey) is Ok && encode_utf8(s).len() <= MAX_PLAINTEXT_SIZE && keys_ct@
                == #[trigger] seed_seal(seed_key_material(mkey)->Ok_0, s) ==> key_map_result(res)
                == restore_keys_result(s, dt),
        seed_key_material(mkey) is Ok && keys_ct@.len() <= MAX_PLAINTEXT_SIZE + TAG_SIZE && (forall|
            s: Seq<char>,
        | keys_ct@ != #[trigger] seed_seal(seed_key_material(mkey)->Ok_0, s)) ==> key_map_result(res)
            == Err::<KeyMapModel, CryptoError>(CryptoError::SeedDecryption),
        ({
            let key_text = encode_utf8(mkey.key@);
            let salt_text = encode_utf8(mkey.salt@);
            let okm = hkdf_sha256_expand(hex_decoded(key_text), hex_decoded(salt_text), KEY_MATERIAL_SIZE);
            forall|prk: Seq<u8>|
                is_hex_text(key_text) && hex_decoded(key_text).len() >= PRK_SIZE && is_hex_text(salt_text)
                    && PRK_SIZE <= prk.len() && 2 * prk.len() <= MAX_PLAINTEXT_SIZE && keys_ct@
                    == #[trigger] aes256_gcm_siv_seal(
                    okm.subrange(0, KEY_SIZE as int),
                    okm.subrange(KEY_SIZE as int, KEY_MATERIAL_SIZE as int),
                    encode_utf8(hex_upper(prk)),
                ) ==> key_map_result(res) == Ok::<KeyMapModel, CryptoError>(
                    KeyMapModel { enc: false, keys: derived_keys(prk, dt.part_names(), false), keys_enc: None },
                )
        }),
{
    proof {
        lemma_seed_key_material(mkey);
    }
    let okm = match master_key_material(&mkey) {
        Ok(okm) => okm,
        Err(e) => return Err(e),
    };
    let key = bytes_range(&okm, 0, KEY_SIZE);
    let nonce = bytes_range(&okm, KEY_SIZE, KEY_MATERIAL_SIZE);
    let res = match decrypt_secret(key.as_slice(), nonce.as_slice(), keys_ct.as_slice()) {
        Ok(seed) => {
            proof {
                if keys_ct@.len() <= MAX_PLAINTEXT_SIZE + TAG_SIZE {
                    assert(keys_ct@ == seed_seal(okm@, seed@));
                }
            }
            restore_keys(&seed, dt)
        },
        Err(_) => Err(CryptoError::SeedDecryption),
    };
    proof {
        assert forall|s: Seq<char>|
            encode_utf8(s).len() <= MAX_PLAINTEXT_SIZE && keys_ct@ == #[trigger] seed_seal(
                okm@,
                s,
            ) implies key_map_result(res) == restore_keys_result(s, dt) by {
            encode_utf8_valid_utf8(s);
            encode_utf8_decode_utf8(s);
            assert(keys_ct@ == aes256_gcm_siv_seal(key@, nonce@, encode_utf8(s)));
        }
        assert forall|prk: Seq<u8>|
            PRK_SIZE <= prk.len() && 2 * prk.len() <= MAX_PLAINTEXT_SIZE && keys_ct@
                == #[trigger] aes256_gcm_siv_seal(
                okm@.subrange(0, KEY_SIZE as int),
                okm@.subrange(KEY_SIZE as int, KEY_MATERIAL_SIZE as int),
                encode_utf8(hex_upper(prk)),
            ) implies key_map_result(res) == Ok::<KeyMapModel, CryptoError>(
            KeyMapModel { enc: false, keys: derived_keys(prk, dt.part_names(), false), keys_enc: None },
        ) by {
            lemma_hex_text_len(prk);
            lemma_restore_kdf_of_hex(prk);
            assert(keys_ct@ == seed_seal(okm@, hex_upper(prk)));
        }
    }
    res
}

/// The encryption of a key seed's text under the cipher key and nonce that
/// master key material holds.
pub open spec fn seed_seal(okm: Seq<u8>, seed: Seq<char>) -> Seq<u8> {
    aes256_gcm_siv_seal(
        okm.subrange(0, KEY_SIZE as int),
        okm.subrange(KEY_SIZE as int, KEY_MATERIAL_SIZE as int),
        encode_utf8(seed),
    )
}

/// Restores the decryption key map (keys by part index) of a document type
/// from the hexadecimal text of its seed.
pub fn restore_keys(secret: &String, dt: DocumentType) -> (res: Result<KeyMap, CryptoError>)
    ensures
        key_map_result(res) == restore_keys_result(secret@, dt),
        res matches Ok(m) ==> entries_sized(m@.keys),
{
    let kdf = match restore_kdf(secret) {
        Ok(kdf) => kdf,
        Err(e) => return Err(e),
    };
    let key_map = derive_key_map(&kdf, &dt, false);
    Ok(KeyMap::new(false, key_map, None))
}

/// A key map restored for decryption holds, under the decimal index of each
/// part, the key entry derived for that part.
pub proof fn lemma_restored_keys_by_index(prk: Seq<u8>, names: Seq<Seq<char>>, i: nat)
    requires
        i < names.len(),
    ensures
        derived_keys(prk, names, false).contains_key(decimal(i)),
        derived_keys(prk, names, false)[decimal(i)] == derived_entry(prk, i, names[i as int]),
    decreases names.len(),
{
    let last = (names.len() - 1) as nat;
    if i != last {
        lemma_restored_keys_by_index(prk, names.drop_last(), i);
        if decimal(i) == decimal(last) {
            lemma_decimal_injective(i, last);
        }
    }
}

/// Every key of a key map restored for decryption is the decimal index of a
/// part.
pub proof fn lemma_restored_keys_domain(prk: Seq<u8>, names: Seq<Seq<char>>, k: Seq<char>)
    requires
        derived_keys(prk, names, false).contains_key(k),
    ensures
        exists|i: nat| i < names.len() && k == decimal(i),
    decreases names.len(),
{
    let last = (names.len() - 1) as nat;
    if k != decimal(last) {
        lemma_restored_keys_domain(prk, names.drop_last(), k);
        let i = choose|i: nat| i < names.drop_last().len() && k == decimal(i);
        assert(i < names.len() && k == decimal(i));
    }
}

/// A key map sealed for encryption holds a key for the name of every part.
pub proof fn lemma_sealed_keys_cover_parts(prk: Seq<u8>, names: Seq<Seq<char>>, i: nat)
    requires
        i < names.len(),
    ensures
        derived_keys(prk, names, true).contains_key(names[i as int]),
    decreases names.len(),
{
    let last = (names.len() - 1) as nat;
    if i != last {
        lemma_sealed_keys_cover_parts(prk, names.drop_last(), i);
    }
}

/// The entry of a sealed key map under a name is the one derived for the last
/// part of that name.
pub proof fn lemma_sealed_keys_by_name(prk: Seq<u8>, names: Seq<Seq<char>>, name: Seq<char>)
    requires
        derived_keys(prk, names, true).contains_key(name),
    ensures
        exists|i: nat|
            i < names.len() && names[i as int] == name && (forall|j: int|
                i < j < names.len() ==> names[j] != name) && derived_keys(prk, names, true)[name]
                == derived_entry(prk, i, names[i as int]),
    decreases names.len(),
{
    let last = (names.len() - 1) as nat;
    if names[last as int] != name {
        lemma_sealed_keys_by_name(prk, names.drop_last(), name);
        let i = choose|i: nat|
            i < names.drop_last().len() && names.drop_last()[i as int] == name && (forall|j: int|
                i < j < names.drop_last().len() ==> names.drop_last()[j] != name)
                && derived_keys(prk, names.drop_last(), true)[name] == derived_entry(
                prk,
                i,
                names.drop_last()[i as int],
            );
        assert(names[i as int] == name);
        assert forall|j: int| i < j < names.len() implies names[j] != name by {
            if j < last {
                assert(names.drop_last()[j] == names[j]);
            }
        }
    } else {
        assert(names[last as int] == name);
    }
}

/// Encryption and decryption agree on every part: the entry that a sealed key
/// map holds under a part name is, under its id, also the entry of the key map
/// restored from the same seed.
pub proof fn lemma_sealed_and_restored_keys_agree(prk: Seq<u8>, names: Seq<Seq<char>>, name: Seq<char>)
    requires
        derived_keys(prk, names, true).contains_key(name),
    ensures
        derived_keys(prk, names, false).contains_key(derived_keys(prk, names, true)[name].id),
        derived_keys(prk, names, false)[derived_keys(prk, names, true)[name].id] == derived_keys(
            prk,
            names,
            true,
        )[name],
{
    lemma_sealed_keys_by_name(prk, names, name);
    let i = choose|i: nat|
        i < names.len() && names[i as int] == name && (forall|j: int|
            i < j < names.len() ==> names[j] != name) && derived_keys(prk, names, true)[name]
            == derived_entry(prk, i, names[i as int]);
    lemma_restored_keys_by_index(prk, names, i);
}

} // verus!
