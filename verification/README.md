# clearing_house

The key management and document-bucket logic of the clearing house logging
service, written in Verus.

- `src/` is the verified library:
  - `kdf`: HKDF-SHA256 key derivation functions (held by their pseudorandom
    key) and random seeds;
  - `aead`: AES-256-GCM-SIV encryption of secrets;
  - `keys`: key maps of document types: deriving the per-part keys,
    sealing the seed under a master key and restoring it;
  - `hexcode`, `decimal`: hexadecimal and decimal text;
  - `doc_store`, `paging`: documents in buckets and the arithmetic that pages
    through buckets;
  - `error`: the errors of key management.
- `app/` holds what runs around it: the MongoDB document store, the serde
  copies of the record types, and `anyhow` entry points for key management.
- `tests/` exercises the library on concrete values.
