//! Key management and document-bucket logic of the clearing house logging
//! service, verified with Verus.

pub mod decimal;
pub mod hexcode;
pub mod error;
pub mod kdf;
pub mod aead;
pub mod keys;
pub mod doc_store;
pub mod paging;
