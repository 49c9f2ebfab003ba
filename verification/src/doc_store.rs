//! Documents stored in buckets: the records kept per bucket, the conversion of
//! a document into a bucket entry and back, and the arithmetic that pages
//! through buckets.

use crate::decimal::{i64_to_decimal, signed_decimal};
use vstd::prelude::*;
use vstd::string::*;

verus! {

/// Most documents a bucket holds, and most entries a page returns.
pub const MAX_NUM_RESPONSE_ENTRIES: u64 = 1000;

/// A document with encrypted contents, as logged for a process.
pub struct EncryptedDocument {
    pub id: String,
    pub pid: String,
    pub dt_id: String,
    pub ts: i64,
    pub keys_ct: String,
    pub cts: Vec<String>,
}

/// The abstract value of an encrypted document.
pub struct EncryptedDocumentModel {
    pub id: Seq<char>,
    pub pid: Seq<char>,
    pub dt_id: Seq<char>,
    pub ts: i64,
    pub keys_ct: Seq<char>,
    pub cts: Seq<Seq<char>>,
}

/// The abstract value of a list of strings.
pub open spec fn strings_view(v: Seq<String>) -> Seq<Seq<char>> {
    v.map_values(|s: String| s@)
}

impl View for EncryptedDocument {
    type V = EncryptedDocumentModel;

    open spec fn view(&self) -> EncryptedDocumentModel {
        EncryptedDocumentModel {
            id: self.id@,
            pid: self.pid@,
            dt_id: self.dt_id@,
            ts: self.ts,
            keys_ct: self.keys_ct@,
            cts: strings_view(self.cts@),
        }
    }
}

/// A bucket: up to `MAX_NUM_RESPONSE_ENTRIES` documents of one process and
/// document type, with the range of their timestamps.
pub struct DocumentBucket {
    pub counter: u64,
    pub pid: String,
    pub dt_id: String,
    pub from_ts: i64,
    pub to_ts: i64,
    pub documents: Vec<EncryptedDocument>,
}

/// The number of documents a bucket was counted with, and how many of them
/// fall into a queried time range.
pub struct DocumentBucketSize {
    pub capacity: i32,
    pub size: i32,
}

/// A document as held inside a bucket, without the process and document type
/// that the bucket records once for all its documents.
pub struct DocumentBucketUpdate {
    pub id: String,
    pub ts: i64,
    pub keys_ct: String,
    pub cts: Vec<String>,
}

/// The abstract value of a bucket entry.
pub struct DocumentBucketUpdateModel {
    pub id: Seq<char>,
    pub ts: i64,
    pub keys_ct: Seq<char>,
    pub cts: Seq<Seq<char>>,
}

impl View for DocumentBucketUpdate {
    type V = DocumentBucketUpdateModel;

    open spec fn view(&self) -> DocumentBucketUpdateModel {
        DocumentBucketUpdateModel {
            id: self.id@,
            ts: self.ts,
            keys_ct: self.keys_ct@,
            cts: strings_view(self.cts@),
        }
    }
}

/// The bucket entry of a document.
pub open spec fn bucket_entry_of(doc: EncryptedDocumentModel) -> DocumentBucketUpdateModel {
    DocumentBucketUpdateModel { id: doc.id, ts: doc.ts, keys_ct: doc.keys_ct, cts: doc.cts }
}

/// The document that a bucket entry of the given process and document type
/// stands for.
pub open spec fn document_of_entry(
    pid: Seq<char>,
    dt_id: Seq<char>,
    entry: DocumentBucketUpdateModel,
) -> EncryptedDocumentModel {
    EncryptedDocumentModel {
        id: entry.id,
        pid,
        dt_id,
        ts: entry.ts,
        keys_ct: entry.keys_ct,
        cts: entry.cts,
    }
}

fn clone_strings(v: &Vec<String>) -> (r: Vec<String>)
    ensures
        r@ == v@,
{
    let mut r: Vec<String> = Vec::new();
    let mut i: usize = 0;
    while i < v.len()
        invariant
            i <= v@.len(),
            r@ == v@.take(i as int),
        decreases v@.len() - i,
    {
        r.push(v[i].clone());
        assert(r@ =~= v@.take(i + 1));
        i = i + 1;
    }
    assert(v@.take(v@.len() as int) =~= v@);
    r
}

impl DocumentBucketUpdate {
    /// The bucket entry of a document.
    pub fn from(doc: &EncryptedDocument) -> (entry: DocumentBucketUpdate)
        ensures
            entry@ == bucket_entry_of(doc@),
    {
        DocumentBucketUpdate {
            id: doc.id.clone(),
            ts: doc.ts,
            keys_ct: doc.keys_ct.clone(),
            cts: clone_strings(&doc.cts),
        }
    }
}

/// Restores a document from its bucket entry and the process and document type
/// of the bucket.
pub fn restore_from_bucket(
    pid: String,
    dt_id: String,
    bucket_update: DocumentBucketUpdate,
) -> (doc: EncryptedDocument)
    ensures
        doc@ == document_of_entry(pid@, dt_id@, bucket_update@),
{
    EncryptedDocument {
        id: bucket_update.id.clone(),
        dt_id,
        pid,
        ts: bucket_update.ts,
        keys_ct: bucket_update.keys_ct.clone(),
        cts: clone_strings(&bucket_update.cts),
    }
}

/// Storing a document in a bucket of its process and document type loses
/// nothing: restoring the entry gives the document back.
pub proof fn lemma_bucket_entry_roundtrip(doc: EncryptedDocumentModel)
    ensures
        document_of_entry(doc.pid, doc.dt_id, bucket_entry_of(doc)) == doc,
{
}

/// The `_id` pattern that selects the buckets of a process: `^`, the process id
/// and `_`.
pub fn bucket_id_pattern(pid: &String) -> (pattern: String)
    ensures
        pattern@ == seq!['^'] + pid@ + seq!['_'],
{
    proof {
        reveal_strlit("^");
        reveal_strlit("_");
    }
    let mut s = String::new();
    s.append("^");
    s.append(pid.as_str());
    s.append("_");
    s
}

/// The `_id` of a new bucket: the process id, the timestamp of its first
/// document and a unique suffix, joined by `_`.
pub fn new_bucket_id(pid: &String, ts: i64, unique: &String) -> (id: String)
    ensures
        id@ == pid@ + seq!['_'] + signed_decimal(ts as int) + seq!['_'] + unique@,
{
    proof { reveal_strlit("_"); }
    let ts_text = i64_to_decimal(ts);
    let mut s = String::new();
    s.append(pid.as_str());
    s.append("_");
    s.append(ts_text.as_str());
    s.append("_");
    s.append(unique.as_str());
    s
}

/// The transaction counter before `tc`, or `None` when `tc` is the first.
pub fn previous_tc(tc: i64) -> (prev: Option<i64>)
    requires
        tc > i64::MIN,
    ensures
        prev == (if tc - 1 < 0 { None::<i64> } else { Some((tc - 1) as i64) }),
{
    let previous = tc - 1;
    if previous < 0 {
        None
    } else {
        Some(previous)
    }
}

/// Whether `name` is among `colls`.
pub open spec fn names_contain(colls: Seq<String>, name: Seq<char>) -> bool {
    exists|i: int| 0 <= i < colls.len() && (#[trigger] colls[i])@ == name
}

/// What to do to the database before use.
pub struct CollectionSetup {
    /// Drop the database first.
    pub drop_database: bool,
    /// Create the bucket collection and its index.
    pub create_collection: bool,
}

/// Decides, from the collections that exist, whether to drop the database and
/// whether to create the bucket collection: a database that holds the bucket
/// collection counts as in use; one in use is dropped when `clear_db`; the
/// collection is created where the database was not in use or is cleared.
pub fn collection_setup(colls: &Vec<String>, bucket_collection: &String, clear_db: bool) -> (setup: CollectionSetup)
    ensures
        setup.drop_database == (names_contain(colls@, bucket_collection@) && colls@.len() > 0 && clear_db),
        setup.create_collection == (!names_contain(colls@, bucket_collection@) || colls@.len() == 0 || clear_db),
{
    let mut found = false;
    let mut i: usize = 0;
    while i < colls.len()
        invariant
            i <= colls@.len(),
            found == exists|l: int| 0 <= l < i && (#[trigger] colls@[l])@ == bucket_collection@,
        decreases colls@.len() - i,
    {
        if colls[i] == *bucket_collection {
            found = true;
        }
        i = i + 1;
    }
    let number_of_colls: usize = if found { colls.len() } else { 0 };
    CollectionSetup {
        drop_database: number_of_colls > 0 && clear_db,
        create_collection: number_of_colls == 0 || clear_db,
    }
}

} // verus!
