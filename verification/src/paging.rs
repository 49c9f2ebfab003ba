//! Paging through the buckets of a process: which bucket a page starts in and
//! at which entry of it.
//!
//! Buckets are visited in the order of the query. The first one was counted
//! with `capacity` documents, of which `size` fall into the queried time range;
//! the offset counts the others, modulo the bucket size. Later buckets are
//! taken as full, with `MAX_NUM_RESPONSE_ENTRIES` documents each. A page query
//! skips whole buckets, drops the documents outside the time range, and then
//! skips entries: inside the first bucket the entries of the earlier pages,
//! in a later bucket the entries before the page's position in it.

use crate::doc_store::{DocumentBucketSize, MAX_NUM_RESPONSE_ENTRIES};
use vstd::prelude::*;

verus! {

/// The order in which documents are listed.
#[derive(Debug, Clone, Copy, PartialEq, Eq, Structural)]
pub enum SortingOrder {
    Ascending,
    Descending,
}

impl SortingOrder {
    /// The sort direction of the database query: 1 ascending, -1 descending.
    pub fn sort_direction(&self) -> (d: i32)
        ensures
            d == (if *self == SortingOrder::Ascending { 1i32 } else { -1i32 }),
    {
        match self {
            SortingOrder::Ascending => 1,
            SortingOrder::Descending => -1,
        }
    }
}

/// The bucket capacity read as an unsigned number, as the paging arithmetic
/// reads it.
pub open spec fn capacity_u64(bucket_size: DocumentBucketSize) -> u64 {
    bucket_size.capacity as u64
}

/// The offset of the first page inside the first bucket: the documents of that
/// bucket outside the queried range, modulo the bucket size.
pub open spec fn offset_of(bucket_size: DocumentBucketSize) -> u64 {
    ((bucket_size.capacity - bucket_size.size) as u64) % MAX_NUM_RESPONSE_ENTRIES
}

/// The number of documents that come before a page.
pub open spec fn docs_to_skip(page: u64, size: u64, offset: u64) -> int {
    (page - 1) * size + offset
}

/// The bucket (counted from 1) in which a page starts.
pub open spec fn start_bucket_of(page: u64, size: u64, bucket_size: DocumentBucketSize, offset: u64) -> int {
    (docs_to_skip(page, size, offset) + MAX_NUM_RESPONSE_ENTRIES - capacity_u64(bucket_size))
        / MAX_NUM_RESPONSE_ENTRIES as int + 1
}

/// The number of in-range entries of its start bucket that a page skips: the
/// entries of the earlier pages where it starts in the first bucket; else its
/// position past the first bucket less the full buckets between, which leaves
/// a position of at most two entries as it is.
pub open spec fn start_entry_of(
    page: u64,
    size: u64,
    start_bucket: u64,
    bucket_size: DocumentBucketSize,
    offset: u64,
) -> int {
    if start_bucket > 1 {
        let past_first = docs_to_skip(page, size, offset) - capacity_u64(bucket_size);
        if past_first > 2 {
            past_first - (start_bucket - 2) * MAX_NUM_RESPONSE_ENTRIES
        } else {
            past_first
        }
    } else {
        (page - 1) * size
    }
}

/// The offset of the first page inside the first bucket.
pub fn get_offset(bucket_size: &DocumentBucketSize) -> (offset: u64)
    requires
        i32::MIN <= bucket_size.capacity - bucket_size.size <= i32::MAX,
    ensures
        offset == offset_of(*bucket_size),
        offset < MAX_NUM_RESPONSE_ENTRIES,
{
    let diff: i32 = bucket_size.capacity - bucket_size.size;
    (diff as u64) % MAX_NUM_RESPONSE_ENTRIES
}

/// The bucket (counted from 1) in which a page starts.
pub fn get_start_bucket(page: u64, size: u64, bucket_size: &DocumentBucketSize, offset: u64) -> (start_bucket: u64)
    requires
        page >= 1,
        docs_to_skip(page, size, offset) + MAX_NUM_RESPONSE_ENTRIES <= u64::MAX,
        docs_to_skip(page, size, offset) + MAX_NUM_RESPONSE_ENTRIES >= capacity_u64(*bucket_size),
    ensures
        start_bucket == start_bucket_of(page, size, *bucket_size, offset),
{
    let capacity: u64 = bucket_size.capacity as u64;
    assert((page - 1) * size <= docs_to_skip(page, size, offset));
    let docs_to_skip: u64 = (page - 1) * size + offset + MAX_NUM_RESPONSE_ENTRIES - capacity;
    (docs_to_skip / MAX_NUM_RESPONSE_ENTRIES) + 1
}

/// The number of in-range entries of its start bucket that a page skips.
pub fn get_start_entry(
    page: u64,
    size: u64,
    start_bucket: u64,
    bucket_size: &DocumentBucketSize,
    offset: u64,
) -> (start_entry: u64)
    requires
        page >= 1,
        docs_to_skip(page, size, offset) <= u64::MAX,
        start_bucket > 1 ==> docs_to_skip(page, size, offset) >= capacity_u64(*bucket_size),
        start_bucket > 1 && docs_to_skip(page, size, offset) - capacity_u64(*bucket_size) > 2 ==> (
        start_bucket - 2) * MAX_NUM_RESPONSE_ENTRIES <= docs_to_skip(page, size, offset) - capacity_u64(
            *bucket_size,
        ),
    ensures
        start_entry == start_entry_of(page, size, start_bucket, *bucket_size, offset),
{
    assert((page - 1) * size <= docs_to_skip(page, size, offset));
    let earlier_pages: u64 = (page - 1) * size;
    if start_bucket > 1 {
        let docs_to_skip: u64 = earlier_pages + offset;
        let mut start_entry: u64 = docs_to_skip - bucket_size.capacity as u64;
        if start_entry > 2 {
            assert((start_bucket - 2) * MAX_NUM_RESPONSE_ENTRIES <= start_entry);
            start_entry -= (start_bucket - 2) * MAX_NUM_RESPONSE_ENTRIES;
        }
        start_entry
    } else {
        earlier_pages
    }
}

/// Where a page starts: a page whose position lies inside the first bucket
/// starts there and skips the entries of the earlier pages; any later page
/// starts in the bucket that holds its position, counting the first bucket with
/// its capacity and every later one as full, and skips the entries before its
/// position in that bucket.
pub proof fn lemma_start_position(page: u64, size: u64, bucket_size: DocumentBucketSize, offset: u64)
    requires
        page >= 1,
        docs_to_skip(page, size, offset) + MAX_NUM_RESPONSE_ENTRIES <= u64::MAX,
    ensures
        ({
            let d = docs_to_skip(page, size, offset);
            let c = capacity_u64(bucket_size) as int;
            let b = start_bucket_of(page, size, bucket_size, offset);
            d + MAX_NUM_RESPONSE_ENTRIES >= c ==> {
                &&& d < c ==> b == 1 && start_entry_of(page, size, b as u64, bucket_size, offset) == (
                page - 1) * size
                &&& d >= c ==> {
                    let e = start_entry_of(page, size, b as u64, bucket_size, offset);
                    &&& b >= 2
                    &&& e == (d - c) % (MAX_NUM_RESPONSE_ENTRIES as int)
                    &&& 0 <= e < MAX_NUM_RESPONSE_ENTRIES
                    &&& d == c + (b - 2) * MAX_NUM_RESPONSE_ENTRIES + e
                }
            }
        }),
{
    let d = docs_to_skip(page, size, offset);
    let c = capacity_u64(bucket_size) as int;
    let m = MAX_NUM_RESPONSE_ENTRIES as int;
    assert(page - 1 >= 0);
    assert((page - 1) * size >= 0) by (nonlinear_arith)
        requires
            page >= 1,
    ;
    if d + m >= c {
        let x = d + m - c;
        let b = x / m + 1;
        assert(b == start_bucket_of(page, size, bucket_size, offset));
        assert(0 <= b <= u64::MAX);
        assert((b as u64) as int == b);
        if d >= c {
            let q = (d - c) / m;
            let r = (d - c) % m;
            assert(x / m == q + 1);
            assert(b == q + 2);
            assert(d - c == q * m + r);
            assert(start_entry_of(page, size, b as u64, bucket_size, offset) == r);
        } else {
            assert(x / m == 0);
        }
    }
}

/// The database steps of a page: how many buckets to skip, in which
/// direction to sort, how many entries of the remaining buckets to skip and
/// how many to return.
pub struct PagePlan {
    pub skip_buckets: i32,
    pub sort_order: i32,
    pub skip_entries: i32,
    pub limit: i32,
}

/// The plan of a page: skip the buckets before its start bucket, sort in the
/// requested direction, skip the entries before its start entry, and return at
/// most `size` entries.
pub open spec fn page_plan_of(page: u64, size: u64, sort: SortingOrder, bucket_size: DocumentBucketSize) -> PagePlan {
    let offset = offset_of(bucket_size);
    let b = start_bucket_of(page, size, bucket_size, offset);
    PagePlan {
        skip_buckets: (b - 1) as i32,
        sort_order: if sort == SortingOrder::Ascending { 1i32 } else { -1i32 },
        skip_entries: start_entry_of(page, size, b as u64, bucket_size, offset) as i32,
        limit: size as i32,
    }
}

/// Whether the paging arithmetic of a page stays within its integer types:
/// pages count from 1, the bucket's free slots fit an `i32`, and the position
/// of the page, plus a bucket, fits a `u64` and reaches past the first bucket's
/// capacity read as unsigned.
pub open spec fn page_computable(page: u64, size: u64, bucket_size: DocumentBucketSize) -> bool {
    &&& page >= 1
    &&& i32::MIN <= bucket_size.capacity - bucket_size.size <= i32::MAX
    &&& docs_to_skip(page, size, offset_of(bucket_size)) + MAX_NUM_RESPONSE_ENTRIES <= u64::MAX
    &&& docs_to_skip(page, size, offset_of(bucket_size)) + MAX_NUM_RESPONSE_ENTRIES >= capacity_u64(bucket_size)
}

/// What a page plan does: a page whose position (the entries of the earlier
/// pages plus the first bucket's out-of-range documents) lies inside the first
/// bucket skips no bucket and the entries of the earlier pages; a later page
/// skips the first bucket and every full bucket before its position, then the
/// entries before its position in the bucket it starts in. The plan sorts in
/// the requested direction and returns at most `size` entries.
pub proof fn lemma_page_plan_locates_page(page: u64, size: u64, sort: SortingOrder, bucket_size: DocumentBucketSize)
    requires
        page_computable(page, size, bucket_size),
    ensures
        ({
            let plan = page_plan_of(page, size, sort, bucket_size);
            let offset = ((bucket_size.capacity - bucket_size.size) as u64) % MAX_NUM_RESPONSE_ENTRIES;
            let d = (page - 1) * size + offset;
            let c = (bucket_size.capacity as u64) as int;
            let m = MAX_NUM_RESPONSE_ENTRIES as int;
            &&& d < c ==> plan.skip_buckets == 0 && plan.skip_entries == ((page - 1) * size) as i32
            &&& d >= c ==> plan.skip_buckets == (1 + (d - c) / m) as i32 && plan.skip_entries as int == (d - c)
                % m
            &&& plan.limit == size as i32
            &&& plan.sort_order == (if sort == SortingOrder::Ascending { 1i32 } else { -1i32 })
        }),
{
    lemma_start_position(page, size, bucket_size, offset_of(bucket_size));
    let d = docs_to_skip(page, size, offset_of(bucket_size));
    let c = capacity_u64(bucket_size) as int;
    let m = MAX_NUM_RESPONSE_ENTRIES as int;
    if d >= c {
        let b = start_bucket_of(page, size, bucket_size, offset_of(bucket_size));
        assert(d == c + (b - 2) * m + start_entry_of(page, size, b as u64, bucket_size, offset_of(bucket_size)));
        assert((d - c) / m == b - 2);
    }
}

/// Plans the query of a page of documents from the size of its start bucket.
pub fn plan_page(page: u64, size: u64, sort: &SortingOrder, bucket_size: &DocumentBucketSize) -> (plan: PagePlan)
    requires
        page_computable(page, size, *bucket_size),
    ensures
        plan == page_plan_of(page, size, *sort, *bucket_size),
        ({
            let offset = ((bucket_size.capacity - bucket_size.size) as u64) % MAX_NUM_RESPONSE_ENTRIES;
            let d = (page - 1) * size + offset;
            let c = (bucket_size.capacity as u64) as int;
            let m = MAX_NUM_RESPONSE_ENTRIES as int;
            &&& d < c ==> plan.skip_buckets == 0 && plan.skip_entries == ((page - 1) * size) as i32
            &&& d >= c ==> plan.skip_buckets == (1 + (d - c) / m) as i32 && plan.skip_entries as int == (d - c)
                % m
            &&& plan.limit == size as i32
            &&& plan.sort_order == (if *sort == SortingOrder::Ascending { 1i32 } else { -1i32 })
        }),
{
    proof {
        lemma_page_plan_locates_page(page, size, *sort, *bucket_size);
    }
    let offset = get_offset(bucket_size);
    let start_bucket = get_start_bucket(page, size, bucket_size, offset);
    proof {
        lemma_start_position(page, size, *bucket_size, offset);
    }
    let start_entry = get_start_entry(page, size, start_bucket, bucket_size, offset);
    PagePlan {
        skip_buckets: (start_bucket - 1) as i32,
        sort_order: sort.sort_direction(),
        skip_entries: start_entry as i32,
        limit: size as i32,
    }
}

/// Plans the query of a page, or gives `None` where the paging arithmetic
/// would leave its integer types.
pub fn try_plan_page(page: u64, size: u64, sort: &SortingOrder, bucket_size: &DocumentBucketSize) -> (plan: Option<PagePlan>)
    ensures
        plan == (if page_computable(page, size, *bucket_size) {
            Some(page_plan_of(page, size, *sort, *bucket_size))
        } else {
            None::<PagePlan>
        }),
        plan matches Some(plan) ==> ({
            let offset = ((bucket_size.capacity - bucket_size.size) as u64) % MAX_NUM_RESPONSE_ENTRIES;
            let d = (page - 1) * size + offset;
            let c = (bucket_size.capacity as u64) as int;
            let m = MAX_NUM_RESPONSE_ENTRIES as int;
            &&& d < c ==> plan.skip_buckets == 0 && plan.skip_entries == ((page - 1) * size) as i32
            &&& d >= c ==> plan.skip_buckets == (1 + (d - c) / m) as i32 && plan.skip_entries as int == (d - c)
                % m
            &&& plan.limit == size as i32
            &&& plan.sort_order == (if *sort == SortingOrder::Ascending { 1i32 } else { -1i32 })
        }),
{
    if page == 0 {
        return None;
    }
    let diff: i64 = bucket_size.capacity as i64 - bucket_size.size as i64;
    if diff < i32::MIN as i64 || diff > i32::MAX as i64 {
        return None;
    }
    let offset = get_offset(bucket_size);
    let before = match (page - 1).checked_mul(size) {
        Some(b) => b,
        None => {
            assert((page - 1) * size <= docs_to_skip(page, size, offset));
            return None;
        },
    };
    let reach = match before.checked_add(offset) {
        Some(d) => match d.checked_add(MAX_NUM_RESPONSE_ENTRIES) {
            Some(r) => r,
            None => return None,
        },
        None => return None,
    };
    if reach < bucket_size.capacity as u64 {
        return None;
    }
    Some(plan_page(page, size, sort, bucket_size))
}

} // verus!
