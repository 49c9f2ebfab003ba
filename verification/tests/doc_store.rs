use clearing_house::doc_store::{
    bucket_id_pattern, collection_setup, new_bucket_id, previous_tc, restore_from_bucket,
    DocumentBucketSize, DocumentBucketUpdate, EncryptedDocument, MAX_NUM_RESPONSE_ENTRIES,
};
use clearing_house::paging::{
    get_offset, get_start_bucket, get_start_entry, plan_page, try_plan_page, SortingOrder,
};

fn document() -> EncryptedDocument {
    EncryptedDocument {
        id: "doc-1".to_string(),
        pid: "proc".to_string(),
        dt_id: "dt".to_string(),
        ts: 1_700_000_000,
        keys_ct: "ABCD".to_string(),
        cts: vec!["0-aa".to_string(), "1-bb".to_string()],
    }
}

#[test]
fn bucket_entry_keeps_document_fields() {
    let doc = document();
    let entry = DocumentBucketUpdate::from(&doc);
    assert_eq!(entry.id, "doc-1");
    assert_eq!(entry.ts, 1_700_000_000);
    assert_eq!(entry.keys_ct, "ABCD");
    assert_eq!(entry.cts, doc.cts);
}

#[test]
fn restore_from_bucket_gives_the_document_back() {
    let doc = document();
    let back = restore_from_bucket(doc.pid.clone(), doc.dt_id.clone(), DocumentBucketUpdate::from(&doc));
    assert_eq!(back.id, doc.id);
    assert_eq!(back.pid, doc.pid);
    assert_eq!(back.dt_id, doc.dt_id);
    assert_eq!(back.ts, doc.ts);
    assert_eq!(back.keys_ct, doc.keys_ct);
    assert_eq!(back.cts, doc.cts);
}

#[test]
fn restore_from_bucket_takes_process_and_type_of_the_bucket() {
    let entry = DocumentBucketUpdate { id: "x".to_string(), ts: -5, keys_ct: String::new(), cts: vec![] };
    let doc = restore_from_bucket("p9".to_string(), "t9".to_string(), entry);
    assert_eq!(doc.pid, "p9");
    assert_eq!(doc.dt_id, "t9");
    assert_eq!(doc.ts, -5);
    assert!(doc.cts.is_empty());
}

#[test]
fn bucket_ids() {
    assert_eq!(bucket_id_pattern(&"proc".to_string()), "^proc_");
    assert_eq!(new_bucket_id(&"proc".to_string(), 1234, &"u-1".to_string()), "proc_1234_u-1");
    assert_eq!(new_bucket_id(&"p".to_string(), -7, &"u".to_string()), "p_-7_u");
}

#[test]
fn previous_transaction_counter() {
    assert_eq!(previous_tc(0), None);
    assert_eq!(previous_tc(-3), None);
    assert_eq!(previous_tc(1), Some(0));
    assert_eq!(previous_tc(42), Some(41));
}

#[test]
fn collection_setup_decisions() {
    let name = "document_bucket".to_string();
    let in_use = vec!["other".to_string(), name.clone()];
    let other = vec!["other".to_string()];
    let s = collection_setup(&in_use, &name, false);
    assert!(!s.drop_database && !s.create_collection);
    let s = collection_setup(&in_use, &name, true);
    assert!(s.drop_database && s.create_collection);
    let s = collection_setup(&other, &name, false);
    assert!(!s.drop_database && s.create_collection);
    let s = collection_setup(&vec![], &name, true);
    assert!(!s.drop_database && s.create_collection);
}

#[test]
fn offsets() {
    assert_eq!(get_offset(&DocumentBucketSize { capacity: 1000, size: 1000 }), 0);
    assert_eq!(get_offset(&DocumentBucketSize { capacity: 1000, size: 250 }), 750);
    assert_eq!(get_offset(&DocumentBucketSize { capacity: 300, size: 0 }), 300);
    assert_eq!(get_offset(&DocumentBucketSize { capacity: 0, size: 1 }), (u64::MAX) % MAX_NUM_RESPONSE_ENTRIES);
}

#[test]
fn start_bucket_and_entry() {
    let full = DocumentBucketSize { capacity: 1000, size: 1000 };
    // page 1 of 100 starts in the first bucket
    assert_eq!(get_start_bucket(1, 100, &full, 0), 1);
    assert_eq!(get_start_entry(1, 100, 1, &full, 0), 0);
    // page 2 of 100 starts in the first bucket after the 100 entries of page 1
    assert_eq!(get_start_bucket(2, 100, &full, 0), 1);
    assert_eq!(get_start_entry(2, 100, 1, &full, 0), 100);
    // page 11 of 100: 1000 documents before it, all of the first bucket
    assert_eq!(get_start_bucket(11, 100, &full, 0), 2);
    assert_eq!(get_start_entry(11, 100, 2, &full, 0), 0);
    // a partly filled first bucket of 300
    let partial = DocumentBucketSize { capacity: 300, size: 300 };
    assert_eq!(get_start_bucket(4, 100, &partial, 0), 2);
    assert_eq!(get_start_entry(4, 100, 2, &partial, 0), 0);
    assert_eq!(get_start_bucket(5, 100, &partial, 0), 2);
    assert_eq!(get_start_entry(5, 100, 2, &partial, 0), 100);
    assert_eq!(get_start_bucket(15, 100, &partial, 0), 3);
    assert_eq!(get_start_entry(15, 100, 3, &partial, 0), 100);
    // a start bucket given from elsewhere: the full buckets before it are taken off
    let small = DocumentBucketSize { capacity: 5, size: 5 };
    assert_eq!(get_start_entry(201, 10, 2, &small, 0), 1995);
    assert_eq!(get_start_entry(201, 10, 3, &small, 0), 995);
    // small remainders are kept as they are
    assert_eq!(get_start_entry(1, 2, 2, &DocumentBucketSize { capacity: 0, size: 0 }, 2), 2);
}

#[test]
fn start_position_lies_in_the_start_bucket() {
    let bs = DocumentBucketSize { capacity: 300, size: 300 };
    for page in 1..40u64 {
        let size = 70u64;
        let d = (page - 1) * size;
        let b = get_start_bucket(page, size, &bs, 0);
        let e = get_start_entry(page, size, b, &bs, 0);
        if d < 300 {
            assert_eq!((b, e), (1, d));
        } else {
            assert!(e < 1000);
            assert_eq!(e, (d - 300) % 1000);
            assert_eq!(d, 300 + (b - 2) * 1000 + e);
        }
    }
}

#[test]
fn second_page_skips_the_first() {
    let bs = DocumentBucketSize { capacity: 1000, size: 1000 };
    let first = try_plan_page(1, 10, &SortingOrder::Ascending, &bs).unwrap();
    let second = try_plan_page(2, 10, &SortingOrder::Ascending, &bs).unwrap();
    assert_eq!((first.skip_buckets, first.skip_entries, first.limit), (0, 0, 10));
    assert_eq!((second.skip_buckets, second.skip_entries, second.limit), (0, 10, 10));
    // a duration query whose first bucket holds 40 documents in range
    let partial = DocumentBucketSize { capacity: 1000, size: 40 };
    let third = try_plan_page(3, 10, &SortingOrder::Descending, &partial).unwrap();
    assert_eq!((third.skip_buckets, third.skip_entries), (0, 20));
    let fifth = try_plan_page(5, 10, &SortingOrder::Descending, &partial).unwrap();
    assert_eq!((fifth.skip_buckets, fifth.skip_entries), (1, 0));
}

#[test]
fn plans_that_would_overflow_are_refused() {
    let bs = DocumentBucketSize { capacity: 1000, size: 1000 };
    assert!(try_plan_page(0, 10, &SortingOrder::Ascending, &bs).is_none());
    assert!(try_plan_page(u64::MAX, u64::MAX, &SortingOrder::Ascending, &bs).is_none());
    let odd = DocumentBucketSize { capacity: i32::MIN, size: 1 };
    assert!(try_plan_page(1, 10, &SortingOrder::Ascending, &odd).is_none());
}

#[test]
fn page_plans() {
    let bs = DocumentBucketSize { capacity: 300, size: 300 };
    let plan = plan_page(5, 100, &SortingOrder::Ascending, &bs);
    assert_eq!(plan.skip_buckets, 1);
    assert_eq!(plan.skip_entries, 100);
    assert_eq!(plan.limit, 100);
    assert_eq!(plan.sort_order, 1);
    let plan = plan_page(1, 10, &SortingOrder::Descending, &DocumentBucketSize { capacity: 1000, size: 990 });
    assert_eq!(plan.skip_buckets, 0);
    assert_eq!(plan.skip_entries, 0);
    assert_eq!(plan.sort_order, -1);
    assert_eq!(SortingOrder::Ascending.sort_direction(), 1);
    assert_eq!(SortingOrder::Descending.sort_direction(), -1);
}
