use code_ledger::error::LedgerError;
use code_ledger::store::Store;

fn lines(items: &[&str]) -> Vec<String> {
    items.iter().map(|s| s.to_string()).collect()
}

fn sorted(mut v: Vec<String>) -> Vec<String> {
    v.sort();
    v
}

#[test]
fn spring_promo_scenario() {
    let mut store = Store::new();
    let n = store.load_codes("spring-promo", &lines(&["AAA", "BBB", "CCC"])).unwrap();
    assert_eq!(n, 3);
    assert_eq!(store.code_count(), 3);
    assert!(store.codes().iter().all(|r| !r.is_used));
    let id = store.resolve("spring-promo").unwrap();
    assert_eq!(store.count_codes(id), (3, 0, 3));

    let first = store.get_codes("spring-promo", 2).unwrap();
    assert_eq!(first.len(), 2);
    assert_ne!(first[0], first[1]);
    for code in &first {
        assert!(["AAA", "BBB", "CCC"].contains(&code.as_str()));
    }
    assert_eq!(store.count_codes(id), (3, 2, 1));

    let second = store.get_codes("spring-promo", 5).unwrap();
    assert_eq!(second.len(), 1);
    assert!(!first.contains(&second[0]));
    let mut all = first.clone();
    all.extend(second.clone());
    assert_eq!(sorted(all), lines(&["AAA", "BBB", "CCC"]));

    let third = store.get_codes("spring-promo", 1).unwrap();
    assert!(third.is_empty());

    let report = store.summarize();
    assert_eq!(report.len(), 1);
    assert_eq!(report[0].title, "spring-promo");
    assert_eq!(report[0].total_keys, 3);
    assert_eq!(report[0].used_keys, 3);
    assert_eq!(report[0].unused_keys, 0);
}

#[test]
fn resolve_unknown_title_is_not_found() {
    let store = Store::new();
    assert_eq!(store.resolve("nothing"), Err(LedgerError::NotFound));
}

#[test]
fn resolve_matches_the_exact_title_only() {
    let mut store = Store::new();
    let id = store.resolve_or_create("Spring").unwrap();
    assert_eq!(store.resolve("Spring"), Ok(id));
    assert_eq!(store.resolve("spring"), Err(LedgerError::NotFound));
    assert_eq!(store.resolve("Spring "), Err(LedgerError::NotFound));
}

#[test]
fn resolve_or_create_twice_gives_one_collection() {
    let mut store = Store::new();
    let a = store.resolve_or_create("summer").unwrap();
    let b = store.resolve_or_create("summer").unwrap();
    assert_eq!(a, b);
    assert_eq!(store.collection_count(), 1);
    assert_eq!(store.collections().iter().filter(|c| c.title == "summer").count(), 1);
    let c = store.resolve_or_create("winter").unwrap();
    assert_ne!(a, c);
    assert_eq!(store.collection_count(), 2);
    assert_eq!(store.resolve("summer"), Ok(a));
    assert_eq!(store.resolve("winter"), Ok(c));
}

#[test]
fn identifiers_start_at_one_and_follow_registration() {
    let mut store = Store::new();
    assert_eq!(store.resolve_or_create("a"), Ok(1));
    assert_eq!(store.resolve_or_create("b"), Ok(2));
    assert_eq!(store.resolve_or_create("a"), Ok(1));
    assert_eq!(store.resolve_or_create("c"), Ok(3));
}

#[test]
fn bulk_import_trims_and_counts() {
    let mut store = Store::new();
    let id = store.resolve_or_create("t").unwrap();
    let n = store.bulk_import(id, &lines(&["  AAA", "BBB\r", "\tC C \n"])).unwrap();
    assert_eq!(n, 3);
    let codes: Vec<&str> = store.codes().iter().map(|r| r.code.as_str()).collect();
    assert_eq!(codes, vec!["AAA", "BBB", "C C"]);
    assert!(store.codes().iter().all(|r| r.collection_id == id && !r.is_used));
}

#[test]
fn bulk_import_keeps_empty_lines_as_empty_codes() {
    let mut store = Store::new();
    let id = store.resolve_or_create("t").unwrap();
    let n = store.bulk_import(id, &lines(&["", "   ", "X"])).unwrap();
    assert_eq!(n, 3);
    let codes: Vec<&str> = store.codes().iter().map(|r| r.code.as_str()).collect();
    assert_eq!(codes, vec!["", "", "X"]);
    assert_eq!(store.count_codes(id), (3, 0, 3));
}

#[test]
fn bulk_import_does_not_deduplicate() {
    let mut store = Store::new();
    let a = store.resolve_or_create("a").unwrap();
    let b = store.resolve_or_create("b").unwrap();
    assert_eq!(store.bulk_import(a, &lines(&["X", "X"])), Ok(2));
    assert_eq!(store.bulk_import(b, &lines(&["X"])), Ok(1));
    assert_eq!(store.bulk_import(a, &lines(&["X"])), Ok(1));
    assert_eq!(store.count_codes(a), (3, 0, 3));
    assert_eq!(store.count_codes(b), (1, 0, 1));
    // each row is issued on its own
    assert_eq!(store.allocate(a, 2), lines(&["X", "X"]));
    assert_eq!(store.count_codes(a), (3, 2, 1));
    assert_eq!(store.count_codes(b), (1, 0, 1));
}

#[test]
fn bulk_import_into_unknown_collection_is_not_found() {
    let mut store = Store::new();
    store.resolve_or_create("a").unwrap();
    assert_eq!(store.bulk_import(2, &lines(&["X"])), Err(LedgerError::NotFound));
    assert_eq!(store.bulk_import(0, &lines(&["X"])), Err(LedgerError::NotFound));
    assert_eq!(store.bulk_import(-1, &lines(&["X"])), Err(LedgerError::NotFound));
    assert_eq!(store.code_count(), 0);
}

#[test]
fn import_that_fails_midway_leaves_no_row() {
    // room for five rows, ten lines: the sixth insertion fails
    let mut store = Store::with_capacity(5);
    let id = store.resolve_or_create("batch").unwrap();
    let ten = lines(&["1", "2", "3", "4", "5", "6", "7", "8", "9", "10"]);
    assert_eq!(store.bulk_import(id, &ten), Err(LedgerError::Backend));
    assert_eq!(store.code_count(), 0);
    assert_eq!(store.count_codes(id), (0, 0, 0));
    // the ledger still takes what fits
    assert_eq!(store.bulk_import(id, &lines(&["1", "2", "3", "4", "5"])), Ok(5));
    assert_eq!(store.code_count(), 5);
}

#[test]
fn failed_import_keeps_earlier_rows() {
    let mut store = Store::with_capacity(4);
    let id = store.resolve_or_create("batch").unwrap();
    assert_eq!(store.bulk_import(id, &lines(&["a", "b", "c"])), Ok(3));
    let got = store.allocate(id, 1);
    assert_eq!(got.len(), 1);
    assert!(["a", "b", "c"].contains(&got[0].as_str()));
    assert_eq!(store.bulk_import(id, &lines(&["d", "e"])), Err(LedgerError::Backend));
    assert_eq!(store.code_count(), 3);
    assert_eq!(store.count_codes(id), (3, 1, 2));
    let codes: Vec<&str> = store.codes().iter().map(|r| r.code.as_str()).collect();
    assert_eq!(codes, vec!["a", "b", "c"]);
}

#[test]
fn failed_load_rolls_the_new_collection_back() {
    let mut store = Store::with_capacity(2);
    assert_eq!(store.load_codes("new", &lines(&["a", "b", "c"])), Err(LedgerError::Backend));
    assert_eq!(store.collection_count(), 0);
    assert_eq!(store.code_count(), 0);
    assert_eq!(store.resolve("new"), Err(LedgerError::NotFound));
    assert_eq!(store.load_codes("new", &lines(&["a", "b"])), Ok(2));
    assert_eq!(store.resolve("new"), Ok(1));
    // an existing collection stays when a later load fails
    assert_eq!(store.load_codes("new", &lines(&["c"])), Err(LedgerError::Backend));
    assert_eq!(store.collection_count(), 1);
    assert_eq!(store.code_count(), 2);
}

#[test]
fn load_of_no_lines_registers_the_collection() {
    let mut store = Store::new();
    assert_eq!(store.load_codes("empty", &Vec::new()), Ok(0));
    assert_eq!(store.collection_count(), 1);
    assert_eq!(store.code_count(), 0);
}

#[test]
fn load_twice_appends_to_the_same_collection() {
    let mut store = Store::new();
    assert_eq!(store.load_codes("t", &lines(&["a"])), Ok(1));
    assert_eq!(store.load_codes("t", &lines(&[" b ", "c"])), Ok(2));
    assert_eq!(store.collection_count(), 1);
    let id = store.resolve("t").unwrap();
    assert_eq!(store.count_codes(id), (3, 0, 3));
}

#[test]
fn capacity_is_bounded() {
    assert_eq!(Store::new().capacity(), 0x7fff_ffff_ffff_ffff);
    assert_eq!(Store::with_capacity(7).capacity(), 7);
    assert_eq!(Store::with_capacity(u64::MAX).capacity(), 0x7fff_ffff_ffff_ffff);
}

#[test]
fn allocate_short_pool_returns_what_is_left() {
    let mut store = Store::new();
    store.load_codes("t", &lines(&["a", "b", "c"])).unwrap();
    let id = store.resolve("t").unwrap();
    let got = store.allocate(id, 10);
    assert_eq!(got.len(), 3);
    assert_eq!(sorted(got), lines(&["a", "b", "c"]));
    assert_eq!(store.count_codes(id), (3, 3, 0));
    assert!(store.codes().iter().all(|r| r.is_used));
    assert!(store.allocate(id, 10).is_empty());
}

#[test]
fn allocate_zero_claims_nothing() {
    let mut store = Store::new();
    store.load_codes("t", &lines(&["a", "b"])).unwrap();
    let id = store.resolve("t").unwrap();
    assert!(store.allocate(id, 0).is_empty());
    assert_eq!(store.count_codes(id), (2, 0, 2));
}

#[test]
fn allocate_from_unknown_collection_claims_nothing() {
    let mut store = Store::new();
    store.load_codes("t", &lines(&["a", "b"])).unwrap();
    assert!(store.allocate(9, 1).is_empty());
    assert_eq!(store.count_codes(1), (2, 0, 2));
}

#[test]
fn allocate_touches_one_collection_only() {
    let mut store = Store::new();
    store.load_codes("a", &lines(&["a1", "a2"])).unwrap();
    store.load_codes("b", &lines(&["b1", "b2", "b3"])).unwrap();
    store.load_codes("a", &lines(&["a3"])).unwrap();
    let a = store.resolve("a").unwrap();
    let b = store.resolve("b").unwrap();
    let got = store.allocate(b, 2);
    assert_eq!(got.len(), 2);
    assert!(got.iter().all(|c| c.starts_with('b')));
    assert_eq!(store.count_codes(a), (3, 0, 3));
    assert_eq!(store.count_codes(b), (3, 2, 1));
    let got = store.allocate(a, 3);
    assert_eq!(sorted(got), lines(&["a1", "a2", "a3"]));
    assert_eq!(store.count_codes(b), (3, 2, 1));
}

#[test]
fn many_allocations_never_issue_a_row_twice() {
    let mut store = Store::new();
    let codes: Vec<String> = (0..50).map(|i| format!("code-{}", i)).collect();
    store.load_codes("pool", &codes).unwrap();
    let id = store.resolve("pool").unwrap();
    let mut issued: Vec<String> = Vec::new();
    // the requests add up to far more than the pool holds
    for round in 0..20u64 {
        let got = store.allocate(id, round % 7);
        assert!(got.len() as u64 <= round % 7);
        issued.extend(got);
        let (total, used, unused) = store.count_codes(id);
        assert_eq!(total, 50);
        assert_eq!(used as usize, issued.len());
        assert_eq!(used + unused, total);
    }
    assert_eq!(issued.len(), 50);
    let mut unique = issued.clone();
    unique.sort();
    unique.dedup();
    assert_eq!(unique.len(), 50);
    assert_eq!(store.count_codes(id), (50, 50, 0));
}

#[test]
fn get_codes_unknown_title_is_not_found() {
    let mut store = Store::new();
    store.load_codes("t", &lines(&["a"])).unwrap();
    assert_eq!(store.get_codes("u", 1), Err(LedgerError::NotFound));
    assert_eq!(store.get_codes("u", 0), Err(LedgerError::NotFound));
    assert_eq!(store.count_codes(1), (1, 0, 1));
}

#[test]
fn get_codes_rejects_a_count_that_is_not_positive() {
    let mut store = Store::new();
    store.load_codes("t", &lines(&["a"])).unwrap();
    assert_eq!(store.get_codes("t", 0), Err(LedgerError::Validation));
    assert_eq!(store.get_codes("t", -3), Err(LedgerError::Validation));
    assert_eq!(store.get_codes("t", i64::MIN), Err(LedgerError::Validation));
    assert_eq!(store.count_codes(1), (1, 0, 1));
    assert_eq!(store.get_codes("t", i64::MAX), Ok(lines(&["a"])));
}

#[test]
fn counts_add_up_after_imports_and_allocations() {
    let mut store = Store::new();
    store.load_codes("a", &lines(&["1", "2", "3", "4"])).unwrap();
    store.load_codes("b", &lines(&["5", "6"])).unwrap();
    store.get_codes("a", 3).unwrap();
    store.load_codes("a", &lines(&["7"])).unwrap();
    store.get_codes("b", 1).unwrap();
    for id in 1..=2 {
        let (total, used, unused) = store.count_codes(id);
        assert_eq!(total, used + unused);
    }
    assert_eq!(store.count_codes(1), (5, 3, 2));
    assert_eq!(store.count_codes(2), (2, 1, 1));
    assert_eq!(store.count_codes(3), (0, 0, 0));
}

#[test]
fn summarize_orders_by_total_then_registration() {
    let mut store = Store::new();
    store.load_codes("three", &lines(&["a", "b", "c"])).unwrap();
    store.load_codes("none", &Vec::new()).unwrap();
    store.load_codes("one", &lines(&["d"])).unwrap();
    store.load_codes("three again", &lines(&["e", "f", "g"])).unwrap();
    store.load_codes("two", &lines(&["h", "i"])).unwrap();
    store.get_codes("three again", 2).unwrap();
    let report = store.summarize();
    let rows: Vec<(&str, i64, i64, i64)> = report
        .iter()
        .map(|e| (e.title.as_str(), e.total_keys, e.used_keys, e.unused_keys))
        .collect();
    assert_eq!(
        rows,
        vec![
            ("none", 0, 0, 0),
            ("one", 1, 0, 1),
            ("two", 2, 0, 2),
            ("three", 3, 0, 3),
            ("three again", 3, 2, 1)
        ]
    );
    assert!(report.iter().all(|e| e.is_balanced()));
}

#[test]
fn summarize_lists_a_collection_without_codes() {
    let mut store = Store::new();
    assert_eq!(store.load_codes("empty-pool", &Vec::new()), Ok(0));
    let report = store.summarize();
    assert_eq!(report.len(), 1);
    assert_eq!(report[0].title, "empty-pool");
    assert_eq!(
        (report[0].total_keys, report[0].used_keys, report[0].unused_keys),
        (0, 0, 0)
    );
    // a collection whose codes are all used is listed as well
    store.load_codes("spent", &lines(&["a"])).unwrap();
    store.get_codes("spent", 1).unwrap();
    store.resolve_or_create("later").unwrap();
    let report = store.summarize();
    let rows: Vec<(&str, i64, i64, i64)> = report
        .iter()
        .map(|e| (e.title.as_str(), e.total_keys, e.used_keys, e.unused_keys))
        .collect();
    assert_eq!(rows, vec![("empty-pool", 0, 0, 0), ("later", 0, 0, 0), ("spent", 1, 1, 0)]);
    assert_eq!(report.len(), store.collection_count());
}

#[test]
fn summarize_of_an_empty_ledger_is_empty() {
    assert!(Store::new().summarize().is_empty());
}
