use live_panel::table::{project_rows, sort_records, to_rows, TableData};
use live_panel::types::{str_lex_le, PriceIndex};

fn record(asset: &str, price: u64) -> PriceIndex {
    PriceIndex { asset: String::from(asset), price }
}

fn ten_records() -> Vec<PriceIndex> {
    (0..10u64).map(|i| record(&format!("A{}", i), i * 100_000)).collect()
}

#[test]
fn projection_packs_two_full_rows_and_a_partial() {
    // ten records at four per row: two full rows and one partial row
    // with two records, nothing read past the end of the list
    let v = ten_records();
    let rows = project_rows(&v);
    assert_eq!(rows.len(), 3);
    assert_eq!(rows[0].len(), 8);
    assert_eq!(rows[1].len(), 8);
    assert_eq!(rows[2].len(), 4);
    assert_eq!(rows[2][0], "A8");
    assert_eq!(rows[2][2], "A9");
}

#[test]
fn projection_of_empty_list_is_empty() {
    let v: Vec<PriceIndex> = vec![];
    let rows = project_rows(&v);
    assert!(rows.is_empty());
}

#[test]
fn rendering_same_input_twice_is_identical() {
    let mut a = vec![record("ETH", 2), record("BTC", 9), record("SOL", 4)];
    let mut b = vec![record("ETH", 2), record("BTC", 9), record("SOL", 4)];
    let rows_a = to_rows(&mut a);
    let rows_b = to_rows(&mut b);
    assert_eq!(rows_a, rows_b);
    let order_a: Vec<&str> = a.iter().map(|r| r.asset.as_str()).collect();
    let order_b: Vec<&str> = b.iter().map(|r| r.asset.as_str()).collect();
    assert_eq!(order_a, order_b);
}

#[test]
fn sort_orders_by_asset_then_price() {
    let v = vec![
        record("ETH", 5),
        record("BTC", 7),
        record("BTC", 3),
        record("ADA", 1),
    ];
    let sorted = sort_records(v);
    let keys: Vec<(&str, u64)> = sorted.iter().map(|r| (r.asset.as_str(), r.price)).collect();
    assert_eq!(keys, vec![("ADA", 1), ("BTC", 3), ("BTC", 7), ("ETH", 5)]);
}

#[test]
fn sort_of_empty_and_single() {
    let empty: Vec<PriceIndex> = vec![];
    assert!(sort_records(empty).is_empty());
    let one = sort_records(vec![record("BTC", 1)]);
    assert_eq!(one.len(), 1);
    assert_eq!(one[0].asset, "BTC");
}

#[test]
fn lexicographic_string_order() {
    assert!(str_lex_le("BTC", "ETH"));
    assert!(!str_lex_le("ETH", "BTC"));
    assert!(str_lex_le("BT", "BTC"));
    assert!(!str_lex_le("BTC", "BT"));
    assert!(str_lex_le("BTC", "BTC"));
    assert!(str_lex_le("", "A"));
}

#[test]
fn price_index_capability_set() {
    let h = PriceIndex::header();
    let labels: Vec<&str> = h.iter().map(|s| s.as_str()).collect();
    assert_eq!(
        labels,
        vec!["Asset", "Price", "Asset", "Price", "Asset", "Price", "Asset", "Price"]
    );
    let ratios = PriceIndex::column_constraints();
    assert_eq!(ratios, vec![10, 15, 10, 15, 10, 15, 10, 15]);
    assert_eq!(ratios.iter().map(|r| *r as u32).sum::<u32>(), 100);
    assert_eq!(PriceIndex::group_size(), 4);
    let cells = record("BTC", 5_000_010_000).cells();
    assert_eq!(cells, vec![String::from("BTC"), String::from("50000.10000")]);
    assert!(record("BTC", 1).le(&record("BTC", 2)));
    assert!(!record("BTC", 2).le(&record("BTC", 1)));
    assert!(record("BTC", 9).le(&record("ETH", 1)));
}
