use pharmacy::{Config, LedgerError, Pharmacy, WarehouseKind, SECONDS_PER_DAY};

const JAN_1_2025: i64 = 1735689600;
const FEB_1_2025: i64 = 1738368000;
const NOW: i64 = 1730000000;

fn with_shop() -> Pharmacy {
    let mut p = Pharmacy::new();
    assert_eq!(p.add_warehouse("Hub".to_string(), WarehouseKind::Hub), Ok(1));
    assert_eq!(p.add_warehouse("Shop".to_string(), WarehouseKind::PointOfSale), Ok(2));
    p
}

#[test]
fn default_config_uses_cancel() {
    assert_eq!(Config::default().cancel_keyword, "cancel");
}

#[test]
fn new_ledger_is_empty_and_well_formed() {
    let p = Pharmacy::new();
    assert!(p.is_well_formed());
    assert!(p.batches.is_empty());
    assert!(p.list_medicines().is_empty());
}

#[test]
fn import_assigns_sequential_ids_and_logs() {
    let mut p = with_shop();
    assert_eq!(p.import(7, "Aspirin".to_string(), 1, 10, 250, JAN_1_2025, NOW), Ok(1));
    assert_eq!(p.import(8, "Ibuprofen".to_string(), 2, 4, 300, FEB_1_2025, NOW + 5), Ok(2));
    assert_eq!(p.batches[1].id, 2);
    assert_eq!(p.batches[1].import_date, NOW + 5);
    assert_eq!(p.import_log.len(), 2);
    assert_eq!(p.import_log[1].id, 2);
    assert_eq!(p.import_log[1].batch_id, 2);
    assert_eq!(p.import_log[1].medicine_name, "Ibuprofen");
    assert_eq!(p.import_log[1].price, 300);
    assert!(p.is_well_formed());
}

#[test]
fn import_errors() {
    let mut p = with_shop();
    assert_eq!(p.import(1, "A".to_string(), 3, 1, 1, JAN_1_2025, NOW), Err(LedgerError::WarehouseNotFound));
    assert_eq!(p.import(1, "A".to_string(), 0, 1, 1, JAN_1_2025, NOW), Err(LedgerError::WarehouseNotFound));
    assert_eq!(p.import(1, "A".to_string(), 1, 0, 1, JAN_1_2025, NOW), Err(LedgerError::InvalidQuantity));
    assert_eq!(p.import(1, "A".to_string(), 1, 1, 0, JAN_1_2025, NOW), Err(LedgerError::InvalidPrice));
    assert!(p.batches.is_empty());
    assert!(p.import_log.is_empty());
}

#[test]
fn import_dated_parses_expiry() {
    let mut p = with_shop();
    assert_eq!(p.import_dated(1, "A".to_string(), 2, 5, 10, "2025-01-01"), Ok(1));
    assert_eq!(p.batches[0].expiry_date, JAN_1_2025);
    assert_eq!(p.import_dated(1, "A".to_string(), 2, 5, 10, "2025-02-01"), Ok(2));
    assert_eq!(p.batches[1].expiry_date, FEB_1_2025);
    assert_eq!(p.batches[1].import_date, p.import_log[1].timestamp);
}

#[test]
fn import_dated_rejects_bad_dates() {
    let mut p = with_shop();
    assert_eq!(p.import_dated(1, "A".to_string(), 2, 5, 10, "2025-02-30"), Err(LedgerError::InvalidTimestamp));
    assert_eq!(p.import_dated(1, "A".to_string(), 2, 5, 10, "soon"), Err(LedgerError::InvalidTimestamp));
    assert!(p.batches.is_empty());
}

#[test]
fn transfer_moves_into_new_lot() {
    let mut p = with_shop();
    p.import(7, "Aspirin".to_string(), 1, 10, 250, JAN_1_2025, NOW).unwrap();
    assert_eq!(p.transfer(1, 2, 4, NOW + 1), Ok(()));
    assert_eq!(p.batches.len(), 2);
    assert_eq!(p.batches[0].quantity, 6);
    let moved = &p.batches[1];
    assert_eq!(moved.id, 2);
    assert_eq!(moved.warehouse_id, 2);
    assert_eq!(moved.quantity, 4);
    assert_eq!(moved.medicine_id, 7);
    assert_eq!(moved.unit_price, 250);
    assert_eq!(moved.expiry_date, JAN_1_2025);
    assert_eq!(moved.import_date, NOW + 1);
    let rec = &p.transfer_log[0];
    assert_eq!((rec.id, rec.batch_id, rec.new_batch_id), (1, 1, 2));
    assert_eq!((rec.from_warehouse_id, rec.to_warehouse_id, rec.quantity), (1, 2, 4));
    assert!(p.is_well_formed());
}

#[test]
fn conservation_over_transfer_sequence() {
    let mut p = with_shop();
    p.import(7, "Aspirin".to_string(), 1, 20, 250, JAN_1_2025, NOW).unwrap();
    for (to, q) in [(2u32, 3u32), (1, 5), (2, 7), (2, 5)] {
        p.transfer(1, to, q, NOW).unwrap();
        let moved: u32 = p.transfer_log.iter().filter(|r| r.batch_id == 1).map(|r| r.quantity).sum();
        assert_eq!(p.batches[0].quantity + moved, 20);
        let total: u32 = p.batches.iter().map(|b| b.quantity).sum();
        assert_eq!(total, 20);
    }
    assert_eq!(p.batches[0].quantity, 0);
    assert_eq!(p.transfer(1, 2, 1, NOW), Err(LedgerError::InsufficientQuantity { available: 0 }));
}

#[test]
fn no_partial_transfer() {
    let mut p = with_shop();
    p.import(7, "Aspirin".to_string(), 1, 5, 250, JAN_1_2025, NOW).unwrap();
    assert_eq!(p.transfer(1, 2, 6, NOW), Err(LedgerError::InsufficientQuantity { available: 5 }));
    assert_eq!(p.batches.len(), 1);
    assert_eq!(p.batches[0].quantity, 5);
    assert!(p.transfer_log.is_empty());
}

#[test]
fn transfer_errors() {
    let mut p = with_shop();
    p.import(7, "Aspirin".to_string(), 1, 5, 250, JAN_1_2025, NOW).unwrap();
    assert_eq!(p.transfer(0, 2, 1, NOW), Err(LedgerError::BatchNotFound));
    assert_eq!(p.transfer(2, 2, 1, NOW), Err(LedgerError::BatchNotFound));
    assert_eq!(p.transfer(1, 9, 1, NOW), Err(LedgerError::WarehouseNotFound));
    assert_eq!(p.transfer(1, 2, 0, NOW), Err(LedgerError::InvalidQuantity));
    assert_eq!(p.batches.len(), 1);
}

#[test]
fn fefo_drains_earliest_expiry_first() {
    let mut p = with_shop();
    p.import(3, "Amox".to_string(), 2, 5, 10, JAN_1_2025, NOW).unwrap();
    p.import(3, "Amox".to_string(), 2, 5, 10, FEB_1_2025, NOW).unwrap();
    let start = p.clone();
    assert_eq!(p.sell(3, 7, 2, NOW), Ok(()));
    assert_eq!(p.batches[0].quantity, 0);
    assert_eq!(p.batches[1].quantity, 3);
    let mut again = start.clone();
    assert_eq!(again.sell(3, 7, 2, NOW), Ok(()));
    let q1: Vec<u32> = p.batches.iter().map(|b| b.quantity).collect();
    let q2: Vec<u32> = again.batches.iter().map(|b| b.quantity).collect();
    assert_eq!(q1, q2);
}

#[test]
fn fefo_order_does_not_follow_creation_order() {
    let mut p = with_shop();
    p.import(3, "Amox".to_string(), 2, 5, 10, FEB_1_2025, NOW).unwrap();
    p.import(3, "Amox".to_string(), 2, 5, 10, JAN_1_2025, NOW).unwrap();
    p.import(3, "Amox".to_string(), 2, 5, 10, JAN_1_2025, NOW).unwrap();
    p.import(3, "Amox".to_string(), 1, 50, 10, 0, NOW).unwrap();
    p.import(4, "Other".to_string(), 2, 50, 10, 0, NOW).unwrap();
    assert_eq!(p.sell(3, 7, 2, NOW), Ok(()));
    let q: Vec<u32> = p.batches.iter().map(|b| b.quantity).collect();
    assert_eq!(q, vec![5, 0, 3, 50, 50]);
}

#[test]
fn sale_is_all_or_nothing() {
    let mut p = with_shop();
    p.import(3, "Amox".to_string(), 2, 5, 10, JAN_1_2025, NOW).unwrap();
    p.import(3, "Amox".to_string(), 2, 2, 20, FEB_1_2025, NOW).unwrap();
    assert_eq!(p.stock_in(3, 2), 7);
    assert_eq!(p.sell(3, 10, 2, NOW), Err(LedgerError::InsufficientStock { short_by: 3 }));
    assert_eq!(p.batches[0].quantity, 5);
    assert_eq!(p.batches[1].quantity, 2);
    assert!(p.export_log.is_empty());
}

#[test]
fn export_records_weighted_average_price() {
    let mut p = with_shop();
    p.import(3, "Amox".to_string(), 2, 5, 10, JAN_1_2025, NOW).unwrap();
    p.import(3, "Amox".to_string(), 2, 2, 20, FEB_1_2025, NOW).unwrap();
    assert_eq!(p.sell(3, 7, 2, NOW + 9), Ok(()));
    let e = &p.export_log[0];
    assert_eq!(e.id, 1);
    assert_eq!(e.medicine_id, 3);
    assert_eq!(e.medicine_name, "Amox");
    assert_eq!(e.warehouse_id, 2);
    assert_eq!(e.amount, 7);
    assert_eq!(e.total_value, 90);
    assert_eq!(e.timestamp, NOW + 9);
    let average = e.total_value as f64 / e.amount as f64;
    assert!((average - 12.857142857).abs() < 1e-6);
}

#[test]
fn sale_errors() {
    let mut p = with_shop();
    p.import(3, "Amox".to_string(), 2, 5, 10, JAN_1_2025, NOW).unwrap();
    assert_eq!(p.sell(3, 0, 2, NOW), Err(LedgerError::InvalidQuantity));
    assert_eq!(p.sell(3, 1, 5, NOW), Err(LedgerError::WarehouseNotFound));
    assert_eq!(p.sell(3, 1, 1, NOW), Err(LedgerError::InsufficientStock { short_by: 1 }));
    assert_eq!(p.sell(9, 2, 2, NOW), Err(LedgerError::InsufficientStock { short_by: 2 }));
}

#[test]
fn sell_medicine_uses_point_of_sale() {
    let mut p = Pharmacy::new();
    p.add_warehouse("Hub".to_string(), WarehouseKind::Hub).unwrap();
    assert_eq!(p.point_of_sale(), None);
    assert_eq!(p.sell_medicine(1, 1), Err(LedgerError::NoPointOfSaleWarehouse));
    p.add_warehouse("Shop".to_string(), WarehouseKind::PointOfSale).unwrap();
    p.add_warehouse("Shop 2".to_string(), WarehouseKind::PointOfSale).unwrap();
    assert_eq!(p.point_of_sale(), Some(2));
    p.import(1, "A".to_string(), 1, 5, 10, JAN_1_2025, NOW).unwrap();
    p.import(1, "A".to_string(), 2, 5, 10, JAN_1_2025, NOW).unwrap();
    assert_eq!(p.sell_medicine(1, 2), Ok(()));
    assert_eq!(p.batches[0].quantity, 5);
    assert_eq!(p.batches[1].quantity, 3);
    assert_eq!(p.export_log[0].warehouse_id, 2);
}

#[test]
fn ids_never_reused_after_drain() {
    let mut p = with_shop();
    p.import(3, "Amox".to_string(), 2, 5, 10, JAN_1_2025, NOW).unwrap();
    p.sell(3, 5, 2, NOW).unwrap();
    assert_eq!(p.batches[0].quantity, 0);
    assert_eq!(p.import(3, "Amox".to_string(), 1, 5, 10, JAN_1_2025, NOW), Ok(2));
    p.transfer(2, 2, 1, NOW).unwrap();
    let ids: Vec<u32> = p.batches.iter().map(|b| b.id).collect();
    assert_eq!(ids, vec![1, 2, 3]);
}

#[test]
fn expiry_query_boundary() {
    let mut p = with_shop();
    let days: u32 = 30;
    let limit = NOW + days as i64 * SECONDS_PER_DAY;
    p.import(1, "A".to_string(), 1, 5, 10, limit, NOW).unwrap();
    p.import(1, "A".to_string(), 1, 5, 10, limit + SECONDS_PER_DAY, NOW).unwrap();
    p.import(1, "A".to_string(), 2, 5, 10, NOW - 1, NOW).unwrap();
    p.import(1, "A".to_string(), 2, 5, 10, NOW, NOW).unwrap();
    p.sell(1, 5, 2, NOW).unwrap();
    let ids: Vec<u32> = p.expiring_within(days, NOW).iter().map(|b| b.id).collect();
    assert_eq!(ids, vec![1, 4]);
    let ids: Vec<u32> = p.expiring_within(days + 1, NOW).iter().map(|b| b.id).collect();
    assert_eq!(ids, vec![1, 2, 4]);
}

#[test]
fn catalogue_add_list_delete() {
    let mut p = with_shop();
    assert_eq!(p.add_medicine("Aspirin".to_string(), 250, 10, 1, JAN_1_2025), Ok(1));
    assert_eq!(p.add_medicine("Ibuprofen".to_string(), 300, 4, 2, FEB_1_2025), Ok(2));
    assert_eq!(p.batches.len(), 2);
    assert_eq!(p.batches[1].medicine_id, 2);
    assert_eq!(p.import_log[1].quantity, 4);
    assert_eq!(p.delete_medicine(1), Ok(()));
    assert_eq!(p.delete_medicine(1), Err(LedgerError::MedicineNotFound));
    assert_eq!(p.add_medicine("Paracetamol".to_string(), 100, 1, 1, JAN_1_2025), Ok(3));
    let names: Vec<String> = p.list_medicines().into_iter().map(|m| m.name).collect();
    assert_eq!(names, vec!["Ibuprofen".to_string(), "Paracetamol".to_string()]);
    assert_eq!(p.batches.len(), 3);
    assert_eq!(p.add_medicine("X".to_string(), 0, 1, 1, 0), Err(LedgerError::InvalidPrice));
    assert_eq!(p.add_medicine("X".to_string(), 1, 0, 1, 0), Err(LedgerError::InvalidQuantity));
    assert_eq!(p.add_medicine("X".to_string(), 1, 1, 7, 0), Err(LedgerError::WarehouseNotFound));
    assert!(p.is_well_formed());
}

#[test]
fn broken_state_is_detected() {
    let mut p = with_shop();
    p.import(1, "A".to_string(), 1, 5, 10, JAN_1_2025, NOW).unwrap();
    let mut bad = p.clone();
    bad.batches[0].id = 9;
    assert!(!bad.is_well_formed());
    let mut bad = p.clone();
    bad.batches[0].warehouse_id = 5;
    assert!(!bad.is_well_formed());
    let mut bad = p.clone();
    bad.next_medicine_id = 0;
    assert!(!bad.is_well_formed());
}

#[test]
fn parse_expiry_reads_dates() {
    assert_eq!(pharmacy::parse_expiry("2025-01-01"), Some(JAN_1_2025));
    assert_eq!(pharmacy::parse_expiry("1970-01-02"), Some(86400));
    assert_eq!(pharmacy::parse_expiry("2025-13-01"), None);
    assert_eq!(pharmacy::parse_expiry(""), None);
}

#[test]
fn sale_takes_exactly_the_requested_units() {
    let mut p = with_shop();
    p.import(3, "Amox".to_string(), 2, 4, 10, FEB_1_2025, NOW).unwrap();
    p.import(3, "Amox".to_string(), 2, 6, 12, JAN_1_2025, NOW).unwrap();
    p.import(3, "Amox".to_string(), 1, 9, 10, JAN_1_2025, NOW).unwrap();
    p.import(5, "Other".to_string(), 2, 8, 10, 0, NOW).unwrap();
    let stock = |p: &Pharmacy, m: u32| -> u32 {
        p.batches.iter().filter(|b| b.medicine_id == m).map(|b| b.quantity).sum()
    };
    assert_eq!(stock(&p, 3), 19);
    p.sell(3, 8, 2, NOW).unwrap();
    assert_eq!(stock(&p, 3), 11);
    assert_eq!(stock(&p, 5), 8);
    let q: Vec<u32> = p.batches.iter().map(|b| b.quantity).collect();
    assert_eq!(q, vec![2, 0, 9, 8]);
    assert_eq!(p.export_log[0].total_value, 6 * 12 + 2 * 10);
}

#[test]
fn catalogue_ids_exhausted() {
    let mut p = with_shop();
    p.next_medicine_id = u32::MAX;
    assert!(p.is_well_formed());
    assert_eq!(p.add_medicine("X".to_string(), 1, 1, 1, 0), Err(LedgerError::IdsExhausted));
    assert!(p.inventory.is_empty());
    assert!(p.batches.is_empty());
}
