//! End-to-end scenarios over an in-memory store.

use astana::db::Database;
use astana::{
    CreateBlockRequest, CreateGraveRequest, CreateGraveWithHeirsRequest, CreateHeirRequest,
    CreatePaymentRequest, StoreError,
};

fn fresh() -> Database {
    Database::init_with_path(":memory:").unwrap()
}

fn block_req(code: &str, total_capacity: i64, annual_fee: i64) -> CreateBlockRequest {
    CreateBlockRequest {
        code: code.to_string(),
        description: None,
        total_capacity,
        annual_fee,
        status: "active".to_string(),
    }
}

fn grave_req(name: &str, block_id: i64, number: &str, date_of_death: &str) -> CreateGraveRequest {
    CreateGraveRequest {
        deceased_name: name.to_string(),
        block_id,
        number: number.to_string(),
        date_of_death: date_of_death.to_string(),
        burial_date: None,
        notes: None,
    }
}

fn heir_req(grave_id: i64, order_number: i64, full_name: &str) -> CreateHeirRequest {
    CreateHeirRequest {
        grave_id,
        order_number,
        full_name: full_name.to_string(),
        phone_number: None,
        relationship: None,
        address: None,
        is_primary: false,
    }
}

fn payment_req(grave_id: i64, year: i32, amount: i64, payment_date: &str) -> CreatePaymentRequest {
    CreatePaymentRequest {
        grave_id,
        year,
        payment_date: payment_date.to_string(),
        amount,
        payment_method: None,
        payment_proof: None,
        paid_by: None,
        notes: None,
    }
}

#[test]
fn block_and_grave_stats_scenario() {
    let mut db = fresh();
    let block_id = db.create_block(&block_req("A1", 10, 100000)).unwrap();
    assert_eq!(block_id, 1);
    let grave_id = db.create_grave(&grave_req("John Doe", 1, "A1-01", "2024-01-01")).unwrap();
    assert_eq!(grave_id, 1);
    let stats = db.get_block_stats(1).unwrap();
    assert_eq!(stats.total_capacity, 10);
    assert_eq!(stats.occupied, 1);
    assert_eq!(stats.available, 9);
}

#[test]
fn payment_lookup_scenario() {
    let mut db = fresh();
    db.create_block(&block_req("A1", 10, 100000)).unwrap();
    db.create_grave(&grave_req("John Doe", 1, "A1-01", "2024-01-01")).unwrap();
    db.create_payment(&payment_req(1, 2024, 100000, "2024-03-01")).unwrap();
    let found = db.get_payment_by_grave_and_year(1, 2024);
    let p = found.expect("the 2024 payment must be found");
    assert_eq!(p.grave_id, 1);
    assert_eq!(p.year, 2024);
    assert_eq!(p.amount, 100000);
    assert_eq!(p.payment_date, "2024-03-01");
    assert_eq!(p.payment_method.as_deref(), Some("cash"));
    assert!(db.get_payment_by_grave_and_year(1, 2023).is_none());
}

#[test]
fn replace_heirs_scenario() {
    let mut db = fresh();
    db.create_block(&block_req("A1", 10, 100000)).unwrap();
    db.create_grave(&grave_req("John Doe", 1, "A1-01", "2024-01-01")).unwrap();
    db.update_grave_heirs(1, &vec![heir_req(1, 1, "heirA"), heir_req(1, 2, "heirB")]).unwrap();
    let first = db.get_heirs_by_grave(1);
    assert_eq!(first.len(), 2);
    assert_eq!(first[0].full_name, "heirA");
    assert_eq!(first[1].full_name, "heirB");
    db.update_grave_heirs(1, &vec![heir_req(1, 1, "heirC")]).unwrap();
    let second = db.get_heirs_by_grave(1);
    assert_eq!(second.len(), 1);
    assert_eq!(second[0].full_name, "heirC");
}

#[test]
fn referential_delete_guard_scenario() {
    let mut db = fresh();
    db.create_block(&block_req("A1", 10, 100000)).unwrap();
    db.create_grave(&grave_req("John Doe", 1, "A1-01", "2024-01-01")).unwrap();
    let err = db.delete_block(1).unwrap_err();
    assert!(matches!(err, StoreError::ReferentialConflict(1)));
    let blocks = db.get_all_blocks();
    assert_eq!(blocks.len(), 1);
    assert_eq!(blocks[0].id, 1);
    assert_eq!(blocks[0].code, "A1");
}

#[test]
fn create_grave_with_heirs_scenario() {
    let mut db = fresh();
    db.create_block(&block_req("B1", 5, 50000)).unwrap();
    let request = CreateGraveWithHeirsRequest {
        grave: grave_req("Jane Roe", 1, "B1-02", "2023-05-05"),
        heirs: vec![heir_req(999, 2, "second"), heir_req(999, 1, "first")],
    };
    let grave_id = db.create_grave_with_heirs(&request).unwrap();
    assert_eq!(grave_id, 1);
    let heirs = db.get_heirs_by_grave(grave_id);
    // the requested grave identifiers are overridden with the new grave's
    assert_eq!(heirs.len(), 2);
    assert!(heirs.iter().all(|h| h.grave_id == grave_id));
    // listing orders by order_number, not by insertion
    assert_eq!(heirs[0].full_name, "first");
    assert_eq!(heirs[1].full_name, "second");
}

#[test]
fn cascade_delete_scenario() {
    let mut db = fresh();
    db.create_block(&block_req("A1", 10, 100000)).unwrap();
    let g1 = db.create_grave(&grave_req("John Doe", 1, "A1-01", "2024-01-01")).unwrap();
    let g2 = db.create_grave(&grave_req("Mary Sue", 1, "A1-02", "2024-02-02")).unwrap();
    db.create_heir(&heir_req(g1, 1, "heir of g1")).unwrap();
    db.create_heir(&heir_req(g2, 1, "heir of g2")).unwrap();
    db.create_payment(&payment_req(g1, 2024, 1000, "2024-03-01")).unwrap();
    db.create_payment(&payment_req(g2, 2024, 2000, "2024-03-02")).unwrap();
    db.delete_grave(g1).unwrap();
    // every heir and payment of g1 is gone, and no others
    assert!(db.get_heirs_by_grave(g1).is_empty());
    assert!(db.get_payments_by_grave(g1).is_empty());
    assert_eq!(db.get_heirs_by_grave(g2).len(), 1);
    assert_eq!(db.get_payments_by_grave(g2).len(), 1);
    assert!(db.get_grave_by_id(g1).is_none());
    assert!(db.get_grave_by_id(g2).is_some());
}
