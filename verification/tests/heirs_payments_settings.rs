//! Heir records, payment records, summaries and settings.

use astana::db::Database;
use astana::{
    CreateBlockRequest, CreateGraveRequest, CreateHeirRequest, CreatePaymentRequest, StoreError,
    UpdateHeirRequest, UpdateSettingsRequest,
};

fn seeded() -> Database {
    let mut db = Database::init_with_path(":memory:").unwrap();
    db.create_block(&CreateBlockRequest {
        code: "A".to_string(),
        description: None,
        total_capacity: 10,
        annual_fee: 100,
        status: "active".to_string(),
    })
    .unwrap();
    db.create_grave(&CreateGraveRequest {
        deceased_name: "John Doe".to_string(),
        block_id: 1,
        number: "A-1".to_string(),
        date_of_death: "2020-01-01".to_string(),
        burial_date: None,
        notes: None,
    })
    .unwrap();
    db
}

fn heir_req(grave_id: i64, order_number: i64, full_name: &str) -> CreateHeirRequest {
    CreateHeirRequest {
        grave_id,
        order_number,
        full_name: full_name.to_string(),
        phone_number: None,
        relationship: None,
        address: None,
        is_primary: false,
    }
}

fn payment_req(grave_id: i64, year: i32, amount: i64) -> CreatePaymentRequest {
    CreatePaymentRequest {
        grave_id,
        year,
        payment_date: "2024-01-01".to_string(),
        amount,
        payment_method: None,
        payment_proof: None,
        paid_by: None,
        notes: None,
    }
}

#[test]
fn heir_crud_round_trip() {
    let mut db = seeded();
    let id = db.create_heir(&heir_req(1, 1, "Alice")).unwrap();
    let heir = db.get_heir_by_id(id).unwrap();
    assert_eq!(heir.full_name, "Alice");
    // optional text fields default to the empty string
    assert_eq!(heir.phone_number.as_deref(), Some(""));
    assert_eq!(heir.relationship.as_deref(), Some(""));
    assert_eq!(heir.address.as_deref(), Some(""));
    assert!(!heir.is_primary);
    // an update with nothing set changes nothing
    db.update_heir(
        id,
        &UpdateHeirRequest {
            full_name: None,
            phone_number: None,
            relationship: None,
            address: None,
            is_primary: None,
        },
    )
    .unwrap();
    let same = db.get_heir_by_id(id).unwrap();
    assert_eq!(same.full_name, "Alice");
    assert!(!same.is_primary);
    // a partial update changes exactly what is set
    db.update_heir(
        id,
        &UpdateHeirRequest {
            full_name: None,
            phone_number: Some("555".to_string()),
            relationship: None,
            address: None,
            is_primary: Some(true),
        },
    )
    .unwrap();
    let updated = db.get_heir_by_id(id).unwrap();
    assert_eq!(updated.phone_number.as_deref(), Some("555"));
    assert!(updated.is_primary);
    assert_eq!(updated.full_name, "Alice");
    db.delete_heir(id).unwrap();
    assert!(db.get_heir_by_id(id).is_none());
}

#[test]
fn heirs_listed_by_order_number() {
    let mut db = seeded();
    db.create_heir(&heir_req(1, 3, "third")).unwrap();
    db.create_heir(&heir_req(1, 1, "first")).unwrap();
    db.create_heir(&heir_req(1, 2, "second")).unwrap();
    let names: Vec<String> = db.get_heirs_by_grave(1).into_iter().map(|h| h.full_name).collect();
    assert_eq!(names, vec!["first".to_string(), "second".to_string(), "third".to_string()]);
}

#[test]
fn creating_an_heir_for_a_missing_grave_fails() {
    let mut db = seeded();
    let err = db.create_heir(&heir_req(9, 1, "nobody")).unwrap_err();
    assert!(matches!(err, StoreError::Query(_)));
}

#[test]
fn payments_listed_newest_year_first() {
    let mut db = seeded();
    db.create_payment(&payment_req(1, 2021, 10)).unwrap();
    db.create_payment(&payment_req(1, 2024, 30)).unwrap();
    db.create_payment(&payment_req(1, 2022, 20)).unwrap();
    let years: Vec<i32> = db.get_payments_by_grave(1).into_iter().map(|p| p.year).collect();
    assert_eq!(years, vec![2024, 2022, 2021]);
}

#[test]
fn delete_payment_removes_only_that_row() {
    let mut db = seeded();
    let first = db.create_payment(&payment_req(1, 2023, 10)).unwrap();
    db.create_payment(&payment_req(1, 2024, 20)).unwrap();
    db.delete_payment(first).unwrap();
    let years: Vec<i32> = db.get_payments_by_grave(1).into_iter().map(|p| p.year).collect();
    assert_eq!(years, vec![2024]);
}

#[test]
fn payment_summary_builds_a_five_year_window() {
    let mut db = seeded();
    db.create_payment(&payment_req(1, 2024, 100)).unwrap();
    db.create_payment(&payment_req(1, 2022, 50)).unwrap();
    let summaries = db.get_graves_with_payment_summary(None, None, 2024, 10, 0);
    assert_eq!(summaries.len(), 1);
    let s = &summaries[0];
    assert_eq!(s.deceased_name, "John Doe");
    assert_eq!(s.block_code, "A");
    assert_eq!(s.annual_fee, 100);
    let current = s.current_year_payment.as_ref().unwrap();
    assert_eq!(current.year, 2024);
    assert_eq!(current.amount, 100);
    assert_eq!(s.recent_payments.len(), 5);
    let years: Vec<i32> = s.recent_payments.iter().map(|e| e.year).collect();
    assert_eq!(years, vec![2020, 2021, 2022, 2023, 2024]);
    assert!(!s.recent_payments[0].is_paid);
    assert!(s.recent_payments[2].is_paid);
    assert_eq!(s.recent_payments[2].amount, Some(50));
    assert!(!s.recent_payments[3].is_paid);
    assert_eq!(s.recent_payments[3].amount, None);
    assert!(s.recent_payments[4].is_paid);
    assert_eq!(s.recent_payments[4].amount, Some(100));
}

#[test]
fn update_payment_records_a_new_row() {
    let mut db = seeded();
    let first = db.create_payment(&payment_req(1, 2024, 100)).unwrap();
    // the command keeps the behavior of recording a fresh payment row
    db.update_payment(first, &payment_req(1, 2025, 120)).unwrap();
    let years: Vec<i32> = db.get_payments_by_grave(1).into_iter().map(|p| p.year).collect();
    assert_eq!(years, vec![2025, 2024]);
}

#[test]
fn settings_round_trip_and_coalesce() {
    let mut db = Database::init_with_path(":memory:").unwrap();
    let seeded_row = db.get_settings().unwrap();
    assert_eq!(seeded_row.id, 1);
    db.update_settings(&UpdateSettingsRequest {
        foundation_name: Some("Astana Foundation".to_string()),
        address: None,
        phone: None,
        email: None,
        logo_path: None,
        active_year: Some(2024),
        auto_backup: Some(true),
    })
    .unwrap();
    let updated = db.get_settings().unwrap();
    assert_eq!(updated.foundation_name, "Astana Foundation");
    assert_eq!(updated.active_year, 2024);
    assert!(updated.auto_backup);
    // an update with nothing set keeps every field
    db.update_settings(&UpdateSettingsRequest {
        foundation_name: None,
        address: None,
        phone: None,
        email: None,
        logo_path: None,
        active_year: None,
        auto_backup: None,
    })
    .unwrap();
    let unchanged = db.get_settings().unwrap();
    assert_eq!(unchanged.foundation_name, "Astana Foundation");
    assert_eq!(unchanged.active_year, 2024);
    assert!(unchanged.auto_backup);
}

#[test]
fn marking_a_backup_sets_the_timestamp() {
    let mut db = Database::init_with_path(":memory:").unwrap();
    assert!(db.get_settings().unwrap().last_backup.is_none());
    db.update_last_backup().unwrap();
    let marked = db.get_settings().unwrap();
    assert!(marked.last_backup.is_some());
}
