//! Schema application, verification, statistics and persistence.

use astana::db::Database;
use astana::{
    CreateBlockRequest, CreateGraveRequest, CreateHeirRequest, CreatePaymentRequest,
    DatabaseStats, StoreError, UpdateSettingsRequest,
};

fn block_req(code: &str) -> CreateBlockRequest {
    CreateBlockRequest {
        code: code.to_string(),
        description: Some("row".to_string()),
        total_capacity: 4,
        annual_fee: 25,
        status: "active".to_string(),
    }
}

#[test]
fn test_database_init() {
    let db = Database::init_with_path(":memory:").unwrap();
    assert!(db.verify().unwrap());
}

#[test]
fn test_database_stats() {
    let db = Database::init_with_path(":memory:").unwrap();
    let stats = db.get_stats().unwrap();
    assert!(stats.graves_count >= 0);
    assert!(stats.size_bytes >= 0);
}

#[test]
fn schema_is_idempotent() {
    let mut db = Database::init_with_path(":memory:").unwrap();
    db.create_block(&block_req("A1")).unwrap();
    // applying the schema script a second time neither errors nor
    // changes the table set or the stored rows
    db.apply_schema().unwrap();
    assert!(db.verify().unwrap());
    db.reload().unwrap();
    let blocks = db.get_all_blocks();
    assert_eq!(blocks.len(), 1);
    assert_eq!(blocks[0].code, "A1");
    // the seeded settings singleton is still a single row
    assert!(db.get_settings().is_ok());
}

#[test]
fn rows_survive_a_reload() {
    let mut db = Database::init_with_path(":memory:").unwrap();
    db.create_block(&block_req("Z9")).unwrap();
    db.reload().unwrap();
    let blocks = db.get_all_blocks();
    assert_eq!(blocks.len(), 1);
    assert_eq!(blocks[0].code, "Z9");
    assert_eq!(blocks[0].description.as_deref(), Some("row"));
    assert_eq!(blocks[0].total_capacity, 4);
    assert_eq!(blocks[0].annual_fee, 25);
}

#[test]
fn missing_settings_row_is_not_found() {
    let mut db = Database::init_with_path(":memory:").unwrap();
    assert!(db.get_settings().is_ok());
    db.connection().execute("DELETE FROM settings", []).unwrap();
    db.reload().unwrap();
    assert!(matches!(db.get_settings(), Err(StoreError::NotFound)));
}

#[test]
fn backup_failure_is_a_backup_error() {
    let db = Database::init_with_path(":memory:").unwrap();
    let err = db.backup_to("/nonexistent-directory-for-backups/out.db").unwrap_err();
    assert!(matches!(err, StoreError::Backup(_)));
}

#[test]
fn formatted_size_renders_exact_values() {
    let mk = |size_bytes: i64| DatabaseStats {
        graves_count: 0,
        heirs_count: 0,
        payments_count: 0,
        size_bytes,
    };
    assert_eq!(mk(0).formatted_size(), "0 B");
    assert_eq!(mk(512).formatted_size(), "512 B");
    assert_eq!(mk(1023).formatted_size(), "1023 B");
    assert_eq!(mk(1024).formatted_size(), "1.0 KB");
    assert_eq!(mk(1536).formatted_size(), "1.5 KB");
    // an exact half rounds to the even tenth
    assert_eq!(mk(1280).formatted_size(), "1.2 KB");
    assert_eq!(mk(1048575).formatted_size(), "1024.0 KB");
    assert_eq!(mk(1048576).formatted_size(), "1.0 MB");
    assert_eq!(mk(2621440).formatted_size(), "2.5 MB");
    assert_eq!(mk(-5).formatted_size(), "-5 B");
}

#[test]
fn total_records_sums_counts() {
    let stats = DatabaseStats {
        graves_count: 3,
        heirs_count: 5,
        payments_count: 7,
        size_bytes: 0,
    };
    assert_eq!(stats.total_records(), 15);
}

#[test]
fn unopenable_path_is_a_store_open_error() {
    match Database::init_with_path("/nonexistent-directory-for-stores/astana.db") {
        Ok(_) => panic!("opening under a missing directory must fail"),
        Err(err) => assert!(matches!(err, StoreError::StoreOpen(_))),
    }
}

#[test]
fn corrupted_rows_are_a_schema_error_on_reload() {
    let mut db = Database::init_with_path(":memory:").unwrap();
    // a zero identifier breaks the store's integrity rules
    db.connection()
        .execute(
            "INSERT INTO blocks (id, code, total_capacity, annual_fee, status) VALUES (0, 'X', 1, 1, 'active')",
            [],
        )
        .unwrap();
    let err = db.reload().unwrap_err();
    assert!(matches!(err, StoreError::Schema(_)));
}

#[test]
fn settings_row_keeps_identifier_one() {
    let mut db = Database::init_with_path(":memory:").unwrap();
    assert_eq!(db.get_settings().unwrap().id, 1);
    // a stray row under another identifier is not the singleton and is
    // never handed out
    db.connection().execute("PRAGMA ignore_check_constraints = ON", []).unwrap();
    db.connection()
        .execute("INSERT INTO settings (id, foundation_name, active_year) VALUES (2, 'stray', 1999)", [])
        .unwrap();
    db.reload().unwrap();
    let settings = db.get_settings().unwrap();
    assert_eq!(settings.id, 1);
    assert_ne!(settings.foundation_name, "stray");
}

#[test]
fn every_table_survives_a_reload() {
    let mut db = Database::init_with_path(":memory:").unwrap();
    db.create_block(&block_req("A1")).unwrap();
    db.create_grave(&CreateGraveRequest {
        deceased_name: "John Doe".to_string(),
        block_id: 1,
        number: "A1-01".to_string(),
        date_of_death: "2020-01-01".to_string(),
        burial_date: Some("2020-01-03".to_string()),
        notes: None,
    })
    .unwrap();
    db.create_heir(&CreateHeirRequest {
        grave_id: 1,
        order_number: 1,
        full_name: "Alice".to_string(),
        phone_number: Some("555".to_string()),
        relationship: Some("daughter".to_string()),
        address: None,
        is_primary: true,
    })
    .unwrap();
    db.create_payment(&CreatePaymentRequest {
        grave_id: 1,
        year: 2024,
        payment_date: "2024-03-01".to_string(),
        amount: 100,
        payment_method: Some("transfer".to_string()),
        payment_proof: None,
        paid_by: Some("Alice".to_string()),
        notes: None,
    })
    .unwrap();
    db.update_settings(&UpdateSettingsRequest {
        foundation_name: Some("F".to_string()),
        address: None,
        phone: None,
        email: None,
        logo_path: None,
        active_year: Some(2024),
        auto_backup: Some(true),
    })
    .unwrap();

    db.reload().unwrap();

    let grave = db.get_grave_by_id(1).unwrap();
    assert_eq!(grave.deceased_name, "John Doe");
    assert_eq!(grave.burial_date.as_deref(), Some("2020-01-03"));
    assert_eq!(grave.notes.as_deref(), Some(""));
    assert_eq!(grave.code, "A1");
    let heir = db.get_heir_by_id(1).unwrap();
    assert_eq!(heir.full_name, "Alice");
    assert_eq!(heir.phone_number.as_deref(), Some("555"));
    assert!(heir.is_primary);
    let payment = db.get_payment_by_grave_and_year(1, 2024).unwrap();
    assert_eq!(payment.amount, 100);
    assert_eq!(payment.payment_method.as_deref(), Some("transfer"));
    assert_eq!(payment.paid_by.as_deref(), Some("Alice"));
    let settings = db.get_settings().unwrap();
    assert_eq!(settings.foundation_name, "F");
    assert_eq!(settings.active_year, 2024);
    assert!(settings.auto_backup);
}
