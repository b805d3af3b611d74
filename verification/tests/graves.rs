//! Grave listing, search, pagination, updates and export.

use astana::db::Database;
use astana::{
    CreateBlockRequest, CreateGraveRequest, CreatePaymentRequest, StoreError, UpdateBlockRequest,
    UpdateGraveRequest,
};

fn fresh() -> Database {
    Database::init_with_path(":memory:").unwrap()
}

fn block_req(code: &str) -> CreateBlockRequest {
    CreateBlockRequest {
        code: code.to_string(),
        description: None,
        total_capacity: 100,
        annual_fee: 1000,
        status: "active".to_string(),
    }
}

fn grave_req(name: &str, block_id: i64, number: &str) -> CreateGraveRequest {
    CreateGraveRequest {
        deceased_name: name.to_string(),
        block_id,
        number: number.to_string(),
        date_of_death: "2020-01-01".to_string(),
        burial_date: None,
        notes: None,
    }
}

fn payment_req(grave_id: i64, year: i32, amount: i64) -> CreatePaymentRequest {
    CreatePaymentRequest {
        grave_id,
        year,
        payment_date: "2024-01-01".to_string(),
        amount,
        payment_method: None,
        payment_proof: None,
        paid_by: None,
        notes: None,
    }
}

#[test]
fn listing_is_newest_first_and_joined() {
    let mut db = fresh();
    db.create_block(&block_req("A")).unwrap();
    db.create_grave(&grave_req("older", 1, "A-1")).unwrap();
    db.create_grave(&grave_req("newer", 1, "A-2")).unwrap();
    let listed = db.get_graves(None, None, 10, 0);
    assert_eq!(listed.len(), 2);
    assert_eq!(listed[0].deceased_name, "newer");
    assert_eq!(listed[1].deceased_name, "older");
    assert_eq!(listed[0].code, "A");
    assert_eq!(listed[0].annual_fee, 1000);
}

#[test]
fn search_matches_name_or_number_case_sensitively() {
    let mut db = fresh();
    db.create_block(&block_req("A")).unwrap();
    db.create_grave(&grave_req("John Doe", 1, "A-1")).unwrap();
    db.create_grave(&grave_req("Mary Sue", 1, "J-7")).unwrap();
    // substring of a name
    let by_name = db.get_graves(Some("ohn".to_string()), None, 10, 0);
    assert_eq!(by_name.len(), 1);
    assert_eq!(by_name[0].deceased_name, "John Doe");
    // substring of a plot number
    let by_number = db.get_graves(Some("J-".to_string()), None, 10, 0);
    assert_eq!(by_number.len(), 1);
    assert_eq!(by_number[0].deceased_name, "Mary Sue");
    // the match is case-sensitive
    let wrong_case = db.get_graves(Some("john".to_string()), None, 10, 0);
    assert!(wrong_case.is_empty());
}

#[test]
fn block_filter_restricts_the_listing() {
    let mut db = fresh();
    db.create_block(&block_req("A")).unwrap();
    db.create_block(&block_req("B")).unwrap();
    db.create_grave(&grave_req("in a", 1, "A-1")).unwrap();
    db.create_grave(&grave_req("in b", 2, "B-1")).unwrap();
    let only_b = db.get_graves(None, Some(2), 10, 0);
    assert_eq!(only_b.len(), 1);
    assert_eq!(only_b[0].deceased_name, "in b");
    assert_eq!(db.count_graves(None, Some(2)), 1);
}

#[test]
fn pages_partition_the_filtered_listing() {
    let mut db = fresh();
    db.create_block(&block_req("A")).unwrap();
    for i in 0..5 {
        db.create_grave(&grave_req(&format!("person {}", i), 1, &format!("A-{}", i))).unwrap();
    }
    let full = db.get_graves(None, None, -1, 0);
    assert_eq!(full.len(), 5);
    assert_eq!(db.count_graves(None, None), 5);
    let mut paged: Vec<String> = Vec::new();
    for page in 0..3 {
        for g in db.get_graves(None, None, 2, page * 2) {
            paged.push(g.deceased_name);
        }
    }
    let full_names: Vec<String> = full.into_iter().map(|g| g.deceased_name).collect();
    assert_eq!(paged, full_names);
    // an offset past the end yields an empty page
    assert!(db.get_graves(None, None, 2, 10).is_empty());
}

#[test]
fn grave_update_coalesces_unset_fields() {
    let mut db = fresh();
    db.create_block(&block_req("A")).unwrap();
    db.create_grave(&grave_req("John Doe", 1, "A-1")).unwrap();
    let before = db.get_grave_by_id(1).unwrap();
    // an update with nothing set leaves every field unchanged
    db.update_grave(
        1,
        &UpdateGraveRequest {
            deceased_name: None,
            block_id: None,
            number: None,
            date_of_death: None,
            burial_date: None,
            notes: None,
        },
    )
    .unwrap();
    let after = db.get_grave_by_id(1).unwrap();
    assert_eq!(after.deceased_name, before.deceased_name);
    assert_eq!(after.number, before.number);
    assert_eq!(after.date_of_death, before.date_of_death);
    assert_eq!(after.burial_date, before.burial_date);
    assert_eq!(after.notes, before.notes);
    assert_eq!(after.created_at, before.created_at);
    // a partial update changes exactly the set field
    db.update_grave(
        1,
        &UpdateGraveRequest {
            deceased_name: Some("John D.".to_string()),
            block_id: None,
            number: None,
            date_of_death: None,
            burial_date: None,
            notes: None,
        },
    )
    .unwrap();
    let renamed = db.get_grave_by_id(1).unwrap();
    assert_eq!(renamed.deceased_name, "John D.");
    assert_eq!(renamed.number, before.number);
}

#[test]
fn block_update_coalesces_unset_fields() {
    let mut db = fresh();
    db.create_block(&CreateBlockRequest {
        code: "A1".to_string(),
        description: Some("old".to_string()),
        total_capacity: 10,
        annual_fee: 100,
        status: "active".to_string(),
    })
    .unwrap();
    db.update_block(
        1,
        &UpdateBlockRequest {
            code: None,
            description: None,
            total_capacity: None,
            annual_fee: None,
            status: None,
        },
    )
    .unwrap();
    let unchanged = db.get_block_by_id(1).unwrap();
    assert_eq!(unchanged.code, "A1");
    assert_eq!(unchanged.description.as_deref(), Some("old"));
    assert_eq!(unchanged.total_capacity, 10);
    assert_eq!(unchanged.annual_fee, 100);
    assert_eq!(unchanged.status, "active");
    db.update_block(
        1,
        &UpdateBlockRequest {
            code: None,
            description: None,
            total_capacity: Some(20),
            annual_fee: None,
            status: Some("inactive".to_string()),
        },
    )
    .unwrap();
    let updated = db.get_block_by_id(1).unwrap();
    assert_eq!(updated.total_capacity, 20);
    assert_eq!(updated.status, "inactive");
    assert_eq!(updated.code, "A1");
}

#[test]
fn creating_a_grave_in_a_missing_block_fails() {
    let mut db = fresh();
    let err = db.create_grave(&grave_req("nobody", 42, "X-1")).unwrap_err();
    assert!(matches!(err, StoreError::Query(_)));
}

#[test]
fn duplicate_block_code_fails() {
    let mut db = fresh();
    db.create_block(&block_req("A")).unwrap();
    let err = db.create_block(&block_req("A")).unwrap_err();
    assert!(matches!(err, StoreError::Query(_)));
}

#[test]
fn negative_capacity_fails() {
    let mut db = fresh();
    let err = db
        .create_block(&CreateBlockRequest {
            code: "N".to_string(),
            description: None,
            total_capacity: -1,
            annual_fee: 0,
            status: "active".to_string(),
        })
        .unwrap_err();
    assert!(matches!(err, StoreError::Query(_)));
}

#[test]
fn blocks_list_sorted_by_code() {
    let mut db = fresh();
    db.create_block(&block_req("B2")).unwrap();
    db.create_block(&block_req("A2")).unwrap();
    db.create_block(&block_req("C3")).unwrap();
    db.create_block(&block_req("A10")).unwrap();
    let codes: Vec<String> = db.get_all_blocks().into_iter().map(|b| b.code).collect();
    // the order is by code point, so "A10" sorts before "A2"
    assert_eq!(
        codes,
        vec!["A10".to_string(), "A2".to_string(), "B2".to_string(), "C3".to_string()]
    );
}

#[test]
fn over_occupied_block_reports_negative_availability() {
    let mut db = fresh();
    db.create_block(&CreateBlockRequest {
        code: "T".to_string(),
        description: None,
        total_capacity: 0,
        annual_fee: 0,
        status: "active".to_string(),
    })
    .unwrap();
    db.create_grave(&grave_req("one", 1, "T-1")).unwrap();
    let stats = db.get_block_stats(1).unwrap();
    assert_eq!(stats.total_capacity, 0);
    assert_eq!(stats.occupied, 1);
    assert_eq!(stats.available, -1);
}

#[test]
fn export_year_range_follows_the_data() {
    let mut db = fresh();
    db.create_block(&block_req("A")).unwrap();
    db.create_grave(&grave_req("one", 1, "A-1")).unwrap();
    // no payments: the fallback range applies
    let empty = db.export_graves(None, None, None, None);
    assert_eq!(empty.start_year, 2022);
    assert_eq!(empty.end_year, 2026);
    db.create_payment(&payment_req(1, 2019, 10)).unwrap();
    db.create_payment(&payment_req(1, 2024, 10)).unwrap();
    db.create_payment(&payment_req(1, 2021, 10)).unwrap();
    let observed = db.export_graves(None, None, None, None);
    assert_eq!(observed.start_year, 2019);
    assert_eq!(observed.end_year, 2024);
    assert_eq!(observed.graves.len(), 1);
    assert_eq!(observed.graves[0].payments.len(), 3);
    // payments come newest year first
    assert_eq!(observed.graves[0].payments[0].year, 2024);
    // an explicit range is passed through
    let explicit = db.export_graves(None, None, Some(2000), Some(2001));
    assert_eq!(explicit.start_year, 2000);
    assert_eq!(explicit.end_year, 2001);
}

#[test]
fn grave_detail_joins_heirs() {
    let mut db = fresh();
    db.create_block(&block_req("A")).unwrap();
    db.create_grave(&grave_req("John Doe", 1, "A-1")).unwrap();
    let detail = db.get_grave_detail(1).unwrap();
    assert_eq!(detail.grave.deceased_name, "John Doe");
    assert!(detail.heirs.is_empty());
    assert!(db.get_grave_detail(7).is_none());
}
