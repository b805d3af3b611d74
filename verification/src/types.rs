//! Entity records, request records and the error taxonomy of the store.
//!
//! Every record is a plain value: identifiers are store-assigned `i64`
//! integers, timestamps are strings in the form the store generates, and
//! optional text columns hold `Option<String>`.

use vstd::prelude::*;

verus! {

/// Errors a store operation can surface.
///
/// `ReferentialConflict` carries the number of dependent rows that block the
/// delete. `NotFound` is reserved for the missing settings singleton; an
/// absent row on an ordinary lookup is a valid `None` result, not an error.
#[derive(Debug)]
pub enum StoreError {
    /// The backing file or its directory could not be created or opened.
    StoreOpen(String),
    /// The schema script could not be applied, or the stored data does not
    /// satisfy the store's integrity rules.
    Schema(String),
    /// A single statement or integrity check failed; carries the attempted
    /// operation's name and the underlying cause.
    Query(String),
    /// A delete was blocked by dependent rows; carries their count.
    ReferentialConflict(i64),
    /// The settings singleton row is missing.
    NotFound,
    /// The whole-database backup failed.
    Backup(String),
}

impl StoreError {
    /// True of `Query` errors, used by contracts to classify outcomes.
    pub open spec fn is_query(&self) -> bool {
        matches!(self, StoreError::Query(_))
    }
}

/// Clones an optional text field, preserving the value exactly.
pub fn clone_opt_str(o: &Option<String>) -> (r: Option<String>)
    ensures
        r == *o,
{
    match o {
        Option::None => Option::None,
        Option::Some(s) => Option::Some(s.clone()),
    }
}

/// An administrative section of grave plots sharing a fee schedule.
#[derive(Debug)]
pub struct Block {
    pub id: i64,
    pub code: String,
    pub description: Option<String>,
    pub total_capacity: i64,
    pub annual_fee: i64,
    pub status: String,
    pub created_at: String,
    pub updated_at: String,
}

impl Clone for Block {
    fn clone(&self) -> (res: Self)
        ensures
            res == *self,
    {
        Block {
            id: self.id,
            code: self.code.clone(),
            description: clone_opt_str(&self.description),
            total_capacity: self.total_capacity,
            annual_fee: self.annual_fee,
            status: self.status.clone(),
            created_at: self.created_at.clone(),
            updated_at: self.updated_at.clone(),
        }
    }
}

#[derive(Debug)]
pub struct CreateBlockRequest {
    pub code: String,
    pub description: Option<String>,
    pub total_capacity: i64,
    pub annual_fee: i64,
    pub status: String,
}

#[derive(Debug)]
pub struct UpdateBlockRequest {
    pub code: Option<String>,
    pub description: Option<String>,
    pub total_capacity: Option<i64>,
    pub annual_fee: Option<i64>,
    pub status: Option<String>,
}

/// Occupancy figures of one block; `available` may go negative when a block
/// is over-occupied.
#[derive(Debug, Clone, Copy)]
pub struct BlockStats {
    pub total_capacity: i64,
    pub occupied: i64,
    pub available: i64,
}

/// A single burial plot record.
#[derive(Debug)]
pub struct Grave {
    pub id: i64,
    pub deceased_name: String,
    pub block_id: i64,
    pub number: String,
    pub date_of_death: String,
    pub burial_date: Option<String>,
    pub notes: Option<String>,
    pub created_at: String,
    pub updated_at: String,
}

impl Clone for Grave {
    fn clone(&self) -> (res: Self)
        ensures
            res == *self,
    {
        Grave {
            id: self.id,
            deceased_name: self.deceased_name.clone(),
            block_id: self.block_id,
            number: self.number.clone(),
            date_of_death: self.date_of_death.clone(),
            burial_date: clone_opt_str(&self.burial_date),
            notes: clone_opt_str(&self.notes),
            created_at: self.created_at.clone(),
            updated_at: self.updated_at.clone(),
        }
    }
}

/// A grave joined with the code and fee of the block it belongs to.
#[derive(Debug)]
pub struct GraveWithBlock {
    pub id: i64,
    pub deceased_name: String,
    pub block_id: i64,
    pub number: String,
    pub date_of_death: String,
    pub burial_date: Option<String>,
    pub notes: Option<String>,
    pub created_at: String,
    pub updated_at: String,
    pub code: String,
    pub annual_fee: i64,
}

impl Clone for GraveWithBlock {
    fn clone(&self) -> (res: Self)
        ensures
            res == *self,
    {
        GraveWithBlock {
            id: self.id,
            deceased_name: self.deceased_name.clone(),
            block_id: self.block_id,
            number: self.number.clone(),
            date_of_death: self.date_of_death.clone(),
            burial_date: clone_opt_str(&self.burial_date),
            notes: clone_opt_str(&self.notes),
            created_at: self.created_at.clone(),
            updated_at: self.updated_at.clone(),
            code: self.code.clone(),
            annual_fee: self.annual_fee,
        }
    }
}

#[derive(Debug)]
pub struct CreateGraveRequest {
    pub deceased_name: String,
    pub block_id: i64,
    pub number: String,
    pub date_of_death: String,
    pub burial_date: Option<String>,
    pub notes: Option<String>,
}

#[derive(Debug)]
pub struct UpdateGraveRequest {
    pub deceased_name: Option<String>,
    pub block_id: Option<i64>,
    pub number: Option<String>,
    pub date_of_death: Option<String>,
    pub burial_date: Option<String>,
    pub notes: Option<String>,
}

/// A person responsible for a grave's upkeep.
#[derive(Debug)]
pub struct Heir {
    pub id: i64,
    pub grave_id: i64,
    pub order_number: i64,
    pub full_name: String,
    pub phone_number: Option<String>,
    pub relationship: Option<String>,
    pub address: Option<String>,
    pub is_primary: bool,
    pub created_at: String,
    pub updated_at: String,
}

impl Clone for Heir {
    fn clone(&self) -> (res: Self)
        ensures
            res == *self,
    {
        Heir {
            id: self.id,
            grave_id: self.grave_id,
            order_number: self.order_number,
            full_name: self.full_name.clone(),
            phone_number: clone_opt_str(&self.phone_number),
            relationship: clone_opt_str(&self.relationship),
            address: clone_opt_str(&self.address),
            is_primary: self.is_primary,
            created_at: self.created_at.clone(),
            updated_at: self.updated_at.clone(),
        }
    }
}

#[derive(Debug)]
pub struct CreateHeirRequest {
    pub grave_id: i64,
    pub order_number: i64,
    pub full_name: String,
    pub phone_number: Option<String>,
    pub relationship: Option<String>,
    pub address: Option<String>,
    pub is_primary: bool,
}

impl Clone for CreateHeirRequest {
    fn clone(&self) -> (res: Self)
        ensures
            res == *self,
    {
        CreateHeirRequest {
            grave_id: self.grave_id,
            order_number: self.order_number,
            full_name: self.full_name.clone(),
            phone_number: clone_opt_str(&self.phone_number),
            relationship: clone_opt_str(&self.relationship),
            address: clone_opt_str(&self.address),
            is_primary: self.is_primary,
        }
    }
}

#[derive(Debug)]
pub struct UpdateHeirRequest {
    pub full_name: Option<String>,
    pub phone_number: Option<String>,
    pub relationship: Option<String>,
    pub address: Option<String>,
    pub is_primary: Option<bool>,
}

/// One fee-period settlement recorded against a grave.
#[derive(Debug)]
pub struct Payment {
    pub id: i64,
    pub grave_id: i64,
    pub year: i32,
    pub payment_date: String,
    pub amount: i64,
    pub payment_method: Option<String>,
    pub payment_proof: Option<String>,
    pub paid_by: Option<String>,
    pub notes: Option<String>,
    pub created_at: String,
    pub updated_at: String,
}

impl Clone for Payment {
    fn clone(&self) -> (res: Self)
        ensures
            res == *self,
    {
        Payment {
            id: self.id,
            grave_id: self.grave_id,
            year: self.year,
            payment_date: self.payment_date.clone(),
            amount: self.amount,
            payment_method: clone_opt_str(&self.payment_method),
            payment_proof: clone_opt_str(&self.payment_proof),
            paid_by: clone_opt_str(&self.paid_by),
            notes: clone_opt_str(&self.notes),
            created_at: self.created_at.clone(),
            updated_at: self.updated_at.clone(),
        }
    }
}

#[derive(Debug)]
pub struct CreatePaymentRequest {
    pub grave_id: i64,
    pub year: i32,
    pub payment_date: String,
    pub amount: i64,
    pub payment_method: Option<String>,
    pub payment_proof: Option<String>,
    pub paid_by: Option<String>,
    pub notes: Option<String>,
}

/// Foundation metadata held in the settings singleton row.
#[derive(Debug)]
pub struct Settings {
    pub id: i64,
    pub foundation_name: String,
    pub address: Option<String>,
    pub phone: Option<String>,
    pub email: Option<String>,
    pub logo_path: Option<String>,
    pub active_year: i32,
    pub last_backup: Option<String>,
    pub auto_backup: bool,
    pub created_at: String,
    pub updated_at: String,
}

impl Clone for Settings {
    fn clone(&self) -> (res: Self)
        ensures
            res == *self,
    {
        Settings {
            id: self.id,
            foundation_name: self.foundation_name.clone(),
            address: clone_opt_str(&self.address),
            phone: clone_opt_str(&self.phone),
            email: clone_opt_str(&self.email),
            logo_path: clone_opt_str(&self.logo_path),
            active_year: self.active_year,
            last_backup: clone_opt_str(&self.last_backup),
            auto_backup: self.auto_backup,
            created_at: self.created_at.clone(),
            updated_at: self.updated_at.clone(),
        }
    }
}

#[derive(Debug)]
pub struct UpdateSettingsRequest {
    pub foundation_name: Option<String>,
    pub address: Option<String>,
    pub phone: Option<String>,
    pub email: Option<String>,
    pub logo_path: Option<String>,
    pub active_year: Option<i32>,
    pub auto_backup: Option<bool>,
}

/// Row counts and on-disk size of the store, for display.
#[derive(Debug, Clone, Copy)]
pub struct DatabaseStats {
    pub graves_count: i64,
    pub heirs_count: i64,
    pub payments_count: i64,
    pub size_bytes: i64,
}

impl DatabaseStats {
    /// The on-disk size rendered for display: plain bytes below one
    /// kibibyte, otherwise one decimal of kibibytes or mebibytes.
    pub fn formatted_size(&self) -> (r: String)
        ensures
            r@ == crate::text::size_repr(self.size_bytes as int),
    {
        crate::text::format_size(self.size_bytes)
    }

    /// Sum of the three row counts.
    pub fn total_records(&self) -> (r: i64)
        requires
            i64::MIN <= self.graves_count + self.heirs_count + self.payments_count <= i64::MAX,
        ensures
            r == self.graves_count + self.heirs_count + self.payments_count,
    {
        let wide: i128 = self.graves_count as i128 + self.heirs_count as i128
            + self.payments_count as i128;
        wide as i64
    }
}

/// A request to create a grave together with its initial heir list.
#[derive(Debug)]
pub struct CreateGraveWithHeirsRequest {
    pub grave: CreateGraveRequest,
    pub heirs: Vec<CreateHeirRequest>,
}

/// A grave joined with its block data, full heir list and payment history.
#[derive(Debug)]
pub struct GraveExportData {
    pub grave: GraveWithBlock,
    pub heirs: Vec<Heir>,
    pub payments: Vec<Payment>,
}

/// The export data set together with the year range it covers.
#[derive(Debug)]
pub struct ExportGravesResult {
    pub graves: Vec<GraveExportData>,
    pub start_year: i32,
    pub end_year: i32,
}

/// A grave joined with its block data and its heir list.
#[derive(Debug)]
pub struct GraveDetail {
    pub grave: GraveWithBlock,
    pub heirs: Vec<Heir>,
}

/// Whether one fee year is settled for a grave, and for what amount.
#[derive(Debug, Clone, Copy)]
pub struct YearPaymentStatus {
    pub year: i32,
    pub is_paid: bool,
    pub amount: Option<i64>,
}

/// One grave's payment standing around a target year.
#[derive(Debug)]
pub struct GravePaymentSummary {
    pub grave_id: i64,
    pub deceased_name: String,
    pub block_code: String,
    pub number: String,
    pub annual_fee: i64,
    pub current_year_payment: Option<Payment>,
    pub recent_payments: Vec<YearPaymentStatus>,
}

} // verus!
