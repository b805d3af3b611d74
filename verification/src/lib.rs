//! Cemetery plot records library: blocks, graves, heirs, payments and
//! foundation settings, kept in a verified in-memory table model and
//! persisted in an embedded SQLite file through a small trusted layer.

pub mod db;
pub mod laws;
pub mod model;
mod sql;
mod store;
pub mod text;
mod types;

pub use types::{
    Block, BlockStats, CreateBlockRequest, CreateGraveRequest, CreateGraveWithHeirsRequest,
    CreateHeirRequest, CreatePaymentRequest, DatabaseStats, StoreError, ExportGravesResult, Grave,
    GraveDetail, GraveExportData, GravePaymentSummary, GraveWithBlock, Heir, Payment, Settings,
    UpdateBlockRequest, UpdateGraveRequest, UpdateHeirRequest, UpdateSettingsRequest,
    YearPaymentStatus,
};
