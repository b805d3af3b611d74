//! The records store: a verified in-memory model of the five tables,
//! kept durable in an embedded SQLite file through the trusted layer in
//! `sql`. Every operation opens with the model, applies its verified
//! transition, and writes the touched tables through; what the disk does
//! with a write cannot be promised, so contracts state the in-memory
//! transition exactly and classify the persistence outcome.

use vstd::prelude::*;

use crate::model::{
    block_create_rel, block_id_taken, can_create_block, can_create_grave,
    can_create_grave_with_heirs, can_create_heir, can_create_payment, can_replace_heirs,
    can_update_block, can_update_grave, delete_block_next, delete_grave_next, delete_heir_next,
    delete_heirs_of_grave_next, delete_payment_next, export_entry_ok, export_has_payment,
    export_year_occurs, export_years_within, filtered_graves, find_block, find_grave, find_heir,
    find_payment_for_year, grave_count, grave_create_rel, grave_id_taken, grave_with_heirs_rel,
    heir_create_rel, heir_leq, heirs_of, heirs_replaced_rel, join_grave, listed_graves,
    marked_backed_up, page, payment_create_rel, payment_year_geq, payments_of, search_view,
    summary_matches, update_block_next, update_grave_next, update_heir_next, update_settings_next,
    State,
};
use crate::store::Store;
use crate::types::StoreError;

pub use crate::types::{
    Block, BlockStats, CreateBlockRequest, CreateGraveRequest, CreateGraveWithHeirsRequest,
    CreateHeirRequest, CreatePaymentRequest, DatabaseStats, ExportGravesResult, Grave, GraveDetail,
    GraveExportData, GravePaymentSummary, GraveWithBlock, Heir, Payment, Settings,
    UpdateBlockRequest, UpdateGraveRequest, UpdateHeirRequest, UpdateSettingsRequest,
    YearPaymentStatus,
};

verus! {

/// A `Query` error carrying the operation's name and the cause.
fn query_error(op: &str, e: &rusqlite::Error) -> (r: StoreError)
    ensures
        r.is_query(),
{
    let mut m = String::from_str(op);
    m.append(": ");
    let cause = crate::sql::error_text(e);
    m.append(cause.as_str());
    StoreError::Query(m)
}

fn open_error(e: &rusqlite::Error) -> (r: StoreError)
    ensures
        r matches StoreError::StoreOpen(_),
{
    let mut m = String::from_str("open: ");
    let cause = crate::sql::error_text(e);
    m.append(cause.as_str());
    StoreError::StoreOpen(m)
}

fn schema_error(e: &rusqlite::Error) -> (r: StoreError)
    ensures
        r matches StoreError::Schema(_),
{
    let mut m = String::from_str("schema: ");
    let cause = crate::sql::error_text(e);
    m.append(cause.as_str());
    StoreError::Schema(m)
}

fn backup_error(e: &rusqlite::Error) -> (r: StoreError)
    ensures
        r matches StoreError::Backup(_),
{
    let mut m = String::from_str("backup: ");
    let cause = crate::sql::error_text(e);
    m.append(cause.as_str());
    StoreError::Backup(m)
}

/// The idempotent schema: every statement creates its object only when
/// absent, and the settings singleton is seeded only once.
fn schema_statements() -> Vec<&'static str> {
    let mut v: Vec<&'static str> = Vec::new();
    v.push("PRAGMA foreign_keys = ON");
    v.push(
        "CREATE TABLE IF NOT EXISTS blocks (\n            id INTEGER PRIMARY KEY AUTOINCREMENT,\n            code TEXT NOT NULL UNIQUE,\n            description TEXT NOT NULL DEFAULT '',\n            total_capacity INTEGER NOT NULL DEFAULT 0 CHECK (total_capacity >= 0),\n            annual_fee INTEGER NOT NULL DEFAULT 0,\n            status TEXT NOT NULL DEFAULT 'active',\n            created_at TEXT NOT NULL DEFAULT CURRENT_TIMESTAMP,\n            updated_at TEXT NOT NULL DEFAULT CURRENT_TIMESTAMP\n        )",
    );
    v.push(
        "CREATE TABLE IF NOT EXISTS graves (\n            id INTEGER PRIMARY KEY AUTOINCREMENT,\n            deceased_name TEXT NOT NULL,\n            block_id INTEGER NOT NULL REFERENCES blocks(id) ON DELETE CASCADE,\n            number TEXT NOT NULL,\n            date_of_death TEXT NOT NULL,\n            burial_date TEXT NOT NULL DEFAULT '',\n            notes TEXT NOT NULL DEFAULT '',\n            created_at TEXT NOT NULL DEFAULT CURRENT_TIMESTAMP,\n            updated_at TEXT NOT NULL DEFAULT CURRENT_TIMESTAMP\n        )",
    );
    v.push(
        "CREATE TABLE IF NOT EXISTS heirs (\n            id INTEGER PRIMARY KEY AUTOINCREMENT,\n            grave_id INTEGER NOT NULL REFERENCES graves(id) ON DELETE CASCADE,\n            order_number INTEGER NOT NULL DEFAULT 1,\n            full_name TEXT NOT NULL,\n            phone_number TEXT NOT NULL DEFAULT '',\n            relationship TEXT NOT NULL DEFAULT '',\n            address TEXT NOT NULL DEFAULT '',\n            is_primary INTEGER NOT NULL DEFAULT 0,\n            created_at TEXT NOT NULL DEFAULT CURRENT_TIMESTAMP,\n            updated_at TEXT NOT NULL DEFAULT CURRENT_TIMESTAMP\n        )",
    );
    v.push(
        "CREATE TABLE IF NOT EXISTS payments (\n            id INTEGER PRIMARY KEY AUTOINCREMENT,\n            grave_id INTEGER NOT NULL REFERENCES graves(id) ON DELETE CASCADE,\n            year INTEGER NOT NULL,\n            payment_date TEXT NOT NULL,\n            amount INTEGER NOT NULL DEFAULT 0,\n            payment_method TEXT NOT NULL DEFAULT 'cash',\n            payment_proof TEXT NOT NULL DEFAULT '',\n            paid_by TEXT NOT NULL DEFAULT '',\n            notes TEXT NOT NULL DEFAULT '',\n            created_at TEXT NOT NULL DEFAULT CURRENT_TIMESTAMP,\n            updated_at TEXT NOT NULL DEFAULT CURRENT_TIMESTAMP\n        )",
    );
    v.push(
        "CREATE TABLE IF NOT EXISTS settings (\n            id INTEGER PRIMARY KEY CHECK (id = 1),\n            foundation_name TEXT NOT NULL DEFAULT '',\n            address TEXT,\n            phone TEXT,\n            email TEXT,\n            logo_path TEXT,\n            active_year INTEGER NOT NULL DEFAULT 2025,\n            last_backup TEXT,\n            auto_backup INTEGER NOT NULL DEFAULT 0,\n            created_at TEXT NOT NULL DEFAULT CURRENT_TIMESTAMP,\n            updated_at TEXT NOT NULL DEFAULT CURRENT_TIMESTAMP\n        )",
    );
    v.push(
        "INSERT OR IGNORE INTO settings (id, foundation_name, active_year) VALUES (1, '', CAST(strftime('%Y','now') AS INTEGER))",
    );
    v
}

/// Reads the five tables back and rebuilds the verified model.
fn load_store(conn: &rusqlite::Connection) -> (r: Result<Store, StoreError>)
    ensures
        r matches Ok(s) ==> s.wf(),
        r matches Err(e) ==> e matches StoreError::Schema(_) || e.is_query(),
{
    let blocks = match crate::sql::load_blocks(conn) {
        Result::Ok(v) => v,
        Result::Err(e) => {
            return Result::Err(query_error("load blocks", &e));
        },
    };
    let graves = match crate::sql::load_graves(conn) {
        Result::Ok(v) => v,
        Result::Err(e) => {
            return Result::Err(query_error("load graves", &e));
        },
    };
    let heirs = match crate::sql::load_heirs(conn) {
        Result::Ok(v) => v,
        Result::Err(e) => {
            return Result::Err(query_error("load heirs", &e));
        },
    };
    let payments = match crate::sql::load_payments(conn) {
        Result::Ok(v) => v,
        Result::Err(e) => {
            return Result::Err(query_error("load payments", &e));
        },
    };
    let settings = match crate::sql::load_settings(conn) {
        Result::Ok(v) => v,
        Result::Err(e) => {
            return Result::Err(query_error("load settings", &e));
        },
    };
    Store::from_rows(blocks, graves, heirs, payments, settings)
}

fn persist_blocks(conn: &rusqlite::Connection, store: &Store) -> (r: Result<(), StoreError>)
    ensures
        r matches Err(e) ==> e.is_query(),
{
    match crate::sql::delete_all_rows(conn, "blocks") {
        Result::Ok(_) => {},
        Result::Err(e) => {
            return Result::Err(query_error("persist blocks", &e));
        },
    }
    let rows = store.blocks_ref();
    let n = rows.len();
    let mut i: usize = 0;
    while i < n
        invariant
            n == rows.len(),
        decreases n - i,
    {
        match crate::sql::insert_block_row(conn, &rows[i]) {
            Result::Ok(_) => {},
            Result::Err(e) => {
                return Result::Err(query_error("persist blocks", &e));
            },
        }
        i = i + 1;
    }
    Result::Ok(())
}

fn persist_graves(conn: &rusqlite::Connection, store: &Store) -> (r: Result<(), StoreError>)
    ensures
        r matches Err(e) ==> e.is_query(),
{
    match crate::sql::delete_all_rows(conn, "graves") {
        Result::Ok(_) => {},
        Result::Err(e) => {
            return Result::Err(query_error("persist graves", &e));
        },
    }
    let rows = store.graves_ref();
    let n = rows.len();
    let mut i: usize = 0;
    while i < n
        invariant
            n == rows.len(),
        decreases n - i,
    {
        match crate::sql::insert_grave_row(conn, &rows[i]) {
            Result::Ok(_) => {},
            Result::Err(e) => {
                return Result::Err(query_error("persist graves", &e));
            },
        }
        i = i + 1;
    }
    Result::Ok(())
}

fn persist_heirs(conn: &rusqlite::Connection, store: &Store) -> (r: Result<(), StoreError>)
    ensures
        r matches Err(e) ==> e.is_query(),
{
    match crate::sql::delete_all_rows(conn, "heirs") {
        Result::Ok(_) => {},
        Result::Err(e) => {
            return Result::Err(query_error("persist heirs", &e));
        },
    }
    let rows = store.heirs_ref();
    let n = rows.len();
    let mut i: usize = 0;
    while i < n
        invariant
            n == rows.len(),
        decreases n - i,
    {
        match crate::sql::insert_heir_row(conn, &rows[i]) {
            Result::Ok(_) => {},
            Result::Err(e) => {
                return Result::Err(query_error("persist heirs", &e));
            },
        }
        i = i + 1;
    }
    Result::Ok(())
}

fn persist_payments(conn: &rusqlite::Connection, store: &Store) -> (r: Result<(), StoreError>)
    ensures
        r matches Err(e) ==> e.is_query(),
{
    match crate::sql::delete_all_rows(conn, "payments") {
        Result::Ok(_) => {},
        Result::Err(e) => {
            return Result::Err(query_error("persist payments", &e));
        },
    }
    let rows = store.payments_ref();
    let n = rows.len();
    let mut i: usize = 0;
    while i < n
        invariant
            n == rows.len(),
        decreases n - i,
    {
        match crate::sql::insert_payment_row(conn, &rows[i]) {
            Result::Ok(_) => {},
            Result::Err(e) => {
                return Result::Err(query_error("persist payments", &e));
            },
        }
        i = i + 1;
    }
    Result::Ok(())
}

fn persist_settings(conn: &rusqlite::Connection, store: &Store) -> (r: Result<(), StoreError>)
    ensures
        r matches Err(e) ==> e.is_query(),
{
    match crate::sql::delete_all_rows(conn, "settings") {
        Result::Ok(_) => {},
        Result::Err(e) => {
            return Result::Err(query_error("persist settings", &e));
        },
    }
    match store.settings_ref() {
        Option::None => Result::Ok(()),
        Option::Some(t) => match crate::sql::insert_settings_row(conn, t) {
            Result::Ok(_) => Result::Ok(()),
            Result::Err(e) => Result::Err(query_error("persist settings", &e)),
        },
    }
}

/// The records store: one connection to the backing file and the verified
/// in-memory model of its content.
pub struct Database {
    conn: rusqlite::Connection,
    store: Store,
}

impl View for Database {
    type V = State;

    closed spec fn view(&self) -> State {
        self.store@
    }
}

impl Database {
    #[verifier::type_invariant]
    spec fn inv(&self) -> bool {
        self.store.wf()
    }

    /// Opens or creates the backing file at `path`, applies the schema,
    /// and reads the tables into the model. Fails with `StoreOpen` when
    /// the file cannot be opened, `Schema` when the script cannot be
    /// applied or the stored rows break the integrity rules, and `Query`
    /// when a read statement fails.
    pub fn init_with_path(path: &str) -> (r: Result<Database, StoreError>)
        ensures
            r matches Err(e) ==> e matches StoreError::StoreOpen(_) || e matches StoreError::Schema(
                _,
            ) || e.is_query(),
    {
        let conn = match crate::sql::open_connection(path) {
            Result::Ok(c) => c,
            Result::Err(e) => {
                return Result::Err(open_error(&e));
            },
        };
        let statements = schema_statements();
        let n = statements.len();
        let mut i: usize = 0;
        while i < n
            invariant
                n == statements.len(),
            decreases n - i,
        {
            match crate::sql::run_batch(&conn, statements[i]) {
                Result::Ok(_) => {},
                Result::Err(e) => {
                    return Result::Err(schema_error(&e));
                },
            }
            i = i + 1;
        }
        let store = match load_store(&conn) {
            Result::Ok(s) => s,
            Result::Err(e) => {
                return Result::Err(e);
            },
        };
        Result::Ok(Database { conn, store })
    }

    /// Applies the schema script again; it creates only what is absent,
    /// so a second application leaves the table set unchanged.
    pub fn apply_schema(&self) -> (r: Result<(), StoreError>)
        ensures
            r matches Err(e) ==> e matches StoreError::Schema(_),
    {
        let statements = schema_statements();
        let n = statements.len();
        let mut i: usize = 0;
        while i < n
            invariant
                n == statements.len(),
            decreases n - i,
        {
            match crate::sql::run_batch(&self.conn, statements[i]) {
                Result::Ok(_) => {},
                Result::Err(e) => {
                    return Result::Err(schema_error(&e));
                },
            }
            i = i + 1;
        }
        Result::Ok(())
    }

    /// Re-reads the five tables from the backing file into the model; on
    /// failure the model keeps its current content.
    pub fn reload(&mut self) -> (r: Result<(), StoreError>)
        ensures
            r matches Err(e) ==> final(self)@ == old(self)@ && (e matches StoreError::Schema(_)
                || e.is_query()),
    {
        proof {
            use_type_invariant(&*self);
        }
        let store = match load_store(&self.conn) {
            Result::Ok(s) => s,
            Result::Err(e) => {
                return Result::Err(e);
            },
        };
        self.store = store;
        Result::Ok(())
    }

    /// The open connection to the backing file.
    pub fn connection(&self) -> &rusqlite::Connection {
        &self.conn
    }

    /// Whether all five expected tables are present in the backing file;
    /// what is present is disk-determined, so only the failure class is
    /// promised.
    pub fn verify(&self) -> (r: Result<bool, StoreError>)
        ensures
            r matches Err(e) ==> e.is_query(),
    {
        if !self.table_present("blocks")? {
            return Result::Ok(false);
        }
        if !self.table_present("graves")? {
            return Result::Ok(false);
        }
        if !self.table_present("heirs")? {
            return Result::Ok(false);
        }
        if !self.table_present("payments")? {
            return Result::Ok(false);
        }
        if !self.table_present("settings")? {
            return Result::Ok(false);
        }
        Result::Ok(true)
    }

    fn table_present(&self, name: &str) -> (r: Result<bool, StoreError>)
        ensures
            r matches Err(e) ==> e.is_query(),
    {
        match crate::sql::count_master_tables(&self.conn, name) {
            Result::Ok(n) => Result::Ok(n > 0),
            Result::Err(e) => Result::Err(query_error("verify", &e)),
        }
    }

    /// Row counts from the model and the on-disk size from the store's
    /// pragmas; a size failure is surfaced, never defaulted.
    pub fn get_stats(&self) -> (r: Result<DatabaseStats, StoreError>)
        ensures
            r matches Ok(st) ==> st.graves_count as int == self@.graves.len()
                && st.heirs_count as int == self@.heirs.len() && st.payments_count as int
                == self@.payments.len() && st.size_bytes >= 0,
            r matches Err(e) ==> e.is_query(),
    {
        proof {
            use_type_invariant(&*self);
        }
        let (graves_count, heirs_count, payments_count) = self.store.counts();
        let size_bytes = match crate::sql::database_size_bytes(&self.conn) {
            Result::Ok(s) => s,
            Result::Err(e) => {
                return Result::Err(query_error("get_stats", &e));
            },
        };
        Result::Ok(DatabaseStats { graves_count, heirs_count, payments_count, size_bytes })
    }

    /// Copies the whole database to `backup_path` through the store's
    /// consistent backup pass, never a raw byte copy.
    pub fn backup_to(&self, backup_path: &str) -> (r: Result<(), StoreError>)
        ensures
            r matches Err(e) ==> e matches StoreError::Backup(_),
    {
        let mut dst = match crate::sql::open_connection(backup_path) {
            Result::Ok(c) => c,
            Result::Err(e) => {
                return Result::Err(backup_error(&e));
            },
        };
        match crate::sql::run_backup(&self.conn, &mut dst) {
            Result::Ok(_) => Result::Ok(()),
            Result::Err(e) => Result::Err(backup_error(&e)),
        }
    }

    fn now(&self) -> (r: Result<String, StoreError>)
        ensures
            r matches Err(e) ==> e.is_query(),
    {
        match crate::sql::current_timestamp(&self.conn) {
            Result::Ok(t) => Result::Ok(t),
            Result::Err(e) => Result::Err(query_error("timestamp", &e)),
        }
    }

    // ---------------------------------------------------------------
    // Blocks
    // ---------------------------------------------------------------

    /// All blocks, ordered by code ascending.
    pub fn get_all_blocks(&self) -> (r: Vec<Block>)
        ensures
            vstd::relations::sorted_by(r@, crate::model::block_code_leq()),
            r@.to_multiset() == self@.blocks.to_multiset(),
    {
        proof {
            use_type_invariant(&*self);
        }
        self.store.get_all_blocks()
    }

    /// Single block lookup; absence is a valid `None`, not an error.
    pub fn get_block_by_id(&self, id: i64) -> (r: Option<Block>)
        ensures
            r == find_block(self@.blocks, id),
            r is Some <==> block_id_taken(self@.blocks, id),
    {
        proof {
            use_type_invariant(&*self);
        }
        self.store.get_block_by_id(id)
    }

    /// Creates a block and writes the table through.
    pub fn create_block(&mut self, block: &CreateBlockRequest) -> (r: Result<i64, StoreError>)
        ensures
            !can_create_block(old(self)@, *block) ==> (r matches Err(e) && e.is_query()) && final(self)@ == old(self)@,
            r matches Ok(id) ==> can_create_block(old(self)@, *block) && id as int == old(self)@.next_block_id,
            can_create_block(old(self)@, *block) ==> (final(self)@ == old(self)@ && (
            r matches Err(e)
                && e.is_query())) || (exists|now: Seq<char>|
                block_create_rel(old(self)@, final(self)@, *block, now)),
            r matches Err(e) ==> e.is_query(),
    {
        proof {
            use_type_invariant(&*self);
        }
        let now = match self.now() {
            Result::Ok(t) => t,
            Result::Err(e) => {
                return Result::Err(e);
            },
        };
        let mut store = Store::new();
        core::mem::swap(&mut store, &mut self.store);
        let res = store.create_block(block, now.as_str());
        let persisted = match &res {
            Result::Ok(_) => persist_blocks(&self.conn, &store),
            Result::Err(_) => Result::Ok(()),
        };
        core::mem::swap(&mut store, &mut self.store);
        proof {
            if can_create_block(old(self)@, *block) {
                assert(block_create_rel(old(self)@, self@, *block, now@));
            }
        }
        match res {
            Result::Ok(id) => match persisted {
                Result::Ok(_) => Result::Ok(id),
                Result::Err(e) => Result::Err(e),
            },
            Result::Err(e) => Result::Err(e),
        }
    }

    /// Coalesce update of a block: unset fields keep their stored value;
    /// an absent identifier is a silent no-op.
    pub fn update_block(&mut self, id: i64, block: &UpdateBlockRequest) -> (r: Result<
        (),
        StoreError,
    >)
        ensures
            !block_id_taken(old(self)@.blocks, id) ==> final(self)@ == old(self)@,
            block_id_taken(old(self)@.blocks, id) && !can_update_block(old(self)@, id, *block)
                ==> (r matches Err(e) && e.is_query()) && final(self)@ == old(self)@,
            block_id_taken(old(self)@.blocks, id) && can_update_block(old(self)@, id, *block) ==> (
            final(self)@ == old(self)@ && (r matches Err(e) && e.is_query())) || final(self)@
                == update_block_next(old(self)@, id, *block),
            r matches Err(e) ==> e.is_query(),
    {
        proof {
            use_type_invariant(&*self);
        }
        let mut store = Store::new();
        core::mem::swap(&mut store, &mut self.store);
        let res = store.update_block(id, block);
        let persisted = match &res {
            Result::Ok(_) => persist_blocks(&self.conn, &store),
            Result::Err(_) => Result::Ok(()),
        };
        core::mem::swap(&mut store, &mut self.store);
        match res {
            Result::Ok(_) => persisted,
            Result::Err(e) => Result::Err(e),
        }
    }

    /// Deletes a block, unless graves still reference it; then the error
    /// carries the count of dependent graves and nothing changes.
    pub fn delete_block(&mut self, id: i64) -> (r: Result<(), StoreError>)
        ensures
            grave_count(old(self)@, id) > 0 ==> (r matches Err(
                StoreError::ReferentialConflict(c),
            ) && c as int == grave_count(old(self)@, id)) && final(self)@ == old(self)@,
            grave_count(old(self)@, id) == 0 ==> (final(self)@ == old(self)@ && (r matches Err(e)
                && e.is_query())) || (final(self)@ == delete_block_next(old(self)@, id) && (
            r is Ok || (r matches Err(e) && e.is_query()))),
    {
        proof {
            use_type_invariant(&*self);
        }
        let mut store = Store::new();
        core::mem::swap(&mut store, &mut self.store);
        let res = store.delete_block(id);
        let persisted = match &res {
            Result::Ok(_) => persist_blocks(&self.conn, &store),
            Result::Err(_) => Result::Ok(()),
        };
        core::mem::swap(&mut store, &mut self.store);
        match res {
            Result::Ok(_) => persisted,
            Result::Err(e) => Result::Err(e),
        }
    }

    /// Occupancy figures of one block; fails when the block is absent.
    pub fn get_block_stats(&self, block_id: i64) -> (r: Result<BlockStats, StoreError>)
        ensures
            match r {
                Result::Ok(st) => {
                    &&& block_id_taken(self@.blocks, block_id)
                    &&& (match find_block(self@.blocks, block_id) {
                        Option::Some(b) => st.total_capacity == b.total_capacity,
                        Option::None => false,
                    })
                    &&& st.occupied as int == grave_count(self@, block_id)
                    &&& st.available as int == st.total_capacity - st.occupied
                },
                Result::Err(e) => !block_id_taken(self@.blocks, block_id) && e.is_query(),
            },
    {
        proof {
            use_type_invariant(&*self);
        }
        self.store.get_block_stats(block_id)
    }

    // ---------------------------------------------------------------
    // Graves
    // ---------------------------------------------------------------

    /// Matching graves joined with their blocks, newest first, one page.
    pub fn get_graves(
        &self,
        search: Option<String>,
        block_id: Option<i64>,
        limit: i64,
        offset: i64,
    ) -> (r: Vec<GraveWithBlock>)
        ensures
            r@ == page(listed_graves(self@, search_view(search), block_id), limit, offset),
    {
        proof {
            use_type_invariant(&*self);
        }
        self.store.get_graves(&search, block_id, limit, offset)
    }

    /// Number of graves that pass the filters, for pagination.
    pub fn count_graves(&self, search: Option<String>, block_id: Option<i64>) -> (c: i64)
        ensures
            c as int == filtered_graves(self@, search_view(search), block_id).len(),
            c >= 0,
    {
        proof {
            use_type_invariant(&*self);
        }
        self.store.count_graves(&search, block_id)
    }

    /// Single grave joined with its block, or absence.
    pub fn get_grave_by_id(&self, id: i64) -> (r: Option<GraveWithBlock>)
        ensures
            r == (match find_grave(self@.graves, id) {
                Option::Some(g) => Option::Some(join_grave(self@, g)),
                Option::None => Option::<GraveWithBlock>::None,
            }),
            r is Some <==> grave_id_taken(self@.graves, id),
    {
        proof {
            use_type_invariant(&*self);
        }
        self.store.get_grave_by_id(id)
    }

    /// Creates a grave and writes the table through.
    pub fn create_grave(&mut self, grave: &CreateGraveRequest) -> (r: Result<i64, StoreError>)
        ensures
            !can_create_grave(old(self)@, *grave) ==> (r matches Err(e) && e.is_query()) && final(self)@ == old(self)@,
            r matches Ok(id) ==> can_create_grave(old(self)@, *grave) && id as int == old(self)@.next_grave_id,
            can_create_grave(old(self)@, *grave) ==> (final(self)@ == old(self)@ && (
            r matches Err(e)
                && e.is_query())) || (exists|now: Seq<char>|
                grave_create_rel(old(self)@, final(self)@, *grave, now)),
            r matches Err(e) ==> e.is_query(),
    {
        proof {
            use_type_invariant(&*self);
        }
        let now = match self.now() {
            Result::Ok(t) => t,
            Result::Err(e) => {
                return Result::Err(e);
            },
        };
        let mut store = Store::new();
        core::mem::swap(&mut store, &mut self.store);
        let res = store.create_grave(grave, now.as_str());
        let persisted = match &res {
            Result::Ok(_) => persist_graves(&self.conn, &store),
            Result::Err(_) => Result::Ok(()),
        };
        core::mem::swap(&mut store, &mut self.store);
        proof {
            if can_create_grave(old(self)@, *grave) {
                assert(grave_create_rel(old(self)@, self@, *grave, now@));
            }
        }
        match res {
            Result::Ok(id) => match persisted {
                Result::Ok(_) => Result::Ok(id),
                Result::Err(e) => Result::Err(e),
            },
            Result::Err(e) => Result::Err(e),
        }
    }

    /// Creates a grave and its heir list in one operation; nothing is
    /// applied when any part of it cannot be.
    pub fn create_grave_with_heirs(&mut self, request: &CreateGraveWithHeirsRequest) -> (r: Result<
        i64,
        StoreError,
    >)
        ensures
            !can_create_grave_with_heirs(old(self)@, request.grave, request.heirs@.len() as int)
                ==> (r matches Err(e) && e.is_query()) && final(self)@ == old(self)@,
            r matches Ok(id) ==> can_create_grave_with_heirs(
                old(self)@,
                request.grave,
                request.heirs@.len() as int,
            ) && id as int == old(self)@.next_grave_id,
            can_create_grave_with_heirs(old(self)@, request.grave, request.heirs@.len() as int)
                ==> (final(self)@ == old(self)@ && (r matches Err(e) && e.is_query())) || (exists|
            now: Seq<char>,
            |
                grave_with_heirs_rel(old(self)@, final(self)@, request.grave, request.heirs@, now)),
            r matches Err(e) ==> e.is_query(),
    {
        proof {
            use_type_invariant(&*self);
        }
        let now = match self.now() {
            Result::Ok(t) => t,
            Result::Err(e) => {
                return Result::Err(e);
            },
        };
        let mut store = Store::new();
        core::mem::swap(&mut store, &mut self.store);
        let res = store.create_grave_with_heirs(request, now.as_str());
        let persisted = match &res {
            Result::Ok(_) => match persist_graves(&self.conn, &store) {
                Result::Ok(_) => persist_heirs(&self.conn, &store),
                Result::Err(e) => Result::Err(e),
            },
            Result::Err(_) => Result::Ok(()),
        };
        core::mem::swap(&mut store, &mut self.store);
        proof {
            if can_create_grave_with_heirs(old(self)@, request.grave, request.heirs@.len() as int) {
                assert(grave_with_heirs_rel(old(self)@, self@, request.grave, request.heirs@, now@));
            }
        }
        match res {
            Result::Ok(id) => match persisted {
                Result::Ok(_) => Result::Ok(id),
                Result::Err(e) => Result::Err(e),
            },
            Result::Err(e) => Result::Err(e),
        }
    }

    /// Coalesce update of a grave; an absent identifier is a silent no-op.
    pub fn update_grave(&mut self, id: i64, grave: &UpdateGraveRequest) -> (r: Result<
        (),
        StoreError,
    >)
        ensures
            !grave_id_taken(old(self)@.graves, id) ==> final(self)@ == old(self)@,
            grave_id_taken(old(self)@.graves, id) && !can_update_grave(old(self)@, *grave) ==> (
            r matches Err(e)
                && e.is_query()) && final(self)@ == old(self)@,
            grave_id_taken(old(self)@.graves, id) && can_update_grave(old(self)@, *grave) ==> (
            final(self)@ == old(self)@ && (r matches Err(e) && e.is_query())) || final(self)@
                == update_grave_next(old(self)@, id, *grave),
            r matches Err(e) ==> e.is_query(),
    {
        proof {
            use_type_invariant(&*self);
        }
        let mut store = Store::new();
        core::mem::swap(&mut store, &mut self.store);
        let res = store.update_grave(id, grave);
        let persisted = match &res {
            Result::Ok(_) => persist_graves(&self.conn, &store),
            Result::Err(_) => Result::Ok(()),
        };
        core::mem::swap(&mut store, &mut self.store);
        match res {
            Result::Ok(_) => persisted,
            Result::Err(e) => Result::Err(e),
        }
    }

    /// Deletes a grave; its heirs and payments are removed with it.
    pub fn delete_grave(&mut self, id: i64) -> (r: Result<(), StoreError>)
        ensures
            (final(self)@ == old(self)@ && (r matches Err(e) && e.is_query())) || (final(self)@
                == delete_grave_next(old(self)@, id) && (r is Ok || (r matches Err(e)
                && e.is_query()))),
    {
        proof {
            use_type_invariant(&*self);
        }
        let mut store = Store::new();
        core::mem::swap(&mut store, &mut self.store);
        let res = store.delete_grave(id);
        let persisted = match &res {
            Result::Ok(_) => match persist_graves(&self.conn, &store) {
                Result::Ok(_) => match persist_heirs(&self.conn, &store) {
                    Result::Ok(_) => persist_payments(&self.conn, &store),
                    Result::Err(e) => Result::Err(e),
                },
                Result::Err(e) => Result::Err(e),
            },
            Result::Err(_) => Result::Ok(()),
        };
        core::mem::swap(&mut store, &mut self.store);
        match res {
            Result::Ok(_) => persisted,
            Result::Err(e) => Result::Err(e),
        }
    }

    /// A grave joined with its block and its ordered heir list.
    pub fn get_grave_detail(&self, id: i64) -> (r: Option<GraveDetail>)
        ensures
            match find_grave(self@.graves, id) {
                Option::Some(g) => r matches Some(d) && d.grave == join_grave(self@, g)
                    && vstd::relations::sorted_by(d.heirs@, heir_leq()) && d.heirs@.to_multiset()
                    == heirs_of(self@, id).to_multiset(),
                Option::None => r is None,
            },
    {
        proof {
            use_type_invariant(&*self);
        }
        self.store.get_grave_detail(id)
    }

    /// Every matching grave with its full heir list and payment history.
    pub fn get_all_graves_with_heirs(
        &self,
        search: Option<String>,
        block_id: Option<i64>,
    ) -> (r: Vec<GraveExportData>)
        ensures
            ({
                let listed = listed_graves(self@, search_view(search), block_id);
                &&& r@.len() == listed.len()
                &&& forall|k: int|
                    0 <= k < listed.len() ==> export_entry_ok(#[trigger] r@[k], listed[k], self@)
            }),
    {
        proof {
            use_type_invariant(&*self);
        }
        self.store.get_all_graves_with_heirs(&search, block_id)
    }

    /// The export data set with the year range it covers: the given range
    /// when both ends are supplied, otherwise the observed span of payment
    /// years, with a fixed fallback when no payments exist.
    pub fn export_graves(
        &self,
        search: Option<String>,
        block_id: Option<i64>,
        start_year: Option<i32>,
        end_year: Option<i32>,
    ) -> (r: ExportGravesResult)
        ensures
            ({
                let listed = listed_graves(self@, search_view(search), block_id);
                &&& r.graves@.len() == listed.len()
                &&& forall|k: int|
                    0 <= k < listed.len() ==> export_entry_ok(
                        #[trigger] r.graves@[k],
                        listed[k],
                        self@,
                    )
            }),
            (start_year is Some && end_year is Some) ==> r.start_year == start_year->0
                && r.end_year == end_year->0,
            !(start_year is Some && end_year is Some) && export_has_payment(r.graves@)
                ==> export_year_occurs(r.graves@, r.start_year) && export_year_occurs(
                r.graves@,
                r.end_year,
            ) && export_years_within(r.graves@, r.start_year, r.end_year),
            !(start_year is Some && end_year is Some) && !export_has_payment(r.graves@)
                ==> r.start_year == 2022 && r.end_year == 2026,
    {
        proof {
            use_type_invariant(&*self);
        }
        self.store.export_graves(&search, block_id, start_year, end_year)
    }

    // ---------------------------------------------------------------
    // Heirs
    // ---------------------------------------------------------------

    /// Heirs of one grave, ordered by order number ascending.
    pub fn get_heirs_by_grave(&self, grave_id: i64) -> (r: Vec<Heir>)
        ensures
            vstd::relations::sorted_by(r@, heir_leq()),
            r@.to_multiset() == heirs_of(self@, grave_id).to_multiset(),
    {
        proof {
            use_type_invariant(&*self);
        }
        self.store.get_heirs_by_grave(grave_id)
    }

    /// Creates an heir under the grave its request names.
    pub fn create_heir(&mut self, heir: &CreateHeirRequest) -> (r: Result<i64, StoreError>)
        ensures
            !can_create_heir(old(self)@, heir.grave_id) ==> (r matches Err(e) && e.is_query())
                && final(self)@ == old(self)@,
            r matches Ok(id) ==> can_create_heir(old(self)@, heir.grave_id) && id as int == old(self)@.next_heir_id,
            can_create_heir(old(self)@, heir.grave_id) ==> (final(self)@ == old(self)@ && (
            r matches Err(e)
                && e.is_query())) || (exists|now: Seq<char>|
                heir_create_rel(old(self)@, final(self)@, *heir, heir.grave_id, now)),
            r matches Err(e) ==> e.is_query(),
    {
        proof {
            use_type_invariant(&*self);
        }
        let now = match self.now() {
            Result::Ok(t) => t,
            Result::Err(e) => {
                return Result::Err(e);
            },
        };
        let mut store = Store::new();
        core::mem::swap(&mut store, &mut self.store);
        let res = store.create_heir(heir, heir.grave_id, now.as_str());
        let persisted = match &res {
            Result::Ok(_) => persist_heirs(&self.conn, &store),
            Result::Err(_) => Result::Ok(()),
        };
        core::mem::swap(&mut store, &mut self.store);
        proof {
            if can_create_heir(old(self)@, heir.grave_id) {
                assert(heir_create_rel(old(self)@, self@, *heir, heir.grave_id, now@));
            }
        }
        match res {
            Result::Ok(id) => match persisted {
                Result::Ok(_) => Result::Ok(id),
                Result::Err(e) => Result::Err(e),
            },
            Result::Err(e) => Result::Err(e),
        }
    }

    /// Single heir lookup.
    pub fn get_heir_by_id(&self, id: i64) -> (r: Option<Heir>)
        ensures
            r == find_heir(self@.heirs, id),
    {
        proof {
            use_type_invariant(&*self);
        }
        self.store.get_heir_by_id(id)
    }

    /// Coalesce update of an heir; an absent identifier is a silent no-op.
    pub fn update_heir(&mut self, id: i64, heir: &UpdateHeirRequest) -> (r: Result<(), StoreError>)
        ensures
            !(exists|i: int|
                0 <= i < old(self)@.heirs.len() && (#[trigger] old(self)@.heirs[i]).id == id)
                ==> final(self)@ == old(self)@,
            (exists|i: int|
                0 <= i < old(self)@.heirs.len() && (#[trigger] old(self)@.heirs[i]).id == id)
                ==> final(self)@ == update_heir_next(old(self)@, id, *heir) || (final(self)@ == old(self)@ && (r matches Err(e) && e.is_query())),
            r matches Err(e) ==> e.is_query(),
    {
        proof {
            use_type_invariant(&*self);
        }
        let mut store = Store::new();
        core::mem::swap(&mut store, &mut self.store);
        let res = store.update_heir(id, heir);
        let persisted = match &res {
            Result::Ok(_) => persist_heirs(&self.conn, &store),
            Result::Err(_) => Result::Ok(()),
        };
        core::mem::swap(&mut store, &mut self.store);
        match res {
            Result::Ok(_) => persisted,
            Result::Err(e) => Result::Err(e),
        }
    }

    /// Deletes one heir; an absent identifier deletes nothing.
    pub fn delete_heir(&mut self, id: i64) -> (r: Result<(), StoreError>)
        ensures
            (final(self)@ == old(self)@ && (r matches Err(e) && e.is_query())) || (final(self)@
                == delete_heir_next(old(self)@, id) && (r is Ok || (r matches Err(e)
                && e.is_query()))),
    {
        proof {
            use_type_invariant(&*self);
        }
        let mut store = Store::new();
        core::mem::swap(&mut store, &mut self.store);
        let res = store.delete_heir(id);
        let persisted = match &res {
            Result::Ok(_) => persist_heirs(&self.conn, &store),
            Result::Err(_) => Result::Ok(()),
        };
        core::mem::swap(&mut store, &mut self.store);
        match res {
            Result::Ok(_) => persisted,
            Result::Err(e) => Result::Err(e),
        }
    }

    /// Deletes every heir of one grave.
    pub fn delete_heirs_by_grave(&mut self, grave_id: i64) -> (r: Result<(), StoreError>)
        ensures
            (final(self)@ == old(self)@ && (r matches Err(e) && e.is_query())) || (final(self)@
                == delete_heirs_of_grave_next(old(self)@, grave_id) && (r is Ok || (
            r matches Err(e)
                && e.is_query()))),
    {
        proof {
            use_type_invariant(&*self);
        }
        let mut store = Store::new();
        core::mem::swap(&mut store, &mut self.store);
        let res = store.delete_heirs_by_grave(grave_id);
        let persisted = match &res {
            Result::Ok(_) => persist_heirs(&self.conn, &store),
            Result::Err(_) => Result::Ok(()),
        };
        core::mem::swap(&mut store, &mut self.store);
        match res {
            Result::Ok(_) => persisted,
            Result::Err(e) => Result::Err(e),
        }
    }

    /// Replaces every heir of one grave with a new list, delete first,
    /// then insert in order.
    pub fn update_grave_heirs(&mut self, grave_id: i64, heirs: &Vec<CreateHeirRequest>) -> (r:
        Result<(), StoreError>)
        ensures
            !can_replace_heirs(old(self)@, heirs@.len() as int) ==> (r matches Err(e)
                && e.is_query()) && final(self)@ == old(self)@,
            can_replace_heirs(old(self)@, heirs@.len() as int) && !grave_id_taken(
                old(self)@.graves,
                grave_id,
            ) && heirs@.len() > 0 ==> (r matches Err(e) && e.is_query()) && (final(self)@ == old(self)@ || final(self)@ == delete_heirs_of_grave_next(old(self)@, grave_id)),
            can_replace_heirs(old(self)@, heirs@.len() as int) && (grave_id_taken(
                old(self)@.graves,
                grave_id,
            ) || heirs@.len() == 0) ==> (final(self)@ == old(self)@ && (r matches Err(e)
                && e.is_query())) || (exists|now: Seq<char>|
                heirs_replaced_rel(old(self)@, final(self)@, grave_id, heirs@, now)),
            r matches Err(e) ==> e.is_query(),
    {
        proof {
            use_type_invariant(&*self);
        }
        let now = match self.now() {
            Result::Ok(t) => t,
            Result::Err(e) => {
                return Result::Err(e);
            },
        };
        let mut store = Store::new();
        core::mem::swap(&mut store, &mut self.store);
        let res = store.replace_heirs_for_grave(grave_id, heirs, now.as_str());
        let persisted = match &res {
            Result::Ok(_) => persist_heirs(&self.conn, &store),
            Result::Err(_) => persist_heirs(&self.conn, &store),
        };
        core::mem::swap(&mut store, &mut self.store);
        proof {
            if can_replace_heirs(old(self)@, heirs@.len() as int) && (grave_id_taken(
                old(self)@.graves,
                grave_id,
            ) || heirs@.len() == 0) {
                assert(heirs_replaced_rel(old(self)@, self@, grave_id, heirs@, now@));
            }
        }
        match res {
            Result::Ok(_) => persisted,
            Result::Err(e) => Result::Err(e),
        }
    }

    // ---------------------------------------------------------------
    // Payments
    // ---------------------------------------------------------------

    /// Payments of one grave, ordered by year descending.
    pub fn get_payments_by_grave(&self, grave_id: i64) -> (r: Vec<Payment>)
        ensures
            vstd::relations::sorted_by(r@, payment_year_geq()),
            r@.to_multiset() == payments_of(self@, grave_id).to_multiset(),
    {
        proof {
            use_type_invariant(&*self);
        }
        self.store.get_payments_by_grave(grave_id)
    }

    /// The payment covering one year of one grave, or absence; callers
    /// use it to keep at most one payment per grave and year.
    pub fn get_payment_by_grave_and_year(&self, grave_id: i64, year: i32) -> (r: Option<Payment>)
        ensures
            r == find_payment_for_year(self@.payments, grave_id, year),
            r is Some <==> exists|j: int|
                0 <= j < self@.payments.len() && (#[trigger] self@.payments[j]).grave_id == grave_id
                    && self@.payments[j].year == year,
    {
        proof {
            use_type_invariant(&*self);
        }
        self.store.get_payment_by_grave_and_year(grave_id, year)
    }

    /// Creates a payment and writes the table through. Uniqueness per
    /// (grave, year) is not checked here, as the store leaves it to the
    /// caller's lookup-before-insert discipline.
    pub fn create_payment(&mut self, payment: &CreatePaymentRequest) -> (r: Result<
        i64,
        StoreError,
    >)
        ensures
            !can_create_payment(old(self)@, *payment) ==> (r matches Err(e) && e.is_query())
                && final(self)@ == old(self)@,
            r matches Ok(id) ==> can_create_payment(old(self)@, *payment) && id as int == old(self)@.next_payment_id,
            can_create_payment(old(self)@, *payment) ==> (final(self)@ == old(self)@ && (
            r matches Err(e)
                && e.is_query())) || (exists|now: Seq<char>|
                payment_create_rel(old(self)@, final(self)@, *payment, now)),
            r matches Err(e) ==> e.is_query(),
    {
        proof {
            use_type_invariant(&*self);
        }
        let now = match self.now() {
            Result::Ok(t) => t,
            Result::Err(e) => {
                return Result::Err(e);
            },
        };
        let mut store = Store::new();
        core::mem::swap(&mut store, &mut self.store);
        let res = store.create_payment(payment, now.as_str());
        let persisted = match &res {
            Result::Ok(_) => persist_payments(&self.conn, &store),
            Result::Err(_) => Result::Ok(()),
        };
        core::mem::swap(&mut store, &mut self.store);
        proof {
            if can_create_payment(old(self)@, *payment) {
                assert(payment_create_rel(old(self)@, self@, *payment, now@));
            }
        }
        match res {
            Result::Ok(id) => match persisted {
                Result::Ok(_) => Result::Ok(id),
                Result::Err(e) => Result::Err(e),
            },
            Result::Err(e) => Result::Err(e),
        }
    }

    /// Records the given payment as a new row; the identifier argument is
    /// not consulted, matching the command it serves.
    pub fn update_payment(&mut self, _id: i64, payment: &CreatePaymentRequest) -> (r: Result<
        (),
        StoreError,
    >)
        ensures
            !can_create_payment(old(self)@, *payment) ==> (r matches Err(e) && e.is_query())
                && final(self)@ == old(self)@,
            can_create_payment(old(self)@, *payment) ==> (final(self)@ == old(self)@ && (
            r matches Err(e)
                && e.is_query())) || (exists|now: Seq<char>|
                payment_create_rel(old(self)@, final(self)@, *payment, now)),
            r matches Err(e) ==> e.is_query(),
    {
        match self.create_payment(payment) {
            Result::Ok(_) => Result::Ok(()),
            Result::Err(e) => Result::Err(e),
        }
    }

    /// Deletes one payment; an absent identifier deletes nothing.
    pub fn delete_payment(&mut self, id: i64) -> (r: Result<(), StoreError>)
        ensures
            (final(self)@ == old(self)@ && (r matches Err(e) && e.is_query())) || (final(self)@
                == delete_payment_next(old(self)@, id) && (r is Ok || (r matches Err(e)
                && e.is_query()))),
    {
        proof {
            use_type_invariant(&*self);
        }
        let mut store = Store::new();
        core::mem::swap(&mut store, &mut self.store);
        let res = store.delete_payment(id);
        let persisted = match &res {
            Result::Ok(_) => persist_payments(&self.conn, &store),
            Result::Err(_) => Result::Ok(()),
        };
        core::mem::swap(&mut store, &mut self.store);
        match res {
            Result::Ok(_) => persisted,
            Result::Err(e) => Result::Err(e),
        }
    }

    /// One summary row per listed grave: the target-year payment, if any,
    /// and the five-year settlement window ending at the target year.
    pub fn get_graves_with_payment_summary(
        &self,
        search: Option<String>,
        block_id: Option<i64>,
        year: i32,
        limit: i64,
        offset: i64,
    ) -> (r: Vec<GravePaymentSummary>)
        requires
            year >= i32::MIN + 4,
        ensures
            ({
                let listed = page(listed_graves(self@, search_view(search), block_id), limit, offset);
                &&& r@.len() == listed.len()
                &&& forall|k: int|
                    0 <= k < listed.len() ==> summary_matches(
                        #[trigger] r@[k],
                        listed[k],
                        self@.payments,
                        year,
                    )
            }),
    {
        proof {
            use_type_invariant(&*self);
        }
        self.store.get_graves_with_payment_summary(&search, block_id, year, limit, offset)
    }

    // ---------------------------------------------------------------
    // Settings
    // ---------------------------------------------------------------

    /// The settings singleton, always the row with identifier 1; its
    /// absence is the one `NotFound` error.
    pub fn get_settings(&self) -> (r: Result<Settings, StoreError>)
        ensures
            match self@.settings {
                Option::Some(t) => r matches Ok(got) && got == t && got.id == 1,
                Option::None => r matches Err(StoreError::NotFound),
            },
    {
        proof {
            use_type_invariant(&*self);
        }
        self.store.get_settings()
    }

    /// Coalesce update of the settings row.
    pub fn update_settings(&mut self, settings: &UpdateSettingsRequest) -> (r: Result<
        (),
        StoreError,
    >)
        ensures
            (final(self)@ == old(self)@ && (r matches Err(e) && e.is_query())) || (final(self)@
                == update_settings_next(old(self)@, *settings) && (r is Ok || (r matches Err(e)
                && e.is_query()))),
    {
        proof {
            use_type_invariant(&*self);
        }
        let mut store = Store::new();
        core::mem::swap(&mut store, &mut self.store);
        let res = store.update_settings(settings);
        let persisted = match &res {
            Result::Ok(_) => persist_settings(&self.conn, &store),
            Result::Err(_) => Result::Ok(()),
        };
        core::mem::swap(&mut store, &mut self.store);
        match res {
            Result::Ok(_) => persisted,
            Result::Err(e) => Result::Err(e),
        }
    }

    /// Sets the last-backup marker to the store's current timestamp.
    pub fn update_last_backup(&mut self) -> (r: Result<(), StoreError>)
        ensures
            (final(self)@ == old(self)@ && (r matches Err(e) && e.is_query())) || (exists|
                now: Seq<char>,
            |
                marked_backed_up(old(self)@, final(self)@, now)),
            r matches Err(e) ==> e.is_query(),
    {
        proof {
            use_type_invariant(&*self);
        }
        let now = match self.now() {
            Result::Ok(t) => t,
            Result::Err(e) => {
                return Result::Err(e);
            },
        };
        let mut store = Store::new();
        core::mem::swap(&mut store, &mut self.store);
        let res = store.mark_backed_up(now.as_str());
        let persisted = match &res {
            Result::Ok(_) => persist_settings(&self.conn, &store),
            Result::Err(_) => Result::Ok(()),
        };
        core::mem::swap(&mut store, &mut self.store);
        proof {
            assert(marked_backed_up(old(self)@, self@, now@));
        }
        match res {
            Result::Ok(_) => persisted,
            Result::Err(e) => Result::Err(e),
        }
    }
}

} // verus!
