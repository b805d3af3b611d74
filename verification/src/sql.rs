//! The trusted boundary to the embedded SQLite store. Every function here
//! wraps one rusqlite operation and is believed, not verified; the doc
//! comment of each names the rusqlite item relied on. Results read from
//! the file depend on what is on disk, so the contracts promise only what
//! holds of every outcome.

use vstd::prelude::*;

use rusqlite::OptionalExtension;

use crate::types::{Block, Grave, Heir, Payment, Settings};

verus! {

#[verifier::external_type_specification]
#[verifier::external_body]
pub struct ExConnection(rusqlite::Connection);

#[verifier::external_type_specification]
#[verifier::external_body]
pub struct ExSqlError(rusqlite::Error);

/// Relies on rusqlite::Connection::open: opens the database file at
/// `path`, creating it when absent.
#[verifier::external_body]
pub(crate) fn open_connection(path: &str) -> Result<rusqlite::Connection, rusqlite::Error> {
    rusqlite::Connection::open(path)
}

/// Relies on rusqlite::Connection::execute_batch: runs the statements of
/// `sql` against the open database.
#[verifier::external_body]
pub(crate) fn run_batch(conn: &rusqlite::Connection, sql: &str) -> Result<(), rusqlite::Error> {
    conn.execute_batch(sql)
}

/// Relies on the Display impl of rusqlite::Error, to carry the cause of a
/// failure in an error message.
#[verifier::external_body]
pub(crate) fn error_text(e: &rusqlite::Error) -> String {
    format!("{}", e)
}

/// Relies on rusqlite::Connection::query_row: counts the sqlite_master
/// rows whose type is `table` and whose name is `name`. A COUNT(*) is
/// never negative.
#[verifier::external_body]
pub(crate) fn count_master_tables(conn: &rusqlite::Connection, name: &str) -> (r: Result<
    i64,
    rusqlite::Error,
>)
    ensures
        r matches Ok(n) ==> n >= 0,
{
    conn.query_row(
        "SELECT COUNT(*) FROM sqlite_master WHERE type='table' AND name=?1",
        [name],
        |row| row.get(0),
    )
}

/// Relies on rusqlite::Connection::query_row over the page_count and
/// page_size pragmas: their product is the file size in bytes, and both
/// pragmas report non-negative values.
#[verifier::external_body]
pub(crate) fn database_size_bytes(conn: &rusqlite::Connection) -> (r: Result<
    i64,
    rusqlite::Error,
>)
    ensures
        r matches Ok(n) ==> n >= 0,
{
    conn.query_row(
        "SELECT page_count * page_size FROM pragma_page_count(), pragma_page_size()",
        [],
        |row| row.get(0),
    )
}

/// Relies on rusqlite::Connection::query_row over CURRENT_TIMESTAMP; the
/// value depends on the clock, so nothing is promised of it.
#[verifier::external_body]
pub(crate) fn current_timestamp(conn: &rusqlite::Connection) -> Result<String, rusqlite::Error> {
    conn.query_row("SELECT CURRENT_TIMESTAMP", [], |row| row.get(0))
}

/// Relies on rusqlite::backup::Backup: `new` binds source and target and
/// `step(-1)` copies the whole database in one consistent pass, safe
/// while the source connection is open. A `Busy` or `Locked` step result
/// is reported as success with the copy unfinished, as the store's
/// original backup call treated it.
#[verifier::external_body]
pub(crate) fn run_backup(
    src: &rusqlite::Connection,
    dst: &mut rusqlite::Connection,
) -> Result<(), rusqlite::Error> {
    let backup = rusqlite::backup::Backup::new(src, dst)?;
    backup.step(-1).map(|_| ())
}

/// Relies on rusqlite::Connection::execute: removes every row of `table`.
#[verifier::external_body]
pub(crate) fn delete_all_rows(
    conn: &rusqlite::Connection,
    table: &str,
) -> Result<(), rusqlite::Error> {
    conn.execute(&format!("DELETE FROM {}", table), []).map(|_| ())
}

/// Relies on rusqlite::Statement::query_map over a SELECT of every block
/// row in identifier order; each row converts to a `Block` value.
#[verifier::external_body]
pub(crate) fn load_blocks(conn: &rusqlite::Connection) -> Result<Vec<Block>, rusqlite::Error> {
    let mut stmt = conn.prepare(
        "SELECT id, code, description, total_capacity, annual_fee, status, created_at, updated_at FROM blocks ORDER BY id",
    )?;
    let rows = stmt.query_map([], |row| {
        Ok(Block {
            id: row.get(0)?, code: row.get(1)?, description: row.get(2)?,
            total_capacity: row.get(3)?, annual_fee: row.get(4)?, status: row.get(5)?,
            created_at: row.get(6)?, updated_at: row.get(7)?,
        })
    })?;
    rows.collect()
}

/// Relies on rusqlite::Statement::query_map over a SELECT of every grave
/// row in identifier order; each row converts to a `Grave` value.
#[verifier::external_body]
pub(crate) fn load_graves(conn: &rusqlite::Connection) -> Result<Vec<Grave>, rusqlite::Error> {
    let mut stmt = conn.prepare(
        "SELECT id, deceased_name, block_id, number, date_of_death, burial_date, notes, created_at, updated_at FROM graves ORDER BY id",
    )?;
    let rows = stmt.query_map([], |row| {
        Ok(Grave {
            id: row.get(0)?, deceased_name: row.get(1)?, block_id: row.get(2)?,
            number: row.get(3)?, date_of_death: row.get(4)?, burial_date: row.get(5)?,
            notes: row.get(6)?, created_at: row.get(7)?, updated_at: row.get(8)?,
        })
    })?;
    rows.collect()
}

/// Relies on rusqlite::Statement::query_map over a SELECT of every heir
/// row in identifier order; each row converts to an `Heir` value.
#[verifier::external_body]
pub(crate) fn load_heirs(conn: &rusqlite::Connection) -> Result<Vec<Heir>, rusqlite::Error> {
    let mut stmt = conn.prepare(
        "SELECT id, grave_id, order_number, full_name, phone_number, relationship, address, is_primary, created_at, updated_at FROM heirs ORDER BY id",
    )?;
    let rows = stmt.query_map([], |row| {
        Ok(Heir {
            id: row.get(0)?, grave_id: row.get(1)?, order_number: row.get(2)?,
            full_name: row.get(3)?, phone_number: row.get(4)?, relationship: row.get(5)?,
            address: row.get(6)?, is_primary: row.get(7)?, created_at: row.get(8)?,
            updated_at: row.get(9)?,
        })
    })?;
    rows.collect()
}

/// Relies on rusqlite::Statement::query_map over a SELECT of every
/// payment row in identifier order; each row converts to a `Payment`.
#[verifier::external_body]
pub(crate) fn load_payments(conn: &rusqlite::Connection) -> Result<Vec<Payment>, rusqlite::Error> {
    let mut stmt = conn.prepare(
        "SELECT id, grave_id, year, payment_date, amount, payment_method, payment_proof, paid_by, notes, created_at, updated_at FROM payments ORDER BY id",
    )?;
    let rows = stmt.query_map([], |row| {
        Ok(Payment {
            id: row.get(0)?, grave_id: row.get(1)?, year: row.get(2)?,
            payment_date: row.get(3)?, amount: row.get(4)?, payment_method: row.get(5)?,
            payment_proof: row.get(6)?, paid_by: row.get(7)?, notes: row.get(8)?,
            created_at: row.get(9)?, updated_at: row.get(10)?,
        })
    })?;
    rows.collect()
}

/// Relies on rusqlite::Connection::query_row with OptionalExtension over
/// the settings singleton row; absence converts to `None`.
#[verifier::external_body]
pub(crate) fn load_settings(conn: &rusqlite::Connection) -> Result<
    Option<Settings>,
    rusqlite::Error,
> {
    conn.query_row(
        "SELECT id, foundation_name, address, phone, email, logo_path, active_year, last_backup, auto_backup, created_at, updated_at FROM settings WHERE id = 1",
        [],
        |row| {
            Ok(Settings {
                id: row.get(0)?, foundation_name: row.get(1)?, address: row.get(2)?,
                phone: row.get(3)?, email: row.get(4)?, logo_path: row.get(5)?,
                active_year: row.get(6)?, last_backup: row.get(7)?, auto_backup: row.get(8)?,
                created_at: row.get(9)?, updated_at: row.get(10)?,
            })
        },
    ).optional()
}

/// Relies on rusqlite::Connection::execute: inserts one block row with
/// its stored identifier and timestamps.
#[verifier::external_body]
pub(crate) fn insert_block_row(
    conn: &rusqlite::Connection,
    b: &Block,
) -> Result<(), rusqlite::Error> {
    conn.execute(
        "INSERT INTO blocks (id, code, description, total_capacity, annual_fee, status, created_at, updated_at) VALUES (?1, ?2, ?3, ?4, ?5, ?6, ?7, ?8)",
        [
            &b.id as &dyn rusqlite::ToSql, &b.code, &b.description, &b.total_capacity,
            &b.annual_fee, &b.status, &b.created_at, &b.updated_at,
        ],
    ).map(|_| ())
}

/// Relies on rusqlite::Connection::execute: inserts one grave row with
/// its stored identifier and timestamps.
#[verifier::external_body]
pub(crate) fn insert_grave_row(
    conn: &rusqlite::Connection,
    g: &Grave,
) -> Result<(), rusqlite::Error> {
    conn.execute(
        "INSERT INTO graves (id, deceased_name, block_id, number, date_of_death, burial_date, notes, created_at, updated_at) VALUES (?1, ?2, ?3, ?4, ?5, ?6, ?7, ?8, ?9)",
        [
            &g.id as &dyn rusqlite::ToSql, &g.deceased_name, &g.block_id, &g.number,
            &g.date_of_death, &g.burial_date, &g.notes, &g.created_at, &g.updated_at,
        ],
    ).map(|_| ())
}

/// Relies on rusqlite::Connection::execute: inserts one heir row with its
/// stored identifier and timestamps.
#[verifier::external_body]
pub(crate) fn insert_heir_row(
    conn: &rusqlite::Connection,
    h: &Heir,
) -> Result<(), rusqlite::Error> {
    conn.execute(
        "INSERT INTO heirs (id, grave_id, order_number, full_name, phone_number, relationship, address, is_primary, created_at, updated_at) VALUES (?1, ?2, ?3, ?4, ?5, ?6, ?7, ?8, ?9, ?10)",
        [
            &h.id as &dyn rusqlite::ToSql, &h.grave_id, &h.order_number, &h.full_name,
            &h.phone_number, &h.relationship, &h.address, &h.is_primary, &h.created_at,
            &h.updated_at,
        ],
    ).map(|_| ())
}

/// Relies on rusqlite::Connection::execute: inserts one payment row with
/// its stored identifier and timestamps.
#[verifier::external_body]
pub(crate) fn insert_payment_row(
    conn: &rusqlite::Connection,
    p: &Payment,
) -> Result<(), rusqlite::Error> {
    conn.execute(
        "INSERT INTO payments (id, grave_id, year, payment_date, amount, payment_method, payment_proof, paid_by, notes, created_at, updated_at) VALUES (?1, ?2, ?3, ?4, ?5, ?6, ?7, ?8, ?9, ?10, ?11)",
        [
            &p.id as &dyn rusqlite::ToSql, &p.grave_id, &p.year, &p.payment_date, &p.amount,
            &p.payment_method, &p.payment_proof, &p.paid_by, &p.notes, &p.created_at,
            &p.updated_at,
        ],
    ).map(|_| ())
}

/// Relies on rusqlite::Connection::execute: inserts the settings
/// singleton row with its stored values.
#[verifier::external_body]
pub(crate) fn insert_settings_row(
    conn: &rusqlite::Connection,
    t: &Settings,
) -> Result<(), rusqlite::Error> {
    conn.execute(
        "INSERT INTO settings (id, foundation_name, address, phone, email, logo_path, active_year, last_backup, auto_backup, created_at, updated_at) VALUES (?1, ?2, ?3, ?4, ?5, ?6, ?7, ?8, ?9, ?10, ?11)",
        [
            &t.id as &dyn rusqlite::ToSql, &t.foundation_name, &t.address, &t.phone, &t.email,
            &t.logo_path, &t.active_year, &t.last_backup, &t.auto_backup, &t.created_at,
            &t.updated_at,
        ],
    ).map(|_| ())
}

} // verus!
